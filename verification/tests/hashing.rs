use chess_server::utils::{generate_hash, u128_be_bytes};

#[test]
fn hash_of_empty_input() {
    assert_eq!(generate_hash(b""), "47DEQpj8HBSa+/TImW+5JCeuQeRkm5NMpJWZG3hSuFU");
}

#[test]
fn hash_of_abc() {
    // SHA-256("abc") = ba7816bf 8f01cfea 414140de 5dae2223 b00361a3 96177a9c b410ff61 f20015ad
    assert_eq!(generate_hash(b"abc"), "ungWv48Bz+pBQUDeXa4iI7ADYaOWF3qctBD/YfIAFa0");
}

#[test]
fn hash_is_43_chars_and_deterministic() {
    let a = generate_hash("secret".as_bytes());
    let b = generate_hash("secret".as_bytes());
    assert_eq!(a, b);
    assert_eq!(a.len(), 43);
    assert!(!a.ends_with('='));
    assert_ne!(a, generate_hash("Secret".as_bytes()));
}

#[test]
fn be_bytes_match_std() {
    for n in [0u128, 1, 255, 256, 0x0102_0304_0506_0708_090a_0b0c_0d0e_0f10, u128::MAX] {
        assert_eq!(u128_be_bytes(n), n.to_be_bytes().to_vec());
    }
}
