//! The in-memory stores of the service: sessions (session id to e-mail) and
//! users (e-mail to account, username to e-mail), and the submitted forms.

use vstd::hash_map::StringHashMap;
use vstd::prelude::*;

verus! {

pub type SessionId = String;

pub type EmailId = String;

pub type Username = String;

/// The value a map holds under `key`, if any.
pub open spec fn map_get<K, V>(m: Map<K, V>, key: K) -> Option<V> {
    if m.contains_key(key) {
        Some(m[key])
    } else {
        None
    }
}

/// The text of an optional string.
pub open spec fn opt_text(s: Option<String>) -> Option<Seq<char>> {
    match s {
        Some(t) => Some(t@),
        None => None,
    }
}

/// A registered account.
#[derive(Debug)]
pub struct User {
    pub username: Username,
    pub email: EmailId,
    pub password_hash: String,
    pub rating: u16,
}

/// The abstract content of a `User`.
pub struct UserView {
    pub username: Seq<char>,
    pub email: Seq<char>,
    pub password_hash: Seq<char>,
    pub rating: u16,
}

impl View for User {
    type V = UserView;

    open spec fn view(&self) -> UserView {
        UserView {
            username: self.username@,
            email: self.email@,
            password_hash: self.password_hash@,
            rating: self.rating,
        }
    }
}

/// The abstract content of an optional account.
pub open spec fn opt_user(u: Option<User>) -> Option<UserView> {
    match u {
        Some(v) => Some(v@),
        None => None,
    }
}

impl Clone for User {
    fn clone(&self) -> (copy: Self)
        ensures
            copy == *self,
    {
        User {
            username: self.username.clone(),
            email: self.email.clone(),
            password_hash: self.password_hash.clone(),
            rating: self.rating,
        }
    }
}

/// The texts of a list of strings.
pub open spec fn texts_of(strings: Seq<String>) -> Seq<Seq<char>> {
    strings.map_values(|s: String| s@)
}

/// A string-keyed hash map that also lists its keys, so that its entries can be walked.
#[verifier::reject_recursive_types(V)]
pub(crate) struct KeyedMap<V> {
    map: StringHashMap<V>,
    keys: Vec<String>,
}

impl<V> KeyedMap<V> {
    /// The contents of the map.
    pub(crate) closed spec fn contents(self) -> Map<Seq<char>, V> {
        self.map@
    }

    /// The texts of the listed keys.
    pub(crate) closed spec fn listed(self) -> Seq<Seq<char>> {
        texts_of(self.keys@)
    }

    /// The listed keys are exactly the map's keys, each once.
    pub(crate) closed spec fn wf(self) -> bool {
        &&& forall|i: int| 0 <= i < self.listed().len() ==> self.map@.contains_key(#[trigger] self.listed()[i])
        &&& self.listed().no_duplicates()
        &&& forall|k: Seq<char>| #[trigger] self.map@.contains_key(k) ==> self.listed().contains(k)
    }

    pub(crate) proof fn lemma_listing(self)
        requires
            self.wf(),
        ensures
            forall|i: int| 0 <= i < self.listed().len() ==> self.contents().contains_key(#[trigger] self.listed()[i]),
            self.listed().no_duplicates(),
            forall|k: Seq<char>| #[trigger] self.contents().contains_key(k) ==> self.listed().contains(k),
    {
    }

    pub(crate) fn new() -> (m: Self)
        ensures
            m.wf(),
            m.contents() == Map::<Seq<char>, V>::empty(),
    {
        let m = KeyedMap { map: StringHashMap::new(), keys: Vec::new() };
        assert(m.listed() =~= Seq::<Seq<char>>::empty());
        m
    }

    pub(crate) fn get(&self, k: &str) -> (v: Option<&V>)
        ensures
            match v {
                Some(v) => self.contents().contains_key(k@) && *v == self.contents()[k@],
                None => !self.contents().contains_key(k@),
            },
    {
        self.map.get(k)
    }

    pub(crate) fn contains_key(&self, k: &str) -> (found: bool)
        ensures
            found == self.contents().contains_key(k@),
    {
        self.map.contains_key(k)
    }

    pub(crate) fn keys(&self) -> (keys: &Vec<String>)
        ensures
            texts_of(keys@) == self.listed(),
    {
        &self.keys
    }

    pub(crate) fn insert(&mut self, k: String, v: V)
        requires
            old(self).wf(),
        ensures
            final(self).wf(),
            final(self).contents() == old(self).contents().insert(k@, v),
    {
        let ghost key = k@;
        if !self.map.contains_key(k.as_str()) {
            let listed_key = k.clone();
            self.keys.push(listed_key);
            assert(self.listed() =~= old(self).listed().push(key));
        }
        self.map.insert(k, v);
        assert forall|q: Seq<char>| #[trigger] self.map@.contains_key(q) implies self.listed().contains(q) by {
            if q == key {
                if !old(self).map@.contains_key(key) {
                    assert(self.listed()[self.listed().len() - 1] == key);
                }
            } else {
                assert(old(self).map@.contains_key(q));
                let i = choose|i: int| 0 <= i < old(self).listed().len() && old(self).listed()[i] == q;
                assert(self.listed()[i] == q);
            }
        }
    }

    pub(crate) fn remove(&mut self, k: &String)
        requires
            old(self).wf(),
        ensures
            final(self).wf(),
            final(self).contents() == old(self).contents().remove(k@),
    {
        if self.map.contains_key(k.as_str()) {
            let ghost at = choose|i: int| 0 <= i < self.listed().len() && self.listed()[i] == k@;
            let mut i: usize = 0;
            while i < self.keys.len() && !(self.keys[i] == *k)
                invariant
                    self == old(self),
                    0 <= at < self.listed().len(),
                    self.listed()[at] == k@,
                    i <= at,
                decreases self.keys@.len() - i,
            {
                assert(texts_of(self.keys@)[i as int] == self.keys@[i as int]@);
                i = i + 1;
            }
            assert(texts_of(self.keys@)[i as int] == self.keys@[i as int]@);
            assert(i == at) by {
                if i != at {
                    assert(self.listed()[i as int] == self.listed()[at]);
                }
            }
            let ghost before = self.listed();
            self.keys.remove(i);
            assert(self.listed() =~= before.remove(at));
            self.map.remove(k.as_str());
            assert forall|q: Seq<char>| #[trigger] self.map@.contains_key(q) implies self.listed().contains(q) by {
                assert(old(self).map@.contains_key(q));
                let j = choose|j: int| 0 <= j < before.len() && before[j] == q;
                assert(j != at);
                if j < at {
                    assert(self.listed()[j] == q);
                } else {
                    assert(self.listed()[j - 1] == q);
                }
            }
        } else {
            self.map.remove(k.as_str());
            assert(self.map@ =~= old(self).map@.remove(k@));
        }
    }
}

/// Whether `pairs` lists the entries of `m`: each pair is an entry, no key
/// twice, and every key of `m` appears.
pub open spec fn lists_map<V>(pairs: Seq<(Seq<char>, V)>, m: Map<Seq<char>, V>) -> bool {
    &&& forall|i: int|
        0 <= i < pairs.len() ==> m.contains_key(#[trigger] pairs[i].0) && m[pairs[i].0]
            == pairs[i].1
    &&& forall|i: int, j: int|
        0 <= i < j < pairs.len() ==> #[trigger] pairs[i].0 != #[trigger] pairs[j].0
    &&& forall|k: Seq<char>|
        #[trigger] m.contains_key(k) ==> exists|i: int| 0 <= i < pairs.len() && pairs[i].0 == k
}

/// The entries of `m` in the order of `keys`.
pub open spec fn entries_in_order<V>(keys: Seq<Seq<char>>, m: Map<Seq<char>, V>) -> Seq<
    (Seq<char>, V),
> {
    Seq::new(keys.len(), |j: int| (keys[j], m[keys[j]]))
}

/// A key list that names each key of `m` exactly once lists `m`'s entries.
pub proof fn lemma_entries_list_map<V>(keys: Seq<Seq<char>>, m: Map<Seq<char>, V>)
    requires
        forall|i: int| 0 <= i < keys.len() ==> m.contains_key(#[trigger] keys[i]),
        keys.no_duplicates(),
        forall|k: Seq<char>| #[trigger] m.contains_key(k) ==> keys.contains(k),
    ensures
        lists_map(entries_in_order(keys, m), m),
{
    let pairs = entries_in_order(keys, m);
    assert forall|i: int, j: int| 0 <= i < j < pairs.len() implies #[trigger] pairs[i].0
        != #[trigger] pairs[j].0 by {
        assert(keys[i] != keys[j]);
    }
    assert forall|k: Seq<char>| #[trigger] m.contains_key(k) implies exists|i: int|
        0 <= i < pairs.len() && pairs[i].0 == k by {
        let i = choose|i: int| 0 <= i < keys.len() && keys[i] == k;
        assert(pairs[i].0 == k);
    }
}

/// The texts of a list of session or account entries.
pub open spec fn string_pairs(pairs: Seq<(String, String)>) -> Seq<(Seq<char>, Seq<char>)> {
    pairs.map_values(|p: (String, String)| (p.0@, p.1@))
}

/// The open sessions: which e-mail each session id was issued to.
pub struct SessionDB {
    map: KeyedMap<EmailId>,
}

impl View for SessionDB {
    type V = Map<Seq<char>, Seq<char>>;

    closed spec fn view(&self) -> Map<Seq<char>, Seq<char>> {
        self.map.contents().map_values(|e: EmailId| e@)
    }
}

impl SessionDB {
    #[verifier::type_invariant]
    spec fn keys_listed(self) -> bool {
        self.map.wf()
    }

    /// An empty session store.
    pub fn initialize() -> (db: SessionDB)
        ensures
            db@ == Map::<Seq<char>, Seq<char>>::empty(),
    {
        let db = SessionDB { map: KeyedMap::new() };
        assert(db@ =~= Map::<Seq<char>, Seq<char>>::empty());
        db
    }

    /// The e-mail the session `id` belongs to.
    pub fn get(&self, id: &SessionId) -> (email: Option<EmailId>)
        ensures
            opt_text(email) == map_get(self@, id@),
    {
        match self.map.get(id.as_str()) {
            None => None,
            Some(val) => Some(val.clone()),
        }
    }

    /// Whether the session `id` is open.
    pub fn contains_session(&self, id: &SessionId) -> (found: bool)
        ensures
            found == self@.contains_key(id@),
    {
        self.map.contains_key(id.as_str())
    }

    /// Opens (or re-targets) session `id` for `user_id`; returns the e-mail it had before.
    pub fn insert(&mut self, id: SessionId, user_id: EmailId) -> (previous: Option<EmailId>)
        ensures
            final(self)@ == old(self)@.insert(id@, user_id@),
            opt_text(previous) == map_get(old(self)@, id@),
    {
        proof {
            use_type_invariant(&*self);
        }
        let previous = self.get(&id);
        let ghost key = id@;
        let ghost value = user_id@;
        let mut map = KeyedMap::new();
        std::mem::swap(&mut map, &mut self.map);
        map.insert(id, user_id);
        std::mem::swap(&mut map, &mut self.map);
        assert(self@ =~= old(self)@.insert(key, value));
        previous
    }

    /// Closes session `id`; returns the e-mail it belonged to.
    pub fn remove_session(&mut self, id: &SessionId) -> (previous: Option<EmailId>)
        ensures
            final(self)@ == old(self)@.remove(id@),
            opt_text(previous) == map_get(old(self)@, id@),
    {
        proof {
            use_type_invariant(&*self);
        }
        let previous = self.get(id);
        let mut map = KeyedMap::new();
        std::mem::swap(&mut map, &mut self.map);
        map.remove(id);
        std::mem::swap(&mut map, &mut self.map);
        assert(self@ =~= old(self)@.remove(id@));
        previous
    }

    /// Every open session with its e-mail, each once.
    pub fn entries(&self) -> (pairs: Vec<(SessionId, EmailId)>)
        ensures
            lists_map(string_pairs(pairs@), self@),
    {
        proof {
            use_type_invariant(self);
            self.map.lemma_listing();
        }
        let keys = self.map.keys();
        let ghost listed = self.map.listed();
        let mut pairs: Vec<(SessionId, EmailId)> = Vec::new();
        let mut i: usize = 0;
        while i < keys.len()
            invariant
                i <= keys@.len(),
                texts_of(keys@) == listed,
                forall|k: int| 0 <= k < listed.len() ==> self@.contains_key(#[trigger] listed[k]),
                string_pairs(pairs@) == entries_in_order(listed.take(i as int), self@),
            decreases keys@.len() - i,
        {
            let key = &keys[i];
            assert(listed[i as int] == key@);
            assert(self.map.contents().contains_key(key@));
            let value = match self.map.get(key.as_str()) {
                Some(v) => v.clone(),
                None => String::new(),
            };
            assert(self@.contains_key(key@));
            assert(value@ == self@[key@]);
            let ghost before = pairs@;
            pairs.push((key.clone(), value));
            assert(string_pairs(pairs@) =~= string_pairs(before).push((key@, value@)));
            assert(listed.take(i as int + 1) =~= listed.take(i as int).push(key@));
            assert(string_pairs(pairs@) =~= entries_in_order(listed.take(i as int + 1), self@));
            i = i + 1;
        }
        assert(listed.take(i as int) =~= listed);
        proof {
            lemma_entries_list_map(listed, self@);
        }
        pairs
    }
}

/// The abstract contents of a `UserDB`.
pub struct UserDBView {
    /// Accounts by e-mail.
    pub users: Map<Seq<char>, UserView>,
    /// E-mails by username.
    pub usernames: Map<Seq<char>, Seq<char>>,
}

/// The account registered under `username`, found through its e-mail.
pub open spec fn user_by_username(db: UserDBView, username: Seq<char>) -> Option<UserView> {
    match map_get(db.usernames, username) {
        Some(email) => map_get(db.users, email),
        None => None,
    }
}

/// The store after `insert_user(email, user)`.
pub open spec fn with_user(db: UserDBView, email: Seq<char>, user: UserView) -> UserDBView {
    UserDBView {
        users: db.users.insert(email, user),
        usernames: db.usernames.insert(user.username, email),
    }
}

/// The registered accounts, by e-mail and by username.
pub struct UserDB {
    map: KeyedMap<User>,
    username_map: KeyedMap<EmailId>,
}

impl View for UserDB {
    type V = UserDBView;

    closed spec fn view(&self) -> UserDBView {
        UserDBView {
            users: self.map.contents().map_values(|u: User| u@),
            usernames: self.username_map.contents().map_values(|e: EmailId| e@),
        }
    }
}

/// Every username leads to a registered account.
pub open spec fn usernames_resolve(db: UserDBView) -> bool {
    forall|name: Seq<char>| #[trigger]
        db.usernames.contains_key(name) ==> db.users.contains_key(db.usernames[name])
}

impl UserDB {
    #[verifier::type_invariant]
    spec fn usernames_lead_to_accounts(self) -> bool {
        &&& usernames_resolve(self@)
        &&& self.map.wf()
        &&& self.username_map.wf()
    }

    /// An empty account store.
    pub fn initialize() -> (db: UserDB)
        ensures
            db@.users == Map::<Seq<char>, UserView>::empty(),
            db@.usernames == Map::<Seq<char>, Seq<char>>::empty(),
    {
        let map = KeyedMap::new();
        let username_map = KeyedMap::new();
        assert(username_map.contents().map_values(|e: EmailId| e@) =~= Map::<Seq<char>, Seq<char>>::empty());
        assert(map.contents().map_values(|u: User| u@) =~= Map::<Seq<char>, UserView>::empty());
        UserDB { map, username_map }
    }

    /// The e-mail registered under `username`.
    pub fn get_email_from_username(&self, username: &Username) -> (email: Option<EmailId>)
        ensures
            opt_text(email) == map_get(self@.usernames, username@),
    {
        match self.username_map.get(username.as_str()) {
            None => None,
            Some(val) => Some(val.clone()),
        }
    }

    /// The account registered under `username`.
    pub fn get_user_from_username(&self, username: &Username) -> (user: Option<User>)
        ensures
            opt_user(user) == user_by_username(self@, username@),
            self@.usernames.contains_key(username@) ==> user is Some,
    {
        proof {
            use_type_invariant(self);
        }
        let email = match self.username_map.get(username.as_str()) {
            None => {
                return None;
            },
            Some(val) => val.clone(),
        };
        self.get_user_from_email(&email)
    }

    /// Whether `username` is taken.
    pub fn contains_username(&self, username: &Username) -> (found: bool)
        ensures
            found == self@.usernames.contains_key(username@),
    {
        self.username_map.contains_key(username.as_str())
    }

    /// The account registered under `email_id`.
    pub fn get_user_from_email(&self, email_id: &EmailId) -> (user: Option<User>)
        ensures
            opt_user(user) == map_get(self@.users, email_id@),
    {
        match self.map.get(email_id.as_str()) {
            None => None,
            Some(val) => Some(val.clone()),
        }
    }

    /// Whether an account is registered under `id`.
    pub fn contains_email(&self, id: &EmailId) -> (found: bool)
        ensures
            found == self@.users.contains_key(id@),
    {
        self.map.contains_key(id.as_str())
    }

    /// Registers `user` under `email_id` and its username; returns the account
    /// that `email_id` held before.
    pub fn insert_user(&mut self, email_id: EmailId, user: User) -> (previous: Option<User>)
        ensures
            final(self)@ == with_user(old(self)@, email_id@, user@),
            opt_user(previous) == map_get(old(self)@.users, email_id@),
    {
        proof {
            use_type_invariant(&*self);
        }
        let username = user.username.clone();
        let previous = self.get_user_from_email(&email_id);
        let ghost email = email_id@;
        let ghost name = username@;
        let ghost account = user@;
        let ghost old_view = self@;
        let mut users = KeyedMap::new();
        let mut usernames = KeyedMap::new();
        std::mem::swap(&mut usernames, &mut self.username_map);
        std::mem::swap(&mut users, &mut self.map);
        users.insert(email_id.clone(), user);
        usernames.insert(username, email_id);
        assert(users.contents().map_values(|u: User| u@) =~= old_view.users.insert(email, account));
        assert(usernames.contents().map_values(|e: EmailId| e@) =~= old_view.usernames.insert(
            name,
            email,
        ));
        std::mem::swap(&mut users, &mut self.map);
        std::mem::swap(&mut usernames, &mut self.username_map);
        previous
    }

    /// Every account with the e-mail it is filed under, each once.
    pub fn users(&self) -> (pairs: Vec<(EmailId, User)>)
        ensures
            lists_map(pairs@.map_values(|p: (EmailId, User)| (p.0@, p.1@)), self@.users),
    {
        proof {
            use_type_invariant(self);
            self.map.lemma_listing();
        }
        let keys = self.map.keys();
        let ghost listed = self.map.listed();
        let ghost users = self@.users;
        let mut pairs: Vec<(EmailId, User)> = Vec::new();
        let mut i: usize = 0;
        while i < keys.len()
            invariant
                i <= keys@.len(),
                texts_of(keys@) == listed,
                users == self@.users,
                forall|k: int| 0 <= k < listed.len() ==> users.contains_key(#[trigger] listed[k]),
                pairs@.map_values(|p: (EmailId, User)| (p.0@, p.1@)) == entries_in_order(
                    listed.take(i as int),
                    users,
                ),
            decreases keys@.len() - i,
        {
            let key = &keys[i];
            assert(listed[i as int] == key@);
            let value = self.get_user_from_email(key);
            match value {
                Some(value) => {
                    let ghost before = pairs@;
                    pairs.push((key.clone(), value));
                    assert(pairs@.map_values(|p: (EmailId, User)| (p.0@, p.1@)) =~= before.map_values(
                        |p: (EmailId, User)| (p.0@, p.1@),
                    ).push((key@, users[key@])));
                    assert(listed.take(i as int + 1) =~= listed.take(i as int).push(key@));
                    assert(pairs@.map_values(|p: (EmailId, User)| (p.0@, p.1@)) =~= entries_in_order(
                        listed.take(i as int + 1),
                        users,
                    ));
                },
                None => {
                    assert(false);
                },
            }
            i = i + 1;
        }
        assert(listed.take(i as int) =~= listed);
        proof {
            lemma_entries_list_map(listed, users);
        }
        pairs
    }

    /// Every username with the e-mail it leads to, each once.
    pub fn usernames(&self) -> (pairs: Vec<(Username, EmailId)>)
        ensures
            lists_map(string_pairs(pairs@), self@.usernames),
    {
        proof {
            use_type_invariant(self);
            self.username_map.lemma_listing();
        }
        let keys = self.username_map.keys();
        let ghost listed = self.username_map.listed();
        let ghost names = self@.usernames;
        let mut pairs: Vec<(Username, EmailId)> = Vec::new();
        let mut i: usize = 0;
        while i < keys.len()
            invariant
                i <= keys@.len(),
                texts_of(keys@) == listed,
                names == self@.usernames,
                forall|k: int| 0 <= k < listed.len() ==> names.contains_key(#[trigger] listed[k]),
                string_pairs(pairs@) == entries_in_order(listed.take(i as int), names),
            decreases keys@.len() - i,
        {
            let key = &keys[i];
            assert(listed[i as int] == key@);
            match self.get_email_from_username(key) {
                Some(value) => {
                    let ghost before = pairs@;
                    pairs.push((key.clone(), value));
                    assert(string_pairs(pairs@) =~= string_pairs(before).push((key@, names[key@])));
                    assert(listed.take(i as int + 1) =~= listed.take(i as int).push(key@));
                    assert(string_pairs(pairs@) =~= entries_in_order(listed.take(i as int + 1), names));
                },
                None => {
                    assert(false);
                },
            }
            i = i + 1;
        }
        assert(listed.take(i as int) =~= listed);
        proof {
            lemma_entries_list_map(listed, names);
        }
        pairs
    }
}

/// A session is found under its id, with the e-mail it was opened for, until it
/// is closed; other sessions are untouched.
pub proof fn session_read_after_write(
    sessions: Map<Seq<char>, Seq<char>>,
    id: Seq<char>,
    email: Seq<char>,
    other: Seq<char>,
)
    ensures
        map_get(sessions.insert(id, email), id) == Some(email),
        other != id ==> map_get(sessions.insert(id, email), other) == map_get(sessions, other),
        map_get(sessions.remove(id), id) is None,
        other != id ==> map_get(sessions.remove(id), other) == map_get(sessions, other),
{
}

/// An inserted account is found by its e-mail and by its username, and every
/// username keeps leading to an account.
pub proof fn user_read_after_write(db: UserDBView, email: Seq<char>, user: UserView)
    requires
        usernames_resolve(db),
    ensures
        map_get(with_user(db, email, user).users, email) == Some(user),
        user_by_username(with_user(db, email, user), user.username) == Some(user),
        usernames_resolve(with_user(db, email, user)),
{
}

/// A change to the session store: `insert(id, email)` or `remove_session(id)`.
pub enum SessionChange {
    Open(Seq<char>, Seq<char>),
    Close(Seq<char>),
}

/// The session id a change concerns.
pub open spec fn change_key(c: SessionChange) -> Seq<char> {
    match c {
        SessionChange::Open(id, _) => id,
        SessionChange::Close(id) => id,
    }
}

/// The sessions after `changes`, applied in order to `sessions` (as the
/// `ensures` of `insert` and `remove_session` give each step).
pub open spec fn after_changes(
    sessions: Map<Seq<char>, Seq<char>>,
    changes: Seq<SessionChange>,
) -> Map<Seq<char>, Seq<char>>
    decreases changes.len(),
{
    if changes.len() == 0 {
        sessions
    } else {
        let before = after_changes(sessions, changes.drop_last());
        match changes.last() {
            SessionChange::Open(id, email) => before.insert(id, email),
            SessionChange::Close(id) => before.remove(id),
        }
    }
}

/// Changes that do not concern a session id leave what `get` finds under it alone.
pub proof fn untouched_session_is_kept(
    sessions: Map<Seq<char>, Seq<char>>,
    changes: Seq<SessionChange>,
    id: Seq<char>,
)
    requires
        forall|j: int| 0 <= j < changes.len() ==> change_key(#[trigger] changes[j]) != id,
    ensures
        map_get(after_changes(sessions, changes), id) == map_get(sessions, id),
    decreases changes.len(),
{
    if changes.len() > 0 {
        let rest = changes.drop_last();
        assert forall|j: int| 0 <= j < rest.len() implies change_key(#[trigger] rest[j]) != id by {
            assert(rest[j] == changes[j]);
        }
        untouched_session_is_kept(sessions, rest, id);
        assert(change_key(changes[changes.len() - 1]) != id);
    }
}

/// `get` finds the e-mail of the last `insert` under a session id, as long as
/// no later change concerned that id.
pub proof fn session_get_finds_last_insert(
    sessions: Map<Seq<char>, Seq<char>>,
    changes: Seq<SessionChange>,
    i: int,
    id: Seq<char>,
    email: Seq<char>,
)
    requires
        0 <= i < changes.len(),
        changes[i] == SessionChange::Open(id, email),
        forall|j: int| i < j < changes.len() ==> change_key(#[trigger] changes[j]) != id,
    ensures
        map_get(after_changes(sessions, changes), id) == Some(email),
    decreases changes.len(),
{
    if i == changes.len() - 1 {
        assert(changes.last() == SessionChange::Open(id, email));
    } else {
        let rest = changes.drop_last();
        assert(rest[i] == changes[i]);
        assert forall|j: int| i < j < rest.len() implies change_key(#[trigger] rest[j]) != id by {
            assert(rest[j] == changes[j]);
        }
        session_get_finds_last_insert(sessions, rest, i, id, email);
        assert(change_key(changes[changes.len() - 1]) != id);
    }
}

/// The account store after `insert_user(e, u)` for each `(e, u)` of `inserts`, in order.
pub open spec fn after_inserts(db: UserDBView, inserts: Seq<(Seq<char>, UserView)>) -> UserDBView
    decreases inserts.len(),
{
    if inserts.len() == 0 {
        db
    } else {
        with_user(after_inserts(db, inserts.drop_last()), inserts.last().0, inserts.last().1)
    }
}

/// The account of the last insert filed under `email`.
pub open spec fn last_account_under(inserts: Seq<(Seq<char>, UserView)>, email: Seq<char>) -> Option<
    UserView,
>
    decreases inserts.len(),
{
    if inserts.len() == 0 {
        None
    } else if inserts.last().0 == email {
        Some(inserts.last().1)
    } else {
        last_account_under(inserts.drop_last(), email)
    }
}

/// The e-mail of the last insert whose account has `username`.
pub open spec fn last_email_for(inserts: Seq<(Seq<char>, UserView)>, username: Seq<char>) -> Option<
    Seq<char>,
>
    decreases inserts.len(),
{
    if inserts.len() == 0 {
        None
    } else if inserts.last().1.username == username {
        Some(inserts.last().0)
    } else {
        last_email_for(inserts.drop_last(), username)
    }
}

/// From an empty store, `get_user_from_email` finds the account of the last
/// insert under that e-mail, and `get_email_from_username` the e-mail of the
/// last insert with that username; `None` if there was none.
pub proof fn lookups_find_last_insert(
    inserts: Seq<(Seq<char>, UserView)>,
    email: Seq<char>,
    username: Seq<char>,
)
    ensures
        ({
            let empty = UserDBView { users: Map::empty(), usernames: Map::empty() };
            &&& map_get(after_inserts(empty, inserts).users, email) == last_account_under(
                inserts,
                email,
            )
            &&& map_get(after_inserts(empty, inserts).usernames, username) == last_email_for(
                inserts,
                username,
            )
        }),
    decreases inserts.len(),
{
    if inserts.len() > 0 {
        lookups_find_last_insert(inserts.drop_last(), email, username);
    }
}

/// A submitted login form: `id` is a username or an e-mail, as `login_type` says.
pub struct LoginForm {
    pub id: String,
    pub password: String,
    pub login_type: String,
}

/// A submitted registration form.
pub struct RegistrationForm {
    pub email_id: String,
    pub username: String,
    pub password: String,
}

} // verus!
