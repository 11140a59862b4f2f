//! Accounts and their lifecycle: registration creates a pending account
//! together with its activation record; activation confirms it exactly once;
//! login checks a password against the stored hash.
use crate::auth::{
    hash_password, is_hash_of, phc_matches, phc_parses, verify_outcome, verify_password_hash,
    AuthError, MAX_PASSWORD_CHARS, MAX_PEPPER_LEN,
};
use vstd::prelude::*;

verus! {

/// What a caller knows of one account.
pub struct UserView {
    pub username: Seq<char>,
    pub mail: Seq<char>,
    pub password_hash: Seq<char>,
    pub enabled: bool,
}

/// What a caller knows of the whole store: the accounts by identity, and the
/// identities whose activation is still pending.
pub struct AccountsView {
    pub users: Map<u128, UserView>,
    pub pending: Set<u128>,
}

impl AccountsView {
    /// The store's invariant, as callers see it: an account is pending exactly
    /// when it is not enabled, every activation record belongs to an account,
    /// and handles and contact addresses are unique.
    pub open spec fn consistent(self) -> bool {
        &&& self.users.dom().finite()
        &&& forall|id: u128| #[trigger] self.pending.contains(id) ==> self.users.contains_key(id)
        &&& forall|id: u128|
            #[trigger] self.users.contains_key(id) ==> (self.users[id].enabled <==> !self.pending.contains(id))
        &&& forall|a: u128, b: u128|
            #![trigger self.users[a], self.users[b]]
            self.users.contains_key(a) && self.users.contains_key(b) && a != b ==> {
                &&& self.users[a].username != self.users[b].username
                &&& self.users[a].mail != self.users[b].mail
            }
    }

    /// Whether the identity, the handle or the contact address is already in use.
    pub open spec fn taken(self, id: u128, username: Seq<char>, mail: Seq<char>) -> bool {
        ||| self.users.contains_key(id)
        ||| self.handle_or_contact_taken(username, mail)
    }

    /// Whether some account already has this handle or this contact address.
    pub open spec fn handle_or_contact_taken(self, username: Seq<char>, mail: Seq<char>) -> bool {
        exists|id: u128|
            #[trigger] self.users.contains_key(id) && (self.users[id].username == username
                || self.users[id].mail == mail)
    }

    /// The store after adding a pending account and its activation record.
    pub open spec fn with_pending(self, id: u128, user: UserView) -> AccountsView {
        AccountsView { users: self.users.insert(id, user), pending: self.pending.insert(id) }
    }

    /// The store after enabling `id` and deleting its activation record.
    pub open spec fn activated(self, id: u128) -> AccountsView {
        let u = self.users[id];
        AccountsView {
            users: self.users.insert(
                id,
                UserView {
                    username: u.username,
                    mail: u.mail,
                    password_hash: u.password_hash,
                    enabled: true,
                },
            ),
            pending: self.pending.remove(id),
        }
    }

    /// Whether some account has this handle.
    pub open spec fn has_handle(self, username: Seq<char>) -> bool {
        exists|id: u128| #[trigger] self.users.contains_key(id) && self.users[id].username == username
    }

    /// The account with this handle (meaningful when `has_handle`).
    pub open spec fn by_handle(self, username: Seq<char>) -> UserView {
        self.users[choose|id: u128|
            #[trigger] self.users.contains_key(id) && self.users[id].username == username]
    }
}

/// Why a registration was refused.
#[derive(Debug, Clone, Copy, PartialEq, Eq, Structural)]
pub enum RegistrationError {
    /// The handle or the contact address is already in use.
    DuplicatePrincipal,
    /// The freshly drawn identity is already in use; the caller may retry.
    IdentityCollision,
    /// The password could not be hashed.
    Hashing(AuthError),
}

/// Why an activation was refused.
#[derive(Debug, Clone, Copy, PartialEq, Eq, Structural)]
pub enum ActivationError {
    /// No activation is pending for the identity: it was already activated, or
    /// never registered. The two are deliberately not told apart.
    NoSuchPendingActivation,
}

/// Why a login was refused.
#[derive(Debug, Clone, Copy, PartialEq, Eq, Structural)]
pub enum LoginError {
    /// Unknown handle or wrong password; the two are deliberately not told apart.
    InvalidCredentials,
    /// The stored hash is not a PHC string: corrupt storage.
    CorruptHash,
    /// The hasher cannot be keyed with the pepper: a configuration fault.
    HasherInit,
}

/// What a login with these credentials against these accounts yields.
pub open spec fn login_outcome(
    accounts: AccountsView,
    username: Seq<char>,
    password: Seq<char>,
    pepper: Seq<u8>,
) -> Result<(), LoginError> {
    if !accounts.has_handle(username) {
        Err(LoginError::InvalidCredentials)
    } else {
        login_error_of(verify_outcome(password, accounts.by_handle(username).password_hash, pepper))
    }
}

/// The login result that a verification result stands for.
pub open spec fn login_error_of(v: Result<(), AuthError>) -> Result<(), LoginError> {
    match v {
        Ok(()) => Ok(()),
        Err(AuthError::MalformedHash) => Err(LoginError::CorruptHash),
        Err(AuthError::HasherInit) => Err(LoginError::HasherInit),
        Err(_) => Err(LoginError::InvalidCredentials),
    }
}

/// Map the result of a password verification to the result of a login.
pub fn login_result(v: Result<(), AuthError>) -> (r: Result<(), LoginError>)
    ensures
        r == login_error_of(v),
{
    match v {
        Ok(()) => Ok(()),
        Err(AuthError::MalformedHash) => Err(LoginError::CorruptHash),
        Err(AuthError::HasherInit) => Err(LoginError::HasherInit),
        Err(_) => Err(LoginError::InvalidCredentials),
    }
}

/// A well-formed hash with the hasher's default cost, that no password is known
/// to match. Login verifies against it when the handle is unknown, so that an
/// unknown handle costs as much time as a wrong password.
pub const DECOY_HASH: &'static str =
    "$argon2id$v=19$m=19456,t=2,p=1$c29tZXNhbHRzb21lc2FsdA$AAAAAAAAAAAAAAAAAAAAAAAAAAAAAAAAAAAAAAAAAAA";

/// Relies on `uuid::Uuid::new_v4`: a random identity. Nothing is known of its value.
#[verifier::external_body]
fn new_principal_id() -> u128 {
    uuid::Uuid::new_v4().as_u128()
}

/// An account that is able to log in to the application.
pub struct User {
    /// Random identity, assigned at creation.
    id: u128,
    /// Contact address; unique.
    mail: String,
    /// Handle; unique.
    username: String,
    /// PHC string produced by the hasher.
    password_hash: String,
    /// Whether the account was activated.
    enabled: bool,
}

impl User {
    /// What a caller knows of this account.
    pub closed spec fn view(&self) -> UserView {
        UserView {
            username: self.username@,
            mail: self.mail@,
            password_hash: self.password_hash@,
            enabled: self.enabled,
        }
    }

    /// Register an account: hash the password, then add the account, pending,
    /// together with its activation record, as one step. Returns the new identity,
    /// to which the caller delivers the activation link.
    ///
    /// A handle or contact address in use is refused with `DuplicatePrincipal`
    /// before anything is hashed, and a refused registration changes nothing.
    pub fn create(
        mail: &str,
        username: &str,
        password: String,
        store: &mut Accounts,
        pepper: Vec<u8>,
    ) -> (r: Result<u128, RegistrationError>)
        requires
            old(store).wf(),
        ensures
            final(store).wf(),
            r == Err::<u128, RegistrationError>(RegistrationError::DuplicatePrincipal) <==> old(
                store,
            )@.handle_or_contact_taken(username@, mail@),
            !old(store)@.handle_or_contact_taken(username@, mail@) && pepper@.len() > MAX_PEPPER_LEN
                ==> r == Err::<u128, RegistrationError>(
                RegistrationError::Hashing(AuthError::HasherInit),
            ),
            !old(store)@.handle_or_contact_taken(username@, mail@) && pepper@.len() <= MAX_PEPPER_LEN
                && password@.len() <= MAX_PASSWORD_CHARS ==> (r is Ok || r == Err::<
                u128,
                RegistrationError,
            >(RegistrationError::IdentityCollision)),
            old(store)@.users.dom() == Set::<u128>::empty() && pepper@.len() <= MAX_PEPPER_LEN
                && password@.len() <= MAX_PASSWORD_CHARS ==> r is Ok,
            r matches Err(e) ==> e == RegistrationError::DuplicatePrincipal || e
                == RegistrationError::IdentityCollision || e == RegistrationError::Hashing(
                AuthError::HasherInit,
            ) || e == RegistrationError::Hashing(AuthError::HashingFailed),
            r is Err ==> final(store)@ == old(store)@,
            r matches Ok(id) ==> {
                let u = final(store)@.users[id];
                &&& !old(store)@.users.contains_key(id)
                &&& final(store)@ == old(store)@.with_pending(id, u)
                &&& u.username == username@
                &&& u.mail == mail@
                &&& !u.enabled
                &&& is_hash_of(password@, pepper@, u.password_hash)
            },
    {
        let username = username.to_owned();
        let mail = mail.to_owned();
        if store.handle_or_contact_taken(&username, &mail) {
            return Err(RegistrationError::DuplicatePrincipal);
        }
        let hash = match hash_password(password.as_str(), pepper.as_slice()) {
            Ok(h) => h,
            Err(e) => return Err(RegistrationError::Hashing(e)),
        };
        User::create_hashed(&mail, &username, hash, store)
    }

    /// Register an account whose password was already hashed: draw a fresh
    /// identity, then add the account, pending, together with its activation
    /// record, as one step. Lets a caller hash without holding the store.
    pub fn create_hashed(
        mail: &str,
        username: &str,
        password_hash: String,
        store: &mut Accounts,
    ) -> (r: Result<u128, RegistrationError>)
        requires
            old(store).wf(),
        ensures
            final(store).wf(),
            r == Err::<u128, RegistrationError>(RegistrationError::DuplicatePrincipal) <==> old(
                store,
            )@.handle_or_contact_taken(username@, mail@),
            r matches Err(e) ==> e == RegistrationError::DuplicatePrincipal || e
                == RegistrationError::IdentityCollision,
            old(store)@.users.dom() == Set::<u128>::empty() ==> r is Ok,
            r is Err ==> final(store)@ == old(store)@,
            r matches Ok(id) ==> !old(store)@.users.contains_key(id) && final(store)@ == old(
                store,
            )@.with_pending(
                id,
                UserView {
                    username: username@,
                    mail: mail@,
                    password_hash: password_hash@,
                    enabled: false,
                },
            ),
    {
        let id = new_principal_id();
        proof {
            if old(store)@.users.dom() == Set::<u128>::empty() {
                assert(!old(store)@.users.contains_key(id));
                assert(!old(store)@.handle_or_contact_taken(username@, mail@));
            }
        }
        match store.insert_pending(id, username.to_owned(), mail.to_owned(), password_hash) {
            Ok(()) => Ok(id),
            Err(e) => Err(e),
        }
    }

    /// Activate the account `id`: enable it and delete its activation record.
    ///
    /// Succeeds exactly when an activation is pending for `id`; otherwise the
    /// store is unchanged and the error does not say whether the account was
    /// already activated or never registered.
    pub fn activate(id: &u128, store: &mut Accounts) -> (r: Result<(), ActivationError>)
        requires
            old(store).wf(),
        ensures
            final(store).wf(),
            r is Ok <==> old(store)@.pending.contains(*id),
            r is Ok ==> final(store)@ == old(store)@.activated(*id),
            r is Err ==> final(store)@ == old(store)@,
    {
        if store.activation_exists(*id) {
            store.commit_activation(*id);
            Ok(())
        } else {
            Err(ActivationError::NoSuchPendingActivation)
        }
    }

    /// Check a handle and password against the stored hash.
    ///
    /// An unknown handle and a wrong password give the same error, after the
    /// same hashing work (see `DECOY_HASH`); a stored hash that does not parse
    /// gives `CorruptHash`. The activation flag is not consulted: whether pending
    /// accounts may log in is the caller's policy (see `Accounts::is_activated`).
    pub fn login(username: &str, password: &str, store: &Accounts, pepper: Vec<u8>) -> (r: Result<
        (),
        LoginError,
    >)
        requires
            store.wf(),
        ensures
            r == login_outcome(store@, username@, password@, pepper@),
    {
        let handle = username.to_owned();
        match store.user_by_handle(&handle) {
            None => {
                let _ = verify_password_hash(password, DECOY_HASH, pepper.as_slice());
                Err(LoginError::InvalidCredentials)
            },
            Some(user) => login_result(
                verify_password_hash(password, user.password_hash.as_str(), pepper.as_slice()),
            ),
        }
    }
}

/// The credential store and the activation ledger, updated together.
pub struct Accounts {
    users: Vec<User>,
    confirmations: Vec<u128>,
}

spec fn user_map(s: Seq<User>) -> Map<u128, UserView>
    decreases s.len(),
{
    if s.len() == 0 {
        Map::empty()
    } else {
        user_map(s.drop_last()).insert(s.last().id, s.last().view())
    }
}

spec fn ids_unique(s: Seq<User>) -> bool {
    forall|i: int, j: int| 0 <= i < s.len() && 0 <= j < s.len() && i != j ==> s[i].id != s[j].id
}

proof fn lemma_user_map(s: Seq<User>)
    requires
        ids_unique(s),
    ensures
        user_map(s).dom().finite(),
        forall|id: u128|
            #[trigger] user_map(s).contains_key(id) <==> exists|i: int| 0 <= i < s.len() && s[i].id == id,
        forall|i: int| 0 <= i < s.len() ==> #[trigger] user_map(s)[s[i].id] == s[i].view(),
    decreases s.len(),
{
    if s.len() > 0 {
        let t = s.drop_last();
        assert(ids_unique(t));
        lemma_user_map(t);
        assert forall|id: u128| #[trigger] user_map(s).contains_key(id) <==> exists|i: int|
            0 <= i < s.len() && s[i].id == id by {
            if user_map(t).contains_key(id) {
                let i = choose|i: int| 0 <= i < t.len() && t[i].id == id;
                assert(s[i] == t[i]);
            }
            if exists|i: int| 0 <= i < s.len() && s[i].id == id {
                let i = choose|i: int| 0 <= i < s.len() && s[i].id == id;
                if i < s.len() - 1 {
                    assert(t[i] == s[i]);
                }
            }
        }
        assert forall|i: int| 0 <= i < s.len() implies #[trigger] user_map(s)[s[i].id] == s[i].view() by {
            if i < s.len() - 1 {
                assert(t[i] == s[i]);
                assert(s[i].id != s[s.len() - 1].id);
            }
        }
    }
}

proof fn lemma_user_map_push(s: Seq<User>, u: User)
    ensures
        user_map(s.push(u)) == user_map(s).insert(u.id, u.view()),
{
    assert(s.push(u).drop_last() =~= s);
}

proof fn lemma_user_map_update(s: Seq<User>, i: int, u: User)
    requires
        ids_unique(s),
        0 <= i < s.len(),
        u.id == s[i].id,
    ensures
        ids_unique(s.update(i, u)),
        user_map(s.update(i, u)) == user_map(s).insert(u.id, u.view()),
{
    let s2 = s.update(i, u);
    assert(ids_unique(s2));
    lemma_user_map(s);
    lemma_user_map(s2);
    let m = user_map(s).insert(u.id, u.view());
    assert forall|k: u128| #[trigger] user_map(s2).contains_key(k) <==> m.contains_key(k) by {
        if user_map(s2).contains_key(k) {
            let j = choose|j: int| 0 <= j < s2.len() && s2[j].id == k;
            assert(s[j].id == k);
        }
        if user_map(s).contains_key(k) {
            let j = choose|j: int| 0 <= j < s.len() && s[j].id == k;
            assert(s2[j].id == k);
        }
        if k == u.id {
            assert(s2[i].id == k);
        }
    }
    assert forall|k: u128| #[trigger] user_map(s2).contains_key(k) implies user_map(s2)[k] == m[k] by {
        let j = choose|j: int| 0 <= j < s2.len() && s2[j].id == k;
        if j != i {
            assert(s2[j] == s[j]);
        }
    }
    assert(user_map(s2) =~= m);
}

proof fn lemma_push_to_set(s: Seq<u128>, x: u128)
    ensures
        s.push(x).to_set() == s.to_set().insert(x),
{
    assert forall|k: u128| #[trigger] s.push(x).to_set().contains(k) <==> s.to_set().insert(
        x,
    ).contains(k) by {
        if s.contains(k) {
            let i = choose|i: int| 0 <= i < s.len() && s[i] == k;
            assert(s.push(x)[i] == k);
        }
        if k == x {
            assert(s.push(x)[s.len() as int] == k);
        }
        if s.push(x).contains(k) {
            let i = choose|i: int| 0 <= i < s.len() + 1 && s.push(x)[i] == k;
            if i < s.len() {
                assert(s[i] == k);
            }
        }
    }
    assert(s.push(x).to_set() =~= s.to_set().insert(x));
}

proof fn lemma_remove_to_set(s: Seq<u128>, j: int)
    requires
        s.no_duplicates(),
        0 <= j < s.len(),
    ensures
        s.remove(j).no_duplicates(),
        s.remove(j).to_set() == s.to_set().remove(s[j]),
        forall|k: u128| s.remove(j).contains(k) <==> (s.contains(k) && k != s[j]),
{
    let r = s.remove(j);
    s.remove_ensures(j);
    assert forall|a: int, b: int| 0 <= a < r.len() && 0 <= b < r.len() && a != b implies r[a]
        != r[b] by {
        let a2 = if a < j { a } else { a + 1 };
        let b2 = if b < j { b } else { b + 1 };
        assert(r[a] == s[a2] && r[b] == s[b2]);
    }
    assert forall|k: u128| #[trigger] r.contains(k) <==> (s.contains(k) && k != s[j]) by {
        if r.contains(k) {
            let a = choose|a: int| 0 <= a < r.len() && r[a] == k;
            let a2 = if a < j { a } else { a + 1 };
            assert(s[a2] == k);
        }
        if s.contains(k) && k != s[j] {
            let a = choose|a: int| 0 <= a < s.len() && s[a] == k;
            if a < j {
                assert(r[a] == k);
            } else {
                assert(r[a - 1] == k);
            }
        }
    }
    assert(r.to_set() =~= s.to_set().remove(s[j]));
}

impl View for Accounts {
    type V = AccountsView;

    closed spec fn view(&self) -> AccountsView {
        AccountsView { users: user_map(self.users@), pending: self.confirmations@.to_set() }
    }
}

impl Accounts {
    /// The store's internal invariant.
    pub closed spec fn wf(&self) -> bool {
        let s = self.users@;
        let c = self.confirmations@;
        &&& ids_unique(s)
        &&& forall|i: int, j: int|
            0 <= i < s.len() && 0 <= j < s.len() && i != j ==> {
                &&& s[i].username@ != s[j].username@
                &&& s[i].mail@ != s[j].mail@
            }
        &&& c.no_duplicates()
        &&& forall|i: int| 0 <= i < s.len() ==> (#[trigger] s[i].enabled <==> !c.contains(s[i].id))
        &&& forall|k: u128| #[trigger] c.contains(k) ==> exists|i: int| 0 <= i < s.len() && s[i].id == k
    }

    /// Every well-formed store is consistent: an account is pending exactly when
    /// it is not enabled, every activation record belongs to an account, and
    /// handles and contact addresses are unique.
    pub proof fn lemma_consistent(&self)
        requires
            self.wf(),
        ensures
            self@.consistent(),
    {
        let s = self.users@;
        let v = self@;
        lemma_user_map(s);
        assert forall|id: u128| #[trigger] v.users.contains_key(id) implies (v.users[id].enabled
            <==> !v.pending.contains(id)) by {
            let i = choose|i: int| 0 <= i < s.len() && s[i].id == id;
            assert(v.users[s[i].id] == s[i].view());
            assert(s[i].enabled <==> !self.confirmations@.contains(s[i].id));
        }
        assert forall|a: u128, b: u128|
            v.users.contains_key(a) && v.users.contains_key(b) && a != b implies {
            &&& #[trigger] v.users[a].username != #[trigger] v.users[b].username
            &&& v.users[a].mail != v.users[b].mail
        } by {
            let i = choose|i: int| 0 <= i < s.len() && s[i].id == a;
            let j = choose|j: int| 0 <= j < s.len() && s[j].id == b;
            assert(v.users[s[i].id] == s[i].view());
            assert(v.users[s[j].id] == s[j].view());
        }
    }

    fn position_of_id(&self, id: u128) -> (r: Option<usize>)
        ensures
            r matches Some(i) ==> i < self.users@.len() && self.users@[i as int].id == id,
            r is None ==> forall|j: int| 0 <= j < self.users@.len() ==> self.users@[j].id != id,
    {
        let mut i: usize = 0;
        while i < self.users.len()
            invariant
                i <= self.users@.len(),
                forall|j: int| 0 <= j < i ==> self.users@[j].id != id,
            decreases self.users@.len() - i,
        {
            if self.users[i].id == id {
                return Some(i);
            }
            i = i + 1;
        }
        None
    }

    fn position_of_handle(&self, username: &String) -> (r: Option<usize>)
        ensures
            r matches Some(i) ==> i < self.users@.len() && self.users@[i as int].username@
                == username@,
            r is None ==> forall|j: int|
                0 <= j < self.users@.len() ==> self.users@[j].username@ != username@,
    {
        let mut i: usize = 0;
        while i < self.users.len()
            invariant
                i <= self.users@.len(),
                forall|j: int| 0 <= j < i ==> self.users@[j].username@ != username@,
            decreases self.users@.len() - i,
        {
            if self.users[i].username == *username {
                return Some(i);
            }
            i = i + 1;
        }
        None
    }

    fn position_of_confirmation(&self, id: u128) -> (r: Option<usize>)
        ensures
            r matches Some(i) ==> i < self.confirmations@.len() && self.confirmations@[i as int]
                == id,
            r is None ==> !self.confirmations@.contains(id),
    {
        let mut i: usize = 0;
        while i < self.confirmations.len()
            invariant
                i <= self.confirmations@.len(),
                forall|j: int| 0 <= j < i ==> self.confirmations@[j] != id,
            decreases self.confirmations@.len() - i,
        {
            if self.confirmations[i] == id {
                return Some(i);
            }
            i = i + 1;
        }
        None
    }

    /// Whether some account already has this handle or this contact address.
    pub fn handle_or_contact_taken(&self, username: &String, mail: &String) -> (r: bool)
        requires
            self.wf(),
        ensures
            r == self@.handle_or_contact_taken(username@, mail@),
    {
        let mut i: usize = 0;
        proof {
            lemma_user_map(self.users@);
        }
        while i < self.users.len()
            invariant
                self.wf(),
                i <= self.users@.len(),
                forall|j: int|
                    0 <= j < i ==> self.users@[j].username@ != username@ && self.users@[j].mail@
                        != mail@,
            decreases self.users@.len() - i,
        {
            if self.users[i].username == *username || self.users[i].mail == *mail {
                proof {
                    lemma_user_map(self.users@);
                    let id = self.users@[i as int].id;
                    assert(self@.users.contains_key(id));
                    assert(self@.users[id] == self.users@[i as int].view());
                }
                return true;
            }
            i = i + 1;
        }
        proof {
            lemma_user_map(self.users@);
            assert forall|id: u128| #[trigger] self@.users.contains_key(id) implies !(
            self@.users[id].username == username@ || self@.users[id].mail == mail@) by {
                let j = choose|j: int| 0 <= j < self.users@.len() && self.users@[j].id == id;
                assert(self@.users[self.users@[j].id] == self.users@[j].view());
            }
        }
        false
    }

    /// Whether an activation is pending for `id`.
    pub fn activation_exists(&self, id: u128) -> (r: bool)
        ensures
            r == self@.pending.contains(id),
    {
        self.position_of_confirmation(id).is_some()
    }

    /// Add a pending account and its activation record, as one step.
    ///
    /// Refused, with the store unchanged, when the handle or the contact address
    /// is in use (`DuplicatePrincipal`), or else the identity (`IdentityCollision`).
    pub fn insert_pending(
        &mut self,
        id: u128,
        username: String,
        mail: String,
        password_hash: String,
    ) -> (r: Result<(), RegistrationError>)
        requires
            old(self).wf(),
        ensures
            final(self).wf(),
            r is Ok <==> !old(self)@.taken(id, username@, mail@),
            r == Err::<(), RegistrationError>(RegistrationError::DuplicatePrincipal) <==> old(
                self,
            )@.handle_or_contact_taken(username@, mail@),
            r matches Err(e) ==> e == RegistrationError::DuplicatePrincipal || e
                == RegistrationError::IdentityCollision,
            r is Ok ==> final(self)@ == old(self)@.with_pending(
                id,
                UserView {
                    username: username@,
                    mail: mail@,
                    password_hash: password_hash@,
                    enabled: false,
                },
            ),
            r is Err ==> final(self)@ == old(self)@,
    {
        if self.handle_or_contact_taken(&username, &mail) {
            return Err(RegistrationError::DuplicatePrincipal);
        }
        if self.position_of_id(id).is_some() {
            proof {
                lemma_user_map(self.users@);
            }
            return Err(RegistrationError::IdentityCollision);
        }
        proof {
            lemma_user_map(self.users@);
            assert(!self@.users.contains_key(id));
        }
        let ghost old_users = self.users@;
        let ghost old_c = self.confirmations@;
        let user = User { id, mail, username, password_hash, enabled: false };
        self.users.push(user);
        self.confirmations.push(id);
        proof {
            lemma_user_map_push(old_users, user);
            lemma_push_to_set(old_c, id);
            let s = self.users@;
            let c = self.confirmations@;
            assert(!old_c.contains(id));
            assert forall|k: u128| #[trigger] c.contains(k) <==> old_c.contains(k) || k == id by {
                assert(c.to_set().contains(k) == c.contains(k));
                assert(old_c.to_set().contains(k) == old_c.contains(k));
            }
            assert forall|i: int, j: int| 0 <= i < s.len() && 0 <= j < s.len() && i != j implies {
                &&& s[i].username@ != s[j].username@
                &&& s[i].mail@ != s[j].mail@
            } by {
                if i == old_users.len() as int {
                    assert(s[j] == old_users[j]);
                    assert(old(self)@.users.contains_key(old_users[j].id));
                    assert(old_users[j].view() == old(self)@.users[old_users[j].id]);
                } else if j == old_users.len() as int {
                    assert(s[i] == old_users[i]);
                    assert(old(self)@.users.contains_key(old_users[i].id));
                    assert(old_users[i].view() == old(self)@.users[old_users[i].id]);
                } else {
                    assert(s[i] == old_users[i] && s[j] == old_users[j]);
                }
            }
            assert forall|i: int, j: int|
                0 <= i < c.len() && 0 <= j < c.len() && i != j implies c[i] != c[j] by {
                if i == old_c.len() as int {
                    assert(old_c.contains(c[j]));
                } else if j == old_c.len() as int {
                    assert(old_c.contains(c[i]));
                }
            }
            assert forall|k: u128| #[trigger] c.contains(k) implies exists|i: int|
                0 <= i < s.len() && s[i].id == k by {
                if k == id {
                    assert(s[old_users.len() as int].id == k);
                } else {
                    let i = choose|i: int| 0 <= i < old_users.len() && old_users[i].id == k;
                    assert(s[i].id == k);
                }
            }
            assert forall|i: int| 0 <= i < s.len() implies (#[trigger] s[i].enabled
                <==> !c.contains(s[i].id)) by {
                if i < old_users.len() {
                    assert(s[i] == old_users[i]);
                }
            }
        }
        Ok(())
    }

    /// Enable the pending account `id` and delete its activation record, as one step.
    pub fn commit_activation(&mut self, id: u128)
        requires
            old(self).wf(),
            old(self)@.pending.contains(id),
        ensures
            final(self).wf(),
            final(self)@ == old(self)@.activated(id),
    {
        let ghost old_users = self.users@;
        let ghost old_c = self.confirmations@;
        proof {
            lemma_user_map(old_users);
        }
        let j = match self.position_of_confirmation(id) {
            Some(j) => j,
            None => {
                proof {
                    assert(false);
                }
                return;
            },
        };
        let i = match self.position_of_id(id) {
            Some(i) => i,
            None => {
                proof {
                    assert(false);
                }
                return;
            },
        };
        let u = &self.users[i];
        let enabled_user = User {
            id: u.id,
            mail: u.mail.clone(),
            username: u.username.clone(),
            password_hash: u.password_hash.clone(),
            enabled: true,
        };
        self.confirmations.remove(j);
        self.users.set(i, enabled_user);
        proof {
            lemma_user_map_update(old_users, i as int, enabled_user);
            lemma_remove_to_set(old_c, j as int);
            assert(old(self)@.users[id] == old_users[i as int].view());
            let s = self.users@;
            let c = self.confirmations@;
            assert forall|a: int, b: int| 0 <= a < s.len() && 0 <= b < s.len() && a != b implies {
                &&& s[a].username@ != s[b].username@
                &&& s[a].mail@ != s[b].mail@
            } by {
                assert(old_users[a].username@ == s[a].username@ && old_users[a].mail@ == s[a].mail@);
                assert(old_users[b].username@ == s[b].username@ && old_users[b].mail@ == s[b].mail@);
            }
            assert forall|k: u128| #[trigger] c.contains(k) implies exists|a: int|
                0 <= a < s.len() && s[a].id == k by {
                assert(old_c.contains(k));
                let a = choose|a: int| 0 <= a < old_users.len() && old_users[a].id == k;
                assert(s[a].id == k);
            }
            assert forall|a: int| 0 <= a < s.len() implies (#[trigger] s[a].enabled
                <==> !c.contains(s[a].id)) by {
                if a != i {
                    assert(s[a] == old_users[a]);
                    assert(old_users[a].id != id);
                }
            }
            assert(self@.users == old(self)@.activated(id).users);
        }
    }

    /// The account with this handle, if any.
    fn user_by_handle(&self, username: &String) -> (r: Option<&User>)
        requires
            self.wf(),
        ensures
            r is Some <==> self@.has_handle(username@),
            r matches Some(u) ==> u.view() == self@.by_handle(username@),
    {
        proof {
            lemma_user_map(self.users@);
        }
        match self.position_of_handle(username) {
            Some(i) => {
                proof {
                    let s = self.users@;
                    let v = self@;
                    assert(v.users[s[i as int].id] == s[i as int].view());
                    assert(v.users.contains_key(s[i as int].id));
                    let id0 = choose|id: u128|
                        #[trigger] v.users.contains_key(id) && v.users[id].username == username@;
                    let k = choose|k: int| 0 <= k < s.len() && s[k].id == id0;
                    assert(v.users[s[k].id] == s[k].view());
                }
                Some(&self.users[i])
            },
            None => {
                proof {
                    let s = self.users@;
                    let v = self@;
                    assert forall|id: u128| #[trigger] v.users.contains_key(id) implies v.users[id].username
                        != username@ by {
                        let k = choose|k: int| 0 <= k < s.len() && s[k].id == id;
                        assert(v.users[s[k].id] == s[k].view());
                    }
                }
                None
            },
        }
    }

    /// Whether the account with this handle was activated; `None` for an
    /// unknown handle.
    pub fn is_activated(&self, username: &str) -> (r: Option<bool>)
        requires
            self.wf(),
        ensures
            r is Some <==> self@.has_handle(username@),
            r matches Some(b) ==> b == self@.by_handle(username@).enabled,
    {
        match self.user_by_handle(&username.to_owned()) {
            Some(user) => Some(user.enabled),
            None => None,
        }
    }

    /// An empty store.
    pub fn new() -> (r: Accounts)
        ensures
            r.wf(),
            r@.users == Map::<u128, UserView>::empty(),
            r@.pending == Set::<u128>::empty(),
    {
        let r = Accounts { users: Vec::new(), confirmations: Vec::new() };
        assert(r.confirmations@.to_set() =~= Set::<u128>::empty());
        r
    }
}

/// After an account is added with a handle, registering that handle again, with
/// any contact address, is a conflict; `User::create` then leaves the store as it was.
pub proof fn lemma_registered_handle_conflicts(
    accounts: AccountsView,
    id: u128,
    user: UserView,
    mail: Seq<char>,
)
    ensures
        accounts.with_pending(id, user).handle_or_contact_taken(user.username, mail),
{
    let s1 = accounts.with_pending(id, user);
    assert(s1.users.contains_key(id) && s1.users[id].username == user.username);
}

/// A freshly registered account has a pending activation, and after one
/// activation it has none: a second activation of it fails.
pub proof fn lemma_activation_once(accounts: AccountsView, id: u128, user: UserView)
    requires
        !accounts.users.contains_key(id),
    ensures
        accounts.with_pending(id, user).pending.contains(id),
        !accounts.with_pending(id, user).activated(id).pending.contains(id),
{
}

/// Once an account is activated, no registration of another identity and no
/// activation makes it pending again. So of two activations of one identity,
/// whatever runs between them, the first succeeds and the second fails.
pub proof fn lemma_activation_stays_done(
    accounts: AccountsView,
    id: u128,
    other: u128,
    user: UserView,
    any: u128,
)
    requires
        accounts.users.contains_key(id),
        !accounts.pending.contains(id),
        !accounts.users.contains_key(other),
    ensures
        !accounts.with_pending(other, user).pending.contains(id),
        !accounts.activated(any).pending.contains(id),
{
}

/// Registering, then activating, then logging in with the same handle, password
/// and pepper succeeds.
pub proof fn lemma_login_after_activation(
    accounts: AccountsView,
    id: u128,
    user: UserView,
    password: Seq<char>,
    pepper: Seq<u8>,
)
    requires
        !accounts.users.contains_key(id),
        !accounts.handle_or_contact_taken(user.username, user.mail),
        is_hash_of(password, pepper, user.password_hash),
    ensures
        login_outcome(accounts.with_pending(id, user).activated(id), user.username, password, pepper)
            == Ok::<(), LoginError>(()),
{
    let s = accounts.with_pending(id, user).activated(id);
    assert(s.users.contains_key(id) && s.users[id].username == user.username);
    let c = choose|c: u128| #[trigger] s.users.contains_key(c) && s.users[c].username == user.username;
    if c != id {
        assert(accounts.users.contains_key(c) && accounts.users[c].username == user.username);
    }
}

/// An unknown handle and a wrong password are refused alike.
pub proof fn lemma_login_rejections_alike(
    accounts: AccountsView,
    username: Seq<char>,
    password: Seq<char>,
    pepper: Seq<u8>,
)
    requires
        pepper.len() <= MAX_PEPPER_LEN,
    ensures
        !accounts.has_handle(username) ==> login_outcome(accounts, username, password, pepper)
            == Err::<(), LoginError>(LoginError::InvalidCredentials),
        accounts.has_handle(username) && phc_parses(accounts.by_handle(username).password_hash)
            && !phc_matches(password, accounts.by_handle(username).password_hash, pepper)
            ==> login_outcome(accounts, username, password, pepper) == Err::<(), LoginError>(
            LoginError::InvalidCredentials,
        ),
{
}

/// A stored hash that does not parse makes login fail with `CorruptHash`, not
/// with the credential error; only a pepper the hasher refuses is reported
/// first, as the configuration fault `HasherInit`.
pub proof fn lemma_login_corrupt_hash(
    accounts: AccountsView,
    username: Seq<char>,
    password: Seq<char>,
    pepper: Seq<u8>,
)
    requires
        accounts.has_handle(username),
        !phc_parses(accounts.by_handle(username).password_hash),
    ensures
        pepper.len() <= MAX_PEPPER_LEN ==> login_outcome(accounts, username, password, pepper)
            == Err::<(), LoginError>(LoginError::CorruptHash),
        pepper.len() > MAX_PEPPER_LEN ==> login_outcome(accounts, username, password, pepper)
            == Err::<(), LoginError>(LoginError::HasherInit),
{
}

} // verus!
