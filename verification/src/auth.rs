//! Local account authentication for LAN mode.
//!
//! Accounts hold Argon2id-hashed passwords; legacy SHA-256 hashes (64 hex
//! characters) are accepted on login and upgraded to Argon2id. Sessions are
//! random bearer tokens mapped to the user who logged in. Usernames are
//! compared without regard to ASCII case and stored in lower case.
use vstd::prelude::*;
use crate::clock::{now_rfc3339, age_secs, clock_ms, rfc3339_epoch_nanos};
use vstd::utf8::encode_utf8;
use vstd::string::StringSliceAdditionalSpecFns;
use crate::strmap::{StrMap, str_eq};
use crate::text::{chars_of, push_char};
use crate::prompt_queue::ids_of;

verus! {

/// Default storage limit per user: 1 GiB.
pub const DEFAULT_STORAGE_LIMIT: u64 = 1073741824;

/// Default image expiry: 7 days in seconds.
pub const DEFAULT_EXPIRY_SECS: u64 = 604800;

/// Session lifetime: 7 days in seconds.
pub const SESSION_TTL_SECS: i64 = 604800;

/// The default storage limit of an account.
pub fn default_storage_limit() -> (r: u64)
    ensures
        r == DEFAULT_STORAGE_LIMIT,
{
    DEFAULT_STORAGE_LIMIT
}

/// The default role of an account: `user`.
pub fn default_role() -> (r: String)
    ensures
        r@ == "user"@,
{
    String::from_str("user")
}

// ---------------------------------------------------------------------------
// ASCII case
// ---------------------------------------------------------------------------

/// ASCII lower case of one character.
pub open spec fn lower_char(c: char) -> char {
    if 'A' <= c && c <= 'Z' { ((c as u32) + 32) as char } else { c }
}

/// ASCII lower case of a text (`str::to_ascii_lowercase`).
pub open spec fn lower(s: Seq<char>) -> Seq<char> {
    s.map_values(|c: char| lower_char(c))
}

/// Equality ignoring ASCII case (`str::eq_ignore_ascii_case`).
pub open spec fn same_name(a: Seq<char>, b: Seq<char>) -> bool {
    lower(a) == lower(b)
}

fn lower_one(c: char) -> (r: char)
    ensures
        r == lower_char(c),
{
    if 'A' <= c && c <= 'Z' {
        let b = (c as u8) + 32;
        b as char
    } else {
        c
    }
}

/// ASCII lower case of a text.
pub fn ascii_lowercase(s: &str) -> (r: String)
    ensures
        r@ == lower(s@),
{
    let cs = chars_of(s);
    let mut r = String::new();
    let mut i: usize = 0;
    while i < cs.len()
        invariant
            i <= cs@.len(),
            cs@ == s@,
            r@ == lower(s@.take(i as int)),
        decreases cs@.len() - i,
    {
        push_char(&mut r, lower_one(cs[i]));
        assert(lower(s@.take(i + 1)) =~= lower(s@.take(i as int)).push(lower_char(s@[i as int])));
        i += 1;
    }
    assert(s@.take(cs@.len() as int) =~= s@);
    r
}

/// Whether two texts are equal ignoring ASCII case.
pub fn eq_ignore_ascii_case(a: &str, b: &str) -> (r: bool)
    ensures
        r == same_name(a@, b@),
{
    let la = ascii_lowercase(a);
    let lb = ascii_lowercase(b);
    str_eq(la.as_str(), lb.as_str())
}

// ---------------------------------------------------------------------------
// Password hashes
// ---------------------------------------------------------------------------

/// ASCII hexadecimal digit.
pub open spec fn is_hex_digit(c: char) -> bool {
    ('0' <= c && c <= '9') || ('a' <= c && c <= 'f') || ('A' <= c && c <= 'F')
}

/// A legacy hash: 64 hexadecimal digits.
pub open spec fn legacy_hash(h: Seq<char>) -> bool {
    h.len() == 64 && forall|i: int| 0 <= i < 64 ==> is_hex_digit(#[trigger] h[i])
}

/// Returns true if the stored hash is a legacy 64-character hex SHA-256 string.
pub fn is_legacy_sha256(hash: &str) -> (r: bool)
    ensures
        r == legacy_hash(hash@),
{
    let cs = chars_of(hash);
    if cs.len() != 64 {
        return false;
    }
    let mut i: usize = 0;
    while i < 64
        invariant
            i <= 64,
            cs@ == hash@,
            cs@.len() == 64,
            forall|j: int| 0 <= j < i ==> is_hex_digit(#[trigger] cs@[j]),
        decreases 64 - i,
    {
        let c = cs[i];
        if !(('0' <= c && c <= '9') || ('a' <= c && c <= 'f') || ('A' <= c && c <= 'F')) {
            return false;
        }
        i += 1;
    }
    true
}

/// Lower-case hexadecimal digit of a nibble.
pub open spec fn hex_digit(n: int) -> char {
    if n < 10 { (('0' as int) + n) as char } else { (('a' as int) + n - 10) as char }
}

/// Lower-case hexadecimal text of bytes, two digits per byte, high nibble first.
pub open spec fn hex_of(b: Seq<u8>) -> Seq<char>
    decreases b.len(),
{
    if b.len() == 0 {
        Seq::empty()
    } else {
        hex_of(b.drop_last()) + seq![hex_digit(b.last() as int / 16), hex_digit(b.last() as int % 16)]
    }
}

fn nibble_char(n: u8) -> (c: char)
    requires
        n < 16,
    ensures
        c == hex_digit(n as int),
{
    if n < 10 {
        (0x30u8 + n) as char
    } else {
        (0x61u8 + n - 10) as char
    }
}

/// Lower-case hexadecimal text of bytes (`hex::encode`, `{:x}` of a digest).
pub fn hex_encode(bytes: &[u8]) -> (s: String)
    ensures
        s@ == hex_of(bytes@),
{
    let mut s = String::new();
    let mut i: usize = 0;
    while i < bytes.len()
        invariant
            i <= bytes@.len(),
            s@ == hex_of(bytes@.take(i as int)),
        decreases bytes@.len() - i,
    {
        let b = bytes[i];
        push_char(&mut s, nibble_char(b / 16));
        push_char(&mut s, nibble_char(b % 16));
        assert(bytes@.take(i + 1).drop_last() =~= bytes@.take(i as int));
        assert(hex_of(bytes@.take(i + 1)) =~= hex_of(bytes@.take(i as int)) + seq![hex_digit(b as int / 16), hex_digit(b as int % 16)]);
        i += 1;
    }
    assert(bytes@.take(bytes@.len() as int) =~= bytes@);
    s
}

/// The SHA-256 digest of the bytes (32 bytes).
pub uninterp spec fn sha256_digest(data: Seq<u8>) -> Seq<u8>;

/// Whether Argon2 verifies the password against the PHC string (an
/// unparsable string verifies nothing).
pub uninterp spec fn argon2_accepts(password: Seq<u8>, phc: Seq<char>) -> bool;

/// sha2 `Sha256::digest`: the 32-byte digest, a function of the input alone.
#[verifier::external_body]
fn sha256(data: &[u8]) -> (d: Vec<u8>)
    ensures
        d@ == sha256_digest(data@),
        d@.len() == 32,
{
    <sha2::Sha256 as sha2::Digest>::digest(data).to_vec()
}

/// argon2 `Argon2::default().verify_password` on a PHC string (parsed first):
/// whether the password matches the PHC string, a function of the two alone.
#[verifier::external_body]
fn argon2_verify(password: &[u8], phc: &str) -> (r: bool)
    ensures
        r == argon2_accepts(password@, phc@),
{
    argon2::PasswordVerifier::<str>::verify_password(&argon2::Argon2::default(), password, phc).is_ok()
}

/// argon2 `Argon2::default().hash_password` with a fresh random salt, as a
/// PHC string. Its documentation shows that the string starts with
/// `$argon2id$` and that verifying the same password against it succeeds;
/// the salt, and so the string, is random. `None` when the crate reports an
/// error (a password longer than 2^32 - 1 bytes, or no randomness).
#[verifier::external_body]
fn argon2_hash(password: &[u8]) -> (r: Option<String>)
    ensures
        r matches Some(h) ==> h@.len() > 0 && h@[0] == '$' && argon2_accepts(password@, h@),
{
    match argon2::PasswordHasher::hash_password(&argon2::Argon2::default(), password) {
        Ok(h) => Some(h.to_string()),
        Err(_) => None,
    }
}

/// Whether a password matches a stored hash: legacy hashes compare the
/// lower-case hex SHA-256 digest, other hashes go through Argon2.
pub open spec fn password_matches(password: Seq<char>, stored: Seq<char>) -> bool {
    if legacy_hash(stored) {
        hex_of(sha256_digest(encode_utf8(password))) == stored
    } else {
        argon2_accepts(encode_utf8(password), stored)
    }
}

/// Verify a password against a stored hash (Argon2id PHC string or legacy
/// SHA-256 hex).
pub fn verify_password(password: &str, stored_hash: &str) -> (r: bool)
    ensures
        r == password_matches(password@, stored_hash@),
{
    if is_legacy_sha256(stored_hash) {
        let d = sha256(password.as_bytes());
        let computed = hex_encode(d.as_slice());
        str_eq(computed.as_str(), stored_hash)
    } else {
        argon2_verify(password.as_bytes(), stored_hash)
    }
}

/// Hash a password with Argon2id (a PHC string including the salt); `None`
/// when hashing fails.
pub fn hash_password(password: &str) -> (r: Option<String>)
    ensures
        r matches Some(h) ==> !legacy_hash(h@) && password_matches(password@, h@),
{
    let r = argon2_hash(password.as_bytes());
    match r {
        Some(h) => {
            assert(!is_hex_digit(h@[0]));
            Some(h)
        },
        None => None,
    }
}

// ---------------------------------------------------------------------------
// Clock, randomness
// ---------------------------------------------------------------------------




/// rand `fill` from the thread generator: 32 random bytes.
#[verifier::external_body]
fn random_bytes_32() -> (b: Vec<u8>)
    ensures
        b@.len() == 32,
{
    let mut b = vec![0u8; 32];
    rand::fill(&mut b[..]);
    b
}

/// A new random session token: 64 lower-case hex digits.
pub fn generate_token() -> (t: String)
    ensures
        exists|b: Seq<u8>| b.len() == 32 && t@ == hex_of(b),
{
    let b = random_bytes_32();
    hex_encode(b.as_slice())
}

// ---------------------------------------------------------------------------
// Records
// ---------------------------------------------------------------------------

/// A stored user account.
pub struct Account {
    pub username: String,
    /// Argon2id hash (PHC string); legacy accounts may hold 64 hex digits of
    /// SHA-256, upgraded on login.
    pub password_hash: String,
    /// When true the user must pick a new password on next login.
    pub must_change_password: bool,
    /// Account role: `user`, `moderator` or `admin`.
    pub role: String,
    /// ISO 8601 creation time.
    pub created_at: String,
    /// ISO 8601 time the user was last seen active (persisted periodically).
    pub last_online: Option<String>,
    /// Maximum gallery storage in bytes.
    pub storage_limit_bytes: u64,
    /// Whether a user-role account may use the Model Hub.
    pub can_use_modelhub: bool,
}

/// An account seen as values.
pub struct AccountView {
    pub username: Seq<char>,
    pub password_hash: Seq<char>,
    pub must_change_password: bool,
    pub role: Seq<char>,
    pub created_at: Seq<char>,
    pub last_online: Option<Seq<char>>,
    pub storage_limit_bytes: u64,
    pub can_use_modelhub: bool,
}

/// The text of an optional string.
pub open spec fn opt_view(o: Option<String>) -> Option<Seq<char>> {
    match o {
        Some(s) => Some(s@),
        None => None,
    }
}

impl View for Account {
    type V = AccountView;

    open spec fn view(&self) -> AccountView {
        AccountView {
            username: self.username@,
            password_hash: self.password_hash@,
            must_change_password: self.must_change_password,
            role: self.role@,
            created_at: self.created_at@,
            last_online: opt_view(self.last_online),
            storage_limit_bytes: self.storage_limit_bytes,
            can_use_modelhub: self.can_use_modelhub,
        }
    }
}

/// The accounts database.
pub struct AuthDatabase {
    pub accounts: Vec<Account>,
}

impl AuthDatabase {
    /// An empty database.
    pub fn new() -> (d: Self)
        ensures
            d.accounts@.len() == 0,
    {
        AuthDatabase { accounts: Vec::new() }
    }
}

/// A session: the user it belongs to and when it was created (ISO 8601).
pub struct SessionEntry {
    pub username: String,
    pub created_at: String,
}

impl DeepView for SessionEntry {
    type V = (Seq<char>, Seq<char>);

    open spec fn deep_view(&self) -> (Seq<char>, Seq<char>) {
        (self.username@, self.created_at@)
    }
}

/// The views of a list of accounts.
pub open spec fn accounts_view(v: Seq<Account>) -> Seq<AccountView> {
    v.map_values(|a: Account| a@)
}

/// The index of the first account whose name equals `name` ignoring ASCII
/// case, searching from `i`.
pub open spec fn account_from(accts: Seq<AccountView>, name: Seq<char>, i: int) -> Option<int>
    decreases accts.len() - i,
{
    if i < 0 || i >= accts.len() {
        None
    } else if same_name(accts[i].username, name) {
        Some(i)
    } else {
        account_from(accts, name, i + 1)
    }
}

/// The index of the first account whose name equals `name` ignoring ASCII case.
pub open spec fn account_index(accts: Seq<AccountView>, name: Seq<char>) -> Option<int> {
    account_from(accts, name, 0)
}

pub proof fn lemma_account_from(accts: Seq<AccountView>, name: Seq<char>, i: int)
    requires
        0 <= i,
    ensures
        account_from(accts, name, i) matches Some(k) ==> i <= k < accts.len()
            && same_name(accts[k].username, name)
            && forall|j: int| i <= j < k ==> !same_name(#[trigger] accts[j].username, name),
        account_from(accts, name, i) is None ==> forall|j: int| i <= j < accts.len()
            ==> !same_name(#[trigger] accts[j].username, name),
    decreases accts.len() - i,
{
    if i < accts.len() && !same_name(accts[i].username, name) {
        lemma_account_from(accts, name, i + 1);
    }
}

/// The keys of the sessions that belong to `name` (ignoring ASCII case).
pub open spec fn sessions_of(m: Map<Seq<char>, (Seq<char>, Seq<char>)>, name: Seq<char>) -> Set<Seq<char>> {
    Set::new(|k: Seq<char>| m.contains_key(k) && same_name(m[k].0, name))
}

/// A role an account may have.
pub open spec fn valid_role(r: Seq<char>) -> bool {
    r == "user"@ || r == "moderator"@ || r == "admin"@
}

/// `after` is `before` with one new account for `username` (lower case),
/// whose hash matches `password` and is not a legacy hash, with the given
/// temporary flag, role `user`, no last-online time, the default storage
/// limit and no Model Hub access.
pub open spec fn created(before: Seq<AccountView>, after: Seq<AccountView>, username: Seq<char>,
    password: Seq<char>, temp: bool) -> bool {
    &&& after.len() == before.len() + 1
    &&& after.take(before.len() as int) == before
    &&& after.last().username == lower(username)
    &&& password_matches(password, after.last().password_hash)
    &&& !legacy_hash(after.last().password_hash)
    &&& after.last().must_change_password == temp
    &&& after.last().role == "user"@
    &&& after.last().last_online is None
    &&& after.last().storage_limit_bytes == DEFAULT_STORAGE_LIMIT
    &&& !after.last().can_use_modelhub
}

/// The accounts after storing `ts` as last-online time on those with activity.
pub open spec fn flushed(accts: Seq<AccountView>, act: Map<Seq<char>, u64>, ts: Seq<char>) -> Seq<AccountView> {
    accts.map_values(|a: AccountView| if act.contains_key(lower(a.username)) {
        AccountView { last_online: Some(ts), ..a } } else { a })
}

/// `s` is the status row of account `a` given activity, the time and the threshold.
pub open spec fn status_of(s: UserStatus, a: AccountView, act: Map<Seq<char>, u64>, now: u64, threshold: u64) -> bool {
    &&& s.0@ == a.username
    &&& s.1@ == a.role
    &&& s.2 == (act.contains_key(lower(a.username)) && (if now >= act[lower(a.username)] {
        now - act[lower(a.username)] } else { 0 }) < threshold)
    &&& s.3@ == a.created_at
    &&& opt_view(s.4) == a.last_online
    &&& s.5 == a.storage_limit_bytes
    &&& s.6 == a.can_use_modelhub
}

/// Validating `token` against the sessions `before`, given the session's age
/// in seconds (`None` when its creation time does not parse), answers `r`
/// and leaves `after`: an unknown token is refused; a session younger than
/// the TTL answers its user; an older or unreadable one is refused and
/// removed.
pub open spec fn token_verdict(before: Map<Seq<char>, (Seq<char>, Seq<char>)>, after: Map<Seq<char>, (Seq<char>,
    Seq<char>)>, token: Seq<char>, age: Option<i64>, r: Option<Seq<char>>) -> bool {
    if !before.contains_key(token) {
        r is None && after == before
    } else {
        match age {
            Some(a) if a < SESSION_TTL_SECS => r == Some(before[token].0) && after == before,
            _ => r is None && after == before.remove(token),
        }
    }
}

/// `after` is `before` with a new session `token` of `user` (created at some time).
pub open spec fn session_added(before: Map<Seq<char>, (Seq<char>, Seq<char>)>, after: Map<Seq<char>, (Seq<char>,
    Seq<char>)>, token: Seq<char>, user: Seq<char>) -> bool {
    exists|c: Seq<char>| after == before.insert(token, (user, c))
}

/// After a successful login on account `i`: the other accounts are unchanged;
/// a legacy hash has been replaced by an Argon2id hash of the password,
/// nothing else changes.
pub open spec fn login_rehashed(before: Seq<AccountView>, after: Seq<AccountView>, i: int, pw: Seq<char>) -> bool {
    &&& after.len() == before.len()
    &&& forall|j: int| 0 <= j < before.len() && j != i ==> after[j] == before[j]
    &&& legacy_hash(before[i].password_hash) ==> (after[i] == AccountView {
        password_hash: after[i].password_hash, ..before[i] }) && !legacy_hash(after[i].password_hash)
        && password_matches(pw, after[i].password_hash)
    &&& !legacy_hash(before[i].password_hash) ==> after[i] == before[i]
}

/// Every row of `r` is the status of the account at the same position.
pub open spec fn statuses_at(r: Seq<UserStatus>, accts: Seq<AccountView>, act: Map<Seq<char>, u64>, now: u64,
    threshold: u64) -> bool {
    r.len() == accts.len() && forall|i: int| 0 <= i < r.len() ==> status_of(#[trigger] r[i], accts[i], act, now,
        threshold)
}

proof fn lemma_lower_idem(s: Seq<char>)
    ensures
        lower(lower(s)) == lower(s),
{
    assert(lower(lower(s)) =~= lower(s));
}

proof fn lemma_same_index(accts: Seq<AccountView>, a: Seq<char>, b: Seq<char>)
    requires
        lower(a) == lower(b),
    ensures
        account_index(accts, a) == account_index(accts, b),
{
    lemma_same_from(accts, a, b, 0);
}

proof fn lemma_same_from(accts: Seq<AccountView>, a: Seq<char>, b: Seq<char>, i: int)
    requires
        lower(a) == lower(b),
    ensures
        account_from(accts, a, i) == account_from(accts, b, i),
    decreases accts.len() - i,
{
    if 0 <= i < accts.len() && !same_name(accts[i].username, a) {
        lemma_same_from(accts, a, b, i + 1);
    }
}

/// Law: looking an account up by name ignores ASCII case: two names that
/// lower to the same text find the same account (and so the same role,
/// limits and access).
pub proof fn law_lookup_ignores_case(accts: Seq<AccountView>, a: Seq<char>, b: Seq<char>)
    requires
        lower(a) == lower(b),
    ensures
        account_index(accts, a) == account_index(accts, b),
{
    lemma_same_index(accts, a, b);
}

/// Law: whatever sequence of operations produced it (creating, loading,
/// renaming roles, deleting, ...), a valid auth state holds usernames in
/// ASCII lower case, no two accounts sharing one.
pub proof fn law_names_stay_normal(s: &AuthState)
    requires
        s.wf(),
    ensures
        names_normal(s.accounts()),
{
}

proof fn lemma_account_from_same_names(a: Seq<AccountView>, b: Seq<AccountView>, name: Seq<char>, i: int)
    requires
        a.len() == b.len(),
        forall|k: int| 0 <= k < a.len() ==> (#[trigger] a[k]).username == b[k].username,
    ensures
        account_from(a, name, i) == account_from(b, name, i),
    decreases a.len() - i,
{
    if 0 <= i < a.len() {
        assert(a[i].username == b[i].username);
        lemma_account_from_same_names(a, b, name, i + 1);
    }
}

/// Law: looking an account up by name depends on the usernames alone: two
/// account lists with the same usernames, in the same places, find the same
/// account for every name.
pub proof fn law_lookup_by_names_only(a: Seq<AccountView>, b: Seq<AccountView>, name: Seq<char>)
    requires
        a.len() == b.len(),
        forall|k: int| 0 <= k < a.len() ==> (#[trigger] a[k]).username == b[k].username,
    ensures
        account_index(a, name) == account_index(b, name),
{
    lemma_account_from_same_names(a, b, name, 0);
}

/// Law: after a successful login (the password matched the stored hash),
/// the same name still finds the same account, whose hash is an Argon2id
/// hash that the password matches; so logging in again with that password
/// succeeds (see [`AuthState::login`]), a legacy hash having been upgraded.
pub proof fn law_login_leaves_fresh_hash(before: Seq<AccountView>, after: Seq<AccountView>, name: Seq<char>,
    pw: Seq<char>)
    requires
        account_index(before, name) matches Some(i) && password_matches(pw, before[i].password_hash),
        login_rehashed(before, after, account_index(before, name)->0, pw),
    ensures
        account_index(after, name) == account_index(before, name),
        password_matches(pw, after[account_index(before, name)->0].password_hash),
        !legacy_hash(after[account_index(before, name)->0].password_hash),
{
    let i = account_index(before, name)->0;
    lemma_account_from(before, name, 0);
    assert forall|k: int| 0 <= k < before.len() implies (#[trigger] before[k]).username == after[k].username by {
        if k != i {
            assert(after[k] == before[k]);
        }
    }
    law_lookup_by_names_only(before, after, name);
}

/// Law: after a successful password change the same name finds the same
/// account, whose hash is an Argon2id hash that the new password matches and
/// whose must-change flag is cleared; so logging in with the new password
/// succeeds and reports no required change (see [`AuthState::login`]).
pub proof fn law_changed_password_logs_in(before: Seq<AccountView>, after: Seq<AccountView>, name: Seq<char>,
    new_pw: Seq<char>)
    requires
        account_index(before, name) matches Some(i) && after == before.update(i, AccountView {
            password_hash: after[i].password_hash,
            must_change_password: false,
            ..before[i]
        }),
        password_matches(new_pw, after[account_index(before, name)->0].password_hash),
        !legacy_hash(after[account_index(before, name)->0].password_hash),
    ensures
        account_index(after, name) == account_index(before, name),
        password_matches(new_pw, after[account_index(before, name)->0].password_hash),
        !legacy_hash(after[account_index(before, name)->0].password_hash),
        !after[account_index(before, name)->0].must_change_password,
{
    let i = account_index(before, name)->0;
    lemma_account_from(before, name, 0);
    assert forall|k: int| 0 <= k < before.len() implies (#[trigger] before[k]).username == after[k].username by {
        if k != i {
            assert(after[k] == before[k]);
        }
    }
    law_lookup_by_names_only(before, after, name);
}

/// Law: the session a login adds answers its user when validated while it is
/// younger than the session lifetime, and stays.
pub proof fn law_login_then_validate(before: Map<Seq<char>, (Seq<char>, Seq<char>)>, after: Map<Seq<char>,
    (Seq<char>, Seq<char>)>, token: Seq<char>, user: Seq<char>, age: i64, later: Map<Seq<char>, (Seq<char>,
    Seq<char>)>, r: Option<Seq<char>>)
    requires
        session_added(before, after, token, user),
        age < SESSION_TTL_SECS,
        token_verdict(after, later, token, Some(age), r),
    ensures
        r == Some(user),
        later == after,
{
}

proof fn lemma_hex_len(b: Seq<u8>)
    ensures
        hex_of(b).len() == 2 * b.len(),
    decreases b.len(),
{
    if b.len() > 0 {
        lemma_hex_len(b.drop_last());
    }
}

/// A user's status as listed by [`AuthState::list_users_status`]: name,
/// role, online, created at, last online, storage limit, Model Hub access.
pub type UserStatus = (String, String, bool, String, Option<String>, u64, bool);

/// Auth state: accounts, sessions and per-user last activity (milliseconds
/// on the wall clock).
pub struct AuthState {
    db: AuthDatabase,
    sessions: StrMap<SessionEntry>,
    last_activity: StrMap<u64>,
}

impl AuthState {
    pub closed spec fn wf(&self) -> bool {
        self.sessions.wf() && self.last_activity.wf() && names_normal(self.accounts())
    }

    /// The accounts, in order.
    pub closed spec fn accounts(&self) -> Seq<AccountView> {
        accounts_view(self.db.accounts@)
    }

    /// token → (username, created at).
    pub closed spec fn sessions(&self) -> Map<Seq<char>, (Seq<char>, Seq<char>)> {
        self.sessions.view()
    }

    /// lower-case username → last activity (ms).
    pub closed spec fn activity(&self) -> Map<Seq<char>, u64> {
        self.last_activity.view()
    }

    /// No accounts, sessions or activity.
    pub fn new() -> (s: Self)
        ensures
            s.wf(),
            s.accounts() == Seq::<AccountView>::empty(),
            s.sessions() == Map::<Seq<char>, (Seq<char>, Seq<char>)>::empty(),
            s.activity() == Map::<Seq<char>, u64>::empty(),
    {
        let s = AuthState { db: AuthDatabase::new(), sessions: StrMap::new(), last_activity: StrMap::new() };
        assert(s.accounts() =~= Seq::<AccountView>::empty());
        s
    }

    /// The sessions by token (for persisting them).
    pub fn session_store(&self) -> (s: &StrMap<SessionEntry>)
        ensures
            s.view() == self.sessions(),
    {
        &self.sessions
    }

    /// The accounts database (for persisting it).
    pub fn database(&self) -> (d: &AuthDatabase)
        ensures
            accounts_view(d.accounts@) == self.accounts(),
    {
        &self.db
    }

    fn find(&self, username: &str) -> (r: Option<usize>)
        ensures
            match r {
                Some(i) => account_index(self.accounts(), username@) == Some(i as int) && i < self.accounts().len()
                    && same_name(self.accounts()[i as int].username, username@),
                None => account_index(self.accounts(), username@) is None,
            },
    {
        let ghost a = self.accounts();
        proof {
            lemma_account_from(a, username@, 0);
        }
        let mut i: usize = 0;
        while i < self.db.accounts.len()
            invariant
                a == self.accounts(),
                i <= self.db.accounts@.len(),
                account_from(a, username@, 0) == account_from(a, username@, i as int),
            decreases self.db.accounts@.len() - i,
        {
            assert(a[i as int] == self.db.accounts@[i as int]@);
            if eq_ignore_ascii_case(self.db.accounts[i].username.as_str(), username) {
                return Some(i);
            }
            i += 1;
        }
        None
    }

    /// Replace account `i` by `a`.
    fn replace_account(&mut self, i: usize, a: Account)
        requires
            i < old(self).accounts().len(),
            a@.username == old(self).accounts()[i as int].username,
        ensures
            final(self).accounts() == old(self).accounts().update(i as int, a@),
            final(self).sessions() == old(self).sessions(),
            final(self).activity() == old(self).activity(),
            final(self).wf() == old(self).wf(),
    {
        let ghost before = self.db.accounts@;
        let ghost a0 = self.accounts();
        self.db.accounts.set(i, a);
        assert(accounts_view(self.db.accounts@) =~= accounts_view(before).update(i as int, a@));
        assert(forall|k: int| 0 <= k < a0.len() ==> (#[trigger] self.accounts()[k]).username == a0[k].username);
        assert(names_normal(self.accounts()) == names_normal(a0)) by {
            let n = self.accounts();
            if names_normal(a0) {
                assert forall|p: int, q: int| 0 <= p < q < n.len() implies (#[trigger] n[p]).username
                    != (#[trigger] n[q]).username by {
                    assert(a0[p].username != a0[q].username);
                }
                assert forall|p: int| 0 <= p < n.len() implies lower(#[trigger] n[p].username) == n[p].username by {
                    assert(lower(a0[p].username) == a0[p].username);
                }
            }
            if names_normal(n) {
                assert forall|p: int, q: int| 0 <= p < q < a0.len() implies (#[trigger] a0[p]).username
                    != (#[trigger] a0[q]).username by {
                    assert(n[p].username != n[q].username);
                }
                assert forall|p: int| 0 <= p < a0.len() implies lower(#[trigger] a0[p].username) == a0[p].username by {
                    assert(lower(n[p].username) == n[p].username);
                }
            }
        }
    }

    /// Take account `i` out, leaving the others in place (to be put back by
    /// [`Self::replace_account`]).
    fn account_copy(&self, i: usize) -> (a: Account)
        requires
            i < self.accounts().len(),
        ensures
            a@ == self.accounts()[i as int],
    {
        let src = &self.db.accounts[i];
        let last_online = match &src.last_online {
            Some(t) => Some(t.clone()),
            None => None,
        };
        Account {
            username: src.username.clone(),
            password_hash: src.password_hash.clone(),
            must_change_password: src.must_change_password,
            role: src.role.clone(),
            created_at: src.created_at.clone(),
            last_online,
            storage_limit_bytes: src.storage_limit_bytes,
            can_use_modelhub: src.can_use_modelhub,
        }
    }

    /// Remove every session of `username` (ignoring ASCII case).
    fn drop_sessions_of(&mut self, username: &str)
        requires
            old(self).wf(),
        ensures
            final(self).wf(),
            final(self).sessions() == old(self).sessions().remove_keys(sessions_of(old(self).sessions(), username@)),
            final(self).accounts() == old(self).accounts(),
            final(self).activity() == old(self).activity(),
    {
        let ghost m = self.sessions.view();
        let ghost want = sessions_of(m, username@);
        let mut drop: Vec<String> = Vec::new();
        let n = self.sessions.len();
        let mut j: usize = 0;
        while j < n
            invariant
                self.sessions.wf(),
                m == self.sessions.view(),
                n == self.sessions.spec_len(),
                want == sessions_of(m, username@),
                j <= n,
                forall|k: int| 0 <= k < drop@.len() ==> #[trigger] want.contains(drop@[k]@),
                forall|k: int| 0 <= k < j && want.contains(self.sessions.spec_key(k))
                    ==> #[trigger] ids_of(drop@).contains(self.sessions.spec_key(k)),
            decreases n - j,
        {
            let (tok, entry) = self.sessions.entry(j);
            proof {
                self.sessions.lemma_index(j as int);
            }
            if eq_ignore_ascii_case(entry.username.as_str(), username) {
                let ghost before = drop@;
                drop.push(tok.clone());
                proof {
                    assert forall|k: int| 0 <= k < drop@.len() implies #[trigger] want.contains(drop@[k]@) by {
                        if k < before.len() {
                            assert(drop@[k] == before[k]);
                        }
                    }
                    assert forall|k: int| 0 <= k < j + 1 && want.contains(self.sessions.spec_key(k))
                        implies #[trigger] ids_of(drop@).contains(self.sessions.spec_key(k)) by {
                        if k < j {
                            let bv = ids_of(before);
                            assert(bv.contains(self.sessions.spec_key(k)));
                            let q = choose|q: int| 0 <= q < bv.len() && #[trigger] bv[q] == self.sessions.spec_key(k);
                            assert(drop@[q] == before[q]);
                            assert(ids_of(drop@)[q] == self.sessions.spec_key(k));
                        } else {
                            assert(ids_of(drop@)[drop@.len() - 1] == self.sessions.spec_key(k));
                        }
                    }
                }
            }
            j += 1;
        }
        proof {
            let d = ids_of(drop@).to_set();
            assert(m.remove_keys(d) =~= m.remove_keys(want)) by {
                assert forall|x: Seq<char>| m.contains_key(x) implies (d.contains(x) <==> want.contains(x)) by {
                    if d.contains(x) {
                        let dv = ids_of(drop@);
                        let k = choose|k: int| 0 <= k < dv.len() && #[trigger] dv[k] == x;
                        assert(want.contains(drop@[k]@));
                    }
                    if want.contains(x) {
                        self.sessions.lemma_covered(x);
                        let k = choose|k: int| 0 <= k < self.sessions.spec_len() && self.sessions.spec_key(k) == x;
                        self.sessions.lemma_index(k);
                    }
                }
            }
        }
        self.sessions.remove_all(&drop);
    }

    /// Create a new account. Returns an error if the username already exists.
    pub fn create_account(&mut self, username: &str, password: &str) -> (r: Result<(), String>)
        requires
            old(self).wf(),
        ensures
            final(self).wf(),
            account_index(old(self).accounts(), username@) is Some ==> (r matches Err(m)
                && m@ == "Username already exists"@ && final(self).accounts() == old(self).accounts()),
            r is Ok ==> account_index(old(self).accounts(), username@) is None
                && created(old(self).accounts(), final(self).accounts(), username@, password@, false),
            r matches Err(m) ==> (account_index(old(self).accounts(), username@) is None
                ==> m@ == "Argon2 hashing failed"@ && final(self).accounts() == old(self).accounts()),
            final(self).sessions() == old(self).sessions(),
            final(self).activity() == old(self).activity(),
    {
        self.create_account_ex(username, password, false)
    }

    /// Create a new account, marking the password temporary when `temp`.
    pub fn create_account_ex(&mut self, username: &str, password: &str, temp: bool) -> (r: Result<(), String>)
        requires
            old(self).wf(),
        ensures
            final(self).wf(),
            account_index(old(self).accounts(), username@) is Some ==> (r matches Err(m)
                && m@ == "Username already exists"@ && final(self).accounts() == old(self).accounts()),
            r is Ok ==> account_index(old(self).accounts(), username@) is None
                && created(old(self).accounts(), final(self).accounts(), username@, password@, temp),
            r matches Err(m) ==> (account_index(old(self).accounts(), username@) is None
                ==> m@ == "Argon2 hashing failed"@ && final(self).accounts() == old(self).accounts()),
            final(self).sessions() == old(self).sessions(),
            final(self).activity() == old(self).activity(),
    {
        let name = ascii_lowercase(username);
        match self.find(name.as_str()) {
            Some(_) => {
                proof {
                    lemma_lower_idem(username@);
                    lemma_same_index(self.accounts(), name@, username@);
                }
                return Err(String::from_str("Username already exists"));
            },
            None => {},
        }
        proof {
            lemma_lower_idem(username@);
            lemma_same_index(self.accounts(), name@, username@);
        }
        let hash = hash_password(password);
        let ghost a0 = self.accounts();
        let r = self.add_account_hashed(username, hash, temp);
        proof {
            if r is Ok {
                assert(self.accounts().take(a0.len() as int) =~= a0);
            }
        }
        r
    }

    /// Add the account `username` (lowered) with the password hash that was
    /// computed for it: with a hash, the account is appended carrying exactly
    /// that hash, the temporary flag, role `user`, no last-online time, the
    /// default storage limit and no Model Hub access, and the result is `Ok`;
    /// without one (hashing failed), the hashing-failure error and nothing
    /// changes.
    pub fn add_account_hashed(&mut self, username: &str, hash: Option<String>, temp: bool) -> (r: Result<(), String>)
        requires
            old(self).wf(),
            account_index(old(self).accounts(), username@) is None,
            hash matches Some(h) ==> !legacy_hash(h@),
        ensures
            final(self).wf(),
            match hash {
                Some(h) => r is Ok && final(self).accounts() == old(self).accounts().push(AccountView {
                    username: lower(username@),
                    password_hash: h@,
                    must_change_password: temp,
                    role: "user"@,
                    created_at: final(self).accounts().last().created_at,
                    last_online: None,
                    storage_limit_bytes: DEFAULT_STORAGE_LIMIT,
                    can_use_modelhub: false,
                }),
                None => r matches Err(m) && m@ == "Argon2 hashing failed"@ && final(self).accounts()
                    == old(self).accounts(),
            },
            final(self).sessions() == old(self).sessions(),
            final(self).activity() == old(self).activity(),
    {
        let hash = match hash {
            Some(h) => h,
            None => {
                return Err(String::from_str("Argon2 hashing failed"));
            },
        };
        let name = ascii_lowercase(username);
        let ghost before = self.db.accounts@;
        let ghost old_acc = self.accounts();
        self.db.accounts.push(Account {
            username: name,
            password_hash: hash,
            must_change_password: temp,
            role: default_role(),
            created_at: now_rfc3339(),
            last_online: None,
            storage_limit_bytes: DEFAULT_STORAGE_LIMIT,
            can_use_modelhub: false,
        });
        assert(accounts_view(self.db.accounts@) =~= accounts_view(before).push(self.db.accounts@.last()@));
        assert(self.accounts().take(old_acc.len() as int) =~= old_acc);
        proof {
            let n = self.accounts();
            lemma_lower_idem(username@);
            lemma_account_from(old_acc, username@, 0);
            assert forall|p: int, q: int| 0 <= p < q < n.len() implies (#[trigger] n[p]).username
                != (#[trigger] n[q]).username by {
                assert(n[p] == old_acc[p]);
                if q < old_acc.len() {
                    assert(n[q] == old_acc[q]);
                } else {
                    assert(!same_name(old_acc[p].username, username@));
                    assert(lower(old_acc[p].username) == old_acc[p].username);
                }
            }
            assert forall|p: int| 0 <= p < n.len() implies lower(#[trigger] n[p].username) == n[p].username by {
                if p < old_acc.len() {
                    assert(n[p] == old_acc[p]);
                }
            }
        }
        Ok(())
    }

    /// Store the password hash computed for account `i` with the given
    /// must-change flag: with a hash, account `i` carries exactly that hash
    /// and flag (all else kept) and the result is `Ok`; without one (hashing
    /// failed), the hashing-failure error and nothing changes.
    pub fn set_password_hash(&mut self, i: usize, hash: Option<String>, must_change: bool) -> (r: Result<(), String>)
        requires
            old(self).wf(),
            i < old(self).accounts().len(),
            hash matches Some(h) ==> !legacy_hash(h@),
        ensures
            final(self).wf(),
            match hash {
                Some(h) => r is Ok && final(self).accounts() == old(self).accounts().update(i as int, AccountView {
                    password_hash: h@,
                    must_change_password: must_change,
                    ..old(self).accounts()[i as int]
                }),
                None => r matches Err(m) && m@ == "Argon2 hashing failed"@ && final(self).accounts()
                    == old(self).accounts(),
            },
            final(self).sessions() == old(self).sessions(),
            final(self).activity() == old(self).activity(),
    {
        let h = match hash {
            Some(h) => h,
            None => {
                return Err(String::from_str("Argon2 hashing failed"));
            },
        };
        let mut a = self.account_copy(i);
        a.password_hash = h;
        a.must_change_password = must_change;
        self.replace_account(i, a);
        Ok(())
    }

    /// Authenticate and return a new session token and whether the user must
    /// change the password. A legacy hash is replaced by an Argon2id one; when
    /// that hashing fails the login fails with the hashing error.
    pub fn login(&mut self, username: &str, password: &str) -> (r: Result<(String, bool), String>)
        requires
            old(self).wf(),
        ensures
            final(self).wf(),
            (r matches Err(m) && m@ == "Invalid username or password"@) <==> !(account_index(old(self).accounts(),
                username@) matches Some(i) && password_matches(password@, old(self).accounts()[i].password_hash)),
            (account_index(old(self).accounts(), username@) matches Some(i) && password_matches(password@,
                old(self).accounts()[i].password_hash) && !legacy_hash(old(self).accounts()[i].password_hash))
                ==> r is Ok,
            r matches Err(m) ==> (m@ == "Invalid username or password"@ || (m@ == "Argon2 hashing failed"@
                && (account_index(old(self).accounts(), username@) matches Some(i)
                && password_matches(password@, old(self).accounts()[i].password_hash)
                && legacy_hash(old(self).accounts()[i].password_hash)))),
            r is Err ==> final(self).accounts() == old(self).accounts() && final(self).sessions()
                == old(self).sessions(),
            r matches Ok(t) ==> t.1 == old(self).accounts()[account_index(old(self).accounts(), username@)->0]
                .must_change_password,
            r matches Ok(t) ==> t.0@.len() == 64 && exists|b: Seq<u8>| b.len() == 32 && t.0@ == hex_of(b),
            r matches Ok(t) ==> session_added(old(self).sessions(), final(self).sessions(), t.0@, lower(username@)),
            r is Ok ==> login_rehashed(old(self).accounts(), final(self).accounts(),
                account_index(old(self).accounts(), username@)->0, password@),
            final(self).activity() == old(self).activity(),
    {
        let i = match self.find(username) {
            Some(i) => i,
            None => {
                return Err(String::from_str("Invalid username or password"));
            },
        };
        let ghost a0 = self.accounts();
        let ghost s0 = self.sessions();
        assert(a0[i as int] == self.db.accounts@[i as int]@);
        if !verify_password(password, self.db.accounts[i].password_hash.as_str()) {
            return Err(String::from_str("Invalid username or password"));
        }
        let must_change = self.db.accounts[i].must_change_password;
        if is_legacy_sha256(self.db.accounts[i].password_hash.as_str()) {
            let upgraded = self.set_password_hash(i, hash_password(password), must_change);
            if upgraded.is_err() {
                proof {
                    reveal_strlit("Argon2 hashing failed");
                    reveal_strlit("Invalid username or password");
                    assert("Argon2 hashing failed"@[0] != "Invalid username or password"@[0]);
                }
                return Err(String::from_str("Argon2 hashing failed"));
            }
        }
        assert(login_rehashed(a0, self.accounts(), i as int, password@));
        let token = generate_token();
        proof {
            let b = choose|b: Seq<u8>| b.len() == 32 && token@ == hex_of(b);
            lemma_hex_len(b);
        }
        let name = ascii_lowercase(username);
        let entry = SessionEntry { username: name, created_at: now_rfc3339() };
        let ghost c = entry.created_at@;
        let ghost a1 = self.accounts();
        assert(self.sessions() == s0);
        self.sessions.insert(token.clone(), entry);
        assert(self.sessions() == s0.insert(token@, (lower(username@), c)));
        assert(s0 == old(self).sessions());
        assert(session_added(old(self).sessions(), self.sessions(), token@, lower(username@)));
        assert(self.accounts() == a1);
        assert(a1.len() == a0.len());
        Ok((token, must_change))
    }

    /// The verdict on a session token given the session's age in seconds
    /// (see [`token_verdict`])
    /// (`None` when its timestamp does not parse): the username while the
    /// session is younger than the TTL; an expired or unreadable session is
    /// removed.
    pub fn validate_token_at(&mut self, token: &str, age: Option<i64>) -> (r: Option<String>)
        requires
            old(self).wf(),
        ensures
            final(self).wf(),
            token_verdict(old(self).sessions(), final(self).sessions(), token@, age, r.deep_view()),
            final(self).accounts() == old(self).accounts(),
            final(self).activity() == old(self).activity(),
    {
        let user = match self.sessions.get(token) {
            Some(e) => e.username.clone(),
            None => {
                return None;
            },
        };
        let live = match age {
            Some(a) => a < SESSION_TTL_SECS,
            None => false,
        };
        if live {
            Some(user)
        } else {
            self.sessions.remove(token);
            None
        }
    }

    /// Validate a session token: the username if the session exists and has
    /// not expired; an expired session, or one whose creation time does not
    /// parse, is removed. The verdict is [`token_verdict`] for the age of the
    /// session's own creation time; that age depends on the clock.
    pub fn validate_token(&mut self, token: &str) -> (r: Option<String>)
        requires
            old(self).wf(),
        ensures
            final(self).wf(),
            exists|age: Option<i64>| {
                &&& (old(self).sessions().contains_key(token@) ==> (age is None <==> rfc3339_epoch_nanos(
                    old(self).sessions()[token@].1) is None))
                &&& #[trigger] token_verdict(old(self).sessions(), final(self).sessions(), token@, age, r.deep_view())
            },
            final(self).accounts() == old(self).accounts(),
            final(self).activity() == old(self).activity(),
    {
        let age = match self.sessions.get(token) {
            Some(e) => age_secs(e.created_at.as_str()),
            None => None,
        };
        let ghost before = self.sessions();
        let r = self.validate_token_at(token, age);
        assert(token_verdict(before, self.sessions(), token@, age, r.deep_view()));
        r
    }

    /// Invalidate a session token.
    pub fn logout(&mut self, token: &str)
        requires
            old(self).wf(),
        ensures
            final(self).wf(),
            final(self).sessions() == old(self).sessions().remove(token@),
            final(self).accounts() == old(self).accounts(),
            final(self).activity() == old(self).activity(),
    {
        self.sessions.remove(token);
    }

    /// All account usernames, in order.
    pub fn list_accounts(&self) -> (r: Vec<String>)
        ensures
            r@.len() == self.accounts().len(),
            forall|i: int| 0 <= i < r@.len() ==> (#[trigger] r@[i])@ == self.accounts()[i].username,
    {
        let mut r: Vec<String> = Vec::new();
        let mut i: usize = 0;
        while i < self.db.accounts.len()
            invariant
                i <= self.db.accounts@.len(),
                r@.len() == i,
                forall|j: int| 0 <= j < i ==> (#[trigger] r@[j])@ == self.accounts()[j].username,
            decreases self.db.accounts@.len() - i,
        {
            r.push(self.db.accounts[i].username.clone());
            i += 1;
        }
        r
    }

    /// All accounts as (username, role), in order.
    pub fn list_accounts_with_roles(&self) -> (r: Vec<(String, String)>)
        ensures
            r@.len() == self.accounts().len(),
            forall|i: int| 0 <= i < r@.len() ==> (#[trigger] r@[i]).0@ == self.accounts()[i].username
                && r@[i].1@ == self.accounts()[i].role,
    {
        let mut r: Vec<(String, String)> = Vec::new();
        let mut i: usize = 0;
        while i < self.db.accounts.len()
            invariant
                i <= self.db.accounts@.len(),
                r@.len() == i,
                forall|j: int| 0 <= j < i ==> (#[trigger] r@[j]).0@ == self.accounts()[j].username
                    && r@[j].1@ == self.accounts()[j].role,
            decreases self.db.accounts@.len() - i,
        {
            r.push((self.db.accounts[i].username.clone(), self.db.accounts[i].role.clone()));
            i += 1;
        }
        r
    }

    /// The role of an account.
    pub fn get_account_role(&self, username: &str) -> (r: Option<String>)
        ensures
            match account_index(self.accounts(), username@) {
                Some(i) => r matches Some(s) && s@ == self.accounts()[i].role,
                None => r is None,
            },
    {
        match self.find(username) {
            Some(i) => Some(self.db.accounts[i].role.clone()),
            None => None,
        }
    }

    /// Set the role of an account; valid roles are `user`, `moderator` and `admin`.
    pub fn set_account_role(&mut self, username: &str, role: &str) -> (r: Result<(), String>)
        requires
            old(self).wf(),
        ensures
            final(self).wf(),
            !valid_role(role@) ==> (r matches Err(m) && m@ == "Invalid role. Must be 'user', 'moderator', or 'admin'."@),
            valid_role(role@) && account_index(old(self).accounts(), username@) is None ==> (r matches Err(m)
                && m@ == "Account not found"@),
            r is Ok <==> valid_role(role@) && account_index(old(self).accounts(), username@) is Some,
            r is Ok ==> ({
                let i = account_index(old(self).accounts(), username@)->0;
                final(self).accounts() == old(self).accounts().update(i,
                    AccountView { role: role@, ..old(self).accounts()[i] })
            }),
            r is Err ==> final(self).accounts() == old(self).accounts(),
            final(self).sessions() == old(self).sessions(),
            final(self).activity() == old(self).activity(),
    {
        if !(str_eq(role, "user") || str_eq(role, "moderator") || str_eq(role, "admin")) {
            return Err(String::from_str("Invalid role. Must be 'user', 'moderator', or 'admin'."));
        }
        let i = match self.find(username) {
            Some(i) => i,
            None => {
                return Err(String::from_str("Account not found"));
            },
        };
        let mut a = self.account_copy(i);
        a.role = String::from_str(role);
        self.replace_account(i, a);
        Ok(())
    }

    /// The Model Hub access flag of an account.
    pub fn get_modelhub_access(&self, username: &str) -> (r: Option<bool>)
        ensures
            match account_index(self.accounts(), username@) {
                Some(i) => r == Some(self.accounts()[i].can_use_modelhub),
                None => r is None,
            },
    {
        match self.find(username) {
            Some(i) => Some(self.db.accounts[i].can_use_modelhub),
            None => None,
        }
    }

    /// Set the Model Hub access flag of an account.
    pub fn set_modelhub_access(&mut self, username: &str, allowed: bool) -> (r: Result<(), String>)
        requires
            old(self).wf(),
        ensures
            final(self).wf(),
            r is Ok <==> account_index(old(self).accounts(), username@) is Some,
            r matches Err(m) ==> m@ == "Account not found"@ && final(self).accounts() == old(self).accounts(),
            r is Ok ==> ({
                let i = account_index(old(self).accounts(), username@)->0;
                final(self).accounts() == old(self).accounts().update(i,
                    AccountView { can_use_modelhub: allowed, ..old(self).accounts()[i] })
            }),
            final(self).sessions() == old(self).sessions(),
            final(self).activity() == old(self).activity(),
    {
        let i = match self.find(username) {
            Some(i) => i,
            None => {
                return Err(String::from_str("Account not found"));
            },
        };
        let mut a = self.account_copy(i);
        a.can_use_modelhub = allowed;
        self.replace_account(i, a);
        Ok(())
    }

    /// Delete every account named `username` (ignoring ASCII case) and its sessions.
    pub fn delete_account(&mut self, username: &str) -> (r: Result<(), String>)
        requires
            old(self).wf(),
        ensures
            final(self).wf(),
            r is Ok <==> account_index(old(self).accounts(), username@) is Some,
            r matches Err(m) ==> m@ == "Account not found"@ && final(self).accounts() == old(self).accounts()
                && final(self).sessions() == old(self).sessions(),
            r is Ok ==> final(self).accounts() == old(self).accounts().filter(
                |a: AccountView| !same_name(a.username, username@))
                && final(self).sessions() == old(self).sessions().remove_keys(
                    sessions_of(old(self).sessions(), username@)),
            final(self).activity() == old(self).activity(),
    {
        let ghost a0 = self.accounts();
        let ghost keep = |a: AccountView| !same_name(a.username, username@);
        let mut all: Vec<Account> = Vec::new();
        std::mem::swap(&mut all, &mut self.db.accounts);
        let n_all = all.len();
        let mut kept: Vec<Account> = Vec::new();
        let mut k: usize = 0;
        let mut removed = false;
        assert(accounts_view(all@).take(0) =~= Seq::<AccountView>::empty());
        while k < all.len()
            invariant
                accounts_view(all@) == a0,
                all@.len() == n_all,
                k <= all@.len(),
                accounts_view(kept@) == a0.take(k as int).filter(keep),
                keep == (|a: AccountView| !same_name(a.username, username@)),
                removed == exists|j: int| 0 <= j < k && same_name(#[trigger] a0[j].username, username@),
                names_normal(a0),
                names_normal(accounts_view(kept@)),
                forall|x: int| 0 <= x < kept@.len() ==> exists|m: int| 0 <= m < k && #[trigger] accounts_view(kept@)[x]
                    == #[trigger] a0[m],
            decreases all@.len() - k,
        {
            let ghost before = kept@;
            proof {
                assert(a0.take(k + 1) =~= a0.take(k as int).push(a0[k as int]));
                a0.take(k as int).lemma_filter_push(a0[k as int], keep);
                assert(a0[k as int] == all@[k as int]@);
            }
            if eq_ignore_ascii_case(all[k].username.as_str(), username) {
                removed = true;
            } else {
                let ghost src = all@[k as int];
                let last_online = match &all[k].last_online {
                    Some(t) => Some(t.clone()),
                    None => None,
                };
                kept.push(Account {
                    username: all[k].username.clone(),
                    password_hash: all[k].password_hash.clone(),
                    must_change_password: all[k].must_change_password,
                    role: all[k].role.clone(),
                    created_at: all[k].created_at.clone(),
                    last_online,
                    storage_limit_bytes: all[k].storage_limit_bytes,
                    can_use_modelhub: all[k].can_use_modelhub,
                });
                assert(accounts_view(kept@) =~= accounts_view(before).push(a0[k as int]));
                proof {
                    let n = accounts_view(kept@);
                    let b = accounts_view(before);
                    assert forall|p: int, q: int| 0 <= p < q < n.len() implies (#[trigger] n[p]).username
                        != (#[trigger] n[q]).username by {
                        assert(n[p] == b[p]);
                        if q < b.len() {
                            assert(n[q] == b[q]);
                        } else {
                            let m = choose|m: int| 0 <= m < k && #[trigger] b[p] == #[trigger] a0[m];
                            assert(a0[m].username != a0[k as int].username);
                        }
                    }
                    assert forall|p: int| 0 <= p < n.len() implies lower(#[trigger] n[p].username) == n[p].username by {
                        if p < b.len() {
                            assert(n[p] == b[p]);
                        }
                    }
                    assert forall|x: int| 0 <= x < n.len() implies exists|m: int| 0 <= m < k + 1
                        && #[trigger] n[x] == #[trigger] a0[m] by {
                        if x < b.len() {
                            assert(n[x] == b[x]);
                            let m = choose|m: int| 0 <= m < k && #[trigger] b[x] == #[trigger] a0[m];
                            assert(n[x] == a0[m]);
                        } else {
                            assert(n[x] == a0[k as int]);
                        }
                    }
                }
            }
            k += 1;
        }
        assert(a0.take(k as int) =~= a0);
        proof {
            lemma_account_from(a0, username@, 0);
        }
        if !removed {
            self.db.accounts = all;
            return Err(String::from_str("Account not found"));
        }
        self.db.accounts = kept;
        self.drop_sessions_of(username);
        Ok(())
    }

    /// The storage limit of an account (the default for an unknown user).
    pub fn get_storage_limit(&self, username: &str) -> (r: u64)
        ensures
            r == match account_index(self.accounts(), username@) {
                Some(i) => self.accounts()[i].storage_limit_bytes,
                None => DEFAULT_STORAGE_LIMIT,
            },
    {
        match self.find(username) {
            Some(i) => self.db.accounts[i].storage_limit_bytes,
            None => DEFAULT_STORAGE_LIMIT,
        }
    }

    /// Set the storage limit of an account.
    pub fn set_storage_limit(&mut self, username: &str, limit_bytes: u64) -> (r: Result<(), String>)
        requires
            old(self).wf(),
        ensures
            final(self).wf(),
            r is Ok <==> account_index(old(self).accounts(), username@) is Some,
            r matches Err(m) ==> m@ == "Account not found"@ && final(self).accounts() == old(self).accounts(),
            r is Ok ==> ({
                let i = account_index(old(self).accounts(), username@)->0;
                final(self).accounts() == old(self).accounts().update(i,
                    AccountView { storage_limit_bytes: limit_bytes, ..old(self).accounts()[i] })
            }),
            final(self).sessions() == old(self).sessions(),
            final(self).activity() == old(self).activity(),
    {
        let i = match self.find(username) {
            Some(i) => i,
            None => {
                return Err(String::from_str("Account not found"));
            },
        };
        let mut a = self.account_copy(i);
        a.storage_limit_bytes = limit_bytes;
        self.replace_account(i, a);
        Ok(())
    }

    /// Change a user's own password, given the current one; clears the
    /// must-change flag. New passwords have at least 4 characters.
    pub fn change_password(&mut self, username: &str, current_password: &str, new_password: &str) -> (r: Result<(), String>)
        requires
            old(self).wf(),
        ensures
            final(self).wf(),
            new_password@.len() < 4 ==> (r matches Err(m)
                && m@ == "New password must be at least 4 characters"@),
            new_password@.len() >= 4 && account_index(old(self).accounts(), username@) is None
                ==> (r matches Err(m) && m@ == "Account not found"@),
            (new_password@.len() >= 4 && account_index(old(self).accounts(), username@) is Some
                && !password_matches(current_password@, old(self).accounts()[
                    account_index(old(self).accounts(), username@)->0].password_hash))
                ==> (r matches Err(m) && m@ == "Current password is incorrect"@),
            r is Ok ==> new_password@.len() >= 4 && ({
                let i = account_index(old(self).accounts(), username@)->0;
                &&& account_index(old(self).accounts(), username@) is Some
                &&& password_matches(current_password@, old(self).accounts()[i].password_hash)
                &&& final(self).accounts() == old(self).accounts().update(i, AccountView {
                    password_hash: final(self).accounts()[i].password_hash,
                    must_change_password: false,
                    ..old(self).accounts()[i] })
                &&& password_matches(new_password@, final(self).accounts()[i].password_hash)
                &&& !legacy_hash(final(self).accounts()[i].password_hash)
            }),
            r is Err ==> final(self).accounts() == old(self).accounts(),
            final(self).sessions() == old(self).sessions(),
            final(self).activity() == old(self).activity(),
    {
        if new_password.unicode_len() < 4 {
            return Err(String::from_str("New password must be at least 4 characters"));
        }
        let i = match self.find(username) {
            Some(i) => i,
            None => {
                return Err(String::from_str("Account not found"));
            },
        };
        if !verify_password(current_password, self.db.accounts[i].password_hash.as_str()) {
            return Err(String::from_str("Current password is incorrect"));
        }
        self.set_password_hash(i, hash_password(new_password), false)
    }

    /// Set a temporary password on an account, forcing a change at next login,
    /// and end the user's sessions. Temporary passwords have at least 4 characters.
    pub fn reset_password(&mut self, username: &str, temp_password: &str) -> (r: Result<(), String>)
        requires
            old(self).wf(),
        ensures
            final(self).wf(),
            temp_password@.len() < 4 ==> (r matches Err(m)
                && m@ == "Temporary password must be at least 4 characters"@),
            temp_password@.len() >= 4 && account_index(old(self).accounts(), username@) is None
                ==> (r matches Err(m) && m@ == "Account not found"@),
            r is Ok ==> temp_password@.len() >= 4 && ({
                let i = account_index(old(self).accounts(), username@)->0;
                &&& account_index(old(self).accounts(), username@) is Some
                &&& final(self).accounts() == old(self).accounts().update(i, AccountView {
                    password_hash: final(self).accounts()[i].password_hash,
                    must_change_password: true,
                    ..old(self).accounts()[i] })
                &&& password_matches(temp_password@, final(self).accounts()[i].password_hash)
                &&& !legacy_hash(final(self).accounts()[i].password_hash)
                &&& final(self).sessions() == old(self).sessions().remove_keys(
                    sessions_of(old(self).sessions(), username@))
            }),
            r is Err ==> final(self).accounts() == old(self).accounts() && final(self).sessions() == old(self).sessions(),
            final(self).activity() == old(self).activity(),
    {
        if temp_password.unicode_len() < 4 {
            return Err(String::from_str("Temporary password must be at least 4 characters"));
        }
        let i = match self.find(username) {
            Some(i) => i,
            None => {
                return Err(String::from_str("Account not found"));
            },
        };
        let r = self.set_password_hash(i, hash_password(temp_password), true);
        if r.is_ok() {
            self.drop_sessions_of(username);
        }
        r
    }

    /// Record activity of a user at the time `now_ms`.
    pub fn touch_activity_at(&mut self, username: &str, now_ms: u64)
        requires
            old(self).wf(),
        ensures
            final(self).wf(),
            final(self).activity() == old(self).activity().insert(lower(username@), now_ms),
            final(self).accounts() == old(self).accounts(),
            final(self).sessions() == old(self).sessions(),
    {
        self.last_activity.insert(ascii_lowercase(username), now_ms);
    }

    /// Record that a user is active now.
    pub fn touch_activity(&mut self, username: &str)
        requires
            old(self).wf(),
        ensures
            final(self).wf(),
            exists|t: u64| final(self).activity() == old(self).activity().insert(lower(username@), t),
            final(self).accounts() == old(self).accounts(),
            final(self).sessions() == old(self).sessions(),
    {
        let now = clock_ms();
        self.touch_activity_at(username, now);
    }

    /// Set the last-online time `ts` on every account with recorded activity.
    /// Returns whether any account changed.
    pub fn flush_last_online_at(&mut self, ts: &str) -> (changed: bool)
        requires
            old(self).wf(),
        ensures
            final(self).wf(),
            final(self).accounts() == flushed(old(self).accounts(), old(self).activity(), ts@),
            changed == exists|i: int| 0 <= i < old(self).accounts().len()
                && old(self).activity().contains_key(lower(#[trigger] old(self).accounts()[i].username))
                && old(self).accounts()[i].last_online != Some(ts@),
            final(self).sessions() == old(self).sessions(),
            final(self).activity() == old(self).activity(),
    {
        let ghost a0 = self.accounts();
        let ghost act = self.activity();
        let mut changed = false;
        let mut i: usize = 0;
        while i < self.db.accounts.len()
            invariant
                self.wf(),
                act == self.activity(),
                self.sessions() == old(self).sessions(),
                a0 == old(self).accounts(),
                self.accounts().len() == a0.len(),
                i <= a0.len(),
                forall|j: int| 0 <= j < i ==> (#[trigger] self.accounts()[j]) == flushed(a0, act, ts@)[j],
                forall|j: int| i <= j < a0.len() ==> (#[trigger] self.accounts()[j]) == a0[j],
                changed == exists|j: int| 0 <= j < i && act.contains_key(lower(#[trigger] a0[j].username))
                    && a0[j].last_online != Some(ts@),
            decreases a0.len() - i,
        {
            let key = ascii_lowercase(self.db.accounts[i].username.as_str());
            assert(self.accounts()[i as int] == self.db.accounts@[i as int]@);
            let ghost ch0 = changed;
            if self.last_activity.contains_key(key.as_str()) {
                let same = match &self.db.accounts[i].last_online {
                    Some(t) => str_eq(t.as_str(), ts),
                    None => false,
                };
                assert(same == (a0[i as int].last_online == Some(ts@)));
                if !same {
                    changed = true;
                }
                let mut a = self.account_copy(i);
                a.last_online = Some(String::from_str(ts));
                self.replace_account(i, a);
                proof {
                    if !same {
                        assert(act.contains_key(lower(a0[i as int].username)) && a0[i as int].last_online != Some(ts@));
                    }
                }
            } else {
                assert(!act.contains_key(lower(a0[i as int].username)));
            }
            proof {
                assert(flushed(a0, act, ts@)[i as int] == self.accounts()[i as int]);
                if changed && !ch0 {
                    assert(act.contains_key(lower(a0[i as int].username)) && a0[i as int].last_online != Some(ts@));
                }
                if ch0 {
                    let j = choose|j: int| 0 <= j < i && act.contains_key(lower(#[trigger] a0[j].username))
                        && a0[j].last_online != Some(ts@);
                    assert(0 <= j < i + 1);
                }
            }
            i += 1;
        }
        assert(self.accounts() =~= flushed(a0, act, ts@));
        changed
    }

    /// Store the current time as last-online on every account with recorded
    /// activity. Returns whether any account changed (to persist it).
    pub fn flush_last_online(&mut self) -> (changed: bool)
        requires
            old(self).wf(),
        ensures
            final(self).wf(),
            old(self).activity() == Map::<Seq<char>, u64>::empty() ==> !changed
                && final(self).accounts() == old(self).accounts(),
            exists|ts: Seq<char>| final(self).accounts() == flushed(old(self).accounts(), old(self).activity(), ts),
            final(self).sessions() == old(self).sessions(),
            final(self).activity() == old(self).activity(),
    {
        if self.last_activity.len() == 0 {
            proof {
                assert(flushed(self.accounts(), self.activity(), Seq::empty()) =~= self.accounts()) by {
                    self.last_activity.lemma_empty_view();
                }
            }
            return false;
        }
        proof {
            self.last_activity.lemma_index(0);
        }
        let ts = now_rfc3339();
        self.flush_last_online_at(ts.as_str())
    }

    /// Every account with its role, whether its last activity lies less than
    /// `threshold_ms` before `now_ms`, creation time, last-online time,
    /// storage limit and Model Hub access.
    pub fn users_status_at(&self, now_ms: u64, threshold_ms: u64) -> (r: Vec<UserStatus>)
        requires
            self.wf(),
        ensures
            r@.len() == self.accounts().len(),
            forall|i: int| 0 <= i < r@.len() ==> status_of(#[trigger] r@[i], self.accounts()[i], self.activity(),
                now_ms, threshold_ms),
    {
        let mut r: Vec<UserStatus> = Vec::new();
        let mut i: usize = 0;
        while i < self.db.accounts.len()
            invariant
                self.wf(),
                i <= self.db.accounts@.len(),
                r@.len() == i,
                forall|j: int| 0 <= j < i ==> status_of(#[trigger] r@[j], self.accounts()[j], self.activity(),
                    now_ms, threshold_ms),
            decreases self.db.accounts@.len() - i,
        {
            let a = &self.db.accounts[i];
            assert(self.accounts()[i as int] == a@);
            let key = ascii_lowercase(a.username.as_str());
            let online = match self.last_activity.get(key.as_str()) {
                Some(t) => {
                    let elapsed = if now_ms >= *t { now_ms - *t } else { 0 };
                    elapsed < threshold_ms
                },
                None => false,
            };
            let last_online = match &a.last_online {
                Some(t) => Some(t.clone()),
                None => None,
            };
            r.push((a.username.clone(), a.role.clone(), online, a.created_at.clone(), last_online,
                a.storage_limit_bytes, a.can_use_modelhub));
            i += 1;
        }
        r
    }

    /// Every account with its status; a user is online when last active less
    /// than `threshold_ms` ago (by the clock).
    pub fn list_users_status(&self, threshold_ms: u64) -> (r: Vec<UserStatus>)
        requires
            self.wf(),
        ensures
            r@.len() == self.accounts().len(),
            exists|now: u64| #[trigger] statuses_at(r@, self.accounts(), self.activity(), now, threshold_ms),
    {
        let now = clock_ms();
        let r = self.users_status_at(now, threshold_ms);
        assert(statuses_at(r@, self.accounts(), self.activity(), now, threshold_ms));
        r
    }
    /// Check if any accounts exist.
    pub fn has_accounts(&self) -> (r: bool)
        ensures
            r == (self.accounts().len() > 0),
    {
        self.db.accounts.len() > 0
    }
}

/// Law: an account just created with a password can log in with that
/// password: the name finds the new account and the password matches its hash.
pub proof fn law_created_account_logs_in(before: Seq<AccountView>, after: Seq<AccountView>, username: Seq<char>,
    password: Seq<char>, temp: bool)
    requires
        account_index(before, username) is None,
        created(before, after, username, password, temp),
    ensures
        account_index(after, username) == Some(before.len() as int),
        password_matches(password, after[before.len() as int].password_hash),
{
    lemma_account_from(before, username, 0);
    assert forall|j: int| 0 <= j < before.len() implies !same_name(#[trigger] after[j].username, username) by {
        assert(after[j] == after.take(before.len() as int)[j]);
    }
    assert(lower(lower(username)) =~= lower(username));
    lemma_index_after_prefix(after, username, 0, before.len() as int);
}

proof fn lemma_index_after_prefix(accts: Seq<AccountView>, name: Seq<char>, i: int, k: int)
    requires
        0 <= i <= k < accts.len(),
        same_name(accts[k].username, name),
        forall|j: int| i <= j < k ==> !same_name(#[trigger] accts[j].username, name),
    ensures
        account_from(accts, name, i) == Some(k),
    decreases k - i,
{
    if i < k {
        lemma_index_after_prefix(accts, name, i + 1, k);
    }
}

/// Law: after an account is deleted no account answers to its name.
pub proof fn law_deleted_account_is_gone(before: Seq<AccountView>, username: Seq<char>)
    ensures
        account_index(before.filter(|a: AccountView| !same_name(a.username, username)), username) is None,
{
    let f = before.filter(|a: AccountView| !same_name(a.username, username));
    broadcast use vstd::seq_lib::group_filter_ensures;
    lemma_account_from(f, username, 0);
    if account_index(f, username) is Some {
        let k = account_index(f, username)->0;
        assert(!same_name(f[k].username, username));
    }
}

/// Law: once a password is reset (or the account deleted), none of the
/// user's sessions remains.
pub proof fn law_sessions_of_user_dropped(m: Map<Seq<char>, (Seq<char>, Seq<char>)>, username: Seq<char>)
    ensures
        forall|k: Seq<char>| #[trigger] m.remove_keys(sessions_of(m, username)).contains_key(k)
            ==> !same_name(m.remove_keys(sessions_of(m, username))[k].0, username),
{
}

/// Law: a token that was logged out no longer validates.
pub proof fn law_logged_out_token_invalid(m: Map<Seq<char>, (Seq<char>, Seq<char>)>, token: Seq<char>)
    ensures
        !m.remove(token).contains_key(token),
{
}


// ---------------------------------------------------------------------------
// Loading
// ---------------------------------------------------------------------------

/// Every username is in ASCII lower case and no two accounts share one.
pub open spec fn names_normal(a: Seq<AccountView>) -> bool {
    &&& forall|i: int| 0 <= i < a.len() ==> lower(#[trigger] a[i].username) == a[i].username
    &&& forall|i: int, j: int| 0 <= i < j < a.len() ==> (#[trigger] a[i]).username != (#[trigger] a[j]).username
}

/// Loading lowers every username and keeps one account per name.
proof fn lemma_normalized_names(a: Seq<AccountView>)
    ensures
        names_normal(normalized_accounts(a)),
    decreases a.len(),
{
    if a.len() > 0 {
        lemma_normalized_names(a.drop_last());
        let prev = normalized_accounts(a.drop_last());
        let x = lower(a.last().username);
        if !has_username(prev, x) {
            lemma_lower_idem(a.last().username);
            let n = prev.push(lowered(a.last()));
            assert forall|i: int, j: int| 0 <= i < j < n.len() implies (#[trigger] n[i]).username
                != (#[trigger] n[j]).username by {
                if j == prev.len() {
                    assert(n[i] == prev[i]);
                    assert(prev[i].username != x);
                } else {
                    assert(n[i] == prev[i] && n[j] == prev[j]);
                }
            }
            assert forall|i: int| 0 <= i < n.len() implies lower(#[trigger] n[i].username) == n[i].username by {
                if i < prev.len() {
                    assert(n[i] == prev[i]);
                }
            }
        }
    }
}

/// An account with its username in ASCII lower case.
pub open spec fn lowered(a: AccountView) -> AccountView {
    AccountView { username: lower(a.username), ..a }
}

/// Some account of `a` has exactly this username.
pub open spec fn has_username(a: Seq<AccountView>, name: Seq<char>) -> bool {
    exists|i: int| 0 <= i < a.len() && (#[trigger] a[i]).username == name
}

/// The accounts as loaded: usernames in ASCII lower case, and of the accounts
/// whose names then coincide only the first kept.
pub open spec fn normalized_accounts(a: Seq<AccountView>) -> Seq<AccountView>
    decreases a.len(),
{
    if a.len() == 0 {
        Seq::empty()
    } else {
        let prev = normalized_accounts(a.drop_last());
        if has_username(prev, lower(a.last().username)) {
            prev
        } else {
            prev.push(lowered(a.last()))
        }
    }
}

/// A loaded session is kept when its user (lowered) has an account and it is
/// younger than the session lifetime.
pub open spec fn session_kept(accts: Seq<AccountView>, user: Seq<char>, age: Option<i64>) -> bool {
    has_username(accts, lower(user)) && (age matches Some(a) && a < SESSION_TTL_SECS)
}

/// The sessions kept from the first `k` loaded ones, usernames lowered.
pub open spec fn kept_sessions(
    s: Seq<(Seq<char>, (Seq<char>, Seq<char>))>,
    ages: Seq<Option<i64>>,
    accts: Seq<AccountView>,
    k: int,
) -> Map<Seq<char>, (Seq<char>, Seq<char>)>
    decreases k,
{
    if k <= 0 || k > s.len() {
        Map::empty()
    } else {
        let m = kept_sessions(s, ages, accts, k - 1);
        let e = s[k - 1];
        if session_kept(accts, e.1.0, ages[k - 1]) {
            m.insert(e.0, (lower(e.1.0), e.1.1))
        } else {
            m
        }
    }
}

/// The loaded sessions as values.
pub open spec fn sessions_seq(s: Seq<(String, SessionEntry)>) -> Seq<(Seq<char>, (Seq<char>, Seq<char>))> {
    s.map_values(|e: (String, SessionEntry)| (e.0@, e.1.deep_view()))
}

/// The account with its username lowered.
fn lowered_account(a: &Account) -> (r: Account)
    ensures
        r@ == lowered(a@),
{
    Account {
        username: ascii_lowercase(a.username.as_str()),
        password_hash: a.password_hash.clone(),
        must_change_password: a.must_change_password,
        role: a.role.clone(),
        created_at: a.created_at.clone(),
        last_online: match &a.last_online {
            Some(t) => Some(t.clone()),
            None => None,
        },
        storage_limit_bytes: a.storage_limit_bytes,
        can_use_modelhub: a.can_use_modelhub,
    }
}

/// Whether some account has exactly this username.
fn find_username(accts: &Vec<Account>, name: &str) -> (r: bool)
    ensures
        r == has_username(accounts_view(accts@), name@),
{
    let mut i: usize = 0;
    while i < accts.len()
        invariant
            i <= accts@.len(),
            forall|j: int| 0 <= j < i ==> accts@[j]@.username != name@,
        decreases accts@.len() - i,
    {
        if str_eq(accts[i].username.as_str(), name) {
            assert(accounts_view(accts@)[i as int].username == name@);
            return true;
        }
        i += 1;
    }
    proof {
        if has_username(accounts_view(accts@), name@) {
            let j = choose|j: int| 0 <= j < accounts_view(accts@).len() && (#[trigger] accounts_view(accts@)[j]).username == name@;
            assert(accts@[j]@.username == name@);
        }
    }
    false
}

impl AuthState {
    /// The state for a loaded database and loaded sessions, given each
    /// session's age in seconds (None when its time does not parse):
    /// usernames lowered, duplicate accounts dropped (the first kept), and only
    /// the sessions of existing accounts younger than the session lifetime kept.
    /// Also says whether the accounts and the sessions changed by the lowering
    /// (and so are to be saved again).
    pub fn from_loaded_at(db: AuthDatabase, sessions: Vec<(String, SessionEntry)>, ages: &Vec<Option<i64>>) -> (r: (
        AuthState,
        bool,
        bool,
    ))
        requires
            ages@.len() == sessions@.len(),
        ensures
            r.0.wf(),
            r.0.accounts() == normalized_accounts(accounts_view(db.accounts@)),
            r.0.sessions() == kept_sessions(sessions_seq(sessions@), ages@, r.0.accounts(), sessions@.len() as int),
            r.0.activity() == Map::<Seq<char>, u64>::empty(),
            r.1 == ((exists|i: int| 0 <= i < db.accounts@.len() && lower(#[trigger] db.accounts@[i].username@)
                != db.accounts@[i].username@) || r.0.accounts().len() < db.accounts@.len()),
            r.2 == (exists|i: int| 0 <= i < sessions@.len() && lower(#[trigger] sessions@[i].1.username@)
                != sessions@[i].1.username@),
    {
        let ghost av = accounts_view(db.accounts@);
        let mut kept: Vec<Account> = Vec::new();
        let mut renamed = false;
        let n = db.accounts.len();
        let mut i: usize = 0;
        while i < n
            invariant
                i <= n,
                n == db.accounts@.len(),
                av == accounts_view(db.accounts@),
                accounts_view(kept@) == normalized_accounts(av.take(i as int)),
                kept@.len() <= i,
                renamed == exists|j: int| 0 <= j < i && lower(#[trigger] db.accounts@[j].username@)
                    != db.accounts@[j].username@,
            decreases n - i,
        {
            let a = lowered_account(&db.accounts[i]);
            proof {
                assert(av.take(i + 1).drop_last() =~= av.take(i as int));
                assert(av.take(i + 1).last() == av[i as int]);
            }
            if !str_eq(a.username.as_str(), db.accounts[i].username.as_str()) {
                renamed = true;
            }
            if !find_username(&kept, a.username.as_str()) {
                let ghost before = kept@;
                kept.push(a);
                assert(accounts_view(kept@) =~= accounts_view(before).push(lowered(av[i as int])));
            }
            i += 1;
        }
        assert(av.take(n as int) =~= av);
        let dropped = kept.len() < n;
        let ghost accts = accounts_view(kept@);
        let ghost sv = sessions_seq(sessions@);
        let mut kept_sessions_map: StrMap<SessionEntry> = StrMap::new();
        let mut sess_renamed = false;
        let m = sessions.len();
        let mut j: usize = 0;
        while j < m
            invariant
                j <= m,
                m == sessions@.len(),
                ages@.len() == m,
                sv == sessions_seq(sessions@),
                accts == accounts_view(kept@),
                kept_sessions_map.wf(),
                kept_sessions_map.view() == kept_sessions(sv, ages@, accts, j as int),
                sess_renamed == exists|k: int| 0 <= k < j && lower(#[trigger] sessions@[k].1.username@)
                    != sessions@[k].1.username@,
            decreases m - j,
        {
            let (token, entry) = (&sessions[j].0, &sessions[j].1);
            let user = ascii_lowercase(entry.username.as_str());
            if !str_eq(user.as_str(), entry.username.as_str()) {
                sess_renamed = true;
            }
            let young = match ages[j] {
                Some(a) => a < SESSION_TTL_SECS,
                None => false,
            };
            if young && find_username(&kept, user.as_str()) {
                kept_sessions_map.insert(token.clone(), SessionEntry { username: user, created_at: entry.created_at.clone() });
            }
            j += 1;
        }
        proof {
            lemma_normalized_names(av);
        }
        let state = AuthState { db: AuthDatabase { accounts: kept }, sessions: kept_sessions_map, last_activity: StrMap::new() };
        (state, renamed || dropped, sess_renamed)
    }

    /// The state for a loaded database and loaded sessions (see
    /// [`AuthState::from_loaded_at`]), session ages taken from the clock.
    pub fn from_loaded(db: AuthDatabase, sessions: Vec<(String, SessionEntry)>) -> (r: (AuthState, bool, bool))
        ensures
            r.0.wf(),
            r.0.accounts() == normalized_accounts(accounts_view(db.accounts@)),
            exists|ages: Seq<Option<i64>>| {
                &&& ages.len() == sessions@.len()
                &&& forall|k: int| 0 <= k < ages.len() ==> ((#[trigger] ages[k]) is None <==> rfc3339_epoch_nanos(
                    sessions@[k].1.created_at@) is None)
                &&& r.0.sessions() == #[trigger] kept_sessions(sessions_seq(sessions@), ages, r.0.accounts(),
                    sessions@.len() as int)
            },
            forall|t: Seq<char>| #[trigger] r.0.sessions().contains_key(t) ==> has_username(r.0.accounts(),
                r.0.sessions()[t].0),
            r.1 == ((exists|i: int| 0 <= i < db.accounts@.len() && lower(#[trigger] db.accounts@[i].username@)
                != db.accounts@[i].username@) || r.0.accounts().len() < db.accounts@.len()),
            r.2 == (exists|i: int| 0 <= i < sessions@.len() && lower(#[trigger] sessions@[i].1.username@)
                != sessions@[i].1.username@),
            r.0.activity() == Map::<Seq<char>, u64>::empty(),
    {
        let mut ages: Vec<Option<i64>> = Vec::new();
        let mut i: usize = 0;
        while i < sessions.len()
            invariant
                i <= sessions@.len(),
                ages@.len() == i,
                forall|k: int| 0 <= k < i ==> ((#[trigger] ages@[k]) is None <==> rfc3339_epoch_nanos(
                    sessions@[k].1.created_at@) is None),
            decreases sessions@.len() - i,
        {
            ages.push(age_secs(sessions[i].1.created_at.as_str()));
            i += 1;
        }
        let ghost sv = sessions_seq(sessions@);
        let ghost n = sessions@.len() as int;
        let ghost ss = sessions@;
        let r = Self::from_loaded_at(db, sessions, &ages);
        proof {
            lemma_kept_sessions_users(sv, ages@, r.0.accounts(), n);
            assert(r.0.sessions() == kept_sessions(sessions_seq(ss), ages@, r.0.accounts(), ss.len() as int));
        }
        r
    }
}

/// Every kept session belongs to an account.
proof fn lemma_kept_sessions_users(
    s: Seq<(Seq<char>, (Seq<char>, Seq<char>))>,
    ages: Seq<Option<i64>>,
    accts: Seq<AccountView>,
    k: int,
)
    ensures
        forall|t: Seq<char>| #[trigger] kept_sessions(s, ages, accts, k).contains_key(t) ==> has_username(accts,
            kept_sessions(s, ages, accts, k)[t].0),
    decreases k,
{
    if k > 0 && k <= s.len() {
        lemma_kept_sessions_users(s, ages, accts, k - 1);
        let m = kept_sessions(s, ages, accts, k - 1);
        let e = s[k - 1];
        let r = kept_sessions(s, ages, accts, k);
        assert forall|t: Seq<char>| #[trigger] r.contains_key(t) implies has_username(accts, r[t].0) by {
            if session_kept(accts, e.1.0, ages[k - 1]) && t == e.0 {
                assert(r[t].0 == lower(e.1.0));
            } else {
                assert(m.contains_key(t));
                assert(r[t] == m[t]);
            }
        }
    }
}

} // verus!
