//! Accounts: permissions, the rules for names and passwords, password hashing, the
//! checks made before a request is carried out, avatar uploads and redirects.
use crate::text::{i64_text, int_text, opt_text, str_eq};
use crate::home::RankSummary;
use crate::time::Timestamp;
use crate::types::{ApiError, Discord, PasswordUpdate, Permissions, PgPermissionToken, UserPasshash};
use argon2::password_hash::rand_core::OsRng;
use argon2::password_hash::{PasswordHasher, SaltString};
use argon2::{Argon2, PasswordHash, PasswordVerifier};
use bit_vec::BitVec;
use http::HeaderValue;
use rand::distributions::Alphanumeric;
use rand::Rng;
use vstd::arithmetic::power2::pow2;
use vstd::prelude::*;
use vstd::string::StrSliceExecFns;

verus! {

#[verifier::external_type_specification]
#[verifier::external_body]
#[verifier::reject_recursive_types(B)]
pub struct ExBitVec<B>(BitVec<B>);

/// The bits a bit vector holds, first bit first.
pub uninterp spec fn bits_of(v: BitVec) -> Seq<bool>;

/// The bits of a byte string, eight per byte, the most significant bit of each byte first.
pub open spec fn bits_of_bytes(bytes: Seq<u8>) -> Seq<bool> {
    Seq::new(
        (bytes.len() * 8) as nat,
        |i: int| (bytes[i / 8] as int / pow2((7 - i % 8) as nat) as int) % 2 == 1,
    )
}

/// A bit vector holding the bits of `bytes`, most significant bit of each byte first
/// (`BitVec::from_bytes`).
#[verifier::external_body]
fn bitvec_from_bytes(bytes: &[u8]) -> (r: BitVec)
    requires
        bytes@.len() * 8 <= usize::MAX,
    ensures
        bits_of(r) == bits_of_bytes(bytes@),
{
    BitVec::from_bytes(bytes)
}

/// Bit `i` of a bit vector, `None` past its end (`BitVec::get`).
#[verifier::external_body]
fn bitvec_get(v: &BitVec, i: usize) -> (r: Option<bool>)
    ensures
        r == if i < bits_of(*v).len() {
            Some(bits_of(*v)[i as int])
        } else {
            None::<bool>
        },
{
    v.get(i)
}

/// A bit vector of `n` bits, each `bit` (`BitVec::from_elem`).
#[verifier::external_body]
fn bitvec_from_elem(n: usize, bit: bool) -> (r: BitVec)
    ensures
        bits_of(r) == Seq::new(n as nat, |i: int| bit),
{
    BitVec::from_elem(n, bit)
}

/// Sets bit `i` of a bit vector to `x` (`BitVec::set`, which panics past the end).
#[verifier::external_body]
fn bitvec_set(v: &mut BitVec, i: usize, x: bool)
    requires
        i < bits_of(*old(v)).len(),
    ensures
        bits_of(*final(v)) == bits_of(*old(v)).update(i as int, x),
{
    v.set(i, x)
}

/// Bit `i` is present and set.
pub open spec fn bit_set(bits: Seq<bool>, i: int) -> bool {
    0 <= i < bits.len() && bits[i]
}

/// A holder of permission bits may do `p`: it is an administrator, or holds `p`.
pub open spec fn grants(bits: Seq<bool>, p: Permissions) -> bool {
    bit_set(bits, Permissions::Administrator.spec_bit()) || bit_set(bits, p.spec_bit())
}

/// A user of the site.
pub struct User {
    pub id: i64,
    pub username: String,
    pub bio: Option<String>,
    pub pfp: String,
    pub ranks: Vec<RankSummary>,
    pub permissions: BitVec,
}

impl User {
    /// The visitor who has not logged in: user `-1`, named `Guest`, who may only view.
    pub fn default() -> (r: User)
        ensures
            r.id == -1,
            r.username@ == "Guest"@,
            r.bio is None,
            r.pfp@ == "default"@,
            r.ranks@.len() == 0,
            bits_of(r.permissions) == bits_of_bytes(seq![0x80u8, 0u8, 0u8, 0u8]),
    {
        let bytes: [u8; 4] = [0b10000000, 0, 0, 0];
        let permissions = bitvec_from_bytes(&bytes);
        proof {
            assert(bytes@ =~= seq![0x80u8, 0u8, 0u8, 0u8]);
        }
        User {
            id: -1,
            username: String::from_str("Guest"),
            bio: None,
            pfp: String::from_str("default"),
            ranks: Vec::new(),
            permissions,
        }
    }
}

/// A user as stored: the columns of its row.
pub struct PgUser {
    pub id: i64,
    pub name: String,
    pub bio: Option<String>,
    pub created_at: Timestamp,
    pub password: String,
    pub pfp: String,
}

/// The permission bits of a user who holds `tokens`: 64 bits, bit `i` set where some
/// token's permission sits at position `i`.
pub open spec fn token_bits(tokens: Seq<PgPermissionToken>) -> Seq<bool> {
    Seq::new(64, |i: int| exists|k: int| 0 <= k < tokens.len() && (#[trigger] tokens[k]).token.spec_bit() == i)
}

/// The tokens of an optional list (none without one).
pub open spec fn tokens_of(perms: Option<Vec<PgPermissionToken>>) -> Seq<PgPermissionToken> {
    match perms {
        Some(v) => v@,
        None => Seq::empty(),
    }
}

impl PgUser {
    /// The user a stored row describes, holding the given permission tokens and rankings
    /// (none where they could not be read), and the stored password hash.
    pub fn into_user(self, perms: Option<Vec<PgPermissionToken>>, ranks: Option<Vec<RankSummary>>) -> (r: (
        User,
        UserPasshash,
    ))
        ensures
            r.0.ranks@ == match ranks {
                Some(v) => v@,
                None => Seq::<RankSummary>::empty(),
            },
            r.0.id == self.id,
            r.0.username == self.name,
            r.0.bio == self.bio,
            r.0.pfp == self.pfp,
            r.1.0 == self.password,
            bits_of(r.0.permissions) == token_bits(tokens_of(perms)),
    {
        let tokens: Vec<PgPermissionToken> = match perms {
            Some(v) => v,
            None => Vec::new(),
        };
        let ghost ts = tokens@;
        let mut bits = bitvec_from_elem(64, false);
        for j in 0..tokens.len()
            invariant
                tokens@ == ts,
                bits_of(bits) == Seq::new(64, |i: int| exists|k: int| 0 <= k < j && (#[trigger] ts[k]).token.spec_bit() == i),
        {
            let b = tokens[j].token.bit();
            let ghost before = bits_of(bits);
            bitvec_set(&mut bits, b, true);
            proof {
                assert forall|i: int| 0 <= i < 64 implies bits_of(bits)[i] == exists|k: int|
                    0 <= k < j + 1 && (#[trigger] ts[k]).token.spec_bit() == i by {
                    if i == b as int {
                        assert(ts[j as int].token.spec_bit() == i);
                    } else {
                        assert(bits_of(bits)[i] == before[i]);
                        if exists|k: int| 0 <= k < j + 1 && (#[trigger] ts[k]).token.spec_bit() == i {
                            let k = choose|k: int| 0 <= k < j + 1 && (#[trigger] ts[k]).token.spec_bit() == i;
                            assert(k != j);
                        }
                    }
                }
                assert(bits_of(bits) =~= Seq::new(
                    64,
                    |i: int| exists|k: int| 0 <= k < j + 1 && (#[trigger] ts[k]).token.spec_bit() == i,
                ));
            }
        }
        proof {
            assert(bits_of(bits) =~= token_bits(ts));
        }
        (
            User {
                id: self.id,
                username: self.name,
                bio: self.bio,
                pfp: self.pfp,
                ranks: match ranks {
                    Some(v) => v,
                    None => Vec::new(),
                },
                permissions: bits,
            },
            UserPasshash(self.password),
        )
    }
}

/// The permissions a newly registered user is given: to view, to submit, to be trusted
/// (runs verified at once) and to delete their runs.
pub open spec fn new_user_tokens() -> Seq<Permissions> {
    seq![Permissions::View, Permissions::Submit, Permissions::Trusted, Permissions::Delete]
}

/// The permissions a newly registered user is given.
pub fn new_user_permissions() -> (r: Vec<Permissions>)
    ensures
        r@ == new_user_tokens(),
{
    let r = vec![Permissions::View, Permissions::Submit, Permissions::Trusted, Permissions::Delete];
    proof {
        assert(r@ =~= new_user_tokens());
    }
    r
}

/// A stored user may do what one of their tokens allows, and an administrator token
/// allows everything.
pub proof fn lemma_stored_permissions(tokens: Seq<PgPermissionToken>, p: Permissions)
    ensures
        grants(token_bits(tokens), p) == exists|k: int|
            0 <= k < tokens.len() && ((#[trigger] tokens[k]).token == Permissions::Administrator || tokens[k].token == p),
{
    let bits = token_bits(tokens);
    if grants(bits, p) {
        if bit_set(bits, Permissions::Administrator.spec_bit()) {
            let k = choose|k: int| 0 <= k < tokens.len() && (#[trigger] tokens[k]).token.spec_bit() == 63;
            assert(tokens[k].token == Permissions::Administrator);
        } else {
            let k = choose|k: int| 0 <= k < tokens.len() && (#[trigger] tokens[k]).token.spec_bit() == p.spec_bit();
            assert(tokens[k].token == p);
        }
    }
    if exists|k: int| 0 <= k < tokens.len() && ((#[trigger] tokens[k]).token == Permissions::Administrator || tokens[k].token == p) {
        let k = choose|k: int| 0 <= k < tokens.len() && ((#[trigger] tokens[k]).token == Permissions::Administrator || tokens[k].token == p);
        let i = tokens[k].token.spec_bit();
        assert(bits[i]);
    }
}

/// What a user may do.
pub trait UserPermissions {
    /// Whether the user may do `perm`.
    fn has(&self, perm: &Permissions) -> bool;
}

impl UserPermissions for User {
    fn has(&self, perm: &Permissions) -> (r: bool)
        ensures
            r == grants(bits_of(self.permissions), *perm),
    {
        let admin = match bitvec_get(&self.permissions, 63) {
            Some(v) => v,
            None => false,
        };
        admin || match bitvec_get(&self.permissions, perm.bit()) {
            Some(v) => v,
            None => false,
        }
    }
}

/// An administrator may do anything.
pub proof fn lemma_administrator_may_all(bits: Seq<bool>, p: Permissions)
    requires
        grants(bits, Permissions::Administrator),
    ensures
        grants(bits, p),
{
}

/// A guest may view and may do nothing else.
pub proof fn lemma_guest_only_views(p: Permissions)
    ensures
        grants(bits_of_bytes(seq![0x80u8, 0u8, 0u8, 0u8]), p) == (p == Permissions::View),
{
    let bits = bits_of_bytes(seq![0x80u8, 0u8, 0u8, 0u8]);
    assert(pow2(7) == 128 && pow2(6) == 64 && pow2(5) == 32 && pow2(4) == 16 && pow2(3) == 8
        && pow2(2) == 4 && pow2(1) == 2 && pow2(0) == 1) by {
        vstd::arithmetic::power2::lemma2_to64();
    }
    let bytes = seq![0x80u8, 0u8, 0u8, 0u8];
    assert(bits.len() == 32);
    assert forall|i: int| 0 <= i < 32 implies #[trigger] bits[i] == (i == 0) by {
        let k = (7 - i % 8) as nat;
        let q = bytes[i / 8] as int / pow2(k) as int;
        assert(bits[i] == (q % 2 == 1));
        vstd::arithmetic::power2::lemma_pow2_pos(k);
        if i >= 8 {
            assert(bytes[i / 8] == 0);
            assert(q == 0);
        } else {
            assert(i / 8 == 0 && i % 8 == i);
            assert(bytes[0] == 128);
            vstd::arithmetic::power2::lemma2_to64();
            if i == 0 {
                assert(k == 7);
                assert(pow2(7) == 128);
                assert(q == 128int / 128int);
                assert(q == 1);
            } else {
                assert(q == 128int / pow2((7 - i) as nat) as int);
                assert(q % 2 == 0) by {
                    if i == 1 {
                        assert(k == 6);
                        assert(pow2(6) == 64);
                        assert(q == 128int / 64int);
                    }
                    else if i == 2 {
                        assert(k == 5);
                        assert(pow2(5) == 32);
                        assert(q == 128int / 32int);
                    }
                    else if i == 3 {
                        assert(k == 4);
                        assert(pow2(4) == 16);
                        assert(q == 128int / 16int);
                    }
                    else if i == 4 {
                        assert(k == 3);
                        assert(pow2(3) == 8);
                        assert(q == 128int / 8int);
                    }
                    else if i == 5 {
                        assert(k == 2);
                        assert(pow2(2) == 4);
                        assert(q == 128int / 4int);
                    }
                    else if i == 6 {
                        assert(k == 1);
                        assert(pow2(1) == 2);
                        assert(q == 128int / 2int);
                    }
                    else {
                        assert(k == 0);
                        assert(pow2(0) == 1);
                        assert(q == 128int / 1int);
                    }
                }
            }
        }
    }
}

/// The request is made by someone logged in who may do `perm`: without a user it is
/// unauthenticated, without the permission unauthorized.
pub fn authorize(user: Option<&User>, perm: &Permissions) -> (r: Result<(), ApiError>)
    ensures
        match user {
            None => r == Err::<(), ApiError>(ApiError::Unauthenticated),
            Some(u) => if grants(bits_of(u.permissions), *perm) {
                r is Ok
            } else {
                r == Err::<(), ApiError>(ApiError::Unauthorized)
            },
        },
{
    match user {
        None => Err(ApiError::Unauthenticated),
        Some(u) => if u.has(perm) {
            Ok(())
        } else {
            Err(ApiError::Unauthorized)
        },
    }
}

/// An ASCII letter or digit.
pub open spec fn is_ascii_alphanumeric(c: char) -> bool {
    ('a' <= c <= 'z') || ('A' <= c <= 'Z') || ('0' <= c <= '9')
}

/// The number of bytes of a text in UTF-8.
pub open spec fn byte_len(s: Seq<char>) -> usize {
    vstd::utf8::encode_utf8(s).len() as usize
}

/// A password is acceptable: 8 to 256 characters long.
pub open spec fn password_ok(password: Seq<char>) -> bool {
    8 <= password.len() <= 256
}

/// A character that a username may hold: an ASCII letter or digit, `_`, `-` or `.`.
pub open spec fn username_char_ok(c: char) -> bool {
    is_ascii_alphanumeric(c) || c == '_' || c == '-' || c == '.'
}

/// A username is acceptable: it matches `[a-zA-Z0-9_-.]{2,32}`, 2 to 32 characters of
/// ASCII letters, digits, `_`, `-` and `.`.
pub open spec fn username_ok(username: Seq<char>) -> bool {
    &&& 2 <= username.len() <= 32
    &&& forall|i: int| 0 <= i < username.len() ==> username_char_ok(#[trigger] username[i])
}

/// Whether a password is acceptable: between 8 and 256 characters long.
pub fn check_password(password: &String) -> (r: bool)
    ensures
        r == password_ok(password@),
{
    let len = password.as_str().unicode_len();
    8 <= len && len <= 256
}

/// Whether a character may stand in a username.
fn username_char(c: char) -> (r: bool)
    ensures
        r == username_char_ok(c),
{
    ('a' <= c && c <= 'z') || ('A' <= c && c <= 'Z') || ('0' <= c && c <= '9') || c == '_' || c == '-'
        || c == '.'
}

/// Whether a username is acceptable: 2 to 32 characters of ASCII letters, digits, `_`,
/// `-` and `.`.
pub fn check_username(username: &String) -> (r: bool)
    ensures
        r == username_ok(username@),
{
    let len = username.as_str().unicode_len();
    if !(2 <= len && len <= 32) {
        return false;
    }
    let mut all = true;
    for c in it: username.as_str().chars()
        invariant
            it.seq() == username@,
            all == forall|i: int| 0 <= i < it.index() ==> username_char_ok(#[trigger] username@[i]),
    {
        let ok = username_char(c);
        all = all && ok;
    }
    all
}

/// A registration is valid: acceptable password and username, and the password typed
/// twice alike; otherwise the credentials are invalid.
pub fn check_registration(username: &String, password: &String, password_confirm: &String) -> (r: Result<(), ApiError>)
    ensures
        r is Ok <==> (password_ok(password@) && username_ok(username@) && password@ == password_confirm@),
        r is Err ==> r == Err::<(), ApiError>(ApiError::InvalidCredentials),
{
    if !check_password(password) || !check_username(username) {
        return Err(ApiError::InvalidCredentials);
    }
    if password.as_str().len() != password_confirm.as_str().len() || !str_eq(password.as_str(), password_confirm.as_str()) {
        return Err(ApiError::InvalidCredentials);
    }
    Ok(())
}

/// A bio is acceptable: absent, or at most 512 bytes long.
pub open spec fn bio_ok(bio: Option<String>) -> bool {
    match bio {
        Some(b) => byte_len(b@) <= 512,
        None => true,
    }
}

/// Checks a new bio; a longer one is refused as invalid credentials.
pub fn check_bio(bio: &Option<String>) -> (r: Result<(), ApiError>)
    ensures
        r is Ok <==> bio_ok(*bio),
        r is Err ==> r == Err::<(), ApiError>(ApiError::InvalidCredentials),
{
    match bio {
        Some(b) => if b.as_str().len() > 512 {
            Err(ApiError::InvalidCredentials)
        } else {
            Ok(())
        },
        None => Ok(()),
    }
}

/// Either both of a layout and a category are given or neither (the combined ranking);
/// one without the other is invalid input.
pub fn check_combo(layout: &Option<String>, category: &Option<String>) -> (r: Result<(), ApiError>)
    ensures
        r is Ok <==> (layout is Some == category is Some),
        r is Err ==> r == Err::<(), ApiError>(ApiError::InvalidInput),
{
    if layout.is_some() && category.is_none() || (layout.is_none() && category.is_some()) {
        Err(ApiError::InvalidInput)
    } else {
        Ok(())
    }
}

/// Whether `hash` is a password hash in PHC string form (`PasswordHash::new` succeeds).
pub uninterp spec fn phc_hash_ok(hash: Seq<char>) -> bool;

/// Whether Argon2 finds that `password` matches the PHC hash `hash`.
pub uninterp spec fn argon2_matches(hash: Seq<char>, password: Seq<char>) -> bool;

/// Whether a stored hash can be read (`PasswordHash::new`).
#[verifier::external_body]
fn parse_hash_ok(hash: &str) -> (r: bool)
    ensures
        r == phc_hash_ok(hash@),
{
    PasswordHash::new(hash).is_ok()
}

/// Whether a password matches a readable stored hash (`Argon2::verify_password` with the
/// default parameters).
#[verifier::external_body]
fn argon2_verify(hash: &str, password: &str) -> (r: bool)
    requires
        phc_hash_ok(hash@),
    ensures
        r == argon2_matches(hash@, password@),
{
    match PasswordHash::new(hash) {
        Ok(parsed) => Argon2::default().verify_password(password.as_bytes(), &parsed).is_ok(),
        Err(_) => false,
    }
}

/// Hashes a password with Argon2 (default parameters) and a fresh random salt
/// (`PasswordHasher::hash_password`), in PHC string form; `None` where hashing fails.
/// The salt is random, so the hash itself is not said; what is said is that it is a
/// readable PHC string against which Argon2 verifies the same password.
#[verifier::external_body]
fn argon2_hash(password: &str) -> (r: Option<String>)
    ensures
        r matches Some(h) ==> phc_hash_ok(h@) && argon2_matches(h@, password@),
{
    let salt = SaltString::generate(&mut OsRng);
    Argon2::default().hash_password(password.as_bytes(), &salt).ok().map(|h| h.to_string())
}

/// Hashes a password for storage: the stored hash is readable and the password verifies
/// against it; where hashing fails, signing up fails.
pub fn hash_password(password: &String) -> (r: Result<String, ApiError>)
    ensures
        r matches Ok(h) ==> phc_hash_ok(h@) && argon2_matches(h@, password@),
        r is Err ==> (r matches Err(ApiError::ServerError(m)) && m@
            == "Signup failed: Failed to hash password"@),
{
    match argon2_hash(password.as_str()) {
        Some(h) => Ok(h),
        None => Err(ApiError::ServerError(String::from_str("Signup failed: Failed to hash password"))),
    }
}

/// Checks a password against a stored hash: an unreadable hash fails the login, a
/// mismatch is invalid credentials.
pub fn verify_password(pass_hash: &String, password: &String) -> (r: Result<(), ApiError>)
    ensures
        !phc_hash_ok(pass_hash@) ==> (r matches Err(ApiError::ServerError(m)) && m@
            == "Login failed: Failed to hash password"@),
        phc_hash_ok(pass_hash@) ==> (r is Ok <==> argon2_matches(pass_hash@, password@)),
        phc_hash_ok(pass_hash@) && r is Err ==> r == Err::<(), ApiError>(ApiError::InvalidCredentials),
{
    if !parse_hash_ok(pass_hash.as_str()) {
        return Err(ApiError::ServerError(String::from_str("Login failed: Failed to hash password")));
    }
    if argon2_verify(pass_hash.as_str(), password.as_str()) {
        Ok(())
    } else {
        Err(ApiError::InvalidCredentials)
    }
}

/// A password change: the current password must match the stored hash and the new one
/// must be acceptable; the new password is then hashed for storage.
pub fn password_change(stored_hash: &String, update: &PasswordUpdate) -> (r: Result<String, ApiError>)
    ensures
        !phc_hash_ok(stored_hash@) ==> (r matches Err(ApiError::ServerError(m)) && m@
            == "Login failed: Failed to hash password"@),
        phc_hash_ok(stored_hash@) && !argon2_matches(stored_hash@, update.old@) ==> r == Err::<String, ApiError>(
            ApiError::InvalidCredentials,
        ),
        phc_hash_ok(stored_hash@) && argon2_matches(stored_hash@, update.old@) && !password_ok(update.new@) ==> r
            == Err::<String, ApiError>(ApiError::InvalidCredentials),
        r is Ok ==> phc_hash_ok(stored_hash@) && argon2_matches(stored_hash@, update.old@) && password_ok(update.new@),
        r matches Ok(h) ==> phc_hash_ok(h@) && argon2_matches(h@, update.new@),
        r is Err && phc_hash_ok(stored_hash@) && argon2_matches(stored_hash@, update.old@) && password_ok(update.new@)
            ==> (r matches Err(ApiError::ServerError(m)) && m@ == "Signup failed: Failed to hash password"@),
{
    match verify_password(stored_hash, &update.old) {
        Err(e) => return Err(e),
        Ok(()) => {},
    }
    if !check_password(&update.new) {
        return Err(ApiError::InvalidCredentials);
    }
    hash_password(&update.new)
}

#[verifier::external_type_specification]
#[verifier::external_body]
pub struct ExHeaderValue(HeaderValue);

/// The bytes a header value holds.
pub uninterp spec fn header_value_bytes(h: HeaderValue) -> Seq<u8>;

/// A byte a header value may hold: a tab, or anything from a space up but DEL.
pub open spec fn header_byte_ok(b: u8) -> bool {
    (b >= 32 && b != 127) || b == 9
}

/// A byte that reads as text in a header value: a tab, or visible ASCII and space.
pub open spec fn header_byte_visible(b: u8) -> bool {
    (b >= 32 && b < 127) || b == 9
}

/// The characters whose codes are the given (ASCII) bytes.
pub open spec fn ascii_chars(bytes: Seq<u8>) -> Seq<char> {
    Seq::new(bytes.len(), |i: int| bytes[i] as char)
}

/// The UTF-8 bytes of a text.
pub open spec fn utf8_bytes(s: Seq<char>) -> Seq<u8> {
    vstd::utf8::encode_utf8(s)
}

/// A header value from a text, where every byte of it may stand in a header
/// (`HeaderValue::from_str`).
#[verifier::external_body]
fn header_value_from_str(s: &str) -> (r: Option<HeaderValue>)
    ensures
        r is Some <==> forall|i: int| 0 <= i < utf8_bytes(s@).len() ==> header_byte_ok(#[trigger] utf8_bytes(s@)[i]),
        r matches Some(h) ==> header_value_bytes(h) == utf8_bytes(s@),
{
    HeaderValue::from_str(s).ok()
}

/// The text of a header value, where every byte of it reads as text
/// (`HeaderValue::to_str`).
#[verifier::external_body]
fn header_value_to_str(h: &HeaderValue) -> (r: Option<String>)
    ensures
        r is Some <==> forall|i: int|
            0 <= i < header_value_bytes(*h).len() ==> header_byte_visible(#[trigger] header_value_bytes(*h)[i]),
        r matches Some(t) ==> t@ == ascii_chars(header_value_bytes(*h)),
{
    h.to_str().ok().map(|t| t.to_string())
}

/// Every byte may stand in a header value.
pub open spec fn header_ok(bytes: Seq<u8>) -> bool {
    forall|i: int| 0 <= i < bytes.len() ==> header_byte_ok(#[trigger] bytes[i])
}

/// Every byte reads as text in a header value.
pub open spec fn header_visible(bytes: Seq<u8>) -> bool {
    forall|i: int| 0 <= i < bytes.len() ==> header_byte_visible(#[trigger] bytes[i])
}

/// Where a redirect to the site path `/` + `path` leads: there, where the path can stand
/// in a `Location` header and reads as text; the start page where it can stand there but
/// does not read as text; nowhere (`None`) where it cannot stand there.
pub open spec fn spec_redirect_location(path: Seq<char>) -> Option<Seq<char>> {
    let bytes = utf8_bytes(seq!['/'] + path);
    if !header_ok(bytes) {
        None
    } else if header_visible(bytes) {
        Some(ascii_chars(bytes))
    } else {
        Some("/"@)
    }
}

/// Where a redirect to the site path `/` + `path` leads.
pub fn redirect_location(path: &str) -> (r: Option<String>)
    ensures
        opt_text(r) == spec_redirect_location(path@),
{
    let target = String::from_str("/").concat(path);
    proof {
        reveal_strlit("/");
        assert(target@ =~= seq!['/'] + path@);
    }
    match header_value_from_str(target.as_str()) {
        Some(h) => match header_value_to_str(&h) {
            Some(t) => Some(t),
            None => Some(String::from_str("/")),
        },
        None => None,
    }
}

/// Where a login leads: the requested page, or the start page where it is missing or
/// cannot be redirected to.
pub fn login_redirect(redirect: &Option<String>) -> (r: String)
    ensures
        r@ == match spec_redirect_location(
            match redirect {
                Some(p) => p@,
                None => Seq::<char>::empty(),
            },
        ) {
            Some(t) => t,
            None => "/"@,
        },
{
    let loc = match redirect {
        Some(p) => redirect_location(p.as_str()),
        None => redirect_location(""),
    };
    proof {
        reveal_strlit("");
    }
    match loc {
        Some(t) => t,
        None => String::from_str("/"),
    }
}

/// Where an account change leads: the requested page where one is given and can be
/// redirected to; otherwise no redirect.
pub fn change_redirect(redirect: &Option<String>) -> (r: Option<String>)
    ensures
        opt_text(r) == match redirect {
            Some(p) => spec_redirect_location(p@),
            None => None,
        },
{
    match redirect {
        Some(p) => redirect_location(p.as_str()),
        None => None,
    }
}

/// The largest avatar accepted: 4 MiB.
pub const AVATAR_LIMIT: usize = 4194304;

/// The bytes a JPEG file starts with.
pub open spec fn jpeg_head(chunk: Seq<u8>) -> bool {
    chunk.len() > 2 && chunk[0] == 0xFF && chunk[1] == 0xD8 && chunk[2] == 0xFF
}

/// The progress of an avatar upload: the bytes received so far, and whether the first
/// chunk has been checked.
#[derive(Clone, Copy, Debug)]
pub struct AvatarUpload {
    pub received: usize,
    pub checked: bool,
}

impl AvatarUpload {
    /// An upload within the limit.
    pub open spec fn wf(self) -> bool {
        self.received <= AVATAR_LIMIT
    }

    /// An upload that has received nothing.
    pub fn new() -> (r: AvatarUpload)
        ensures
            r.received == 0,
            !r.checked,
            r.wf(),
    {
        AvatarUpload { received: 0, checked: false }
    }

    /// Takes the next chunk of an upload: the first chunk must start like a JPEG file,
    /// and the whole upload must stay within 4 MiB; otherwise the input is invalid.
    pub fn accept_chunk(&mut self, chunk: &[u8]) -> (r: Result<(), ApiError>)
        requires
            old(self).wf(),
        ensures
            r is Ok <==> ((old(self).checked || jpeg_head(chunk@)) && old(self).received + chunk@.len()
                <= AVATAR_LIMIT),
            r is Err ==> r == Err::<(), ApiError>(ApiError::InvalidInput),
            r is Ok ==> final(self).received == old(self).received + chunk@.len() && final(self).checked
                && final(self).wf(),
    {
        let len = chunk.len();
        if !self.checked {
            self.checked = true;
            if !(len > 2 && chunk[0] == 0xFF && chunk[1] == 0xD8 && chunk[2] == 0xFF) {
                return Err(ApiError::InvalidInput);
            }
        }
        if len > AVATAR_LIMIT - self.received {
            return Err(ApiError::InvalidInput);
        }
        self.received = self.received + len;
        Ok(())
    }
}

/// The sum of the lengths of the first `n` chunks.
pub open spec fn total_len(chunks: Seq<Seq<u8>>, n: int) -> int
    decreases n,
{
    if n <= 0 {
        0
    } else {
        total_len(chunks, n - 1) + chunks[n - 1].len()
    }
}

/// Whether an upload accepts the first `n` chunks, one after the other.
pub open spec fn upload_accepts(chunks: Seq<Seq<u8>>, n: int) -> bool
    decreases n,
{
    if n <= 0 {
        true
    } else {
        upload_accepts(chunks, n - 1) && (n - 1 > 0 || jpeg_head(chunks[0])) && total_len(chunks, n)
            <= AVATAR_LIMIT
    }
}

/// An upload accepts a stream of chunks exactly when the stream is empty or starts like a
/// JPEG file, and is 4 MiB at most in all.
pub proof fn lemma_upload_accepts(chunks: Seq<Seq<u8>>, n: int)
    requires
        0 <= n <= chunks.len(),
    ensures
        upload_accepts(chunks, n) == ((n == 0 || jpeg_head(chunks[0])) && total_len(chunks, n)
            <= AVATAR_LIMIT),
    decreases n,
{
    if n > 0 {
        lemma_upload_accepts(chunks, n - 1);
        assert(total_len(chunks, n - 1) <= total_len(chunks, n));
    }
}

/// One random ASCII letter or digit (a sample of `rand`'s `Alphanumeric` distribution
/// from the thread's generator). The character is random, so nothing more is said of it.
#[verifier::external_body]
fn random_alphanumeric() -> (r: char)
    ensures
        is_ascii_alphanumeric(r),
{
    char::from(rand::thread_rng().sample(Alphanumeric))
}

/// A fresh name for an avatar file: 64 random ASCII letters and digits.
pub(crate) fn random_avatar_name() -> (r: String)
    ensures
        r@.len() == 64,
        forall|i: int| 0 <= i < 64 ==> is_ascii_alphanumeric(#[trigger] r@[i]),
{
    let mut name = String::new();
    for k in 0..64usize
        invariant
            name@.len() == k,
            forall|i: int| 0 <= i < k ==> is_ascii_alphanumeric(#[trigger] name@[i]),
    {
        crate::text::push_char(&mut name, random_alphanumeric());
    }
    name
}

/// A new avatar file: its random name and where the upload is saved.
pub struct NewAvatar {
    pub name: String,
    pub upload_path: String,
}

/// Names a new avatar file: 64 random ASCII letters and digits, saved under the site's
/// user pictures.
pub fn new_avatar() -> (r: NewAvatar)
    ensures
        r.name@.len() == 64,
        forall|i: int| 0 <= i < 64 ==> is_ascii_alphanumeric(#[trigger] r.name@[i]),
        r.upload_path@ == "target/site/cdn/users/"@ + r.name@ + ".jpg"@,
{
    let name = random_avatar_name();
    let upload_path = avatar_upload_path(&name);
    NewAvatar { name, upload_path }
}

/// The form field of an avatar upload must be the one named `avatar` (a field without
/// a name counts as named by the empty text); otherwise the input is invalid.
pub fn check_avatar_field(name: &Option<String>) -> (r: Result<(), ApiError>)
    ensures
        r is Ok <==> (*name matches Some(n) && n@ == "avatar"@),
        r is Err ==> r == Err::<(), ApiError>(ApiError::InvalidInput),
{
    match name {
        Some(n) => if str_eq(n.as_str(), "avatar") {
            Ok(())
        } else {
            Err(ApiError::InvalidInput)
        },
        None => {
            proof {
                reveal_strlit("avatar");
            }
            Err(ApiError::InvalidInput)
        },
    }
}

/// Where an uploaded avatar is saved.
pub fn avatar_upload_path(name: &String) -> (r: String)
    ensures
        r@ == "target/site/cdn/users/"@ + name@ + ".jpg"@,
{
    String::from_str("target/site/cdn/users/").concat(name.as_str()).concat(".jpg")
}

/// Where a user's published avatar lies.
pub fn avatar_cdn_path(name: &String) -> (r: String)
    ensures
        r@ == "../cdn/users/"@ + name@ + ".jpg"@,
{
    String::from_str("../cdn/users/").concat(name.as_str()).concat(".jpg")
}

/// What becomes of a Discord account being linked.
#[derive(Clone, Copy, Debug, PartialEq, Eq)]
pub enum LinkAction {
    /// The account is linked already: refresh its name and tokens.
    Update,
    /// A new link.
    Insert,
}

/// Whether one of the links is to the account `snowflake`.
pub open spec fn linked_to(links: Seq<Discord>, snowflake: Seq<char>) -> bool {
    exists|i: int| 0 <= i < links.len() && (#[trigger] links[i]).snowflake@ == snowflake
}

/// A user with `n` links may link no more accounts: at most five are kept.
pub open spec fn links_full(n: int) -> bool {
    n >= 5
}

/// Whether the Discord page offers to link another account.
pub fn can_link_more(links: &Vec<Discord>) -> (r: bool)
    ensures
        r == !links_full(links@.len() as int),
{
    links.len() < 5
}

/// Links a Discord account to a user who has `links` already: a user has at most five
/// links; a linked account is updated, another one added.
pub fn discord_link_action(links: &Vec<Discord>, snowflake: &String) -> (r: Result<LinkAction, ApiError>)
    ensures
        links_full(links@.len() as int) <==> r is Err,
        r is Err ==> r == Err::<LinkAction, ApiError>(ApiError::AlreadyExists),
        r is Ok ==> (r == Ok::<LinkAction, ApiError>(LinkAction::Update) <==> linked_to(links@, snowflake@)),
{
    if links.len() >= 5 {
        return Err(ApiError::AlreadyExists);
    }
    let mut i: usize = 0;
    while i < links.len()
        invariant
            i <= links@.len(),
            links@.len() < 5,
            forall|j: int| 0 <= j < i ==> (#[trigger] links@[j]).snowflake@ != snowflake@,
        decreases links@.len() - i,
    {
        if str_eq(links[i].snowflake.as_str(), snowflake.as_str()) {
            return Ok(LinkAction::Update);
        }
        i = i + 1;
    }
    Ok(LinkAction::Insert)
}

/// The state a Discord login returns with must be the one it was sent with; otherwise
/// the credentials are invalid.
pub fn check_csrf(expected: &String, state: &String) -> (r: Result<(), ApiError>)
    ensures
        r is Ok <==> expected@ == state@,
        r is Err ==> r == Err::<(), ApiError>(ApiError::InvalidCredentials),
{
    if str_eq(expected.as_str(), state.as_str()) {
        Ok(())
    } else {
        Err(ApiError::InvalidCredentials)
    }
}

/// A deletion that removed nothing did not find the run.
pub fn deletion_result(rows_affected: u64) -> (r: Result<(), ApiError>)
    ensures
        r is Ok <==> rows_affected != 0,
        r is Err ==> r == Err::<(), ApiError>(ApiError::NotFound),
{
    if rows_affected != 0 {
        Ok(())
    } else {
        Err(ApiError::NotFound)
    }
}

/// The proof link of a YouTube video.
pub fn youtube_link(yt_id: &String) -> (r: String)
    ensures
        r@ == "https://youtube.com/watch?v="@ + yt_id@,
{
    String::from_str("https://youtube.com/watch?v=").concat(yt_id.as_str())
}

/// What a submission becomes once its section and video have been looked up: refused
/// where YouTube knows no such video; otherwise a run with the video as proof, verified
/// at once where the submitter is trusted.
pub struct Submission {
    pub section_id: i32,
    pub user_id: i64,
    pub proof: String,
    pub yt_id: String,
    pub verified: bool,
    pub redirect: String,
}

/// Decides a submission from the number of videos YouTube found for the id.
pub fn submission(user: &User, section_id: i32, yt_id: String, total_results: i32) -> (r: Result<Submission, ApiError>)
    ensures
        r is Err <==> total_results == 0,
        r is Err ==> r == Err::<Submission, ApiError>(ApiError::InvalidYtId),
        r matches Ok(s) ==> {
            &&& s.section_id == section_id
            &&& s.user_id == user.id
            &&& s.proof@ == "https://youtube.com/watch?v="@ + yt_id@
            &&& s.yt_id@ == yt_id@
            &&& s.verified == grants(bits_of(user.permissions), Permissions::Trusted)
            &&& s.redirect@ == "/leaderboard/map/"@ + int_text(section_id as int)
        },
{
    if total_results == 0 {
        return Err(ApiError::InvalidYtId);
    }
    let proof = youtube_link(&yt_id);
    let verified = user.has(&Permissions::Trusted);
    let redirect = String::from_str("/leaderboard/map/").concat(i64_text(section_id as i64).as_str());
    Ok(Submission { section_id, user_id: user.id, proof, yt_id, verified, redirect })
}

} // verus!
