//! Accounts, credential checks and the login replies.
use vstd::prelude::*;

verus! {

/// An account name with the hash of its password.
pub struct UserHash {
    acct_name: String,
    pass_hash: [u8; 32],
}

/// An account as stored in the user table.
#[derive(Debug)]
pub struct User {
    pub user_id: i64,
    pub user_name: String,
    pub user_email: String,
    pub user_pass_hash: Vec<u8>,
}

/// A login token's identity and description.
pub struct TokenInfo {
    id: [u8; 16],
    description: String,
}

/// The system could not supply random bytes.
#[derive(Debug, PartialEq, Eq, Structural, Clone, Copy)]
pub struct RandomUnavailable;

#[verifier::external_type_specification]
#[verifier::external_body]
pub struct ExRandomError(getrandom::Error);

/// `getrandom::getrandom`: fills `dest` with random bytes from the system, or fails.
/// Nothing is promised of the bytes, nor of when it fails.
#[verifier::external_body]
fn fill_random(dest: &mut [u8; 32]) -> (r: Result<(), getrandom::Error>) {
    getrandom::getrandom(dest)
}

/// The cookie handed out after a successful login: 32 bytes of 3. Random bytes are drawn
/// but not used yet.
pub open spec fn issued_cookie() -> Seq<u8> {
    Seq::new(32, |i: int| 3u8)
}

/// `ok` and a NUL: the start of every successful reply.
pub open spec fn ok_prefix() -> Seq<u8> {
    seq![0x6fu8, 0x6bu8, 0x00u8]
}

/// The reply to a failed login: `no`, NUL, `Invalid username or password`, NUL.
pub open spec fn auth_fail_text() -> Seq<u8> {
    seq![
        0x6eu8, 0x6fu8, 0x00u8, 0x49u8, 0x6eu8, 0x76u8, 0x61u8, 0x6cu8, 0x69u8, 0x64u8, 0x20u8,
        0x75u8, 0x73u8, 0x65u8, 0x72u8, 0x6eu8, 0x61u8, 0x6du8, 0x65u8, 0x20u8, 0x6fu8, 0x72u8,
        0x20u8, 0x70u8, 0x61u8, 0x73u8, 0x73u8, 0x77u8, 0x6fu8, 0x72u8, 0x64u8, 0x00u8,
    ]
}

/// The reply to a successful login of `account`: `ok`, NUL, the account name, NUL, cookie.
pub open spec fn auth_success_text(account: Seq<u8>) -> Seq<u8> {
    ok_prefix() + account + seq![0x00u8] + issued_cookie()
}

/// The reply that hands out a cookie: `ok`, NUL, cookie.
pub open spec fn send_cookie_text() -> Seq<u8> {
    ok_prefix() + issued_cookie()
}

/// Makes a new login cookie. Random bytes are asked of the system first, and their
/// failure is passed on.
pub fn gen_new_auth_cookie() -> (r: Result<[u8; 32], RandomUnavailable>)
    ensures
        r matches Ok(c) ==> c@ == issued_cookie(),
{
    let mut buf = [0u8; 32];
    match fill_random(&mut buf) {
        Ok(()) => {},
        Err(_) => {
            return Err(RandomUnavailable);
        },
    }
    let buf2: [u8; 32] = [3u8; 32];
    assert(buf2@ =~= issued_cookie());
    Ok(buf2)
}

/// The reply to a successful login of `account`, which must not be empty. A failure to
/// make the cookie is passed on.
pub fn msg_auth_success(account: &mut Vec<u8>) -> (r: Result<Vec<u8>, RandomUnavailable>)
    requires
        old(account)@.len() > 0,
    ensures
        final(account)@ == old(account)@,
        r matches Ok(reply) ==> reply@ == auth_success_text(old(account)@),
{
    let mut reply_msg: Vec<u8> = Vec::new();
    reply_msg.extend_from_slice(&[0x6f, 0x6b, 0x00]);
    reply_msg.extend_from_slice(account.as_slice());
    reply_msg.push(0x00);
    let cookie = match gen_new_auth_cookie() {
        Ok(c) => c,
        Err(e) => {
            return Err(e);
        },
    };
    reply_msg.extend_from_slice(&cookie);
    assert(reply_msg@ =~= auth_success_text(old(account)@));
    Ok(reply_msg)
}

/// The reply that hands out a cookie. A failure to make the cookie is passed on.
pub fn msg_send_cookie() -> (r: Result<Vec<u8>, RandomUnavailable>)
    ensures
        r matches Ok(reply) ==> reply@ == send_cookie_text(),
{
    let mut reply_msg: Vec<u8> = Vec::new();
    reply_msg.extend_from_slice(&[0x6f, 0x6b, 0x00]);
    let cookie = match gen_new_auth_cookie() {
        Ok(c) => c,
        Err(e) => {
            return Err(e);
        },
    };
    reply_msg.extend_from_slice(&cookie);
    assert(reply_msg@ =~= send_cookie_text());
    Ok(reply_msg)
}

/// The reply to a failed login.
pub fn msg_auth_fail() -> (reply: Vec<u8>)
    ensures
        reply@ == auth_fail_text(),
{
    let text: [u8; 32] = [
        0x6e, 0x6f, 0x00, 0x49, 0x6e, 0x76, 0x61, 0x6c, 0x69, 0x64, 0x20, 0x75, 0x73, 0x65, 0x72,
        0x6e, 0x61, 0x6d, 0x65, 0x20, 0x6f, 0x72, 0x20, 0x70, 0x61, 0x73, 0x73, 0x77, 0x6f, 0x72,
        0x64, 0x00,
    ];
    let mut reply_msg: Vec<u8> = Vec::new();
    reply_msg.extend_from_slice(&text);
    assert(reply_msg@ =~= auth_fail_text());
    reply_msg
}

/// Whether two byte sequences are equal.
pub(crate) fn bytes_equal(a: &[u8], b: &[u8]) -> (r: bool)
    ensures
        r == (a@ == b@),
{
    if a.len() != b.len() {
        return false;
    }
    let n = a.len();
    let mut i: usize = 0;
    while i < n
        invariant
            n == a@.len(),
            n == b@.len(),
            i <= n,
            forall|j: int| 0 <= j < i ==> a@[j] == b@[j],
        decreases n - i,
    {
        if a[i] != b[i] {
            return false;
        }
        i = i + 1;
    }
    assert(a@ =~= b@);
    true
}

/// Whether the password hash matches the stored one of the account looked up; an
/// account that was not found never matches.
pub fn check_passhash(user_hash: [u8; 32], user: &Option<User>) -> (r: bool)
    ensures
        r == (user matches Some(u) && u.user_pass_hash@ == user_hash@),
{
    match user {
        Some(u) => bytes_equal(u.user_pass_hash.as_slice(), &user_hash),
        None => false,
    }
}

/// Whether a login token matches the account looked up. The stored password hash is
/// what it is compared with; an account that was not found never matches.
pub fn check_token(token: [u8; 32], user: &Option<User>) -> (r: bool)
    ensures
        r == (user matches Some(u) && u.user_pass_hash@ == token@),
{
    match user {
        Some(u) => bytes_equal(u.user_pass_hash.as_slice(), &token),
        None => false,
    }
}

} // verus!
