//! The login service's decisions: what a frame from the client asks for, and what is
//! answered.
use bytes::BytesMut;
use std::path::PathBuf;
use vstd::prelude::*;
use vstd::utf8::{decode_utf8, encode_utf8, valid_utf8, decode_utf8_encode_utf8};
use vstd::string::StringSliceAdditionalSpecFns;
use crate::auth::{msg_auth_success, msg_auth_fail, msg_send_cookie, auth_success_text,
    auth_fail_text, send_cookie_text, bytes_equal};
use crate::buffer::{buf_view, be16, buf_clear};
use crate::msg_util::{remove_length_header, get_next_string_utf8, get_next_32_bytes, add_msg_length_header,
    nul_field, after_nul_field, framed, MAX_PAYLOAD};

verus! {

#[verifier::external_type_specification]
#[verifier::external_body]
pub struct ExPathBuf(PathBuf);

/// The certificates of a PEM file, in order, each as its DER bytes; `None` when the file
/// cannot be read as PEM.
pub uninterp spec fn pem_certs(pem: Seq<u8>) -> Option<Seq<Seq<u8>>>;

/// The PKCS#8 private keys of a PEM file, in order, each as its DER bytes; `None` when the
/// file cannot be read as PEM.
pub uninterp spec fn pem_pkcs8_keys(pem: Seq<u8>) -> Option<Seq<Seq<u8>>>;

/// `rustls_pemfile::certs` on the bytes of a PEM file: its certificates, or `None` for the
/// error it reports.
#[verifier::external_body]
fn certs_from_pem(pem: &[u8]) -> (r: Option<Vec<Vec<u8>>>)
    ensures
        r is Some <==> pem_certs(pem@) is Some,
        r matches Some(v) ==> v.deep_view() == pem_certs(pem@)->0,
{
    let mut rd = pem;
    rustls_pemfile::certs(&mut rd).ok()
}

/// `rustls_pemfile::pkcs8_private_keys` on the bytes of a PEM file: its PKCS#8 keys, or
/// `None` for the error it reports.
#[verifier::external_body]
fn pkcs8_keys_from_pem(pem: &[u8]) -> (r: Option<Vec<Vec<u8>>>)
    ensures
        r is Some <==> pem_pkcs8_keys(pem@) is Some,
        r matches Some(v) ==> v.deep_view() == pem_pkcs8_keys(pem@)->0,
{
    let mut rd = pem;
    rustls_pemfile::pkcs8_private_keys(&mut rd).ok()
}

/// A PEM file could not be read.
#[derive(Debug, PartialEq, Eq, Structural, Clone, Copy)]
pub enum PemError {
    /// The certificate file.
    InvalidCert,
    /// The key file.
    InvalidKey,
}

/// The certificates of the PEM file `pem`, each as its DER bytes.
pub fn load_certs(pem: &[u8]) -> (r: Result<Vec<Vec<u8>>, PemError>)
    ensures
        r is Ok <==> pem_certs(pem@) is Some,
        r matches Ok(v) ==> v.deep_view() == pem_certs(pem@)->0,
        r matches Err(e) ==> e == PemError::InvalidCert,
{
    match certs_from_pem(pem) {
        Some(v) => Ok(v),
        None => Err(PemError::InvalidCert),
    }
}

/// The PKCS#8 private keys of the PEM file `pem`, each as its DER bytes.
pub fn load_keys(pem: &[u8]) -> (r: Result<Vec<Vec<u8>>, PemError>)
    ensures
        r is Ok <==> pem_pkcs8_keys(pem@) is Some,
        r matches Ok(v) ==> v.deep_view() == pem_pkcs8_keys(pem@)->0,
        r matches Err(e) ==> e == PemError::InvalidKey,
{
    match pkcs8_keys_from_pem(pem) {
        Some(v) => Ok(v),
        None => Err(PemError::InvalidKey),
    }
}

/// Command-line options of the login service.
pub struct Options {
    /// Address to listen on.
    pub addr: String,
    /// Certificate file.
    pub cert: PathBuf,
    /// Private key file.
    pub key: PathBuf,
}

/// The command word `pw`.
pub open spec fn cmd_pw() -> Seq<u8> {
    seq![0x70u8, 0x77u8]
}

/// The command word `token`.
pub open spec fn cmd_token() -> Seq<u8> {
    seq![0x74u8, 0x6fu8, 0x6bu8, 0x65u8, 0x6eu8]
}

/// The command word `cookie`.
pub open spec fn cmd_cookie() -> Seq<u8> {
    seq![0x63u8, 0x6fu8, 0x6fu8, 0x6bu8, 0x69u8, 0x65u8]
}

/// The command word `mktoken`.
pub open spec fn cmd_mktoken() -> Seq<u8> {
    seq![0x6du8, 0x6bu8, 0x74u8, 0x6fu8, 0x6bu8, 0x65u8, 0x6eu8]
}

/// What a client frame asks for.
#[derive(Debug)]
pub enum AuthRequest {
    /// Log in with a password hash.
    Password { account: String, pass_hash: [u8; 32] },
    /// Log in with a token.
    Token { account: String, token: [u8; 32] },
    /// Hand out a cookie to the logged-in client.
    Cookie,
    /// Make a login token (not served yet).
    MakeToken,
    /// Any other command: nothing is done.
    Unknown,
}

/// Why the connection is given up.
#[derive(Debug, PartialEq, Eq, Structural, Clone, Copy)]
pub enum AuthFailure {
    /// The frame has fewer than three bytes.
    ShortFrame,
    /// The length header does not announce the bytes that were read.
    LengthMismatch,
    /// A field is cut short or not UTF-8, the read count is below two, a login succeeds
    /// for an empty account name, or a reply is too long to frame.
    Malformed,
    /// A cookie was asked for before a successful login.
    NotAuthed,
    /// The system could not supply random bytes for a cookie.
    RandomUnavailable,
}

/// The command field of frame `s` (its length header included).
pub open spec fn frame_cmd(s: Seq<u8>) -> Seq<u8> {
    nul_field(s.skip(2))
}

/// What frame `s` holds after its command.
pub open spec fn frame_after_cmd(s: Seq<u8>) -> Seq<u8> {
    after_nul_field(s.skip(2))
}

/// The account field of a login frame.
pub open spec fn frame_account(s: Seq<u8>) -> Seq<u8> {
    nul_field(frame_after_cmd(s))
}

/// What a login frame holds after the account field.
pub open spec fn frame_after_account(s: Seq<u8>) -> Seq<u8> {
    after_nul_field(frame_after_cmd(s))
}

/// True when the command of frame `s` is a login (`pw` or `token`).
pub open spec fn is_login_cmd(s: Seq<u8>) -> bool {
    frame_cmd(s) == cmd_pw() || frame_cmd(s) == cmd_token()
}

/// Why frame `s`, of which `num_bytes` were read in one go, is refused, or `None`.
pub open spec fn frame_fault(s: Seq<u8>, num_bytes: nat) -> Option<AuthFailure> {
    if s.len() < 3 {
        Some(AuthFailure::ShortFrame)
    } else if num_bytes % 0x10000 < 2 {
        Some(AuthFailure::Malformed)
    } else if num_bytes % 0x10000 - 2 != be16(s) {
        Some(AuthFailure::LengthMismatch)
    } else if !valid_utf8(frame_cmd(s)) {
        Some(AuthFailure::Malformed)
    } else if is_login_cmd(s) && !valid_utf8(frame_account(s)) {
        Some(AuthFailure::Malformed)
    } else if is_login_cmd(s) && frame_after_account(s).len() < 32 {
        Some(AuthFailure::Malformed)
    } else {
        None
    }
}

/// A frame of at least three bytes is refused for its length exactly when its two-byte
/// big-endian header does not announce the bytes read after it: the count read, taken
/// modulo 2^16, less the two header bytes. A frame whose header announces more, or
/// fewer, bytes than arrived is never accepted.
pub proof fn law_frame_length_checked(s: Seq<u8>, num_bytes: nat)
    ensures
        frame_fault(s, num_bytes) is None ==> s.len() >= 3 && num_bytes % 0x10000 >= 2
            && num_bytes % 0x10000 - 2 == be16(s),
        s.len() >= 3 && num_bytes % 0x10000 >= 2 && num_bytes % 0x10000 - 2 != be16(s)
            ==> frame_fault(s, num_bytes) == Some(AuthFailure::LengthMismatch),
{
}

/// What is answered to a login verdict for `account`: the framed success reply, or the
/// framed failure reply.
pub open spec fn verdict_reply(account: Seq<char>, ok: bool) -> Seq<u8> {
    if ok {
        framed(auth_success_text(encode_utf8(account)))
    } else {
        framed(auth_fail_text())
    }
}

/// True when a successful login of `account` cannot be answered: the name is empty, or
/// the reply would be too long to frame.
pub open spec fn login_name_unframable(account: Seq<char>) -> bool {
    encode_utf8(account).len() == 0 || auth_success_text(encode_utf8(account)).len() > MAX_PAYLOAD
}

/// What the connection handler does next.
#[derive(Debug)]
pub enum AuthAction {
    /// Check the secret against the account (a token when `token`, else a password
    /// hash), then hand the outcome to `on_checked`.
    Check { account: String, secret: [u8; 32], token: bool },
    /// Send this reply; the read buffer has been emptied.
    Reply(Vec<u8>),
    /// Keep reading; the read buffer keeps what is left of the frame.
    Wait,
    /// End the connection with this error.
    Close(AuthFailure),
    /// Give the connection up at once: the frame or the reply cannot be handled.
    Abort(AuthFailure),
}

/// How a refusal ends the connection: with an error for a short frame, a length mismatch
/// or a cookie asked for before logging in; given up at once otherwise.
pub open spec fn failure_action(e: AuthFailure) -> AuthAction {
    if e == AuthFailure::ShortFrame || e == AuthFailure::LengthMismatch || e == AuthFailure::NotAuthed {
        AuthAction::Close(e)
    } else {
        AuthAction::Abort(e)
    }
}

/// How a refusal ends the connection.
fn fail(e: AuthFailure) -> (a: AuthAction)
    ensures
        a == failure_action(e),
{
    match e {
        AuthFailure::ShortFrame => AuthAction::Close(e),
        AuthFailure::LengthMismatch => AuthAction::Close(e),
        AuthFailure::NotAuthed => AuthAction::Close(e),
        _ => AuthAction::Abort(e),
    }
}

/// The state of one client connection to the login service.
pub struct AuthConn {
    /// Whether the last login check on this connection succeeded.
    pub authed: bool,
}

/// Copies bytes into a vector.
fn copy_bytes(s: &[u8]) -> (v: Vec<u8>)
    ensures
        v@ == s@,
{
    let mut v: Vec<u8> = Vec::new();
    v.extend_from_slice(s);
    assert(v@ =~= s@);
    v
}

impl AuthConn {
    /// A connection that has not logged in.
    pub fn new() -> (c: Self)
        ensures
            !c.authed,
    {
        AuthConn { authed: false }
    }

    /// Reads what a frame asks for. `num_bytes` is how many bytes the last read brought.
    /// The frame starts with a length header that must announce `num_bytes - 2` (counted
    /// modulo 2^16), then a NUL-terminated command; `pw` and `token` carry a NUL-terminated
    /// account name and 32 bytes of hash or token.
    pub fn on_frame(&self, read_buffer: &mut BytesMut, num_bytes: usize) -> (r: Result<AuthRequest, AuthFailure>)
        ensures
            r is Err <==> frame_fault(buf_view(*old(read_buffer)), num_bytes as nat) is Some,
            r matches Err(e) ==> frame_fault(buf_view(*old(read_buffer)), num_bytes as nat) == Some(e),
            r == Err::<AuthRequest, AuthFailure>(AuthFailure::ShortFrame) ==> buf_view(*final(read_buffer))
                == buf_view(*old(read_buffer)),
            r is Ok ==> buf_view(*old(read_buffer)).len() >= 3 && num_bytes as nat % 0x10000 >= 2
                && num_bytes as nat % 0x10000 - 2 == be16(buf_view(*old(read_buffer))),
            buf_view(*old(read_buffer)).len() >= 3 && num_bytes as nat % 0x10000 >= 2
                && num_bytes as nat % 0x10000 - 2 != be16(buf_view(*old(read_buffer)))
                ==> r == Err::<AuthRequest, AuthFailure>(AuthFailure::LengthMismatch),
            r is Ok ==> {
                let s = buf_view(*old(read_buffer));
                &&& (r matches Ok(AuthRequest::Password { account, pass_hash }) <==> frame_cmd(s) == cmd_pw())
                &&& (r matches Ok(AuthRequest::Token { account, token }) <==> frame_cmd(s) == cmd_token())
                &&& (r matches Ok(AuthRequest::Cookie) <==> frame_cmd(s) == cmd_cookie())
                &&& (r matches Ok(AuthRequest::MakeToken) <==> frame_cmd(s) == cmd_mktoken())
                &&& (r matches Ok(AuthRequest::Password { account, pass_hash }) ==> account@ == decode_utf8(frame_account(s))
                    && pass_hash@ == frame_after_account(s).take(32))
                &&& (r matches Ok(AuthRequest::Token { account, token }) ==> account@ == decode_utf8(frame_account(s))
                    && token@ == frame_after_account(s).take(32))
                &&& (is_login_cmd(s) ==> buf_view(*final(read_buffer)) == frame_after_account(s).skip(32))
                &&& (!is_login_cmd(s) ==> buf_view(*final(read_buffer)) == frame_after_cmd(s))
            },
    {
        let ghost s = buf_view(*read_buffer);
        let header_len = match remove_length_header(read_buffer) {
            Ok(h) => h,
            Err(_) => {
                return Err(AuthFailure::ShortFrame);
            },
        };
        let read_count: u16 = (num_bytes % 0x10000) as u16;
        if read_count < 2 {
            return Err(AuthFailure::Malformed);
        }
        if read_count - 2 != header_len {
            return Err(AuthFailure::LengthMismatch);
        }
        let cmd = match get_next_string_utf8(read_buffer) {
            Ok(c) => c,
            Err(_) => {
                return Err(AuthFailure::Malformed);
            },
        };
        let cmd_bytes = cmd.as_str().as_bytes();
        proof {
            decode_utf8_encode_utf8(frame_cmd(s));
        }
        assert(cmd_bytes@ == frame_cmd(s));
        let is_pw = bytes_equal(cmd_bytes, &[0x70, 0x77]);
        let is_token = bytes_equal(cmd_bytes, &[0x74, 0x6f, 0x6b, 0x65, 0x6e]);
        proof {
            assert([0x70u8, 0x77u8]@ =~= cmd_pw());
            assert([0x74u8, 0x6fu8, 0x6bu8, 0x65u8, 0x6eu8]@ =~= cmd_token());
        }
        if is_pw || is_token {
            let account = match get_next_string_utf8(read_buffer) {
                Ok(a) => a,
                Err(_) => {
                    return Err(AuthFailure::Malformed);
                },
            };
            let secret = match get_next_32_bytes(read_buffer) {
                Ok(b) => b,
                Err(_) => {
                    return Err(AuthFailure::Malformed);
                },
            };
            if is_pw {
                assert(frame_cmd(s) != cmd_token());
                return Ok(AuthRequest::Password { account, pass_hash: secret });
            } else {
                assert(frame_cmd(s) != cmd_pw());
                return Ok(AuthRequest::Token { account, token: secret });
            }
        }
        let is_cookie = bytes_equal(cmd_bytes, &[0x63, 0x6f, 0x6f, 0x6b, 0x69, 0x65]);
        let is_mktoken = bytes_equal(cmd_bytes, &[0x6d, 0x6b, 0x74, 0x6f, 0x6b, 0x65, 0x6e]);
        proof {
            assert([0x63u8, 0x6fu8, 0x6fu8, 0x6bu8, 0x69u8, 0x65u8]@ =~= cmd_cookie());
            assert([0x6du8, 0x6bu8, 0x74u8, 0x6fu8, 0x6bu8, 0x65u8, 0x6eu8]@ =~= cmd_mktoken());
        }
        if is_cookie {
            Ok(AuthRequest::Cookie)
        } else if is_mktoken {
            Ok(AuthRequest::MakeToken)
        } else {
            Ok(AuthRequest::Unknown)
        }
    }

    /// Takes the outcome of a login check for `account`: the connection counts as logged
    /// in exactly when it succeeded, and the framed reply to send is given back. A
    /// successful login of an empty account name, or one whose reply is too long to frame,
    /// is refused as malformed; a failure to make the cookie is passed on.
    pub fn on_verdict(&mut self, account: &String, ok: bool) -> (r: Result<Vec<u8>, AuthFailure>)
        ensures
            final(self).authed == ok,
            r matches Ok(reply) ==> reply@ == verdict_reply(account@, ok),
            !ok ==> r is Ok,
            ok && login_name_unframable(account@) ==> r == Err::<Vec<u8>, AuthFailure>(
                AuthFailure::Malformed,
            ),
            ok && !login_name_unframable(account@) ==> (r is Ok || r == Err::<Vec<u8>, AuthFailure>(
                AuthFailure::RandomUnavailable,
            )),
    {
        self.authed = ok;
        let mut reply_msg = if ok {
            let name = account.as_str().as_bytes();
            let mut name_bytes = copy_bytes(name);
            if name_bytes.len() == 0 || name_bytes.len() > MAX_PAYLOAD - 36 {
                return Err(AuthFailure::Malformed);
            }
            match msg_auth_success(&mut name_bytes) {
                Ok(m) => m,
                Err(_) => {
                    return Err(AuthFailure::RandomUnavailable);
                },
            }
        } else {
            msg_auth_fail()
        };
        add_msg_length_header(&mut reply_msg);
        Ok(reply_msg)
    }

    /// Hands out a cookie, framed, to a logged-in connection; any other is refused.
    /// A failure to make the cookie is passed on.
    pub fn on_cookie(&self) -> (r: Result<Vec<u8>, AuthFailure>)
        ensures
            !self.authed ==> r == Err::<Vec<u8>, AuthFailure>(AuthFailure::NotAuthed),
            self.authed ==> (r is Ok || r == Err::<Vec<u8>, AuthFailure>(AuthFailure::RandomUnavailable)),
            r matches Ok(reply) ==> reply@ == framed(send_cookie_text()),
    {
        if !self.authed {
            return Err(AuthFailure::NotAuthed);
        }
        let mut reply_msg = match msg_send_cookie() {
            Ok(m) => m,
            Err(_) => {
                return Err(AuthFailure::RandomUnavailable);
            },
        };
        add_msg_length_header(&mut reply_msg);
        Ok(reply_msg)
    }

    /// Handles the bytes that a read brought (`num_bytes` of them, now at the end of
    /// `read_buffer`). A login asks for a check of the account; a cookie request is
    /// answered or refused; other commands wait for more; a refused frame ends the
    /// connection.
    pub fn on_read(&mut self, read_buffer: &mut BytesMut, num_bytes: usize) -> (a: AuthAction)
        ensures
            final(self).authed == old(self).authed,
            frame_fault(buf_view(*old(read_buffer)), num_bytes as nat) matches Some(e) ==> a
                == failure_action(e),
            frame_fault(buf_view(*old(read_buffer)), num_bytes as nat) == Some(AuthFailure::ShortFrame)
                ==> buf_view(*final(read_buffer)) == buf_view(*old(read_buffer)),
            frame_fault(buf_view(*old(read_buffer)), num_bytes as nat) is None ==> {
                let s = buf_view(*old(read_buffer));
                &&& is_login_cmd(s) ==> (a matches AuthAction::Check { account, secret, token }
                    && account@ == decode_utf8(frame_account(s)) && secret@ == frame_after_account(
                    s,
                ).take(32) && token == (frame_cmd(s) == cmd_token()) && buf_view(*final(read_buffer))
                    == frame_after_account(s).skip(32))
                &&& frame_cmd(s) == cmd_cookie() && !old(self).authed ==> a == AuthAction::Close(
                    AuthFailure::NotAuthed,
                )
                &&& frame_cmd(s) == cmd_cookie() && old(self).authed ==> ((a matches AuthAction::Reply(m)
                    && m@ == framed(send_cookie_text()) && buf_view(*final(read_buffer)).len() == 0)
                    || a == AuthAction::Abort(AuthFailure::RandomUnavailable))
                &&& !is_login_cmd(s) && frame_cmd(s) != cmd_cookie() ==> a is Wait && buf_view(
                    *final(read_buffer),
                ) == frame_after_cmd(s)
            },
    {
        let request = match self.on_frame(read_buffer, num_bytes) {
            Ok(r) => r,
            Err(e) => {
                return fail(e);
            },
        };
        match request {
            AuthRequest::Password { account, pass_hash } => {
                AuthAction::Check { account, secret: pass_hash, token: false }
            },
            AuthRequest::Token { account, token } => {
                AuthAction::Check { account, secret: token, token: true }
            },
            AuthRequest::Cookie => {
                match self.on_cookie() {
                    Ok(m) => {
                        buf_clear(read_buffer);
                        AuthAction::Reply(m)
                    },
                    Err(e) => fail(e),
                }
            },
            AuthRequest::MakeToken => AuthAction::Wait,
            AuthRequest::Unknown => AuthAction::Wait,
        }
    }

    /// Handles the outcome of the check that `on_read` asked for: the reply to send (the
    /// read buffer emptied), or the connection given up when no reply can be made.
    pub fn on_checked(&mut self, read_buffer: &mut BytesMut, account: &String, ok: bool) -> (a: AuthAction)
        ensures
            final(self).authed == ok,
            a matches AuthAction::Reply(m) ==> m@ == verdict_reply(account@, ok) && buf_view(
                *final(read_buffer),
            ).len() == 0,
            !ok ==> a is Reply,
            ok && login_name_unframable(account@) ==> a == AuthAction::Abort(AuthFailure::Malformed),
            ok && !login_name_unframable(account@) ==> (a is Reply || a == AuthAction::Abort(
                AuthFailure::RandomUnavailable,
            )),
    {
        match self.on_verdict(account, ok) {
            Ok(m) => {
                buf_clear(read_buffer);
                AuthAction::Reply(m)
            },
            Err(e) => AuthAction::Abort(e),
        }
    }
}

} // verus!
