//! HTTP Basic authentication of requests to the controller.

use vstd::prelude::*;

use crate::outside::{base64_decode, base64_decoded, string_from_utf8};

verus! {

/// The only user name that the controller accepts.
pub const ADMIN_USER: &'static str = "falconeri";

/// The prefix of a Basic authorization header.
pub const BASIC_PREFIX: &'static str = "Basic ";

/// An authenticated user. Only one user exists, so this carries no identity.
#[derive(Debug, Clone, Copy, PartialEq, Eq)]
pub struct User;

/// Why a request was not authenticated.
#[derive(Debug, Clone, Copy, PartialEq, Eq)]
pub enum AuthError {
    /// The request has no readable authorization header.
    MissingAuth,
    /// The authorization header is not valid Basic credentials.
    InvalidAuthHeader,
    /// The user name or password is wrong.
    InvalidCredentials,
}

impl AuthError {
    /// The HTTP status code that this error is reported with.
    pub fn status_code(self) -> (r: u16)
        ensures
            r == (match self {
                AuthError::InvalidAuthHeader => 400u16,
                _ => 401u16,
            }),
    {
        match self {
            AuthError::InvalidAuthHeader => 400,
            _ => 401,
        }
    }
}

/// Is `i` the position of the first `:` in `cs`?
pub open spec fn is_first_colon(cs: Seq<char>, i: int) -> bool {
    0 <= i < cs.len() && cs[i] == ':' && forall|j: int| 0 <= j < i ==> cs[j] != ':'
}

/// `cs` split at its first `:` into the part before and the part after, or
/// `None` if it holds no `:`.
pub open spec fn split_at_colon(cs: Seq<char>) -> Option<(Seq<char>, Seq<char>)> {
    if exists|i: int| is_first_colon(cs, i) {
        let i = choose|i: int| is_first_colon(cs, i);
        Some((cs.subrange(0, i), cs.subrange(i + 1, cs.len() as int)))
    } else {
        None
    }
}

/// The user name and password that the decoded credentials `bytes` hold:
/// UTF-8 text split at its first `:`.
pub open spec fn credentials_spec(bytes: Seq<u8>) -> Option<(Seq<char>, Seq<char>)> {
    if vstd::utf8::valid_utf8(bytes) {
        split_at_colon(vstd::utf8::decode_utf8(bytes))
    } else {
        None
    }
}

/// The user name and password of the authorization header `header`: the
/// text after `Basic `, base64-decoded, read as credentials.
pub open spec fn basic_auth_spec(header: Seq<char>) -> Option<(Seq<char>, Seq<char>)> {
    let p = BASIC_PREFIX@;
    if header.len() >= p.len() && header.subrange(0, p.len() as int) == p {
        match base64_decoded(header.subrange(p.len() as int, header.len() as int)) {
            Some(bytes) => credentials_spec(bytes),
            None => None,
        }
    } else {
        None
    }
}

/// Read decoded Basic credentials: UTF-8 text of the form `user:password`.
pub fn parse_credentials(bytes: Vec<u8>) -> (r: Option<(String, String)>)
    ensures
        match r {
            Some((user, pass)) => credentials_spec(bytes@) == Some((user@, pass@)),
            None => credentials_spec(bytes@) is None,
        },
{
    let ghost b = bytes@;
    let text = match string_from_utf8(bytes) {
        Some(t) => t,
        None => {
            return None;
        },
    };
    let s = text.as_str();
    let n = s.unicode_len();
    let mut i: usize = 0;
    while i < n
        invariant
            i <= n,
            n == s@.len(),
            b == bytes@,
            vstd::utf8::valid_utf8(b),
            s@ == vstd::utf8::decode_utf8(b),
            forall|j: int| 0 <= j < i ==> s@[j] != ':',
        decreases n - i,
    {
        if s.get_char(i) == ':' {
            proof {
                assert(is_first_colon(s@, i as int));
                let c = choose|c: int| is_first_colon(s@, c);
                if c < i {
                    assert(s@[c] != ':');
                } else if c > i {
                    assert(s@[i as int] != ':');
                }
            }
            let user = s.substring_char(0, i).to_string();
            let pass = s.substring_char(i + 1, n).to_string();
            return Some((user, pass));
        }
        i = i + 1;
    }
    None
}

/// The user name and password of a Basic authorization header.
pub fn parse_basic_auth(header: &str) -> (r: Option<(String, String)>)
    ensures
        match r {
            Some((user, pass)) => basic_auth_spec(header@) == Some((user@, pass@)),
            None => basic_auth_spec(header@) is None,
        },
{
    proof {
        reveal_strlit("Basic ");
    }
    let p = BASIC_PREFIX.unicode_len();
    let n = header.unicode_len();
    if n < p {
        return None;
    }
    let mut i: usize = 0;
    while i < p
        invariant
            i <= p,
            p == BASIC_PREFIX@.len(),
            p <= n,
            n == header@.len(),
            forall|j: int| 0 <= j < i ==> header@[j] == BASIC_PREFIX@[j],
        decreases p - i,
    {
        if header.get_char(i) != BASIC_PREFIX.get_char(i) {
            proof {
                assert(header@.subrange(0, p as int)[i as int] != BASIC_PREFIX@[i as int]);
            }
            return None;
        }
        i = i + 1;
    }
    assert(header@.subrange(0, p as int) =~= BASIC_PREFIX@);
    let encoded = header.substring_char(p, n);
    match base64_decode(encoded) {
        Some(bytes) => parse_credentials(bytes),
        None => None,
    }
}

/// Does `header` carry the admin user's credentials with `admin_password`?
pub open spec fn authenticated(header: Seq<char>, admin_password: Seq<char>) -> bool {
    basic_auth_spec(header) == Some((ADMIN_USER@, admin_password))
}

/// Authenticate a request by its authorization header, if it has a readable
/// one, against the admin password.
pub fn authenticate(header: Option<&str>, admin_password: &str) -> (r: Result<User, AuthError>)
    ensures
        match header {
            None => r == Err::<User, AuthError>(AuthError::MissingAuth),
            Some(h) => match basic_auth_spec(h@) {
                None => r == Err::<User, AuthError>(AuthError::InvalidAuthHeader),
                Some((user, pass)) => if user == ADMIN_USER@ && pass == admin_password@ {
                    r == Ok::<User, AuthError>(User)
                } else {
                    r == Err::<User, AuthError>(AuthError::InvalidCredentials)
                },
            },
        },
{
    let h = match header {
        Some(h) => h,
        None => {
            return Err(AuthError::MissingAuth);
        },
    };
    match parse_basic_auth(h) {
        None => Err(AuthError::InvalidAuthHeader),
        Some((user, pass)) => {
            let admin_user = ADMIN_USER.to_string();
            let admin_pass = admin_password.to_string();
            if user == admin_user && pass == admin_pass {
                Ok(User)
            } else {
                Err(AuthError::InvalidCredentials)
            }
        },
    }
}

} // verus!
