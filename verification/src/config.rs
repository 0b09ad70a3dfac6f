//! Service settings read from the environment: the API token and the port.
use vstd::prelude::*;
use crate::error::AppError;
use crate::routes::{lemma_bearer_token_accepted, opt_string_text, token_check_outcome};
use crate::text::{
    decimal_text, lemma_parse_decimal_roundtrip, lemma_trim_idempotent, parse_u64, parse_u64_text, trim,
    trim_text,
};

verus! {

/// Port used when `PORT` is unset.
pub const DEFAULT_PORT: u16 = 3000;

/// The API token configured by the value of `TOKEN` (`None` when unset): the
/// trimmed value, or no token (authentication disabled) when it is blank.
pub open spec fn configured_token_text(value: Option<Seq<char>>) -> Option<Seq<char>> {
    match value {
        Some(v) => if trim_text(v).len() == 0 {
            None
        } else {
            Some(trim_text(v))
        },
        None => None,
    }
}

/// The API token configured by the value of `TOKEN`.
pub fn configured_token(value: Option<&str>) -> (token: Option<String>)
    ensures
        opt_string_text(token) == configured_token_text(match value {
            Some(v) => Some(v@),
            None => None,
        }),
{
    match value {
        Some(v) => {
            let t = trim(v);
            if t.is_empty() {
                None
            } else {
                Some(String::from_str(t))
            }
        },
        None => None,
    }
}

/// With `TOKEN` unset or blank, no request is refused for its token.
pub proof fn lemma_blank_token_disables_auth(
    value: Option<Seq<char>>,
    path: Seq<char>,
    authorization: Option<Seq<char>>,
)
    requires
        value matches Some(v) ==> trim_text(v).len() == 0,
    ensures
        token_check_outcome(configured_token_text(value), path, authorization) == Ok::<(), AppError>(()),
{
}

/// A request presenting `Bearer <token>` with the configured token passes the
/// token check, whatever non-blank `TOKEN` value configured it.
pub proof fn lemma_configured_token_accepted(value: Seq<char>, path: Seq<char>)
    requires
        trim_text(value).len() > 0,
    ensures
        ({
            let token = trim_text(value);
            token_check_outcome(configured_token_text(Some(value)), path, Some("Bearer "@ + token))
                == Ok::<(), AppError>(())
        }),
{
    let token = trim_text(value);
    lemma_trim_idempotent(value);
    lemma_bearer_token_accepted(token, path);
}

/// The port configured by the value of `PORT` (`None` when unset): 3000 when
/// unset, else the value read as a `u16` (`None`: not a valid port number).
pub open spec fn listen_port_text(value: Option<Seq<char>>) -> Option<u16> {
    match value {
        None => Some(3000),
        Some(v) => match parse_u64_text(v) {
            Some(n) => if n <= u16::MAX {
                Some(n as u16)
            } else {
                None
            },
            None => None,
        },
    }
}

/// Every port number, written in decimal as the value of `PORT`, is the port the
/// service listens on: any `u16` is accepted, with no further bound.
pub proof fn lemma_listen_port_decimal(port: u16)
    ensures
        listen_port_text(Some(decimal_text(port as nat))) == Some(port),
{
    lemma_parse_decimal_roundtrip(port as nat);
}

/// A `PORT` value that reads as a number above 65535 is refused.
pub proof fn lemma_listen_port_too_large(value: Seq<char>)
    requires
        parse_u64_text(value) matches Some(n) && n > 65535,
    ensures
        listen_port_text(Some(value)) is None,
{
}

/// The port the service listens on, from the value of `PORT`.
pub fn listen_port(value: Option<&str>) -> (port: Option<u16>)
    ensures
        port == listen_port_text(match value {
            Some(v) => Some(v@),
            None => None,
        }),
{
    match value {
        None => Some(DEFAULT_PORT),
        Some(v) => match parse_u64(v) {
            Some(n) => if n <= 65535 {
                Some(n as u16)
            } else {
                None
            },
            None => None,
        },
    }
}

} // verus!
