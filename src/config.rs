use vstd::prelude::*;
use vstd::string::*;

use crate::db_store::StoreError;

verus! {

/// Address that both listeners bind to.
pub const LOCALHOST: [u8; 4] = [0, 0, 0, 0];

/// Port of the redirect service.
pub const PORT_SERVICE: u16 = 8080;

/// Port of the management API.
pub const PORT_API: u16 = 8081;

/// HTTP statuses that the service answers with.
pub const STATUS_OK: u16 = 200;

pub const STATUS_CREATED: u16 = 201;

pub const STATUS_MOVED_PERMANENTLY: u16 = 301;

pub const STATUS_FOUND: u16 = 302;

pub const STATUS_BAD_REQUEST: u16 = 400;

pub const STATUS_NOT_FOUND: u16 = 404;

pub const STATUS_CONFLICT: u16 = 409;

pub const STATUS_INTERNAL_SERVER_ERROR: u16 = 500;

/// The decimal digit `d`.
pub open spec fn digit_char(d: nat) -> char {
    if d == 0 {
        '0'
    } else if d == 1 {
        '1'
    } else if d == 2 {
        '2'
    } else if d == 3 {
        '3'
    } else if d == 4 {
        '4'
    } else if d == 5 {
        '5'
    } else if d == 6 {
        '6'
    } else if d == 7 {
        '7'
    } else if d == 8 {
        '8'
    } else {
        '9'
    }
}

/// `n` written in decimal, without leading zeros.
pub open spec fn decimal(n: nat) -> Seq<char>
    decreases n,
{
    if n < 10 {
        seq![digit_char(n)]
    } else {
        decimal(n / 10).push(digit_char(n % 10))
    }
}

/// The dotted-quad form of an IPv4 address.
pub open spec fn dotted_quad(ip: Seq<u8>) -> Seq<char> {
    decimal(ip[0] as nat) + seq!['.'] + decimal(ip[1] as nat) + seq!['.'] + decimal(ip[2] as nat)
        + seq!['.'] + decimal(ip[3] as nat)
}

/// Appends the digit `d`.
fn push_digit(s: &mut String, d: u8)
    requires
        d < 10,
    ensures
        final(s)@ == old(s)@.push(digit_char(d as nat)),
{
    proof {
        reveal_strlit("0");
        reveal_strlit("1");
        reveal_strlit("2");
        reveal_strlit("3");
        reveal_strlit("4");
        reveal_strlit("5");
        reveal_strlit("6");
        reveal_strlit("7");
        reveal_strlit("8");
        reveal_strlit("9");
    }
    if d == 0 {
        s.append("0");
    } else if d == 1 {
        s.append("1");
    } else if d == 2 {
        s.append("2");
    } else if d == 3 {
        s.append("3");
    } else if d == 4 {
        s.append("4");
    } else if d == 5 {
        s.append("5");
    } else if d == 6 {
        s.append("6");
    } else if d == 7 {
        s.append("7");
    } else if d == 8 {
        s.append("8");
    } else {
        s.append("9");
    }
    assert(final(s)@ =~= old(s)@.push(digit_char(d as nat)));
}

/// Appends `b` in decimal.
fn push_decimal(s: &mut String, b: u8)
    ensures
        final(s)@ == old(s)@ + decimal(b as nat),
{
    if b >= 100 {
        push_digit(s, b / 100);
        push_digit(s, (b / 10) % 10);
        push_digit(s, b % 10);
        assert(decimal((b / 10) as nat) == decimal((b / 100) as nat).push(digit_char(((b / 10) % 10) as nat)));
    } else if b >= 10 {
        push_digit(s, b / 10);
        push_digit(s, b % 10);
        assert(decimal((b / 10) as nat) == seq![digit_char((b / 10) as nat)]);
    } else {
        push_digit(s, b);
    }
    assert(final(s)@ =~= old(s)@ + decimal(b as nat));
}

/// The address `ip` as four decimal numbers joined by dots.
pub fn ip_to_string(ip: [u8; 4]) -> (r: String)
    ensures
        r@ == dotted_quad(ip@),
{
    proof {
        reveal_strlit(".");
    }
    let mut s = String::new();
    push_decimal(&mut s, ip[0]);
    s.append(".");
    push_decimal(&mut s, ip[1]);
    s.append(".");
    push_decimal(&mut s, ip[2]);
    s.append(".");
    push_decimal(&mut s, ip[3]);
    assert(s@ =~= dotted_quad(ip@));
    s
}

/// How the redirect service answers: the redirect status it uses, and
/// where a code that does not resolve is sent, if anywhere.
#[derive(Debug, Clone)]
pub struct Config {
    pub redirect_http_type: u16,
    pub address_to_rederect_if_not_found: Option<String>,
}

impl Config {
    /// Redirects answer 302 where `use_302` is set and 301 otherwise; misses
    /// go to `fallback` where one is given.
    pub fn new(use_302: bool, fallback: Option<String>) -> (r: Config)
        ensures
            r.redirect_http_type == (if use_302 { STATUS_FOUND } else { STATUS_MOVED_PERMANENTLY }),
            r.address_to_rederect_if_not_found == fallback,
    {
        Config {
            redirect_http_type: if use_302 { STATUS_FOUND } else { STATUS_MOVED_PERMANENTLY },
            address_to_rederect_if_not_found: fallback,
        }
    }
}

/// The answer to a request for a short code: a status, and the `Location`
/// to redirect to, if any.
#[derive(Debug, Clone)]
pub struct RedirectResponse {
    pub status: u16,
    pub location: Option<String>,
}

/// A hit redirects to the resolved URL; a miss redirects to the fallback
/// where one is configured, and is answered 404 otherwise.
pub fn redirect_response(resolved: Option<String>, config: &Config) -> (r: RedirectResponse)
    ensures
        match resolved {
            Some(url) => r.status == config.redirect_http_type && r.location == Some(url),
            None => match config.address_to_rederect_if_not_found {
                Some(f) => r.status == config.redirect_http_type && r.location is Some && r.location.unwrap()@
                    == f@,
                None => r.status == STATUS_NOT_FOUND && r.location is None,
            },
        },
{
    match resolved {
        Some(url) => RedirectResponse { status: config.redirect_http_type, location: Some(url) },
        None => match &config.address_to_rederect_if_not_found {
            Some(f) => RedirectResponse { status: config.redirect_http_type, location: Some(f.clone()) },
            None => RedirectResponse { status: STATUS_NOT_FOUND, location: None },
        },
    }
}

/// The status of a registration request: 201 when stored, 409 when the
/// code is taken, 500 when the change could not be stored.
pub fn insert_status(r: &Result<(), StoreError>) -> (s: u16)
    ensures
        s == match r {
            Ok(_) => STATUS_CREATED,
            Err(StoreError::Conflict) => STATUS_CONFLICT,
            Err(_) => STATUS_INTERNAL_SERVER_ERROR,
        },
{
    match r {
        Ok(_) => STATUS_CREATED,
        Err(StoreError::Conflict) => STATUS_CONFLICT,
        Err(_) => STATUS_INTERNAL_SERVER_ERROR,
    }
}

/// The status of a removal request: 200 when a row was deactivated, 400
/// when there was nothing to remove, 500 when the change could not be stored.
pub fn remove_status(r: &Result<usize, StoreError>) -> (s: u16)
    ensures
        s == match r {
            Ok(n) => if *n > 0 { STATUS_OK } else { STATUS_BAD_REQUEST },
            Err(_) => STATUS_INTERNAL_SERVER_ERROR,
        },
{
    match r {
        Ok(n) => if *n > 0 { STATUS_OK } else { STATUS_BAD_REQUEST },
        Err(_) => STATUS_INTERNAL_SERVER_ERROR,
    }
}

} // verus!
