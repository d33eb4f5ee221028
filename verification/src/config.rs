//! The static lookup table from a board's network address to its identity.
//!
//! Boards are never trusted to report their own identity: every datagram's
//! sender address is resolved through this table, and the resolved identity
//! replaces whatever the payload claimed.

use vstd::prelude::*;
use vstd::string::{StringExecFns, StrSliceExecFns};
use crate::wire::push_char;

verus! {

/// A network-layer host address, as the datagram socket reports it.
/// Only IPv4 hosts can be boards; an IPv6 sender is always rejected.
#[derive(Clone, Copy, PartialEq, Eq, Structural, Debug)]
pub enum IpAddress {
    V4(u8, u8, u8, u8),
    V6,
}

/// Why an address could not be resolved to a board identity.
#[derive(Clone, Copy, Debug)]
pub enum ConversionError {
    Ipv6Found,
    BoardIdNotFound { ip: [u8; 4] },
}

/// The board identity assigned to an IPv4 host, if any.
pub open spec fn id_for_octets(a: u8, b: u8, c: u8, d: u8) -> Option<Seq<char>> {
    if a == 192 && b == 168 && c == 1 && d == 10 {
        Some("servo-01"@)
    } else if a == 192 && b == 168 && c == 1 && d == 11 {
        Some("flight-01"@)
    } else if a == 192 && b == 158 && c == 1 && d == 130 {
        Some("ahrs-01"@)
    } else if a == 192 && b == 168 && c == 1 && d == 131 {
        Some("bms-01"@)
    } else if a == 192 && b == 168 && c == 1 && d == 101 {
        Some("sam-01"@)
    } else if a == 192 && b == 168 && c == 1 && d == 102 {
        Some("sam-02"@)
    } else if a == 192 && b == 168 && c == 1 && d == 103 {
        Some("sam-03"@)
    } else if a == 192 && b == 168 && c == 1 && d == 104 {
        Some("sam-04"@)
    } else if a == 192 && b == 168 && c == 1 && d == 105 {
        Some("sam-05"@)
    } else {
        None
    }
}

/// The decimal digit character for a value below ten.
pub open spec fn spec_digit(d: u8) -> char {
    ((48 + d) as u8) as char
}

/// The decimal text of a byte, without leading zeroes.
pub open spec fn spec_u8_decimal(n: u8) -> Seq<char> {
    if n >= 100 {
        seq![spec_digit((n / 100) as u8), spec_digit(((n / 10) % 10) as u8),
            spec_digit((n % 10) as u8)]
    } else if n >= 10 {
        seq![spec_digit((n / 10) as u8), spec_digit((n % 10) as u8)]
    } else {
        seq![spec_digit(n)]
    }
}

/// Renders a byte in decimal.
pub fn u8_decimal(n: u8) -> (r: String)
    ensures
        r@ == spec_u8_decimal(n),
{
    let mut s = String::new();
    if n >= 100 {
        push_char(&mut s, (48 + n / 100) as char);
    }
    if n >= 10 {
        push_char(&mut s, (48 + (n / 10) % 10) as char);
    }
    push_char(&mut s, (48 + n % 10) as char);
    proof {
        assert(s@ =~= spec_u8_decimal(n));
    }
    s
}

/// The log line a failed resolution deserves.
pub open spec fn spec_describe(e: ConversionError) -> Seq<char> {
    match e {
        ConversionError::Ipv6Found => "sender address was IPv6, expected IPv4"@,
        ConversionError::BoardIdNotFound { ip } => "no board identity maps to address "@
            + spec_u8_decimal(ip[0]) + "."@ + spec_u8_decimal(ip[1]) + "."@
            + spec_u8_decimal(ip[2]) + "."@ + spec_u8_decimal(ip[3]),
    }
}

impl ConversionError {
    /// The error as a log line.
    pub fn describe(&self) -> (r: String)
        ensures
            r@ == spec_describe(*self),
    {
        match self {
            ConversionError::Ipv6Found => String::from_str(
                "sender address was IPv6, expected IPv4"),
            ConversionError::BoardIdNotFound { ip } => {
                let mut s = String::from_str("no board identity maps to address ");
                let d0 = u8_decimal(ip[0]);
                s.append(d0.as_str());
                s.append(".");
                let d1 = u8_decimal(ip[1]);
                s.append(d1.as_str());
                s.append(".");
                let d2 = u8_decimal(ip[2]);
                s.append(d2.as_str());
                s.append(".");
                let d3 = u8_decimal(ip[3]);
                s.append(d3.as_str());
                proof {
                    assert(s@ =~= spec_describe(*self));
                }
                s
            },
        }
    }
}

/// Resolves a sender address to the authoritative board identity.
///
/// Succeeds exactly on the IPv4 addresses of the fixed board set; an IPv6
/// sender or an unknown IPv4 address is reported as an error carrying enough
/// to log the offender.
pub fn ip_to_id(ip: IpAddress) -> (r: Result<&'static str, ConversionError>)
    ensures
        match ip {
            IpAddress::V6 => r matches Err(ConversionError::Ipv6Found),
            IpAddress::V4(a, b, c, d) => match id_for_octets(a, b, c, d) {
                Some(s) => r matches Ok(t) && t@ == s,
                None => r matches Err(ConversionError::BoardIdNotFound { ip: e })
                    && e@ == seq![a, b, c, d],
            },
        },
{
    let (a, b, c, d) = match ip {
        IpAddress::V4(a, b, c, d) => (a, b, c, d),
        IpAddress::V6 => {
            return Err(ConversionError::Ipv6Found);
        },
    };

    if a == 192 && b == 168 && c == 1 && d == 10 {
        Ok("servo-01")
    } else if a == 192 && b == 168 && c == 1 && d == 11 {
        Ok("flight-01")
    } else if a == 192 && b == 158 && c == 1 && d == 130 {
        Ok("ahrs-01")
    } else if a == 192 && b == 168 && c == 1 && d == 131 {
        Ok("bms-01")
    } else if a == 192 && b == 168 && c == 1 && d == 101 {
        Ok("sam-01")
    } else if a == 192 && b == 168 && c == 1 && d == 102 {
        Ok("sam-02")
    } else if a == 192 && b == 168 && c == 1 && d == 103 {
        Ok("sam-03")
    } else if a == 192 && b == 168 && c == 1 && d == 104 {
        Ok("sam-04")
    } else if a == 192 && b == 168 && c == 1 && d == 105 {
        Ok("sam-05")
    } else {
        let e: [u8; 4] = [a, b, c, d];
        assert(e@ == seq![a, b, c, d]);
        Err(ConversionError::BoardIdNotFound { ip: e })
    }
}

} // verus!
