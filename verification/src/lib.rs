//! Verified core of a TCP service scanner: port-range parsing, a
//! bounded-concurrency discovery scheduler, banner interpretation, and a
//! heuristic vulnerability classifier.
//!
//! All network I/O lives outside this crate; the functions here compute over
//! plain values (the bytes a probe read, the outcome of an HTTP request) and
//! carry contracts that pin their results down.

use vstd::prelude::*;

pub mod banner_grabber;
pub mod nmap_services;
pub mod scan;
pub mod text;
pub mod vapt;

use crate::text::{chars_of, parse_u16_chars, spec_parse_u16, split_char_spec, split_on, views_of};

verus! {

/// What parsing a port-range argument yields: the inclusive bounds on
/// success, the user-facing message on failure. The argument must split at
/// `-` into exactly two pieces, each a decimal 16-bit number, with the
/// first at most the second.
pub open spec fn spec_parse_port_range(s: Seq<char>) -> Result<(u16, u16), Seq<char>> {
    let parts = split_char_spec(s, '-');
    if parts.len() != 2 {
        Err("Invalid port range format. Use START-END (e.g., 1-1024)"@)
    } else if spec_parse_u16(parts[0]) is None {
        Err("Invalid start port"@)
    } else if spec_parse_u16(parts[1]) is None {
        Err("Invalid end port"@)
    } else {
        let a = spec_parse_u16(parts[0]).unwrap();
        let b = spec_parse_u16(parts[1]).unwrap();
        if a > b {
            Err("Start port must be less than or equal to end port"@)
        } else {
            Ok((a, b))
        }
    }
}

/// Parses a port range given as `"<start>-<end>"`. Returns the inclusive
/// bounds exactly when the argument is well formed, and the matching
/// user-facing message otherwise.
pub fn parse_port_range(range: &str) -> (r: Result<(u16, u16), String>)
    ensures
        match (r, spec_parse_port_range(range@)) {
            (Ok(p), Ok(q)) => p == q,
            (Err(e), Err(m)) => e@ == m,
            _ => false,
        },
{
    let cs = chars_of(range);
    let parts = split_on(cs.as_slice(), '-');
    if parts.len() != 2 {
        return Err(String::from_str("Invalid port range format. Use START-END (e.g., 1-1024)"));
    }
    assert(parts@[0]@ == views_of(parts@)[0] && parts@[1]@ == views_of(parts@)[1]);
    let start = match parse_u16_chars(parts[0].as_slice()) {
        Some(v) => v,
        None => {
            return Err(String::from_str("Invalid start port"));
        },
    };
    let end = match parse_u16_chars(parts[1].as_slice()) {
        Some(v) => v,
        None => {
            return Err(String::from_str("Invalid end port"));
        },
    };
    if start > end {
        return Err(String::from_str("Start port must be less than or equal to end port"));
    }
    Ok((start, end))
}

} // verus!

