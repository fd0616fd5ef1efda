//! Parsing of one bracketed header line into its tag name and value: the
//! first alphabetic run up to a space gives the name, the first quoted run
//! the value. A second name, a second value, a quote before any name, or an
//! unterminated run rejects the line.

use vstd::prelude::*;
use crate::pgn::lex::spec_find_byte;

verus! {

pub open spec fn is_ascii_alpha(b: u8) -> bool {
    (0x41 <= b <= 0x5A) || (0x61 <= b <= 0x7A)
}

/// The scan over a header line: `key` and `value` hold what has been found
/// so far, and the walk moves byte by byte from `i`.
pub open spec fn spec_header_scan(
    s: Seq<u8>,
    i: int,
    key: Option<Seq<u8>>,
    value: Option<Seq<u8>>,
) -> Option<(Seq<u8>, Seq<u8>)>
    decreases s.len() - i,
{
    if i < 0 || i >= s.len() {
        Some(
            (
                match key {
                    Some(k) => k,
                    None => Seq::empty(),
                },
                match value {
                    Some(v) => v,
                    None => Seq::empty(),
                },
            ),
        )
    } else if is_ascii_alpha(s[i]) {
        if key is Some {
            None
        } else {
            let e = spec_find_byte(s, i, 0x20);
            if e >= s.len() || e < i {
                None
            } else {
                spec_header_scan(s, e + 1, Some(s.subrange(i, e)), value)
            }
        }
    } else if s[i] == 0x22 {
        if key is None || value is Some {
            None
        } else {
            let q = spec_find_byte(s, i + 1, 0x22);
            if q >= s.len() || q < i {
                None
            } else {
                spec_header_scan(s, q + 1, key, Some(s.subrange(i + 1, q)))
            }
        }
    } else {
        spec_header_scan(s, i + 1, key, value)
    }
}

/// What one header line denotes: a name and value pair, or nothing for a
/// line the scan rejects. A missing run leaves its part empty.
pub open spec fn spec_parse_pgn_header(s: Seq<u8>) -> Option<(Seq<u8>, Seq<u8>)> {
    spec_header_scan(s, 0, None, None)
}

/// Parse one header line into its tag name and value.
pub fn parse_pgn_header(line: &[u8]) -> (r: Option<(Vec<u8>, Vec<u8>)>)
    ensures
        match r {
            Some(p) => spec_parse_pgn_header(line@) == Some((p.0@, p.1@)),
            None => spec_parse_pgn_header(line@) is None,
        },
{
    let mut i: usize = 0;
    let mut key: Option<Vec<u8>> = None;
    let mut value: Option<Vec<u8>> = None;
    while i < line.len()
        invariant
            0 <= i <= line@.len(),
            spec_parse_pgn_header(line@) == spec_header_scan(
                line@,
                i as int,
                match key {
                    Some(k) => Some(k@),
                    None => None,
                },
                match value {
                    Some(v) => Some(v@),
                    None => None,
                },
            ),
        decreases line@.len() - i,
    {
        let c = line[i];
        if (0x41 <= c && c <= 0x5A) || (0x61 <= c && c <= 0x7A) {
            if key.is_some() {
                return None;
            }
            let e = crate::pgn::lex::find_byte(line, i, 0x20);
            if e >= line.len() {
                return None;
            }
            let sub = vstd::slice::slice_subrange(line, i, e);
            key = Some(vstd::slice::slice_to_vec(sub));
            i = e + 1;
        } else if c == 0x22 {
            if key.is_none() || value.is_some() {
                return None;
            }
            let q = crate::pgn::lex::find_byte(line, i + 1, 0x22);
            if q >= line.len() {
                return None;
            }
            let sub = vstd::slice::slice_subrange(line, i + 1, q);
            value = Some(vstd::slice::slice_to_vec(sub));
            i = q + 1;
        } else {
            i = i + 1;
        }
    }
    let k = match key {
        Some(k) => k,
        None => Vec::new(),
    };
    let v = match value {
        Some(v) => v,
        None => Vec::new(),
    };
    Some((k, v))
}

/// Whether a trimmed line ends a game in the line-oriented reading: its
/// second-to-last byte is a slash or dash (as in the written results), or
/// its last byte is an asterisk. Lines shorter than two bytes end nothing.
pub open spec fn spec_is_game_terminator_line(s: Seq<u8>) -> bool {
    if s.len() < 2 {
        false
    } else {
        s[s.len() - 2] == 0x2F || s[s.len() - 2] == 0x2D || s[s.len() - 1] == 0x2A
    }
}

/// Decide whether a line closes the game being read.
pub fn is_game_terminator_line(line: &[u8]) -> (r: bool)
    ensures
        r == spec_is_game_terminator_line(line@),
{
    if line.len() < 2 {
        return false;
    }
    let last_two = line[line.len() - 2];
    let last_one = line[line.len() - 1];
    last_two == 0x2F || last_two == 0x2D || last_one == 0x2A
}

} // verus!
