//! The `R,G,B` colour argument.

use vstd::prelude::*;
use crate::text::{chars_of, find_char, first_index_of, lemma_first_index_of, parse_u8_range,
    parse_u8_spec, trim, trim_range};

verus! {

/// A colour given as red, green and blue, each 0–255.
#[derive(Clone, Copy, Debug, PartialEq, Eq, Structural)]
pub struct Rgb(pub u8, pub u8, pub u8);

/// The pieces of `s` at its first two commas, as `s.splitn(3, ',')` gives
/// them: the third piece keeps any further commas.
pub open spec fn rgb_fields(s: Seq<char>) -> Seq<Seq<char>> {
    let i = first_index_of(s, ',');
    if i == s.len() {
        seq![s]
    } else {
        let rest = s.skip(i + 1);
        let j = first_index_of(rest, ',');
        if j == rest.len() {
            seq![s.take(i), rest]
        } else {
            seq![s.take(i), rest.take(j), rest.skip(j + 1)]
        }
    }
}

/// The message for an argument that does not have three pieces.
pub open spec fn format_error(s: Seq<char>) -> Seq<char> {
    "Expected R,G,B format (e.g. 255,128,0), got '"@ + s + "'"@
}

/// The message for a piece that is not a number 0–255.
pub open spec fn value_error(v: Seq<char>) -> Seq<char> {
    "'"@ + v + "' is not a valid 0–255 value"@
}

/// What the argument `s` stands for: three pieces, each (without surrounding
/// white space) a number 0–255; otherwise the message for the first fault.
pub open spec fn parse_rgb_spec(s: Seq<char>) -> Result<Rgb, Seq<char>> {
    let f = rgb_fields(s);
    if f.len() != 3 {
        Err(format_error(s))
    } else {
        match parse_u8_spec(trim(f[0])) {
            None => Err(value_error(f[0])),
            Some(r) => match parse_u8_spec(trim(f[1])) {
                None => Err(value_error(f[1])),
                Some(g) => match parse_u8_spec(trim(f[2])) {
                    None => Err(value_error(f[2])),
                    Some(b) => Ok(Rgb(r, g, b)),
                },
            },
        }
    }
}

fn parse_field(s: &str, cs: &Vec<char>, lo: usize, hi: usize) -> (r: Result<u8, String>)
    requires
        cs@ == s@,
        lo <= hi <= cs.len(),
    ensures
        match parse_u8_spec(trim(cs@.subrange(lo as int, hi as int))) {
            Some(v) => r == Ok::<u8, String>(v),
            None => r matches Err(m) && m@ == value_error(cs@.subrange(lo as int, hi as int)),
        },
{
    let (a, b) = trim_range(cs, lo, hi);
    match parse_u8_range(cs, a, b) {
        Some(v) => Ok(v),
        None => {
            let mut m = String::new();
            m.append("'");
            m.append(s.substring_char(lo, hi));
            m.append("' is not a valid 0–255 value");
            Err(m)
        },
    }
}

/// Parses an `R,G,B` argument such as `255,128,0`.
pub fn parse_rgb(s: &str) -> (r: Result<Rgb, String>)
    ensures
        match parse_rgb_spec(s@) {
            Ok(c) => r == Ok::<Rgb, String>(c),
            Err(m) => r matches Err(e) && e@ == m,
        },
{
    let cs = chars_of(s);
    let n = cs.len();
    let i = find_char(&cs, 0, n, ',');
    proof {
        assert(cs@.subrange(0, n as int) =~= s@);
        lemma_first_index_of(s@, ',');
    }
    let j = if i < n { find_char(&cs, i + 1, n, ',') } else { n };
    if i == n || j == n {
        let mut m = String::new();
        m.append("Expected R,G,B format (e.g. 255,128,0), got '");
        m.append(s);
        m.append("'");
        proof {
            if i < n {
                assert(s@.skip(i + 1) =~= cs@.subrange(i + 1, n as int));
            }
        }
        return Err(m);
    }
    proof {
        let rest = s@.skip(i + 1);
        assert(rest =~= cs@.subrange(i + 1, n as int));
        lemma_first_index_of(rest, ',');
        assert(s@.take(i as int) =~= cs@.subrange(0, i as int));
        assert(rest.take(j - (i + 1)) =~= cs@.subrange(i + 1, j as int));
        assert(rest.skip(j - i) =~= cs@.subrange(j + 1, n as int));
    }
    let r = parse_field(s, &cs, 0, i)?;
    let g = parse_field(s, &cs, i + 1, j)?;
    let b = parse_field(s, &cs, j + 1, n)?;
    Ok(Rgb(r, g, b))
}

impl std::str::FromStr for Rgb {
    type Err = String;

    /// Parses an `R,G,B` argument, as `parse_rgb` does.
    fn from_str(s: &str) -> (r: Result<Rgb, String>)
        ensures
            match parse_rgb_spec(s@) {
                Ok(c) => r == Ok::<Rgb, String>(c),
                Err(m) => r matches Err(e) && e@ == m,
            },
    {
        parse_rgb(s)
    }
}

} // verus!
