//! Parsing of the station-facing command arguments: a bare station
//! name, and a station name followed by a threshold level.
use vstd::prelude::*;
use vstd::string::StrSliceExecFns;

use crate::numeric::{level_parse, parse_level};
use crate::seq_util::{
    first_match, lemma_first_match_absent, lemma_first_match_props, lemma_first_match_witness,
};

verus! {

/// The whitespace the argument parser strips: blanks, tabs, newlines.
pub open spec fn is_space(c: char) -> bool {
    c == ' ' || c == '\t' || c == '\n' || c == '\r'
}

/// Index of the first non-space character, or the length when all of
/// the text is spaces.
pub open spec fn trim_start_idx(s: Seq<char>) -> int {
    let f = first_match(s, |c: char| !is_space(c));
    if f == -1 {
        s.len() as int
    } else {
        f
    }
}

/// One past the last non-space character, or zero when all of the text
/// is spaces.
pub open spec fn trim_end_idx(s: Seq<char>) -> int
    decreases s.len(),
{
    if s.len() == 0 {
        0
    } else if is_space(s.last()) {
        trim_end_idx(s.drop_last())
    } else {
        s.len() as int
    }
}

/// The text without its leading and trailing spaces.
pub open spec fn trimmed(s: Seq<char>) -> Seq<char> {
    if trim_start_idx(s) >= trim_end_idx(s) {
        Seq::empty()
    } else {
        s.subrange(trim_start_idx(s), trim_end_idx(s))
    }
}

/// Whether a character counts as space for trimming.
fn space_char(c: char) -> (r: bool)
    ensures
        r == is_space(c),
{
    c == ' ' || c == '\t' || c == '\n' || c == '\r'
}

/// A run of spaces at the tail means `trim_end_idx` stops before it.
proof fn lemma_trim_end_from_witness(s: Seq<char>, j: int)
    requires
        0 <= j <= s.len(),
        forall|k: int| j <= k < s.len() ==> is_space(#[trigger] s[k]),
        j > 0 ==> !is_space(s[j - 1]),
    ensures
        trim_end_idx(s) == j,
    decreases s.len(),
{
    if s.len() > 0 {
        if j == s.len() {
        } else {
            assert(is_space(s.last()));
            let shorter = s.drop_last();
            assert(forall|k: int| j <= k < shorter.len() ==> shorter[k] == s[k]);
            lemma_trim_end_from_witness(shorter, j);
        }
    }
}

/// Strips leading and trailing spaces from a string slice.
pub fn trim_spaces(s: &str) -> (r: String)
    ensures
        r@ == trimmed(s@),
{
    let n = s.unicode_len();
    let mut a: usize = 0;
    while a < n && space_char(s.get_char(a))
        invariant
            n == s@.len(),
            0 <= a <= n,
            forall|k: int| 0 <= k < a ==> is_space(#[trigger] s@[k]),
        decreases n - a,
    {
        a += 1;
    }
    proof {
        if a < n {
            lemma_first_match_witness(s@, |c: char| !is_space(c), a as int);
        } else {
            lemma_first_match_absent(s@, |c: char| !is_space(c));
        }
    }
    let mut b: usize = n;
    while b > a && space_char(s.get_char(b - 1))
        invariant
            n == s@.len(),
            a <= b <= n,
            a == trim_start_idx(s@),
            forall|k: int| 0 <= k < a ==> is_space(#[trigger] s@[k]),
            forall|k: int| b <= k < n ==> is_space(#[trigger] s@[k]),
        decreases b,
    {
        b -= 1;
    }
    if b <= a {
        proof {
            assert forall|k: int| 0 <= k < s@.len() implies is_space(#[trigger] s@[k]) by {
                if k < a {
                } else {
                }
            }
            lemma_trim_end_from_witness(s@, 0);
        }
        String::new()
    } else {
        proof {
            lemma_trim_end_from_witness(s@, b as int);
        }
        let piece = s.substring_char(a, b);
        let r = piece.to_owned();
        proof {
            assert(r@ =~= trimmed(s@));
        }
        r
    }
}

/// What a station-name argument means: the argument with surrounding
/// spaces stripped, or nothing when only spaces remain.
pub open spec fn station_arg(s: Seq<char>) -> Option<Seq<char>> {
    if trimmed(s).len() > 0 {
        Some(trimmed(s))
    } else {
        None
    }
}

/// Reads a station-name argument; a blank argument is rejected.
pub fn parse_station_arg(arg: String) -> (r: Option<String>)
    ensures
        match r {
            Some(name) => station_arg(arg@) == Some(name@),
            None => station_arg(arg@) is None,
        },
{
    let t = trim_spaces(arg.as_str());
    if t.as_str().is_empty() {
        None
    } else {
        Some(t)
    }
}

/// Start of the last space-separated token of `s.take(e)`: scanning
/// left from `e`, the first position whose left neighbour is a space.
pub open spec fn last_token_start(s: Seq<char>, e: int) -> int
    decreases e,
{
    if e <= 0 {
        0
    } else if is_space(s[e - 1]) {
        e
    } else {
        last_token_start(s, e - 1)
    }
}

/// What a "station name, then threshold" argument means: the last
/// space-separated token is the level, what stands before it — trimmed —
/// is the station name; both must be present and the level must parse.
pub open spec fn station_threshold_args(s: Seq<char>) -> Option<(Seq<char>, int)> {
    let e = trim_end_idx(s);
    let t = last_token_start(s, e);
    let name = trimmed(s.take(t));
    match level_parse(s.subrange(t, e)) {
        Some(v) => if t > 0 && name.len() > 0 {
            Some((name, v))
        } else {
            None
        },
        None => None,
    }
}

/// Reads a "station name, then threshold" argument, the level in
/// fixed-point hundredths ("S. Carlo 2,5"). Rejected when either part
/// is missing or the level does not parse.
pub fn parse_station_threshold_args(arg: String) -> (r: Option<(String, i64)>)
    ensures
        match r {
            Some(p) => station_threshold_args(arg@) == Some((p.0@, p.1 as int)),
            None => station_threshold_args(arg@) is None,
        },
{
    let s = arg.as_str();
    let n = s.unicode_len();
    let mut e: usize = n;
    while e > 0 && space_char(s.get_char(e - 1))
        invariant
            n == s@.len(),
            0 <= e <= n,
            forall|k: int| e <= k < n ==> is_space(#[trigger] s@[k]),
        decreases e,
    {
        e -= 1;
    }
    proof {
        lemma_trim_end_from_witness(s@, e as int);
    }
    let mut t: usize = e;
    while t > 0 && !space_char(s.get_char(t - 1))
        invariant
            n == s@.len(),
            0 <= t <= e <= n,
            e == trim_end_idx(s@),
            forall|k: int| t <= k < e ==> !is_space(#[trigger] s@[k]),
        decreases t,
    {
        t -= 1;
    }
    proof {
        lemma_last_token_start_from_witness(s@, e as int, t as int);
    }
    let level_piece = s.substring_char(t, e);
    match parse_level(level_piece) {
        Some(v) => {
            if t == 0 {
                return None;
            }
            let prefix = s.substring_char(0, t);
            proof {
                assert(prefix@ =~= s@.take(t as int));
            }
            let name = trim_spaces(prefix);
            if name.as_str().is_empty() {
                return None;
            }
            proof {
                assert(level_piece@ =~= s@.subrange(t as int, e as int));
            }
            Some((name, v))
        },
        None => {
            proof {
                assert(level_piece@ =~= s@.subrange(t as int, e as int));
            }
            None
        },
    }
}

/// The scan for the last token's start lands exactly where
/// `last_token_start` points.
proof fn lemma_last_token_start_from_witness(s: Seq<char>, e: int, t: int)
    requires
        0 <= t <= e <= s.len(),
        forall|k: int| t <= k < e ==> !is_space(#[trigger] s[k]),
        t > 0 ==> is_space(s[t - 1]),
    ensures
        last_token_start(s, e) == t,
    decreases e,
{
    if e <= 0 {
    } else if e == t {
    } else {
        assert(!is_space(s[e - 1]));
        lemma_last_token_start_from_witness(s, e - 1, t);
    }
}

} // verus!
