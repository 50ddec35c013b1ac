//! Decimal text for the fixed-point levels: formatting with exactly two
//! decimals, formatting that drops trailing zeros, and parsing of
//! user-typed level values with `.` or `,` as the decimal separator.
use vstd::prelude::*;
use vstd::string::StrSliceExecFns;
use vstd::string::StringExecFns;

use crate::seq_util::first_match;

verus! {

/// Decimal digit characters.
pub open spec fn is_digit(c: char) -> bool {
    '0' <= c && c <= '9'
}

/// The numeric value of a digit character.
pub open spec fn digit_val(c: char) -> int {
    c as int - '0' as int
}

/// The digit character of a value below ten.
pub open spec fn digit_char(d: int) -> char {
    if d == 0 {
        '0'
    } else if d == 1 {
        '1'
    } else if d == 2 {
        '2'
    } else if d == 3 {
        '3'
    } else if d == 4 {
        '4'
    } else if d == 5 {
        '5'
    } else if d == 6 {
        '6'
    } else if d == 7 {
        '7'
    } else if d == 8 {
        '8'
    } else {
        '9'
    }
}

/// The usual decimal digits of a non-negative number, most significant
/// first, with no leading zeros (zero itself is "0").
pub open spec fn dec_digits(n: int) -> Seq<char>
    decreases n,
{
    if n < 10 {
        seq![digit_char(n)]
    } else {
        dec_digits(n / 10).push(digit_char(n % 10))
    }
}

/// The numeric value of a digit string, most significant first.
pub open spec fn digits_val(s: Seq<char>) -> int
    decreases s.len(),
{
    if s.len() == 0 {
        0
    } else {
        digits_val(s.drop_last()) * 10 + digit_val(s.last())
    }
}

/// Whether every character is a decimal digit.
pub open spec fn all_digits(s: Seq<char>) -> bool {
    forall|i: int| 0 <= i < s.len() ==> is_digit(#[trigger] s[i])
}

/// The single character string of one digit value.
fn digit_str(d: u64) -> (r: &'static str)
    requires
        d < 10,
    ensures
        r@ =~= seq![digit_char(d as int)],
{
    proof {
        reveal_strlit("0");
        reveal_strlit("1");
        reveal_strlit("2");
        reveal_strlit("3");
        reveal_strlit("4");
        reveal_strlit("5");
        reveal_strlit("6");
        reveal_strlit("7");
        reveal_strlit("8");
        reveal_strlit("9");
    }
    if d == 0 {
        "0"
    } else if d == 1 {
        "1"
    } else if d == 2 {
        "2"
    } else if d == 3 {
        "3"
    } else if d == 4 {
        "4"
    } else if d == 5 {
        "5"
    } else if d == 6 {
        "6"
    } else if d == 7 {
        "7"
    } else if d == 8 {
        "8"
    } else {
        "9"
    }
}

/// Renders a non-negative number in decimal.
pub fn format_u64(n: u64) -> (r: String)
    ensures
        r@ == dec_digits(n as int),
    decreases n,
{
    if n < 10 {
        let s = String::from_str(digit_str(n));
        proof {
            assert(s@ =~= dec_digits(n as int));
        }
        s
    } else {
        let mut s = format_u64(n / 10);
        s.append(digit_str(n % 10));
        proof {
            assert(s@ =~= dec_digits(n as int));
        }
        s
    }
}

/// The exactly-two-decimals rendering of a fixed-point level: sign,
/// integer part, '.', and the two hundredths digits.
pub open spec fn level_text(v: int) -> Seq<char> {
    let a = if v < 0 {
        -v
    } else {
        v
    };
    let sign: Seq<char> = if v < 0 {
        seq!['-']
    } else {
        Seq::empty()
    };
    sign + dec_digits(a / 100) + seq!['.'] + seq![digit_char((a / 10) % 10)] + seq![
        digit_char(a % 10),
    ]
}

/// Renders a fixed-point level with exactly two decimals ("2.20").
pub fn format_level(v: i64) -> (r: String)
    ensures
        r@ == level_text(v as int),
{
    proof {
        reveal_strlit("-");
        reveal_strlit(".");
        reveal_strlit("");
    }
    let a: u64 = if v < 0 {
        if v == i64::MIN {
            9223372036854775808u64
        } else {
            (-v) as u64
        }
    } else {
        v as u64
    };
    let mut s = if v < 0 {
        String::from_str("-")
    } else {
        String::from_str("")
    };
    let intpart = format_u64(a / 100);
    s.append(intpart.as_str());
    s.append(".");
    s.append(digit_str((a / 10) % 10));
    s.append(digit_str(a % 10));
    proof {
        assert(s@ =~= level_text(v as int));
    }
    s
}

/// The shortest-decimals rendering of a fixed-point level: trailing
/// zeros in the hundredths drop away ("2.5", "1", "2.25").
pub open spec fn level_text_plain(v: int) -> Seq<char> {
    let a = if v < 0 {
        -v
    } else {
        v
    };
    let sign: Seq<char> = if v < 0 {
        seq!['-']
    } else {
        Seq::empty()
    };
    if a % 100 == 0 {
        sign + dec_digits(a / 100)
    } else if a % 10 == 0 {
        sign + dec_digits(a / 100) + seq!['.'] + seq![digit_char((a / 10) % 10)]
    } else {
        sign + dec_digits(a / 100) + seq!['.'] + seq![digit_char((a / 10) % 10)] + seq![
            digit_char(a % 10),
        ]
    }
}

/// Renders a fixed-point level without trailing zero decimals, the way
/// a plain floating-point number prints ("2.5", "1").
pub fn format_level_plain(v: i64) -> (r: String)
    ensures
        r@ == level_text_plain(v as int),
{
    proof {
        reveal_strlit("-");
        reveal_strlit(".");
        reveal_strlit("");
    }
    let a: u64 = if v < 0 {
        if v == i64::MIN {
            9223372036854775808u64
        } else {
            (-v) as u64
        }
    } else {
        v as u64
    };
    let mut s = if v < 0 {
        String::from_str("-")
    } else {
        String::from_str("")
    };
    let intpart = format_u64(a / 100);
    s.append(intpart.as_str());
    if a % 100 != 0 {
        s.append(".");
        s.append(digit_str((a / 10) % 10));
        if a % 10 != 0 {
            s.append(digit_str(a % 10));
        }
    }
    proof {
        assert(s@ =~= level_text_plain(v as int));
    }
    s
}

/// Decimal separators accepted in user-typed levels.
pub open spec fn is_level_sep(c: char) -> bool {
    c == '.' || c == ','
}

/// Index of the decimal separator, or -1 when there is none.
pub open spec fn sep_index(s: Seq<char>) -> int {
    first_match(s, |c: char| is_level_sep(c))
}

/// The hundredths encoded by the fraction digits: the first two count,
/// further digits are cut off.
pub open spec fn frac_hundredths(s: Seq<char>) -> int {
    if s.len() == 0 {
        0
    } else if s.len() == 1 {
        digit_val(s[0]) * 10
    } else {
        digit_val(s[0]) * 10 + digit_val(s[1])
    }
}

/// What a level string means, if anything: an optional minus sign, then
/// digits with at most one `.` or `,` separator; at least one digit in
/// all, at most fifteen before the separator. The value is fixed-point
/// hundredths, fraction digits past the second cut off.
pub open spec fn level_parse(s: Seq<char>) -> Option<int> {
    let body = if s.len() > 0 && s[0] == '-' {
        s.drop_first()
    } else {
        s
    };
    let negative = s.len() > 0 && s[0] == '-';
    let si = sep_index(body);
    let intpart = if si == -1 {
        body
    } else {
        body.take(si)
    };
    let fracpart = if si == -1 {
        Seq::<char>::empty()
    } else {
        body.skip(si + 1)
    };
    if all_digits(intpart) && all_digits(fracpart) && intpart.len() + fracpart.len() > 0
        && intpart.len() <= 15 {
        let magnitude = digits_val(intpart) * 100 + frac_hundredths(fracpart);
        if negative {
            Some(-magnitude)
        } else {
            Some(magnitude)
        }
    } else {
        None
    }
}

/// Reads one character as a digit value.
fn digit_of(c: char) -> (r: Option<u64>)
    ensures
        r is Some <==> is_digit(c),
        r is Some ==> r.unwrap() == digit_val(c),
{
    if '0' <= c && c <= '9' {
        Some((c as u32 as u64) - ('0' as u32 as u64))
    } else {
        None
    }
}

/// Powers of ten.
pub open spec fn pow10(n: int) -> int
    decreases n,
{
    if n <= 0 {
        1
    } else {
        10 * pow10(n - 1)
    }
}

/// Powers of ten are positive.
pub proof fn lemma_pow10_pos(n: int)
    ensures
        pow10(n) >= 1,
    decreases n,
{
    if n > 0 {
        lemma_pow10_pos(n - 1);
    }
}

/// Powers of ten grow with the exponent.
pub proof fn lemma_pow10_mono(a: int, b: int)
    requires
        0 <= a <= b,
    ensures
        pow10(a) <= pow10(b),
    decreases b,
{
    if a < b {
        lemma_pow10_mono(a, b - 1);
        lemma_pow10_pos(b - 1);
    }
}

/// The fifteenth power of ten, spelled out.
pub proof fn lemma_pow10_15()
    ensures
        pow10(15) == 1000000000000000,
{
    reveal_with_fuel(pow10, 16);
}

/// Parses a user-typed level ("2,5", "-0.25") into fixed-point
/// hundredths. Returns nothing when the text is not a level.
pub fn parse_level(s: &str) -> (r: Option<i64>)
    ensures
        match r {
            Some(v) => level_parse(s@) == Some(v as int),
            None => level_parse(s@) is None,
        },
{
    let n = s.unicode_len();
    let negative = n > 0 && s.get_char(0) == '-';
    let start: usize = if negative {
        1
    } else {
        0
    };
    let ghost body = if negative {
        s@.drop_first()
    } else {
        s@
    };
    let mut i: usize = start;
    let mut intval: u64 = 0;
    let mut intdigits: usize = 0;
    // Integer part: digits up to the separator or the end.
    while i < n && !is_sep(s.get_char(i))
        invariant
            n == s@.len(),
            start <= i <= n,
            start == if negative {
                1int
            } else {
                0int
            },
            negative == (s@.len() > 0 && s@[0] == '-'),
            body == if negative {
                s@.drop_first()
            } else {
                s@
            },
            intdigits == i - start,
            intdigits <= 15,
            forall|k: int| 0 <= k < i - start ==> is_digit(#[trigger] body[k]),
            forall|k: int| 0 <= k < i - start ==> !is_level_sep(#[trigger] body[k]),
            intval == digits_val(body.take(i - start)),
            intval < pow10(intdigits as int),
        decreases n - i,
    {
        let c = s.get_char(i);
        match digit_of(c) {
            Some(d) => {
                if intdigits == 15 {
                    proof {
                        lemma_level_parse_long_int(s@, body, negative, (i + 1 - start) as int);
                    }
                    return None;
                }
                proof {
                    assert(body.take(i + 1 - start).drop_last() =~= body.take(i - start));
                    assert(body.take(i + 1 - start).last() == body[i - start]);
                    lemma_pow10_mono(intdigits as int + 1, 15);
                    lemma_pow10_15();
                    assert(intval * 10 + d < pow10(intdigits as int + 1));
                }
                intval = intval * 10 + d;
                intdigits += 1;
            },
            None => {
                proof {
                    lemma_level_parse_bad_char(s@, body, negative, (i - start) as int);
                }
                return None;
            },
        }
        i += 1;
    }
    proof {
        if i < n {
            crate::seq_util::lemma_first_match_witness(
                body,
                |c: char| is_level_sep(c),
                i - start,
            );
        } else {
            assert(body =~= body.take(i - start));
            crate::seq_util::lemma_first_match_absent(body, |c: char| is_level_sep(c));
        }
    }
    let mut frac0: u64 = 0;
    let mut frac1: u64 = 0;
    let mut fracdigits: usize = 0;
    if i < n {
        // Fraction part: every remaining character must be a digit.
        let sep_at = i;
        let mut j: usize = i + 1;
        while j < n
            invariant
                n == s@.len(),
                start <= sep_at < n,
                sep_at + 1 <= j <= n,
                start == if negative {
                    1int
                } else {
                    0int
                },
                negative == (s@.len() > 0 && s@[0] == '-'),
                body == if negative {
                    s@.drop_first()
                } else {
                    s@
                },
                is_level_sep(body[sep_at - start]),
                forall|k: int| 0 <= k < sep_at - start ==> is_digit(#[trigger] body[k]),
                forall|k: int| 0 <= k < sep_at - start ==> !is_level_sep(#[trigger] body[k]),
                intdigits == sep_at - start,
                intdigits <= 15,
                intval == digits_val(body.take(sep_at - start)),
                intval < pow10(intdigits as int),
                forall|k: int| sep_at + 1 - start <= k < j - start ==> is_digit(#[trigger] body[k]),
                fracdigits == j - (sep_at + 1),
                frac0 <= 9,
                frac1 <= 9,
                fracdigits >= 1 ==> frac0 == digit_val(body[sep_at + 1 - start]),
                fracdigits >= 2 ==> frac1 == digit_val(body[sep_at + 2 - start]),
                fracdigits == 0 ==> frac0 == 0,
                fracdigits <= 1 ==> frac1 == 0,
            decreases n - j,
        {
            let c = s.get_char(j);
            match digit_of(c) {
                Some(d) => {
                    if fracdigits == 0 {
                        frac0 = d;
                    } else if fracdigits == 1 {
                        frac1 = d;
                    }
                    fracdigits += 1;
                },
                None => {
                    proof {
                        lemma_level_parse_bad_frac(
                            s@,
                            body,
                            negative,
                            (sep_at - start) as int,
                            (j - start) as int,
                        );
                    }
                    return None;
                },
            }
            j += 1;
        }
        if intdigits == 0 && fracdigits == 0 {
            proof {
                crate::seq_util::lemma_first_match_witness(
                    body,
                    |c: char| is_level_sep(c),
                    sep_at - start,
                );
                assert(body.take(sep_at - start).len() == 0);
                assert(body.skip(sep_at + 1 - start).len() == 0);
            }
            return None;
        }
        proof {
            lemma_pow10_mono(intdigits as int, 15);
            lemma_pow10_15();
        }
        let magnitude: i64 = (intval as i64) * 100 + (frac0 as i64) * 10 + (frac1 as i64);
        let ghost fracpart_g = body.skip(sep_at + 1 - start);
        proof {
            crate::seq_util::lemma_first_match_witness(
                body,
                |c: char| is_level_sep(c),
                sep_at - start,
            );
            assert(fracpart_g.len() == fracdigits);
            assert forall|k: int| 0 <= k < fracpart_g.len() implies is_digit(
                #[trigger] fracpart_g[k],
            ) by {
                assert(fracpart_g[k] == body[sep_at + 1 - start + k]);
            }
            if fracdigits >= 1 {
                assert(fracpart_g[0] == body[sep_at + 1 - start]);
            }
            if fracdigits >= 2 {
                assert(fracpart_g[1] == body[sep_at + 2 - start]);
            }
            assert(frac_hundredths(fracpart_g) == frac0 * 10 + frac1);
            assert(level_parse(s@) == Some(
                if negative {
                    -(intval * 100 + frac0 * 10 + frac1) as int
                } else {
                    (intval * 100 + frac0 * 10 + frac1) as int
                },
            ));
        }
        if negative {
            return Some(-magnitude);
        }
        return Some(magnitude);
    }
    if intdigits == 0 {
        return None;
    }
    proof {
        lemma_pow10_mono(intdigits as int, 15);
        lemma_pow10_15();
    }
    let magnitude: i64 = (intval as i64) * 100;
    proof {
        assert(body.take(i - start) =~= body);
        assert(level_parse(s@) == Some(
            if negative {
                -(intval * 100) as int
            } else {
                (intval * 100) as int
            },
        ));
    }
    if negative {
        return Some(-magnitude);
    }
    Some(magnitude)
}

/// Whether a character is a decimal separator.
fn is_sep(c: char) -> (r: bool)
    ensures
        r == is_level_sep(c),
{
    c == '.' || c == ','
}

/// A sixteenth integer digit means the level string is rejected.
proof fn lemma_level_parse_long_int(s: Seq<char>, body: Seq<char>, negative: bool, seen: int)
    requires
        body == if negative {
            s.drop_first()
        } else {
            s
        },
        negative == (s.len() > 0 && s[0] == '-'),
        16 <= seen <= body.len(),
        forall|k: int| 0 <= k < seen ==> is_digit(#[trigger] body[k]),
        forall|k: int| 0 <= k < seen ==> !is_level_sep(#[trigger] body[k]),
    ensures
        level_parse(s) is None,
{
    let si = sep_index(body);
    crate::seq_util::lemma_first_match_props(body, |c: char| is_level_sep(c));
    let intpart = if si == -1 {
        body
    } else {
        body.take(si)
    };
    if si == -1 {
        assert(intpart.len() >= seen);
    } else {
        assert(is_level_sep(body[si]));
        assert(si >= seen);
        assert(intpart.len() >= seen);
    }
}

/// A non-digit before any separator means the level string is rejected.
proof fn lemma_level_parse_bad_char(s: Seq<char>, body: Seq<char>, negative: bool, at: int)
    requires
        body == if negative {
            s.drop_first()
        } else {
            s
        },
        negative == (s.len() > 0 && s[0] == '-'),
        0 <= at < body.len(),
        !is_digit(body[at]),
        !is_level_sep(body[at]),
        forall|k: int| 0 <= k < at ==> !is_level_sep(#[trigger] body[k]),
    ensures
        level_parse(s) is None,
{
    let si = sep_index(body);
    crate::seq_util::lemma_first_match_props(body, |c: char| is_level_sep(c));
    let intpart = if si == -1 {
        body
    } else {
        body.take(si)
    };
    if si == -1 {
        assert(intpart[at] == body[at]);
        assert(!all_digits(intpart));
    } else {
        assert(is_level_sep(body[si]));
        assert(si != at);
        assert(si > at);
        assert(intpart[at] == body[at]);
        assert(!all_digits(intpart));
    }
}

/// A non-digit after the separator means the level string is rejected.
proof fn lemma_level_parse_bad_frac(
    s: Seq<char>,
    body: Seq<char>,
    negative: bool,
    sep_at: int,
    at: int,
)
    requires
        body == if negative {
            s.drop_first()
        } else {
            s
        },
        negative == (s.len() > 0 && s[0] == '-'),
        0 <= sep_at < at < body.len(),
        is_level_sep(body[sep_at]),
        forall|k: int| 0 <= k < sep_at ==> !is_level_sep(#[trigger] body[k]),
        !is_digit(body[at]),
    ensures
        level_parse(s) is None,
{
    crate::seq_util::lemma_first_match_witness(body, |c: char| is_level_sep(c), sep_at);
    let fracpart = body.skip(sep_at + 1);
    assert(fracpart[at - sep_at - 1] == body[at]);
    assert(!all_digits(fracpart));
}

} // verus!
