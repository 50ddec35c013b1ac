//! Small verified helpers over string slices: equality, prefix tests,
//! and ASCII case-insensitive comparison.
use vstd::prelude::*;
use vstd::string::StrSliceExecFns;

verus! {

/// Character-for-character equality of two string slices.
pub fn str_eq(a: &str, b: &str) -> (r: bool)
    ensures
        r == (a@ == b@),
{
    let alen = a.unicode_len();
    let blen = b.unicode_len();
    if alen != blen {
        return false;
    }
    let mut i: usize = 0;
    while i < alen
        invariant
            alen == a@.len(),
            blen == b@.len(),
            alen == blen,
            0 <= i <= alen,
            forall|k: int| 0 <= k < i ==> a@[k] == b@[k],
        decreases alen - i,
    {
        if a.get_char(i) != b.get_char(i) {
            return false;
        }
        i += 1;
    }
    proof {
        assert(a@ =~= b@);
    }
    true
}

/// Lower-cases one character, for ASCII letters only.
pub open spec fn ascii_lower(c: char) -> char {
    if 'A' <= c <= 'Z' {
        ((c as u8) + 32) as char
    } else {
        c
    }
}

/// Equality of two string slices up to ASCII letter case.
pub open spec fn eq_ignore_case(a: Seq<char>, b: Seq<char>) -> bool {
    a.map_values(|c: char| ascii_lower(c)) == b.map_values(|c: char| ascii_lower(c))
}

/// Lower-cases an ASCII letter at run time.
fn lower_char(c: char) -> (r: char)
    ensures
        r == ascii_lower(c),
{
    if 'A' <= c && c <= 'Z' {
        ((c as u8) + 32) as char
    } else {
        c
    }
}

/// Whether two string slices agree up to ASCII letter case.
pub fn str_eq_ignore_ascii_case(a: &str, b: &str) -> (r: bool)
    ensures
        r == eq_ignore_case(a@, b@),
{
    let ghost la = a@.map_values(|c: char| ascii_lower(c));
    let ghost lb = b@.map_values(|c: char| ascii_lower(c));
    let alen = a.unicode_len();
    let blen = b.unicode_len();
    if alen != blen {
        proof {
            assert(la.len() != lb.len());
        }
        return false;
    }
    let mut i: usize = 0;
    while i < alen
        invariant
            alen == a@.len(),
            blen == b@.len(),
            alen == blen,
            la == a@.map_values(|c: char| ascii_lower(c)),
            lb == b@.map_values(|c: char| ascii_lower(c)),
            0 <= i <= alen,
            forall|k: int| 0 <= k < i ==> la[k] == lb[k],
        decreases alen - i,
    {
        if lower_char(a.get_char(i)) != lower_char(b.get_char(i)) {
            proof {
                assert(la[i as int] != lb[i as int]);
            }
            return false;
        }
        i += 1;
    }
    proof {
        assert(la =~= lb);
    }
    true
}

/// Whether `pat` occurs in `s` starting at `i`.
pub open spec fn occurs_at(s: Seq<char>, pat: Seq<char>, i: int) -> bool {
    0 <= i && i + pat.len() <= s.len() && s.subrange(i, i + pat.len()) == pat
}

/// Index of the first occurrence of `pat` in `s`, or -1 when there is
/// none.
pub open spec fn sub_index(s: Seq<char>, pat: Seq<char>) -> int
    decreases s.len(),
{
    if pat.len() > s.len() {
        -1
    } else if s.take(pat.len() as int) == pat {
        0
    } else if s.len() == 0 {
        -1
    } else {
        let r = sub_index(s.drop_first(), pat);
        if r == -1 {
            -1
        } else {
            r + 1
        }
    }
}

/// Occurrences shift by one when the first character is dropped.
proof fn lemma_occurs_shift(s: Seq<char>, pat: Seq<char>, i: int)
    requires
        s.len() > 0,
        1 <= i,
    ensures
        occurs_at(s, pat, i) == occurs_at(s.drop_first(), pat, i - 1),
{
    if 0 <= i && i + pat.len() <= s.len() {
        assert(s.subrange(i, i + pat.len()) =~= s.drop_first().subrange(i - 1, i - 1 + pat.len()));
    }
}

/// `sub_index` finds exactly the first occurrence: if `pat` occurs at
/// `i` and nowhere earlier, the result is `i`.
pub proof fn lemma_sub_index_witness(s: Seq<char>, pat: Seq<char>, i: int)
    requires
        occurs_at(s, pat, i),
        forall|k: int| 0 <= k < i ==> !occurs_at(s, pat, k),
    ensures
        sub_index(s, pat) == i,
    decreases s.len(),
{
    assert(pat.len() <= s.len());
    if i == 0 {
        assert(s.take(pat.len() as int) =~= s.subrange(0, pat.len() as int));
    } else {
        assert(!occurs_at(s, pat, 0));
        assert(s.take(pat.len() as int) =~= s.subrange(0, pat.len() as int));
        let rest = s.drop_first();
        lemma_occurs_shift(s, pat, i);
        assert forall|k: int| 0 <= k < i - 1 implies !occurs_at(rest, pat, k) by {
            lemma_occurs_shift(s, pat, k + 1);
        }
        lemma_sub_index_witness(rest, pat, i - 1);
    }
}

/// When `pat` occurs nowhere in `s`, `sub_index` reports -1.
pub proof fn lemma_sub_index_absent(s: Seq<char>, pat: Seq<char>)
    requires
        forall|k: int| #![trigger s.subrange(k, k + pat.len())] 0 <= k ==> !occurs_at(s, pat, k),
    ensures
        sub_index(s, pat) == -1,
    decreases s.len(),
{
    if pat.len() <= s.len() {
        assert(!occurs_at(s, pat, 0));
        assert(s.take(pat.len() as int) =~= s.subrange(0, pat.len() as int));
        if s.len() > 0 {
            let rest = s.drop_first();
            assert forall|k: int|
                #![trigger rest.subrange(k, k + pat.len())]
                0 <= k implies !occurs_at(rest, pat, k) by {
                if k + pat.len() <= rest.len() {
                    lemma_occurs_shift(s, pat, k + 1);
                }
            }
            lemma_sub_index_absent(rest, pat);
        }
    }
}

/// What a `sub_index` result means.
pub proof fn lemma_sub_index_props(s: Seq<char>, pat: Seq<char>)
    ensures
        sub_index(s, pat) != -1 ==> {
            let i = sub_index(s, pat);
            &&& occurs_at(s, pat, i)
            &&& forall|k: int| 0 <= k < i ==> !occurs_at(s, pat, k)
        },
        sub_index(s, pat) == -1 ==> forall|k: int|
            #![trigger s.subrange(k, k + pat.len())]
            0 <= k ==> !occurs_at(s, pat, k),
    decreases s.len(),
{
    if pat.len() > s.len() {
        assert forall|k: int| #![trigger s.subrange(k, k + pat.len())] 0 <= k implies !occurs_at(
            s,
            pat,
            k,
        ) by {}
    } else if s.take(pat.len() as int) == pat {
        assert(s.take(pat.len() as int) =~= s.subrange(0, pat.len() as int));
    } else {
        assert(s.take(pat.len() as int) =~= s.subrange(0, pat.len() as int));
        assert(!occurs_at(s, pat, 0));
        if s.len() > 0 {
            let rest = s.drop_first();
            lemma_sub_index_props(rest, pat);
            let r = sub_index(rest, pat);
            if r == -1 {
                assert forall|k: int|
                    #![trigger s.subrange(k, k + pat.len())]
                    0 <= k implies !occurs_at(s, pat, k) by {
                    if k >= 1 && k + pat.len() <= s.len() {
                        lemma_occurs_shift(s, pat, k);
                        assert(rest.subrange(k - 1, k - 1 + pat.len()) == rest.subrange(
                            k - 1,
                            k - 1 + pat.len(),
                        ));
                    }
                }
            } else {
                lemma_occurs_shift(s, pat, r + 1);
                assert(occurs_at(s, pat, r + 1));
                assert forall|k: int| 0 <= k < r + 1 implies !occurs_at(s, pat, k) by {
                    if k >= 1 {
                        lemma_occurs_shift(s, pat, k);
                    }
                }
            }
        }
    }
}

/// Whether `pat` starts at position `i` of `s`.
fn matches_at(s: &str, pat: &str, i: usize) -> (r: bool)
    requires
        i + pat@.len() <= s@.len(),
    ensures
        r == occurs_at(s@, pat@, i as int),
{
    let n = s.unicode_len();
    let m = pat.unicode_len();
    let mut k: usize = 0;
    while k < m
        invariant
            n == s@.len(),
            m == pat@.len(),
            i + m <= n,
            0 <= k <= m,
            forall|j: int| 0 <= j < k ==> s@[i + j] == pat@[j],
        decreases m - k,
    {
        if s.get_char(i + k) != pat.get_char(k) {
            proof {
                assert(s@.subrange(i as int, i + m) != pat@) by {
                    assert(s@.subrange(i as int, i + m)[k as int] != pat@[k as int]);
                }
            }
            return false;
        }
        k += 1;
    }
    proof {
        assert(s@.subrange(i as int, i + m) =~= pat@);
    }
    true
}

/// Index of the first occurrence of `pat` in `s`, if any.
pub fn find_substring(s: &str, pat: &str) -> (r: Option<usize>)
    ensures
        match r {
            Some(i) => sub_index(s@, pat@) == i,
            None => sub_index(s@, pat@) == -1,
        },
{
    let n = s.unicode_len();
    let m = pat.unicode_len();
    if m > n {
        proof {
            assert forall|k: int|
                #![trigger s@.subrange(k, k + pat@.len())]
                0 <= k implies !occurs_at(s@, pat@, k) by {}
        }
        return None;
    }
    if m == 0 {
        proof {
            assert(s@.subrange(0, 0) =~= pat@);
            lemma_sub_index_witness(s@, pat@, 0);
        }
        return Some(0);
    }
    let mut i: usize = 0;
    while i <= n - m
        invariant
            n == s@.len(),
            m == pat@.len(),
            1 <= m <= n,
            0 <= i <= n - m + 1,
            forall|k: int| 0 <= k < i ==> !occurs_at(s@, pat@, k),
        decreases n - i,
    {
        if matches_at(s, pat, i) {
            proof {
                lemma_sub_index_witness(s@, pat@, i as int);
            }
            return Some(i);
        }
        i += 1;
    }
    proof {
        assert forall|k: int|
            #![trigger s@.subrange(k, k + pat@.len())]
            0 <= k implies !occurs_at(s@, pat@, k) by {
            if k < i {
            } else {
                assert(k + pat@.len() > s@.len());
            }
        }
        lemma_sub_index_absent(s@, pat@);
    }
    None
}

/// What splitting at the first occurrence of `pat` yields: the text
/// before it and the text after it.
pub open spec fn split_once_at(s: Seq<char>, pat: Seq<char>) -> Option<(Seq<char>, Seq<char>)> {
    let i = sub_index(s, pat);
    if i == -1 {
        None
    } else {
        Some((s.take(i), s.skip(i + pat.len())))
    }
}

/// Splits at the first occurrence of `pat`, like the standard
/// `split_once`.
pub fn str_split_once(s: &str, pat: &str) -> (r: Option<(String, String)>)
    ensures
        match r {
            Some(p) => split_once_at(s@, pat@) == Some((p.0@, p.1@)),
            None => split_once_at(s@, pat@) is None,
        },
{
    match find_substring(s, pat) {
        Some(i) => {
            let n = s.unicode_len();
            let m = pat.unicode_len();
            proof {
                lemma_sub_index_props(s@, pat@);
            }
            let before = s.substring_char(0, i).to_owned();
            let after = s.substring_char(i + m, n).to_owned();
            proof {
                assert(before@ =~= s@.take(i as int));
                assert(after@ =~= s@.skip(i + pat@.len()));
            }
            Some((before, after))
        },
        None => None,
    }
}

/// The pieces of `s` between occurrences of `pat`, in order, like the
/// standard `split`: `n` occurrences give `n + 1` pieces.
pub open spec fn split_on(s: Seq<char>, pat: Seq<char>) -> Seq<Seq<char>>
    decreases s.len(),
    via split_on_decreases
{
    let i = sub_index(s, pat);
    if pat.len() == 0 || i == -1 {
        seq![s]
    } else {
        seq![s.take(i)] + split_on(s.skip(i + pat.len()), pat)
    }
}

#[via_fn]
proof fn split_on_decreases(s: Seq<char>, pat: Seq<char>) {
    let i = sub_index(s, pat);
    if pat.len() != 0 && i != -1 {
        lemma_sub_index_props(s, pat);
        assert(s.skip(i + pat.len()).len() < s.len());
    }
}

/// Splits on every occurrence of `pat`.
pub fn str_split(s: &str, pat: &str) -> (r: Vec<String>)
    requires
        pat@.len() > 0,
    ensures
        r@.len() == split_on(s@, pat@).len(),
        forall|k: int| 0 <= k < r@.len() ==> (#[trigger] r@[k])@ == split_on(s@, pat@)[k],
{
    let mut out: Vec<String> = Vec::new();
    let mut rest = s.to_owned();
    let ghost whole = s@;
    loop
        invariant
            whole == s@,
            pat@.len() > 0,
            split_on(whole, pat@).len() == out@.len() + split_on(rest@, pat@).len(),
            forall|k: int|
                0 <= k < out@.len() ==> (#[trigger] out@[k])@ == split_on(whole, pat@)[k],
            forall|k: int|
                0 <= k < split_on(rest@, pat@).len() ==> split_on(rest@, pat@)[k] == split_on(
                    whole,
                    pat@,
                )[out@.len() + k],
        decreases rest@.len() + 1,
    {
        match str_split_once(rest.as_str(), pat) {
            Some(p) => {
                let (before, after) = p;
                let ghost restv = rest@;
                let ghost beforev = before@;
                let ghost afterv = after@;
                proof {
                    lemma_sub_index_props(restv, pat@);
                    assert(split_on(restv, pat@) == seq![beforev] + split_on(afterv, pat@));
                    assert(afterv.len() < restv.len());
                }
                out.push(before);
                rest = after;
                proof {
                    assert(out@.last()@ == beforev);
                    assert forall|k: int| 0 <= k < out@.len() implies (#[trigger] out@[k])@
                        == split_on(whole, pat@)[k] by {
                        if k == out@.len() - 1 {
                            assert(split_on(restv, pat@)[0] == split_on(whole, pat@)[k]);
                            assert(split_on(restv, pat@)[0] == beforev);
                        }
                    }
                    assert forall|k: int|
                        0 <= k < split_on(afterv, pat@).len() implies split_on(afterv, pat@)[k]
                        == split_on(whole, pat@)[out@.len() + k] by {
                        assert(split_on(restv, pat@)[k + 1] == split_on(whole, pat@)[(out@.len()
                            - 1) + (k + 1)]);
                        assert(split_on(restv, pat@)[k + 1] == split_on(afterv, pat@)[k]);
                    }
                }
            },
            None => {
                let ghost restv = rest@;
                proof {
                    assert(split_on(restv, pat@) =~= seq![restv]);
                }
                out.push(rest);
                proof {
                    assert(out@.last()@ == restv);
                    assert forall|k: int| 0 <= k < out@.len() implies (#[trigger] out@[k])@
                        == split_on(whole, pat@)[k] by {
                        if k == out@.len() - 1 {
                            assert(split_on(restv, pat@)[0] == split_on(whole, pat@)[k]);
                        }
                    }
                }
                return out;
            },
        }
    }
}

/// Whether `s` starts with `prefix`, character for character.
pub fn str_has_prefix(s: &str, prefix: &str) -> (r: bool)
    ensures
        r == (prefix@.len() <= s@.len() && s@.take(prefix@.len() as int) == prefix@),
{
    let plen = prefix.unicode_len();
    let slen = s.unicode_len();
    if plen > slen {
        return false;
    }
    let mut i: usize = 0;
    while i < plen
        invariant
            plen == prefix@.len(),
            slen == s@.len(),
            plen <= slen,
            0 <= i <= plen,
            forall|k: int| 0 <= k < i ==> s@[k] == prefix@[k],
        decreases plen - i,
    {
        if s.get_char(i) != prefix.get_char(i) {
            proof {
                assert(s@.take(plen as int)[i as int] != prefix@[i as int]);
            }
            return false;
        }
        i += 1;
    }
    proof {
        assert(s@.take(plen as int) =~= prefix@);
    }
    true
}

} // verus!
