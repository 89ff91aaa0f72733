//! Character-level string utilities.
//!
//! Text is processed as `Vec<char>`, whose view is the same `Seq<char>` that
//! `str` and `String` present, so every contract in the crate can speak one
//! language. Conversion to `String` goes through `String::push`.

use vstd::prelude::*;

verus! {

/// Relies on String::push: appends exactly the given character.
pub assume_specification[ String::push ](s: &mut String, c: char)
    ensures
        final(s)@ == old(s)@.push(c),
;

/// The characters of `s`, in order.
pub fn chars_of(s: &str) -> (v: Vec<char>)
    ensures
        v@ == s@,
{
    let n = s.unicode_len();
    let mut v: Vec<char> = Vec::new();
    let mut i: usize = 0;
    while i < n
        invariant
            i <= n,
            n == s@.len(),
            v@ =~= s@.subrange(0, i as int),
        decreases n - i,
    {
        v.push(s.get_char(i));
        i += 1;
    }
    proof {
        assert(v@ =~= s@);
    }
    v
}

/// A `String` holding exactly the characters of `v`.
pub fn string_of(v: &Vec<char>) -> (r: String)
    ensures
        r@ == v@,
{
    let mut r = String::new();
    let mut i: usize = 0;
    while i < v.len()
        invariant
            i <= v@.len(),
            r@ =~= v@.subrange(0, i as int),
        decreases v@.len() - i,
    {
        r.push(v[i]);
        i += 1;
    }
    proof {
        assert(r@ =~= v@);
    }
    r
}

/// Append every character of `v` to the vector `acc`.
pub fn append_chars(acc: &mut Vec<char>, v: &Vec<char>)
    ensures
        final(acc)@ == old(acc)@ + v@,
{
    let mut i: usize = 0;
    while i < v.len()
        invariant
            i <= v@.len(),
            acc@ =~= old(acc)@ + v@.subrange(0, i as int),
        decreases v@.len() - i,
    {
        acc.push(v[i]);
        i += 1;
    }
    proof {
        assert(acc@ =~= old(acc)@ + v@);
    }
}

/// Append every character of `v` to `s`.
pub fn push_chars(s: &mut String, v: &Vec<char>)
    ensures
        final(s)@ == old(s)@ + v@,
{
    let mut i: usize = 0;
    while i < v.len()
        invariant
            i <= v@.len(),
            s@ =~= old(s)@ + v@.subrange(0, i as int),
        decreases v@.len() - i,
    {
        s.push(v[i]);
        i += 1;
    }
    proof {
        assert(s@ =~= old(s)@ + v@);
    }
}

/// ASCII-lowercase of one character: upper-case letters map down, everything
/// else is unchanged.
pub open spec fn spec_lower(c: char) -> char {
    match c {
        'A' => 'a',
        'B' => 'b',
        'C' => 'c',
        'D' => 'd',
        'E' => 'e',
        'F' => 'f',
        'G' => 'g',
        'H' => 'h',
        'I' => 'i',
        'J' => 'j',
        'K' => 'k',
        'L' => 'l',
        'M' => 'm',
        'N' => 'n',
        'O' => 'o',
        'P' => 'p',
        'Q' => 'q',
        'R' => 'r',
        'S' => 's',
        'T' => 't',
        'U' => 'u',
        'V' => 'v',
        'W' => 'w',
        'X' => 'x',
        'Y' => 'y',
        'Z' => 'z',
        _ => c,
    }
}

/// ASCII-lowercase, applied to every character.
pub open spec fn spec_lower_seq(s: Seq<char>) -> Seq<char> {
    Seq::new(s.len(), |i: int| spec_lower(s[i]))
}

/// ASCII-lowercase of one character.
pub fn lower_char(c: char) -> (r: char)
    ensures
        r == spec_lower(c),
{
    match c {
        'A' => 'a',
        'B' => 'b',
        'C' => 'c',
        'D' => 'd',
        'E' => 'e',
        'F' => 'f',
        'G' => 'g',
        'H' => 'h',
        'I' => 'i',
        'J' => 'j',
        'K' => 'k',
        'L' => 'l',
        'M' => 'm',
        'N' => 'n',
        'O' => 'o',
        'P' => 'p',
        'Q' => 'q',
        'R' => 'r',
        'S' => 's',
        'T' => 't',
        'U' => 'u',
        'V' => 'v',
        'W' => 'w',
        'X' => 'x',
        'Y' => 'y',
        'Z' => 'z',
        _ => c,
    }
}

/// ASCII-lowercase of every character.
pub fn lower_seq(v: &Vec<char>) -> (r: Vec<char>)
    ensures
        r@ == spec_lower_seq(v@),
{
    let mut r: Vec<char> = Vec::new();
    let mut i: usize = 0;
    while i < v.len()
        invariant
            i <= v@.len(),
            r@ =~= spec_lower_seq(v@).subrange(0, i as int),
        decreases v@.len() - i,
    {
        r.push(lower_char(v[i]));
        proof {
            assert(r@ =~= spec_lower_seq(v@).subrange(0, i + 1));
        }
        i += 1;
    }
    proof {
        assert(r@ =~= spec_lower_seq(v@));
    }
    r
}

/// `pat` occurs in `s` starting at position `i`.
pub open spec fn matches_at(s: Seq<char>, pat: Seq<char>, i: int) -> bool {
    0 <= i && i + pat.len() <= s.len() && s.subrange(i, i + pat.len()) == pat
}

/// `pat` occurs somewhere in `s`.
pub open spec fn contains_seq(s: Seq<char>, pat: Seq<char>) -> bool {
    exists|i: int| matches_at(s, pat, i)
}

/// Whether `pat` occurs in `s` starting at `i`.
pub fn check_match_at(s: &Vec<char>, pat: &Vec<char>, i: usize) -> (r: bool)
    requires
        i + pat@.len() <= s@.len(),
    ensures
        r == matches_at(s@, pat@, i as int),
{
    let n = s.len();
    let mut j: usize = 0;
    while j < pat.len()
        invariant
            j <= pat@.len(),
            n == s@.len(),
            i + pat@.len() <= n,
            forall|k: int| 0 <= k < j ==> s@[i + k] == pat@[k],
        decreases pat@.len() - j,
    {
        if s[i + j] != pat[j] {
            proof {
                assert(s@.subrange(i as int, i + pat@.len())[j as int] != pat@[j as int]);
            }
            return false;
        }
        j += 1;
    }
    proof {
        assert(s@.subrange(i as int, i + pat@.len()) =~= pat@);
    }
    true
}

/// The first position at or after `from` where `pat` occurs in `s`, if any.
pub fn find_from(s: &Vec<char>, pat: &Vec<char>, from: usize) -> (r: Option<usize>)
    ensures
        match r {
            Some(i) => from <= i && matches_at(s@, pat@, i as int) && forall|k: int|
                from <= k < i ==> !matches_at(s@, pat@, k),
            None => forall|k: int| from <= k ==> !matches_at(s@, pat@, k),
        },
{
    if pat.len() > s.len() {
        return None;
    }
    let last = s.len() - pat.len();
    if from > last {
        return None;
    }
    let mut i: usize = from;
    while i < last
        invariant
            pat@.len() <= s@.len(),
            last == s@.len() - pat@.len(),
            from <= i <= last,
            forall|k: int| from <= k < i ==> !matches_at(s@, pat@, k),
        decreases last - i,
    {
        if check_match_at(s, pat, i) {
            return Some(i);
        }
        i += 1;
    }
    if check_match_at(s, pat, i) {
        return Some(i);
    }
    proof {
        assert(forall|k: int| k > last ==> !matches_at(s@, pat@, k));
    }
    None
}

/// Whether `pat` occurs anywhere in `s`.
pub fn contains_sub(s: &Vec<char>, pat: &Vec<char>) -> (r: bool)
    ensures
        r == contains_seq(s@, pat@),
{
    match find_from(s, pat, 0) {
        Some(_) => true,
        None => false,
    }
}

/// `suf` is a suffix of `s`.
pub open spec fn ends_with(s: Seq<char>, suf: Seq<char>) -> bool {
    suf.len() <= s.len() && s.subrange(s.len() - suf.len(), s.len() as int) == suf
}

/// Whether `suf` ends `s`.
pub fn check_ends_with(s: &Vec<char>, suf: &Vec<char>) -> (r: bool)
    ensures
        r == ends_with(s@, suf@),
{
    if suf.len() > s.len() {
        return false;
    }
    check_match_at(s, suf, s.len() - suf.len())
}

/// The characters of `s` from `from` (inclusive) to `to` (exclusive).
pub fn slice_range(s: &Vec<char>, from: usize, to: usize) -> (r: Vec<char>)
    requires
        from <= to <= s@.len(),
    ensures
        r@ == s@.subrange(from as int, to as int),
{
    let mut r: Vec<char> = Vec::new();
    let mut i: usize = from;
    while i < to
        invariant
            from <= i <= to <= s@.len(),
            r@ =~= s@.subrange(from as int, i as int),
        decreases to - i,
    {
        r.push(s[i]);
        i += 1;
    }
    proof {
        assert(r@ =~= s@.subrange(from as int, to as int));
    }
    r
}

/// The whitespace characters that segmentation and trimming recognise: the
/// characters for which Rust's `char::is_whitespace` holds.
pub open spec fn is_space(c: char) -> bool {
    c == ' ' || c == '\t' || c == '\n' || c == '\r' || c == '\u{0b}' || c == '\u{0c}'
        || c == '\u{85}' || c == '\u{a0}' || c == '\u{1680}' || ('\u{2000}' <= c && c
        <= '\u{200a}') || c == '\u{2028}' || c == '\u{2029}' || c == '\u{202f}' || c == '\u{205f}'
        || c == '\u{3000}'
}

/// Whether `c` is whitespace.
pub fn check_space(c: char) -> (r: bool)
    ensures
        r == is_space(c),
{
    c == ' ' || c == '\t' || c == '\n' || c == '\r' || c == '\u{0b}' || c == '\u{0c}'
        || c == '\u{85}' || c == '\u{a0}' || c == '\u{1680}' || ('\u{2000}' <= c && c
        <= '\u{200a}') || c == '\u{2028}' || c == '\u{2029}' || c == '\u{202f}' || c == '\u{205f}'
        || c == '\u{3000}'
}

/// `s` with every occurrence of `pat` replaced by `rep`, scanning left to
/// right without overlap.
pub open spec fn spec_replace_all(s: Seq<char>, pat: Seq<char>, rep: Seq<char>) -> Seq<char>
    decreases s.len(),
{
    if s.len() == 0 {
        s
    } else if matches_at(s, pat, 0) && pat.len() > 0 {
        rep + spec_replace_all(s.skip(pat.len() as int), pat, rep)
    } else {
        seq![s[0]] + spec_replace_all(s.skip(1), pat, rep)
    }
}

/// Replace every occurrence of `pat` by `rep`, scanning left to right
/// without overlap.
pub fn replace_all(s: &Vec<char>, pat: &Vec<char>, rep: &Vec<char>) -> (r: Vec<char>)
    requires
        pat@.len() > 0,
    ensures
        r@ == spec_replace_all(s@, pat@, rep@),
{
    let n = s.len();
    let m = pat.len();
    let mut r: Vec<char> = Vec::new();
    let mut i: usize = 0;
    proof {
        assert(s@.skip(0) =~= s@);
        assert(r@ + spec_replace_all(s@, pat@, rep@) =~= spec_replace_all(s@, pat@, rep@));
    }
    while i < n
        invariant
            i <= n,
            n == s@.len(),
            m == pat@.len(),
            m > 0,
            r@ + spec_replace_all(s@.skip(i as int), pat@, rep@) == spec_replace_all(
                s@,
                pat@,
                rep@,
            ),
        decreases n - i,
    {
        let ghost pre = r@;
        let ghost rest = s@.skip(i as int);
        let hit = if n - i >= m {
            check_match_at(s, pat, i)
        } else {
            false
        };
        proof {
            assert(rest.len() == n - i);
            assert(forall|k: int| 0 <= k < rest.len() ==> rest[k] == s@[i + k]);
            if n - i >= m {
                assert(rest.subrange(0, m as int) =~= s@.subrange(i as int, i + m));
                assert(hit == matches_at(rest, pat@, 0));
            } else {
                assert(!matches_at(rest, pat@, 0));
            }
        }
        if hit {
            let mut k: usize = 0;
            while k < rep.len()
                invariant
                    k <= rep@.len(),
                    r@ =~= pre + rep@.subrange(0, k as int),
                decreases rep@.len() - k,
            {
                r.push(rep[k]);
                k += 1;
            }
            i += m;
            proof {
                assert(r@ =~= pre + rep@);
                assert(rest.skip(m as int) =~= s@.skip(i as int));
                assert(r@ + spec_replace_all(s@.skip(i as int), pat@, rep@) =~= spec_replace_all(
                    s@,
                    pat@,
                    rep@,
                ));
            }
        } else {
            r.push(s[i]);
            i += 1;
            proof {
                assert(rest[0] == s@[i - 1]);
                assert(r@ =~= pre + seq![rest[0]]);
                assert(rest.skip(1) =~= s@.skip(i as int));
                assert(r@ + spec_replace_all(s@.skip(i as int), pat@, rep@) =~= spec_replace_all(
                    s@,
                    pat@,
                    rep@,
                ));
            }
        }
    }
    proof {
        assert(s@.skip(n as int) =~= Seq::<char>::empty());
        assert(r@ =~= spec_replace_all(s@, pat@, rep@));
    }
    r
}

/// The collapsed form of `s` while inside a word: characters pass through
/// until whitespace ends the word.
pub open spec fn spec_collapse_word(s: Seq<char>) -> Seq<char>
    decreases s.len(),
{
    if s.len() == 0 {
        Seq::<char>::empty()
    } else if !is_space(s[0]) {
        seq![s[0]] + spec_collapse_word(s.skip(1))
    } else {
        spec_collapse_between(s.skip(1), true)
    }
}

/// The collapsed form of `s` between words: whitespace is dropped, and the
/// next word is preceded by one space when a word was already emitted.
pub open spec fn spec_collapse_between(s: Seq<char>, have_word: bool) -> Seq<char>
    decreases s.len(),
{
    if s.len() == 0 {
        Seq::<char>::empty()
    } else if is_space(s[0]) {
        spec_collapse_between(s.skip(1), have_word)
    } else {
        (if have_word {
            seq![' ']
        } else {
            Seq::<char>::empty()
        }) + seq![s[0]] + spec_collapse_word(s.skip(1))
    }
}

/// `s` with its whitespace-separated words joined by single spaces: no
/// leading or trailing whitespace, one space between words.
pub open spec fn spec_collapse_ws(s: Seq<char>) -> Seq<char> {
    spec_collapse_between(s, false)
}

/// Join the whitespace-separated words of `s` with single spaces.
pub fn collapse_ws(s: &Vec<char>) -> (r: Vec<char>)
    ensures
        r@ == spec_collapse_ws(s@),
{
    let n = s.len();
    let mut r: Vec<char> = Vec::new();
    let mut i: usize = 0;
    let mut in_word = false;
    let mut have_word = false;
    proof {
        assert(s@.skip(0) =~= s@);
        assert(r@ + spec_collapse_between(s@, false) =~= spec_collapse_ws(s@));
    }
    while i < n
        invariant
            i <= n,
            n == s@.len(),
            in_word ==> r@ + spec_collapse_word(s@.skip(i as int)) == spec_collapse_ws(s@),
            !in_word ==> r@ + spec_collapse_between(s@.skip(i as int), have_word)
                == spec_collapse_ws(s@),
        decreases n - i,
    {
        let ghost pre = r@;
        let ghost rest = s@.skip(i as int);
        let c = s[i];
        let sp = check_space(c);
        proof {
            assert(rest[0] == s@[i as int]);
            assert(rest.skip(1) =~= s@.skip(i + 1));
        }
        if in_word {
            if sp {
                in_word = false;
                have_word = true;
            } else {
                r.push(c);
                proof {
                    assert(r@ =~= pre + seq![rest[0]]);
                    assert(r@ + spec_collapse_word(s@.skip(i + 1)) =~= spec_collapse_ws(s@));
                }
            }
        } else {
            if !sp {
                if have_word {
                    r.push(' ');
                }
                r.push(c);
                in_word = true;
                proof {
                    if have_word {
                        assert(r@ =~= pre + (seq![' '] + seq![rest[0]]));
                    } else {
                        assert(r@ =~= pre + (Seq::<char>::empty() + seq![rest[0]]));
                    }
                    assert(r@ + spec_collapse_word(s@.skip(i + 1)) =~= spec_collapse_ws(s@));
                }
            }
        }
        i += 1;
    }
    proof {
        assert(s@.skip(n as int) =~= Seq::<char>::empty());
        assert(r@ =~= spec_collapse_ws(s@));
    }
    r
}

/// `s` with leading and trailing whitespace removed: the subrange between the
/// first and last non-whitespace characters.
#[verifier::opaque]
pub open spec fn spec_trim(s: Seq<char>) -> Seq<char> {
    if exists|i: int| 0 <= i < s.len() && !is_space(s[i]) {
        let lo = choose|lo: int|
            0 <= lo < s.len() && !is_space(s[lo]) && forall|k: int| 0 <= k < lo ==> is_space(s[k]);
        let hi = choose|hi: int|
            0 <= hi < s.len() && !is_space(s[hi]) && forall|k: int|
                hi < k < s.len() ==> is_space(s[k]);
        s.subrange(lo, hi + 1)
    } else {
        Seq::<char>::empty()
    }
}

/// `s` without leading and trailing whitespace.
pub fn trim(s: &Vec<char>) -> (r: Vec<char>)
    ensures
        r@ == spec_trim(s@),
{
    proof {
        reveal(spec_trim);
    }
    let mut lo: usize = 0;
    while lo < s.len() && check_space(s[lo])
        invariant
            lo <= s@.len(),
            forall|k: int| 0 <= k < lo ==> is_space(s@[k]),
        decreases s@.len() - lo,
    {
        lo += 1;
    }
    if lo == s.len() {
        proof {
            assert(forall|i: int| 0 <= i < s@.len() ==> is_space(s@[i]));
        }
        return Vec::new();
    }
    let mut hi: usize = s.len() - 1;
    while hi > lo && check_space(s[hi])
        invariant
            lo <= hi < s@.len(),
            !is_space(s@[lo as int]),
            forall|k: int| hi < k < s@.len() ==> is_space(s@[k]),
        decreases hi,
    {
        hi -= 1;
    }
    let r = slice_range(s, lo, hi + 1);
    proof {
        assert(0 <= lo < s@.len() && !is_space(s@[lo as int]));
        let lo_w = choose|lo_w: int|
            0 <= lo_w < s@.len() && !is_space(s@[lo_w]) && forall|k: int|
                0 <= k < lo_w ==> is_space(s@[k]);
        assert(lo_w == lo as int);
        let hi_w = choose|hi_w: int|
            0 <= hi_w < s@.len() && !is_space(s@[hi_w]) && forall|k: int|
                hi_w < k < s@.len() ==> is_space(s@[k]);
        assert(hi_w == hi as int);
    }
    r
}

} // verus!
