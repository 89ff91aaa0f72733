//! Cleaning caption text into plain prose, and guessing a caption file's
//! language from its name.
//!
//! Caption files interleave prose with cue metadata: header lines, cue
//! timing lines, sequence numbers, inline tags and sound markers. The
//! cleaner classifies each line, strips the markup from the kept lines, and
//! joins what remains into one normalized paragraph.

use vstd::prelude::*;
use vstd::string::StringExecFns;
use crate::strutil::{chars_of, string_of, trim, spec_trim, is_space, matches_at, contains_seq,
    contains_sub, spec_lower_seq, lower_seq, spec_collapse_ws, collapse_ws, spec_replace_all,
    replace_all, check_match_at, slice_range};
use crate::timestamps::is_digit;

verus! {

/// The first position at or after `from` holding a non-space character, or
/// the length when spaces run to the end.
pub open spec fn spec_spaces_end(s: Seq<char>, from: int) -> int
    decreases s.len() - from,
{
    if from < 0 {
        from
    } else if from >= s.len() {
        s.len() as int
    } else if is_space(s[from]) {
        spec_spaces_end(s, from + 1)
    } else {
        from
    }
}

/// Whether the twelve characters at `i` form a cue time stamp,
/// `HH:MM:SS.mmm` or `HH:MM:SS,mmm`.
pub open spec fn spec_stamp_at(s: Seq<char>, i: int) -> bool {
    &&& 0 <= i && i + 12 <= s.len()
    &&& is_digit(s[i]) && is_digit(s[i + 1])
    &&& s[i + 2] == ':'
    &&& is_digit(s[i + 3]) && is_digit(s[i + 4])
    &&& s[i + 5] == ':'
    &&& is_digit(s[i + 6]) && is_digit(s[i + 7])
    &&& (s[i + 8] == '.' || s[i + 8] == ',')
    &&& is_digit(s[i + 9]) && is_digit(s[i + 10]) && is_digit(s[i + 11])
}

/// Whether a cue timing — a stamp, an arrow, a stamp, with any spacing —
/// begins at `i`.
pub open spec fn spec_cue_at(s: Seq<char>, i: int) -> bool {
    &&& spec_stamp_at(s, i)
    &&& {
        let j = spec_spaces_end(s, i + 12);
        &&& j + 3 <= s.len()
        &&& s[j] == '-' && s[j + 1] == '-' && s[j + 2] == '>'
        &&& spec_stamp_at(s, spec_spaces_end(s, j + 3))
    }
}

/// Whether the line holds a cue timing anywhere.
pub open spec fn spec_has_cue(s: Seq<char>) -> bool {
    exists|i: int| spec_cue_at(s, i)
}

fn spaces_end(s: &Vec<char>, from: usize) -> (r: usize)
    requires
        from <= s@.len(),
    ensures
        r == spec_spaces_end(s@, from as int),
        from <= r <= s@.len(),
{
    let n = s.len();
    let mut i = from;
    while i < n && check_space_at(s, i)
        invariant
            from <= i <= n,
            n == s@.len(),
            spec_spaces_end(s@, from as int) == spec_spaces_end(s@, i as int),
        decreases n - i,
    {
        i += 1;
    }
    i
}

fn check_space_at(s: &Vec<char>, i: usize) -> (r: bool)
    requires
        i < s@.len(),
    ensures
        r == is_space(s@[i as int]),
{
    crate::strutil::check_space(s[i])
}

fn check_digit_at(s: &Vec<char>, i: usize) -> (r: bool)
    requires
        i < s@.len(),
    ensures
        r == is_digit(s@[i as int]),
{
    let c = s[i];
    '0' <= c && c <= '9'
}

fn check_stamp_at(s: &Vec<char>, i: usize) -> (r: bool)
    requires
        i <= s@.len(),
    ensures
        r == spec_stamp_at(s@, i as int),
{
    let n = s.len();
    if n - i < 12 {
        return false;
    }
    check_digit_at(s, i) && check_digit_at(s, i + 1) && s[i + 2] == ':' && check_digit_at(s, i + 3)
        && check_digit_at(s, i + 4) && s[i + 5] == ':' && check_digit_at(s, i + 6)
        && check_digit_at(s, i + 7) && (s[i + 8] == '.' || s[i + 8] == ',') && check_digit_at(
        s,
        i + 9,
    ) && check_digit_at(s, i + 10) && check_digit_at(s, i + 11)
}

fn check_cue_at(s: &Vec<char>, i: usize) -> (r: bool)
    requires
        i < s@.len(),
    ensures
        r == spec_cue_at(s@, i as int),
{
    let n = s.len();
    if !check_stamp_at(s, i) {
        return false;
    }
    proof {
        assert(i + 12 <= n);
    }
    let j = spaces_end(s, i + 12);
    if n - j < 3 {
        return false;
    }
    if !(s[j] == '-' && s[j + 1] == '-' && s[j + 2] == '>') {
        return false;
    }
    let k = spaces_end(s, j + 3);
    check_stamp_at(s, k)
}

/// Whether the line holds a cue timing anywhere.
pub fn has_cue_timing(s: &Vec<char>) -> (r: bool)
    ensures
        r == spec_has_cue(s@),
{
    let n = s.len();
    let mut i: usize = 0;
    while i < n
        invariant
            i <= n,
            n == s@.len(),
            forall|k: int| 0 <= k < i ==> !spec_cue_at(s@, k),
        decreases n - i,
    {
        if check_cue_at(s, i) {
            return true;
        }
        i += 1;
    }
    proof {
        assert forall|k: int| !spec_cue_at(s@, k) by {
            if 0 <= k < n {
            } else {
                assert(!spec_stamp_at(s@, k));
            }
        }
    }
    false
}

/// Whether every character of the line is a digit, and there is at least
/// one: a bare cue sequence number.
pub open spec fn spec_all_digits(s: Seq<char>) -> bool {
    s.len() > 0 && forall|i: int| 0 <= i < s.len() ==> is_digit(s[i])
}

fn all_digits(s: &Vec<char>) -> (r: bool)
    ensures
        r == spec_all_digits(s@),
{
    let n = s.len();
    if n == 0 {
        return false;
    }
    let mut i: usize = 0;
    while i < n
        invariant
            i <= n,
            n == s@.len(),
            forall|k: int| 0 <= k < i ==> is_digit(s@[k]),
        decreases n - i,
    {
        if !check_digit_at(s, i) {
            return false;
        }
        i += 1;
    }
    true
}

/// Whether `pat` begins `s`.
pub open spec fn spec_starts_with(s: Seq<char>, pat: Seq<char>) -> bool {
    matches_at(s, pat, 0)
}

fn starts_with(s: &Vec<char>, pat: &Vec<char>) -> (r: bool)
    ensures
        r == spec_starts_with(s@, pat@),
{
    if pat.len() > s.len() {
        return false;
    }
    check_match_at(s, pat, 0)
}

/// Whether a trimmed caption line carries no prose: an empty line, a header
/// line, a cue timing line or a bare sequence number.
pub open spec fn spec_skip_line(t: Seq<char>) -> bool {
    ||| t.len() == 0
    ||| spec_starts_with(t, "WEBVTT"@)
    ||| spec_starts_with(t, "Kind:"@)
    ||| spec_starts_with(t, "Language:"@)
    ||| spec_has_cue(t)
    ||| spec_all_digits(t)
}

/// The first position at or after `from` holding `c`, or the length when
/// there is none.
pub open spec fn spec_find_char(s: Seq<char>, c: char, from: int) -> int
    decreases s.len() - from,
{
    if from < 0 {
        from
    } else if from >= s.len() {
        s.len() as int
    } else if s[from] == c {
        from
    } else {
        spec_find_char(s, c, from + 1)
    }
}

/// A search started inside the string ends inside it.
pub proof fn lemma_find_char_bounds(s: Seq<char>, c: char, from: int)
    requires
        0 <= from <= s.len(),
    ensures
        from <= spec_find_char(s, c, from) <= s.len(),
    decreases s.len() - from,
{
    if from < s.len() && s[from] != c {
        lemma_find_char_bounds(s, c, from + 1);
    }
}

/// `s` with every group of the form `open …gap… close` removed, where the
/// gap holds no `close` and is at least `min_gap` long; an `open` that no
/// such group starts is kept.
pub open spec fn spec_strip_groups(s: Seq<char>, open: char, close: char, min_gap: int) -> Seq<
    char,
>
    decreases s.len(),
    via spec_strip_groups_decreases
{
    if s.len() == 0 {
        s
    } else if s[0] == open {
        let p = spec_find_char(s, close, 1);
        if 1 <= p && p < s.len() && p - 1 >= min_gap {
            spec_strip_groups(s.skip(p + 1), open, close, min_gap)
        } else {
            seq![s[0]] + spec_strip_groups(s.skip(1), open, close, min_gap)
        }
    } else {
        seq![s[0]] + spec_strip_groups(s.skip(1), open, close, min_gap)
    }
}

#[via_fn]
proof fn spec_strip_groups_decreases(s: Seq<char>, open: char, close: char, min_gap: int) {
    if s.len() > 0 && s[0] == open {
        lemma_find_char_bounds(s, close, 1);
    }
}

/// The position of the first `c` at or after `from`, or the length.
pub fn find_char(s: &Vec<char>, c: char, from: usize) -> (r: usize)
    requires
        from <= s@.len(),
    ensures
        r == spec_find_char(s@, c, from as int),
        from <= r <= s@.len(),
{
    let n = s.len();
    let mut i = from;
    while i < n && s[i] != c
        invariant
            from <= i <= n,
            n == s@.len(),
            spec_find_char(s@, c, from as int) == spec_find_char(s@, c, i as int),
        decreases n - i,
    {
        i += 1;
    }
    i
}

/// Remove every `open …gap… close` group with a gap of at least `min_gap`.
pub fn strip_groups(s: &Vec<char>, open: char, close: char, min_gap: usize) -> (r: Vec<char>)
    ensures
        r@ == spec_strip_groups(s@, open, close, min_gap as int),
{
    let n = s.len();
    let mut r: Vec<char> = Vec::new();
    let mut i: usize = 0;
    proof {
        assert(s@.skip(0) =~= s@);
        assert(r@ + spec_strip_groups(s@, open, close, min_gap as int) =~= spec_strip_groups(
            s@,
            open,
            close,
            min_gap as int,
        ));
    }
    while i < n
        invariant
            i <= n,
            n == s@.len(),
            r@ + spec_strip_groups(s@.skip(i as int), open, close, min_gap as int)
                == spec_strip_groups(s@, open, close, min_gap as int),
        decreases n - i,
    {
        let ghost pre = r@;
        let ghost rest = s@.skip(i as int);
        proof {
            assert(rest[0] == s@[i as int]);
            assert(rest.skip(1) =~= s@.skip(i + 1));
        }
        let c = s[i];
        if c == open {
            let ghost oi = i as int;
            let p = find_char(s, close, i + 1);
            proof {
                lemma_find_char_shift(s@, close, i as int, i + 1);
                assert(spec_find_char(rest, close, 1) == p - oi);
            }
            if p < n && p - (i + 1) >= min_gap {
                i = p + 1;
                proof {
                    assert(rest.skip((p - oi) + 1) =~= s@.skip(i as int));
                    assert(r@ + spec_strip_groups(
                        s@.skip(i as int),
                        open,
                        close,
                        min_gap as int,
                    ) =~= spec_strip_groups(s@, open, close, min_gap as int));
                }
            } else {
                r.push(c);
                i += 1;
                proof {
                    assert(r@ =~= pre + seq![rest[0]]);
                    assert(r@ + spec_strip_groups(
                        s@.skip(i as int),
                        open,
                        close,
                        min_gap as int,
                    ) =~= spec_strip_groups(s@, open, close, min_gap as int));
                }
            }
        } else {
            r.push(c);
            i += 1;
            proof {
                assert(r@ =~= pre + seq![rest[0]]);
                assert(r@ + spec_strip_groups(s@.skip(i as int), open, close, min_gap as int)
                    =~= spec_strip_groups(s@, open, close, min_gap as int));
            }
        }
    }
    proof {
        assert(s@.skip(n as int) =~= Seq::<char>::empty());
        assert(r@ =~= spec_strip_groups(s@, open, close, min_gap as int));
    }
    r
}

/// Finding `c` in the suffix at `base` is finding it in the whole string:
/// positions shift by `base`.
proof fn lemma_find_char_shift(s: Seq<char>, c: char, base: int, from: int)
    requires
        0 <= base <= from <= s.len(),
    ensures
        spec_find_char(s, c, from) - base == spec_find_char(s.skip(base), c, from - base),
    decreases s.len() - from,
{
    assert(s.skip(base).len() == s.len() - base);
    if from >= s.len() {
    } else {
        assert(s.skip(base)[from - base] == s[from]);
        if s[from] == c {
        } else {
            lemma_find_char_shift(s, c, base, from + 1);
        }
    }
}

/// The prose one caption line contributes: nothing for a skipped line; for a
/// kept line, the line without tag and bracket groups, its words joined by
/// single spaces.
pub open spec fn spec_clean_line(line: Seq<char>) -> Seq<char> {
    let t = spec_trim(line);
    if spec_skip_line(t) {
        Seq::<char>::empty()
    } else {
        spec_collapse_ws(spec_strip_groups(spec_strip_groups(t, '<', '>', 1), '[', ']', 0))
    }
}

/// The cleaned lines of the text joined with single spaces: each line is
/// cleaned on its own; empty contributions disappear; `have` says whether an
/// earlier line already contributed.
pub open spec fn spec_clean_lines(s: Seq<char>, have: bool) -> Seq<char>
    decreases s.len(),
    via spec_clean_lines_decreases
{
    if s.len() == 0 {
        Seq::<char>::empty()
    } else {
        let k = spec_find_char(s, '\n', 0);
        let line = s.subrange(0, k);
        let rest = if k < s.len() {
            s.skip(k + 1)
        } else {
            s.skip(k)
        };
        let cleaned = spec_clean_line(line);
        let sep: Seq<char> = if cleaned.len() > 0 && have {
            seq![' ']
        } else {
            Seq::<char>::empty()
        };
        sep + cleaned + spec_clean_lines(rest, have || cleaned.len() > 0)
    }
}

#[via_fn]
proof fn spec_clean_lines_decreases(s: Seq<char>, have: bool) {
    if s.len() > 0 {
        lemma_find_char_bounds(s, '\n', 0);
    }
}

/// The fully cleaned caption text: the kept lines' prose joined with
/// spaces, spaces pulled off punctuation, double spaces halved, the whole
/// trimmed.
pub open spec fn spec_clean_subtitle(s: Seq<char>) -> Seq<char> {
    let joined = spec_clean_lines(s, false);
    let p1 = spec_replace_all(joined, " ."@, "."@);
    let p2 = spec_replace_all(p1, " ,"@, ","@);
    let p3 = spec_replace_all(p2, " ?"@, "?"@);
    let p4 = spec_replace_all(p3, " !"@, "!"@);
    let p5 = spec_replace_all(p4, "  "@, " "@);
    spec_trim(p5)
}

fn clean_line(line: &Vec<char>) -> (r: Vec<char>)
    ensures
        r@ == spec_clean_line(line@),
{
    let t = trim(line);
    let skip = t.len() == 0 || starts_with(&t, &chars_of("WEBVTT")) || starts_with(
        &t,
        &chars_of("Kind:"),
    ) || starts_with(&t, &chars_of("Language:")) || has_cue_timing(&t) || all_digits(&t);
    if skip {
        Vec::new()
    } else {
        collapse_ws(&strip_groups(&strip_groups(&t, '<', '>', 1), '[', ']', 0))
    }
}

/// Clean caption text into plain prose: header lines, cue timing lines and
/// sequence numbers are dropped; tag and bracket groups are removed from the
/// kept lines; the remaining words are joined with single spaces; spaces
/// before punctuation and doubled spaces are tidied; the result is trimmed.
pub fn clean_subtitle_text(text: &str) -> (r: String)
    ensures
        r@ == spec_clean_subtitle(text@),
{
    let s = chars_of(text);
    let n = s.len();
    let mut acc: Vec<char> = Vec::new();
    let mut have = false;
    let mut i: usize = 0;
    proof {
        assert(s@.skip(0) =~= s@);
        assert(acc@ + spec_clean_lines(s@, false) =~= spec_clean_lines(s@, false));
    }
    while i < n
        invariant
            i <= n,
            n == s@.len(),
            s@ == text@,
            acc@ + spec_clean_lines(s@.skip(i as int), have) == spec_clean_lines(s@, false),
        decreases n - i,
    {
        let ghost pre = acc@;
        let ghost rest = s@.skip(i as int);
        let k = find_char(&s, '\n', i);
        proof {
            lemma_find_char_shift(s@, '\n', i as int, i as int);
        }
        let line = slice_range(&s, i, k);
        proof {
            assert(line@ =~= rest.subrange(0, k - i));
        }
        let cleaned = clean_line(&line);
        let ghost old_have = have;
        if cleaned.len() > 0 {
            if have {
                acc.push(' ');
            }
            crate::strutil::append_chars(&mut acc, &cleaned);
            have = true;
        }
        let next = if k < n {
            k + 1
        } else {
            k
        };
        proof {
            if k < n {
                assert(rest.skip((k - i) + 1) =~= s@.skip(next as int));
            } else {
                assert(rest.skip(k - i) =~= s@.skip(next as int));
            }
            if cleaned@.len() > 0 && old_have {
                assert(acc@ =~= pre + (seq![' '] + cleaned@));
            } else if cleaned@.len() > 0 {
                assert(acc@ =~= pre + (Seq::<char>::empty() + cleaned@));
            } else {
                assert(acc@ =~= pre + (Seq::<char>::empty() + cleaned@));
            }
            assert(acc@ + spec_clean_lines(s@.skip(next as int), have) =~= spec_clean_lines(
                s@,
                false,
            ));
        }
        i = next;
    }
    proof {
        assert(s@.skip(n as int) =~= Seq::<char>::empty());
        assert(acc@ =~= spec_clean_lines(s@, false));
    }
    proof {
        reveal_strlit(" .");
        reveal_strlit(" ,");
        reveal_strlit(" ?");
        reveal_strlit(" !");
        reveal_strlit("  ");
    }
    let p1 = replace_all(&acc, &chars_of(" ."), &chars_of("."));
    let p2 = replace_all(&p1, &chars_of(" ,"), &chars_of(","));
    let p3 = replace_all(&p2, &chars_of(" ?"), &chars_of("?"));
    let p4 = replace_all(&p3, &chars_of(" !"), &chars_of("!"));
    let p5 = replace_all(&p4, &chars_of("  "), &chars_of(" "));
    string_of(&trim(&p5))
}

/// The language a caption file's name reveals: the first language whose
/// dotted code appears in the name, compared ignoring ASCII case.
pub open spec fn spec_detect_language(name: Seq<char>) -> Option<Seq<char>> {
    let low = spec_lower_seq(name);
    if contains_seq(low, ".es."@) {
        Some("Spanish"@)
    } else if contains_seq(low, ".en."@) {
        Some("English"@)
    } else if contains_seq(low, ".fr."@) {
        Some("French"@)
    } else if contains_seq(low, ".de."@) {
        Some("German"@)
    } else if contains_seq(low, ".it."@) {
        Some("Italian"@)
    } else if contains_seq(low, ".pt."@) {
        Some("Portuguese"@)
    } else if contains_seq(low, ".ja."@) {
        Some("Japanese"@)
    } else if contains_seq(low, ".zh."@) {
        Some("Chinese"@)
    } else if contains_seq(low, ".ko."@) {
        Some("Korean"@)
    } else if contains_seq(low, ".ru."@) {
        Some("Russian"@)
    } else {
        None
    }
}

/// Guess the language of a caption file from its name: the first language
/// whose dotted code — `.es.`, `.en.` and so on — appears in the lowered
/// name.
pub fn detect_language_from_filename(filename: &str) -> (r: Option<String>)
    ensures
        match r {
            Some(l) => spec_detect_language(filename@) == Some(l@),
            None => spec_detect_language(filename@) is None,
        },
{
    let low = lower_seq(&chars_of(filename));
    if contains_sub(&low, &chars_of(".es.")) {
        Some(String::from_str("Spanish"))
    } else if contains_sub(&low, &chars_of(".en.")) {
        Some(String::from_str("English"))
    } else if contains_sub(&low, &chars_of(".fr.")) {
        Some(String::from_str("French"))
    } else if contains_sub(&low, &chars_of(".de.")) {
        Some(String::from_str("German"))
    } else if contains_sub(&low, &chars_of(".it.")) {
        Some(String::from_str("Italian"))
    } else if contains_sub(&low, &chars_of(".pt.")) {
        Some(String::from_str("Portuguese"))
    } else if contains_sub(&low, &chars_of(".ja.")) {
        Some(String::from_str("Japanese"))
    } else if contains_sub(&low, &chars_of(".zh.")) {
        Some(String::from_str("Chinese"))
    } else if contains_sub(&low, &chars_of(".ko.")) {
        Some(String::from_str("Korean"))
    } else if contains_sub(&low, &chars_of(".ru.")) {
        Some(String::from_str("Russian"))
    } else {
        None
    }
}

} // verus!
