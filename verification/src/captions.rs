//! Parsing remotely fetched caption documents: the XML-style caption
//! formats, the page metadata around them, and the entity decoding they
//! need. These parsers take the document text and produce plain transcript
//! text; fetching the documents is the host shell's work.

use vstd::prelude::*;
use vstd::string::StringExecFns;
use crate::strutil::{chars_of, string_of, trim, spec_trim, matches_at, contains_seq, contains_sub,
    spec_collapse_ws, collapse_ws, spec_replace_all, replace_all, slice_range, check_match_at,
    append_chars};
use crate::subtitle::{spec_find_char, lemma_find_char_bounds};
use crate::timestamps::{is_digit, spec_digit_value, spec_timestamp, format_timestamp_ms};

verus! {

/// What a caption probe reports about a remote video.
#[derive(Debug, Clone)]
pub struct YoutubeCaptionInfo {
    /// The video's title.
    pub title: String,
    /// Whether any caption track exists.
    pub has_captions: bool,
    /// The language codes of the caption tracks found.
    pub caption_languages: Vec<String>,
}

/// The first position at or after `from` where `pat` begins, or the length
/// when it occurs nowhere at or after `from`.
pub open spec fn spec_find_sub(s: Seq<char>, pat: Seq<char>, from: int) -> int
    decreases s.len() - from,
{
    if from < 0 || pat.len() == 0 {
        from
    } else if from > s.len() - pat.len() {
        s.len() as int
    } else if matches_at(s, pat, from) {
        from
    } else {
        spec_find_sub(s, pat, from + 1)
    }
}

/// A substring search started inside the string ends inside it, and a
/// result short of the length is a match position.
pub proof fn lemma_find_sub_bounds(s: Seq<char>, pat: Seq<char>, from: int)
    requires
        0 <= from <= s.len(),
        pat.len() > 0,
    ensures
        from <= spec_find_sub(s, pat, from) <= s.len(),
        spec_find_sub(s, pat, from) < s.len() ==> matches_at(s, pat, spec_find_sub(s, pat, from)),
    decreases s.len() - from,
{
    if from <= s.len() - pat.len() && !matches_at(s, pat, from) {
        lemma_find_sub_bounds(s, pat, from + 1);
    }
}

/// The position where `pat` first begins at or after `from`, or the length.
pub fn find_sub_at(s: &Vec<char>, pat: &Vec<char>, from: usize) -> (r: usize)
    requires
        from <= s@.len(),
        pat@.len() > 0,
    ensures
        r == spec_find_sub(s@, pat@, from as int),
        from <= r <= s@.len(),
{
    let n = s.len();
    let m = pat.len();
    let mut i = from;
    while n - i >= m && !check_match_at(s, pat, i)
        invariant
            from <= i <= n,
            n == s@.len(),
            m == pat@.len(),
            m > 0,
            spec_find_sub(s@, pat@, from as int) == spec_find_sub(s@, pat@, i as int),
        decreases n - i,
    {
        i += 1;
    }
    if n - i >= m {
        i
    } else {
        proof {
            assert(spec_find_sub(s@, pat@, i as int) == n);
        }
        n
    }
}

/// HTML entities and escaped line breaks replaced by their plain
/// characters, and line breaks by spaces, in one left-to-right pass per
/// entity.
pub open spec fn spec_html_decode(s: Seq<char>) -> Seq<char> {
    let p1 = spec_replace_all(s, "&amp;"@, "&"@);
    let p2 = spec_replace_all(p1, "&lt;"@, "<"@);
    let p3 = spec_replace_all(p2, "&gt;"@, ">"@);
    let p4 = spec_replace_all(p3, "&quot;"@, "\""@);
    let p5 = spec_replace_all(p4, "&#39;"@, "'"@);
    let p6 = spec_replace_all(p5, "&apos;"@, "'"@);
    let p7 = spec_replace_all(p6, "&#x27;"@, "'"@);
    let p8 = spec_replace_all(p7, "&nbsp;"@, " "@);
    let p9 = spec_replace_all(p8, "\\n"@, " "@);
    spec_replace_all(p9, "\n"@, " "@)
}

/// Decode HTML entities and turn line breaks into spaces.
pub fn html_decode(s: &Vec<char>) -> (r: Vec<char>)
    ensures
        r@ == spec_html_decode(s@),
{
    proof {
        reveal_strlit("&amp;");
        reveal_strlit("&lt;");
        reveal_strlit("&gt;");
        reveal_strlit("&quot;");
        reveal_strlit("&#39;");
        reveal_strlit("&apos;");
        reveal_strlit("&#x27;");
        reveal_strlit("&nbsp;");
        reveal_strlit("\\n");
        reveal_strlit("\n");
    }
    let p1 = replace_all(s, &chars_of("&amp;"), &chars_of("&"));
    let p2 = replace_all(&p1, &chars_of("&lt;"), &chars_of("<"));
    let p3 = replace_all(&p2, &chars_of("&gt;"), &chars_of(">"));
    let p4 = replace_all(&p3, &chars_of("&quot;"), &chars_of("\""));
    let p5 = replace_all(&p4, &chars_of("&#39;"), &chars_of("'"));
    let p6 = replace_all(&p5, &chars_of("&apos;"), &chars_of("'"));
    let p7 = replace_all(&p6, &chars_of("&#x27;"), &chars_of("'"));
    let p8 = replace_all(&p7, &chars_of("&nbsp;"), &chars_of(" "));
    let p9 = replace_all(&p8, &chars_of("\\n"), &chars_of(" "));
    replace_all(&p9, &chars_of("\n"), &chars_of(" "))
}

/// Text with its whitespace-separated words joined by single spaces.
pub fn normalize_text(text: &str) -> (r: String)
    ensures
        r@ == spec_collapse_ws(text@),
{
    string_of(&collapse_ws(&chars_of(text)))
}

/// The characters of `s` outside `<…>` tags: `<` starts a tag, `>` ends
/// one, and everything in between — including an unterminated tail — is
/// dropped.
pub open spec fn spec_strip_inner_tags(s: Seq<char>, in_tag: bool) -> Seq<char>
    decreases s.len(),
{
    if s.len() == 0 {
        Seq::<char>::empty()
    } else if s[0] == '<' {
        spec_strip_inner_tags(s.skip(1), true)
    } else if s[0] == '>' {
        spec_strip_inner_tags(s.skip(1), false)
    } else if in_tag {
        spec_strip_inner_tags(s.skip(1), true)
    } else {
        seq![s[0]] + spec_strip_inner_tags(s.skip(1), false)
    }
}

/// Strip `<…>` tags, keeping only the characters outside them.
pub fn strip_inner_tags(s: &Vec<char>) -> (r: Vec<char>)
    ensures
        r@ == spec_strip_inner_tags(s@, false),
{
    let n = s.len();
    let mut r: Vec<char> = Vec::new();
    let mut in_tag = false;
    let mut i: usize = 0;
    proof {
        assert(s@.skip(0) =~= s@);
        assert(r@ + spec_strip_inner_tags(s@, false) =~= spec_strip_inner_tags(s@, false));
    }
    while i < n
        invariant
            i <= n,
            n == s@.len(),
            r@ + spec_strip_inner_tags(s@.skip(i as int), in_tag) == spec_strip_inner_tags(
                s@,
                false,
            ),
        decreases n - i,
    {
        let ghost pre = r@;
        let ghost rest = s@.skip(i as int);
        proof {
            assert(rest[0] == s@[i as int]);
            assert(rest.skip(1) =~= s@.skip(i + 1));
        }
        let c = s[i];
        if c == '<' {
            in_tag = true;
        } else if c == '>' {
            in_tag = false;
        } else if !in_tag {
            r.push(c);
            proof {
                assert(r@ =~= pre + seq![rest[0]]);
            }
        }
        i += 1;
        proof {
            assert(r@ + spec_strip_inner_tags(s@.skip(i as int), in_tag) =~= spec_strip_inner_tags(
                s@,
                false,
            ));
        }
    }
    proof {
        assert(s@.skip(n as int) =~= Seq::<char>::empty());
        assert(r@ =~= spec_strip_inner_tags(s@, false));
    }
    r
}

/// The value of the attribute inside an XML tag: the characters between
/// `name="` and the next `"`, when both are present.
pub open spec fn spec_extract_attribute(tag: Seq<char>, name: Seq<char>) -> Option<Seq<char>> {
    let pat = name + "=\""@;
    let f = spec_find_sub(tag, pat, 0);
    if f < tag.len() {
        let vs = f + pat.len();
        let q = spec_find_char(tag, '"', vs);
        if q < tag.len() {
            Some(tag.subrange(vs, q))
        } else {
            None
        }
    } else {
        None
    }
}

/// Extract an attribute's value from an XML tag.
pub fn extract_attribute(tag: &Vec<char>, attr_name: &str) -> (r: Option<Vec<char>>)
    ensures
        match r {
            Some(v) => spec_extract_attribute(tag@, attr_name@) == Some(v@),
            None => spec_extract_attribute(tag@, attr_name@) is None,
        },
{
    let mut pat = chars_of(attr_name);
    let suffix = chars_of("=\"");
    append_chars(&mut pat, &suffix);
    proof {
        reveal_strlit("=\"");
        assert(pat@.len() > 0);
    }
    let f = find_sub_at(tag, &pat, 0);
    if f < tag.len() {
        proof {
            lemma_find_sub_bounds(tag@, pat@, 0);
            assert(matches_at(tag@, pat@, f as int));
        }
        let vs = f + pat.len();
        let q = crate::subtitle::find_char(tag, '"', vs);
        if q < tag.len() {
            Some(slice_range(tag, vs, q))
        } else {
            None
        }
    } else {
        None
    }
}

/// The value of a digit string read in base ten.
pub open spec fn spec_digits_value(s: Seq<char>) -> int
    decreases s.len(),
{
    if s.len() == 0 {
        0
    } else {
        spec_digits_value(s.drop_last()) * 10 + spec_digit_value(s.last())
    }
}

/// The number a caption attribute denotes: up to fifteen decimal digits.
pub open spec fn spec_parse_number(s: Seq<char>) -> Option<int> {
    if 1 <= s.len() <= 15 && (forall|i: int| 0 <= i < s.len() ==> is_digit(s[i])) {
        Some(spec_digits_value(s))
    } else {
        None
    }
}

/// Ten to the `k`-th power.
pub open spec fn spec_pow10(k: int) -> int
    decreases k,
{
    if k <= 0 {
        1
    } else {
        10 * spec_pow10(k - 1)
    }
}

proof fn lemma_digits_value_bound(s: Seq<char>)
    requires
        forall|i: int| 0 <= i < s.len() ==> is_digit(s[i]),
    ensures
        0 <= spec_digits_value(s) < spec_pow10(s.len() as int),
    decreases s.len(),
{
    if s.len() > 0 {
        lemma_digits_value_bound(s.drop_last());
    }
}

/// Parse a decimal attribute of up to fifteen digits.
pub fn parse_number(s: &Vec<char>) -> (r: Option<u64>)
    ensures
        match r {
            Some(v) => spec_parse_number(s@) == Some(v as int),
            None => spec_parse_number(s@) is None,
        },
{
    let n = s.len();
    if n == 0 || n > 15 {
        return None;
    }
    let mut val: u64 = 0;
    let mut i: usize = 0;
    proof {
        assert(s@.subrange(0, 0) =~= Seq::<char>::empty());
    }
    while i < n
        invariant
            i <= n,
            n == s@.len(),
            n <= 15,
            forall|k: int| 0 <= k < i ==> is_digit(s@[k]),
            val == spec_digits_value(s@.subrange(0, i as int)),
            val < spec_pow10(i as int),
        decreases n - i,
    {
        let c = s[i];
        if !('0' <= c && c <= '9') {
            return None;
        }
        let d = (c as u32 - '0' as u32) as u64;
        proof {
            lemma_pow10_values();
            lemma_pow10_monotone(i as int, 15);
            assert(val * 10 + d < spec_pow10(i + 1));
            assert(s@.subrange(0, i + 1).drop_last() =~= s@.subrange(0, i as int));
            assert(s@.subrange(0, i + 1).last() == s@[i as int]);
        }
        val = val * 10 + d;
        i += 1;
    }
    proof {
        assert(s@.subrange(0, n as int) =~= s@);
    }
    Some(val)
}

proof fn lemma_pow10_monotone(a: int, b: int)
    requires
        0 <= a <= b,
    ensures
        spec_pow10(a) <= spec_pow10(b),
    decreases b,
{
    if a < b {
        lemma_pow10_monotone(a, b - 1);
        assert(spec_pow10(b) == 10 * spec_pow10(b - 1));
        assert(spec_pow10(b - 1) >= 1) by {
            lemma_pow10_positive(b - 1);
        }
    }
}

proof fn lemma_pow10_positive(k: int)
    ensures
        spec_pow10(k) >= 1,
    decreases k,
{
    if k > 0 {
        lemma_pow10_positive(k - 1);
    }
}

proof fn lemma_pow10_values()
    ensures
        spec_pow10(1) == 10,
        spec_pow10(2) == 100,
        spec_pow10(3) == 1000,
        spec_pow10(15) == 1000000000000000int,
{
    reveal_with_fuel(spec_pow10, 17);
}

/// The milliseconds a decimal-seconds attribute denotes: the whole seconds
/// times a thousand, plus the first three fraction digits scaled to
/// milliseconds. The whole part has at most fifteen digits; the fraction
/// holds only digits.
pub open spec fn spec_parse_seconds_ms(s: Seq<char>) -> Option<int> {
    let dot = spec_find_char(s, '.', 0);
    if dot >= s.len() {
        match spec_parse_number(s) {
            Some(v) => Some(v * 1000),
            None => None,
        }
    } else {
        let ip = s.subrange(0, dot);
        let fp = s.subrange(dot + 1, s.len() as int);
        if (forall|i: int| 0 <= i < fp.len() ==> is_digit(fp[i])) {
            match spec_parse_number(ip) {
                Some(v) => Some(v * 1000 + spec_frac_ms(fp)),
                None => None,
            }
        } else {
            None
        }
    }
}

/// The first three fraction digits as milliseconds, shorter fractions
/// scaled up.
pub open spec fn spec_frac_ms(fp: Seq<char>) -> int {
    if fp.len() >= 3 {
        spec_digits_value(fp.subrange(0, 3))
    } else {
        spec_digits_value(fp) * spec_pow10(3 - fp.len())
    }
}

/// Parse a decimal-seconds attribute into milliseconds.
pub fn parse_seconds_ms(s: &Vec<char>) -> (r: Option<u64>)
    ensures
        match r {
            Some(v) => spec_parse_seconds_ms(s@) == Some(v as int),
            None => spec_parse_seconds_ms(s@) is None,
        },
{
    let n = s.len();
    let dot = crate::subtitle::find_char(s, '.', 0);
    if dot >= n {
        match parse_number(s) {
            Some(v) => {
                proof {
                    lemma_digits_value_bound(s@);
                    lemma_pow10_values();
                    lemma_pow10_monotone(s@.len() as int, 15);
                }
                Some(v * 1000)
            },
            None => None,
        }
    } else {
        let ip = slice_range(s, 0, dot);
        let fp = slice_range(s, dot + 1, n);
        let mut k: usize = 0;
        while k < fp.len()
            invariant
                k <= fp@.len(),
                n == s@.len(),
                dot == spec_find_char(s@, '.', 0),
                dot < n,
                fp@ == s@.subrange(dot as int + 1, n as int),
                forall|t: int| 0 <= t < k ==> is_digit(fp@[t]),
            decreases fp@.len() - k,
        {
            let c = fp[k];
            if !('0' <= c && c <= '9') {
                return None;
            }
            k += 1;
        }
        let frac: u64 = if fp.len() >= 3 {
            let f3 = slice_range(&fp, 0, 3);
            match parse_number(&f3) {
                Some(v) => v,
                None => {
                    proof {
                        assert(false);
                    }
                    0
                },
            }
        } else if fp.len() == 0 {
            proof {
                assert(spec_digits_value(fp@) == 0);
                vstd::arithmetic::mul::lemma_mul_basics(spec_pow10(3 - fp@.len()));
            }
            0
        } else {
            match parse_number(&fp) {
                Some(v) => {
                    proof {
                        lemma_digits_value_bound(fp@);
                        lemma_pow10_values();
                    }
                    if fp.len() == 1 {
                        v * 100
                    } else {
                        v * 10
                    }
                },
                None => {
                    proof {
                        assert(false);
                    }
                    0
                },
            }
        };
        proof {
            if fp@.len() >= 3 {
                assert(frac == spec_frac_ms(fp@));
            } else {
                assert(frac == spec_frac_ms(fp@));
            }
        }
        match parse_number(&ip) {
            Some(v) => {
                proof {
                    lemma_digits_value_bound(ip@);
                    lemma_pow10_values();
                    lemma_pow10_values();
                    lemma_pow10_monotone(ip@.len() as int, 15);
                    if fp@.len() >= 3 {
                        lemma_digits_value_bound(fp@.subrange(0, 3));
                    } else {
                        lemma_digits_value_bound(fp@);
                    }
                }
                Some(v * 1000 + frac)
            },
            None => None,
        }
    }
}

/// The rendered piece one caption node contributes: with timestamps and a
/// known start time, a `[HH:MM:SS]` tag and a space precede the text.
pub open spec fn spec_caption_piece(cleaned: Seq<char>, ms: Option<int>, ts: bool) -> Seq<char> {
    if ts {
        match ms {
            Some(m) => seq!['['] + spec_timestamp(m) + seq![']', ' '] + cleaned,
            None => cleaned,
        }
    } else {
        cleaned
    }
}

/// The start time, in milliseconds, an XML caption node's tag declares: its
/// `start` attribute read as decimal seconds.
pub open spec fn spec_xml_tag_ms(tag: Seq<char>) -> Option<int> {
    match spec_extract_attribute(tag, "start"@) {
        Some(v) => spec_parse_seconds_ms(v),
        None => None,
    }
}

/// The text parts of an XML caption document: for each `<text …>…</text>`
/// node, the entity-decoded, trimmed content, tagged with its start time
/// when timestamps are asked for; nodes whose content is empty disappear;
/// parsing stops at the first malformed node.
pub open spec fn spec_xml_parts(s: Seq<char>, ts: bool) -> Seq<Seq<char>>
    decreases s.len(),
    via spec_xml_parts_decreases
{
    let a = spec_find_sub(s, "<text"@, 0);
    if a >= s.len() {
        Seq::<Seq<char>>::empty()
    } else {
        let b = spec_find_char(s, '>', a);
        if b >= s.len() {
            Seq::<Seq<char>>::empty()
        } else {
            let e = spec_find_sub(s, "</text>"@, b + 1);
            if e >= s.len() {
                Seq::<Seq<char>>::empty()
            } else {
                let tag = s.subrange(a, b + 1);
                let cleaned = spec_trim(spec_html_decode(s.subrange(b + 1, e)));
                let rest = spec_xml_parts(s.skip(e + 7), ts);
                if cleaned.len() == 0 {
                    rest
                } else {
                    seq![spec_caption_piece(cleaned, spec_xml_tag_ms(tag), ts)] + rest
                }
            }
        }
    }
}

#[via_fn]
proof fn spec_xml_parts_decreases(s: Seq<char>, ts: bool) {
    reveal_strlit("<text");
    reveal_strlit("</text>");
    lemma_find_sub_bounds(s, "<text"@, 0);
    let a = spec_find_sub(s, "<text"@, 0);
    if a < s.len() {
        lemma_find_char_bounds(s, '>', a);
        let b = spec_find_char(s, '>', a);
        if b < s.len() {
            lemma_find_sub_bounds(s, "</text>"@, b + 1);
        }
    }
}

/// Render a caption part with its tagged time.
fn render_caption_piece(cleaned: &Vec<char>, ms: Option<u64>, ts: bool) -> (r: String)
    ensures
        r@ == spec_caption_piece(
            cleaned@,
            match ms {
                Some(m) => Some(m as int),
                None => None,
            },
            ts,
        ),
{
    if ts {
        match ms {
            Some(m) => {
                let mut r = String::new();
                r.push('[');
                let tag = format_timestamp_ms(m);
                r.append(tag.as_str());
                r.push(']');
                r.push(' ');
                crate::strutil::push_chars(&mut r, cleaned);
                proof {
                    assert(r@ =~= seq!['['] + spec_timestamp(m as int) + seq![']', ' ']
                        + cleaned@);
                }
                r
            },
            None => string_of(cleaned),
        }
    } else {
        string_of(cleaned)
    }
}

fn xml_parts(cur: Vec<char>, ts: bool, acc: &mut Vec<String>)
    ensures
        final(acc)@.map_values(|p: String| p@) == old(acc)@.map_values(|p: String| p@)
            + spec_xml_parts(cur@, ts),
    decreases cur@.len(),
{
    proof {
        reveal_strlit("<text");
        reveal_strlit("</text>");
        lemma_find_sub_bounds(cur@, "<text"@, 0);
    }
    let open_pat = chars_of("<text");
    let close_pat = chars_of("</text>");
    let n = cur.len();
    let a = find_sub_at(&cur, &open_pat, 0);
    if a >= n {
        proof {
            assert(acc@.map_values(|p: String| p@) + spec_xml_parts(cur@, ts)
                =~= acc@.map_values(|p: String| p@));
        }
        return ;
    }
    let b = crate::subtitle::find_char(&cur, '>', a);
    if b >= n {
        proof {
            assert(acc@.map_values(|p: String| p@) + spec_xml_parts(cur@, ts)
                =~= acc@.map_values(|p: String| p@));
        }
        return ;
    }
    let e = find_sub_at(&cur, &close_pat, b + 1);
    if e >= n {
        proof {
            assert(acc@.map_values(|p: String| p@) + spec_xml_parts(cur@, ts)
                =~= acc@.map_values(|p: String| p@));
        }
        return ;
    }
    proof {
        lemma_find_sub_bounds(cur@, "</text>"@, b + 1);
    }
    let tag = slice_range(&cur, a, b + 1);
    let content = slice_range(&cur, b + 1, e);
    let cleaned = trim(&html_decode(&content));
    let ghost pre = acc@.map_values(|p: String| p@);
    if cleaned.len() > 0 {
        let ms = match extract_attribute(&tag, "start") {
            Some(v) => parse_seconds_ms(&v),
            None => None,
        };
        let piece = render_caption_piece(&cleaned, ms, ts);
        acc.push(piece);
        proof {
            assert(acc@.map_values(|p: String| p@) =~= pre + seq![
                spec_caption_piece(cleaned@, spec_xml_tag_ms(tag@), ts),
            ]);
        }
    }
    let next = slice_range(&cur, e + 7, n);
    proof {
        assert(next@ =~= cur@.skip(e + 7));
    }
    xml_parts(next, ts, acc);
    proof {
        assert(acc@.map_values(|p: String| p@) =~= old(acc)@.map_values(|p: String| p@)
            + spec_xml_parts(cur@, ts));
    }
}

/// The transcript an XML caption document yields: its parts joined by line
/// breaks when timestamps are asked for, otherwise joined by spaces and
/// whitespace-normalized.
pub open spec fn spec_parse_xml_captions(s: Seq<char>, ts: bool) -> Seq<char> {
    let parts = spec_xml_parts(s, ts);
    if ts {
        crate::engine::spec_join(parts, "\n"@)
    } else {
        spec_collapse_ws(crate::engine::spec_join(parts, " "@))
    }
}

/// Parse an XML caption document into transcript text.
pub fn parse_xml_captions(xml: &str, include_timestamps: bool) -> (r: String)
    ensures
        r@ == spec_parse_xml_captions(xml@, include_timestamps),
{
    let mut parts: Vec<String> = Vec::new();
    xml_parts(chars_of(xml), include_timestamps, &mut parts);
    proof {
        assert(Seq::<Seq<char>>::empty() + spec_xml_parts(xml@, include_timestamps)
            =~= spec_xml_parts(xml@, include_timestamps));
        assert(parts@.map_values(|p: String| p@) == spec_xml_parts(xml@, include_timestamps));
    }
    if include_timestamps {
        crate::engine::join_parts(&parts, "\n")
    } else {
        let joined = crate::engine::join_parts(&parts, " ");
        normalize_text(joined.as_str())
    }
}

/// The start time a `<p>` node's tag declares: its `t` attribute read as
/// whole milliseconds.
pub open spec fn spec_p_tag_ms(tag: Seq<char>) -> Option<int> {
    match spec_extract_attribute(tag, "t"@) {
        Some(v) => spec_parse_number(v),
        None => None,
    }
}

/// The text parts of the `<p>` nodes of a caption document: inner tags are
/// stripped, entities decoded, the text trimmed, and the node's start time
/// tagged on when timestamps are asked for.
pub open spec fn spec_p_parts(s: Seq<char>, ts: bool) -> Seq<Seq<char>>
    decreases s.len(),
    via spec_p_parts_decreases
{
    let a = spec_find_sub(s, "<p"@, 0);
    if a >= s.len() {
        Seq::<Seq<char>>::empty()
    } else {
        let b = spec_find_char(s, '>', a);
        if b >= s.len() {
            Seq::<Seq<char>>::empty()
        } else {
            let e = spec_find_sub(s, "</p>"@, b + 1);
            if e >= s.len() {
                Seq::<Seq<char>>::empty()
            } else {
                let tag = s.subrange(a, b + 1);
                let cleaned = spec_trim(
                    spec_html_decode(spec_strip_inner_tags(s.subrange(b + 1, e), false)),
                );
                let rest = spec_p_parts(s.skip(e + 4), ts);
                if cleaned.len() == 0 {
                    rest
                } else {
                    seq![spec_caption_piece(cleaned, spec_p_tag_ms(tag), ts)] + rest
                }
            }
        }
    }
}

#[via_fn]
proof fn spec_p_parts_decreases(s: Seq<char>, ts: bool) {
    reveal_strlit("<p");
    reveal_strlit("</p>");
    lemma_find_sub_bounds(s, "<p"@, 0);
    let a = spec_find_sub(s, "<p"@, 0);
    if a < s.len() {
        lemma_find_char_bounds(s, '>', a);
        let b = spec_find_char(s, '>', a);
        if b < s.len() {
            lemma_find_sub_bounds(s, "</p>"@, b + 1);
        }
    }
}

fn p_parts(cur: Vec<char>, ts: bool, acc: &mut Vec<String>)
    ensures
        final(acc)@.map_values(|p: String| p@) == old(acc)@.map_values(|p: String| p@)
            + spec_p_parts(cur@, ts),
    decreases cur@.len(),
{
    proof {
        reveal_strlit("<p");
        reveal_strlit("</p>");
        lemma_find_sub_bounds(cur@, "<p"@, 0);
    }
    let open_pat = chars_of("<p");
    let close_pat = chars_of("</p>");
    let n = cur.len();
    let a = find_sub_at(&cur, &open_pat, 0);
    if a >= n {
        proof {
            assert(acc@.map_values(|p: String| p@) + spec_p_parts(cur@, ts)
                =~= acc@.map_values(|p: String| p@));
        }
        return ;
    }
    let b = crate::subtitle::find_char(&cur, '>', a);
    if b >= n {
        proof {
            assert(acc@.map_values(|p: String| p@) + spec_p_parts(cur@, ts)
                =~= acc@.map_values(|p: String| p@));
        }
        return ;
    }
    let e = find_sub_at(&cur, &close_pat, b + 1);
    if e >= n {
        proof {
            assert(acc@.map_values(|p: String| p@) + spec_p_parts(cur@, ts)
                =~= acc@.map_values(|p: String| p@));
        }
        return ;
    }
    proof {
        lemma_find_sub_bounds(cur@, "</p>"@, b + 1);
    }
    let tag = slice_range(&cur, a, b + 1);
    let content = slice_range(&cur, b + 1, e);
    let cleaned = trim(&html_decode(&strip_inner_tags(&content)));
    let ghost pre = acc@.map_values(|p: String| p@);
    if cleaned.len() > 0 {
        let ms = match extract_attribute(&tag, "t") {
            Some(v) => parse_number(&v),
            None => None,
        };
        let piece = render_caption_piece(&cleaned, ms, ts);
        acc.push(piece);
        proof {
            assert(acc@.map_values(|p: String| p@) =~= pre + seq![
                spec_caption_piece(cleaned@, spec_p_tag_ms(tag@), ts),
            ]);
        }
    }
    let next = slice_range(&cur, e + 4, n);
    proof {
        assert(next@ =~= cur@.skip(e + 4));
    }
    p_parts(next, ts, acc);
    proof {
        assert(acc@.map_values(|p: String| p@) =~= old(acc)@.map_values(|p: String| p@)
            + spec_p_parts(cur@, ts));
    }
}

/// The text parts of the `<s>` nodes of a caption document: entity-decoded
/// and trimmed, never tagged with times.
pub open spec fn spec_s_parts(s: Seq<char>) -> Seq<Seq<char>>
    decreases s.len(),
    via spec_s_parts_decreases
{
    let a = spec_find_sub(s, "<s"@, 0);
    if a >= s.len() {
        Seq::<Seq<char>>::empty()
    } else {
        let b = spec_find_char(s, '>', a);
        if b >= s.len() {
            Seq::<Seq<char>>::empty()
        } else {
            let e = spec_find_sub(s, "</s>"@, b + 1);
            if e >= s.len() {
                Seq::<Seq<char>>::empty()
            } else {
                let cleaned = spec_trim(spec_html_decode(s.subrange(b + 1, e)));
                let rest = spec_s_parts(s.skip(e + 4));
                if cleaned.len() == 0 {
                    rest
                } else {
                    seq![cleaned] + rest
                }
            }
        }
    }
}

#[via_fn]
proof fn spec_s_parts_decreases(s: Seq<char>) {
    reveal_strlit("<s");
    reveal_strlit("</s>");
    lemma_find_sub_bounds(s, "<s"@, 0);
    let a = spec_find_sub(s, "<s"@, 0);
    if a < s.len() {
        lemma_find_char_bounds(s, '>', a);
        let b = spec_find_char(s, '>', a);
        if b < s.len() {
            lemma_find_sub_bounds(s, "</s>"@, b + 1);
        }
    }
}

fn s_parts(cur: Vec<char>, acc: &mut Vec<String>)
    ensures
        final(acc)@.map_values(|p: String| p@) == old(acc)@.map_values(|p: String| p@)
            + spec_s_parts(cur@),
    decreases cur@.len(),
{
    proof {
        reveal_strlit("<s");
        reveal_strlit("</s>");
        lemma_find_sub_bounds(cur@, "<s"@, 0);
    }
    let open_pat = chars_of("<s");
    let close_pat = chars_of("</s>");
    let n = cur.len();
    let a = find_sub_at(&cur, &open_pat, 0);
    if a >= n {
        proof {
            assert(acc@.map_values(|p: String| p@) + spec_s_parts(cur@)
                =~= acc@.map_values(|p: String| p@));
        }
        return ;
    }
    let b = crate::subtitle::find_char(&cur, '>', a);
    if b >= n {
        proof {
            assert(acc@.map_values(|p: String| p@) + spec_s_parts(cur@)
                =~= acc@.map_values(|p: String| p@));
        }
        return ;
    }
    let e = find_sub_at(&cur, &close_pat, b + 1);
    if e >= n {
        proof {
            assert(acc@.map_values(|p: String| p@) + spec_s_parts(cur@)
                =~= acc@.map_values(|p: String| p@));
        }
        return ;
    }
    proof {
        lemma_find_sub_bounds(cur@, "</s>"@, b + 1);
    }
    let content = slice_range(&cur, b + 1, e);
    let cleaned = trim(&html_decode(&content));
    let ghost pre = acc@.map_values(|p: String| p@);
    if cleaned.len() > 0 {
        let piece = string_of(&cleaned);
        acc.push(piece);
        proof {
            assert(acc@.map_values(|p: String| p@) =~= pre + seq![cleaned@]);
        }
    }
    let next = slice_range(&cur, e + 4, n);
    proof {
        assert(next@ =~= cur@.skip(e + 4));
    }
    s_parts(next, acc);
    proof {
        assert(acc@.map_values(|p: String| p@) =~= old(acc)@.map_values(|p: String| p@)
            + spec_s_parts(cur@));
    }
}

/// The transcript a caption document of `<p>` nodes yields: the `<p>` parts
/// when there are any, otherwise the `<s>` parts; joined by line breaks when
/// timestamps are asked for, otherwise joined by spaces and
/// whitespace-normalized.
pub open spec fn spec_parse_srv3_captions(s: Seq<char>, ts: bool) -> Seq<char> {
    let pa = spec_p_parts(s, ts);
    let parts = if pa.len() == 0 {
        spec_s_parts(s)
    } else {
        pa
    };
    if ts {
        crate::engine::spec_join(parts, "\n"@)
    } else {
        spec_collapse_ws(crate::engine::spec_join(parts, " "@))
    }
}

/// Parse a caption document of `<p>` nodes — falling back to bare `<s>`
/// nodes — into transcript text.
pub fn parse_srv3_captions(content: &str, include_timestamps: bool) -> (r: String)
    ensures
        r@ == spec_parse_srv3_captions(content@, include_timestamps),
{
    let cs = chars_of(content);
    let mut parts: Vec<String> = Vec::new();
    p_parts(cs, include_timestamps, &mut parts);
    proof {
        assert(Seq::<Seq<char>>::empty() + spec_p_parts(content@, include_timestamps)
            =~= spec_p_parts(content@, include_timestamps));
    }
    if parts.len() == 0 {
        let cs2 = chars_of(content);
        s_parts(cs2, &mut parts);
        proof {
            assert(parts@.map_values(|p: String| p@).len() == 0 ==> parts@.map_values(
                |p: String| p@,
            ) =~= Seq::<Seq<char>>::empty());
            assert(Seq::<Seq<char>>::empty() + spec_s_parts(content@) =~= spec_s_parts(content@));
        }
    }
    if include_timestamps {
        crate::engine::join_parts(&parts, "\n")
    } else {
        let joined = crate::engine::join_parts(&parts, " ");
        normalize_text(joined.as_str())
    }
}

/// The last position at or before `upto` where `pat` begins, or `-1` when
/// it begins nowhere there.
pub open spec fn spec_rfind_sub(s: Seq<char>, pat: Seq<char>, upto: int) -> int
    decreases upto + 1,
{
    if upto < 0 {
        -1
    } else if matches_at(s, pat, upto) {
        upto
    } else {
        spec_rfind_sub(s, pat, upto - 1)
    }
}

/// The last position at or before `upto` where `pat` begins.
pub fn rfind_sub_upto(s: &Vec<char>, pat: &Vec<char>, upto: usize) -> (r: Option<usize>)
    requires
        upto <= s@.len(),
    ensures
        match r {
            Some(p) => p <= upto && spec_rfind_sub(s@, pat@, upto as int) == p as int
                && matches_at(s@, pat@, p as int),
            None => spec_rfind_sub(s@, pat@, upto as int) == -1,
        },
{
    let n = s.len();
    let mut i = upto;
    loop
        invariant
            i <= upto <= n,
            n == s@.len(),
            spec_rfind_sub(s@, pat@, upto as int) == spec_rfind_sub(s@, pat@, i as int),
        decreases i + 1,
    {
        let hit = if n - i >= pat.len() {
            check_match_at(s, pat, i)
        } else {
            false
        };
        proof {
            if n - i < pat@.len() {
                assert(!matches_at(s@, pat@, i as int));
            }
        }
        if hit {
            return Some(i);
        }
        if i == 0 {
            proof {
                assert(spec_rfind_sub(s@, pat@, -1) == -1);
            }
            return None;
        }
        i -= 1;
    }
}

/// The video title a watch page reveals: the `og:title` metadata when it is
/// present and decodes to something; otherwise the `<title>` element with
/// the site suffix removed; otherwise nothing.
pub open spec fn spec_extract_title(html: Seq<char>) -> Option<Seq<char>> {
    let og = spec_og_title(html);
    match og {
        Some(t) => Some(t),
        None => spec_title_tag(html),
    }
}

/// The `og:title` metadata value, entity-decoded, when present and nonempty.
pub open spec fn spec_og_title(html: Seq<char>) -> Option<Seq<char>> {
    let pat = "og:title\" content=\""@;
    let a = spec_find_sub(html, pat, 0);
    if a < html.len() {
        let vs = a + pat.len();
        let q = spec_find_char(html, '"', vs);
        if q < html.len() {
            let t = spec_html_decode(html.subrange(vs, q));
            if t.len() > 0 {
                Some(t)
            } else {
                None
            }
        } else {
            None
        }
    } else {
        None
    }
}

/// The `<title>` element's text with the site suffix removed and trimmed,
/// entity-decoded, when present and nonempty.
pub open spec fn spec_title_tag(html: Seq<char>) -> Option<Seq<char>> {
    let a = spec_find_sub(html, "<title>"@, 0);
    if a < html.len() {
        let e = spec_find_sub(html, "</title>"@, a);
        if e < html.len() && a + 7 <= e {
            let t = spec_trim(
                spec_replace_all(html.subrange(a + 7, e), " - YouTube"@, Seq::<char>::empty()),
            );
            if t.len() > 0 {
                Some(spec_html_decode(t))
            } else {
                None
            }
        } else {
            None
        }
    } else {
        None
    }
}

/// Extract the video title from a watch page.
pub fn extract_title(html: &str) -> (r: Option<String>)
    ensures
        match r {
            Some(t) => spec_extract_title(html@) == Some(t@),
            None => spec_extract_title(html@) is None,
        },
{
    let h = chars_of(html);
    let n = h.len();
    proof {
        reveal_strlit("og:title\" content=\"");
        reveal_strlit("<title>");
        reveal_strlit("</title>");
        reveal_strlit(" - YouTube");
        reveal_strlit("");
    }
    let og_pat = chars_of("og:title\" content=\"");
    let a = find_sub_at(&h, &og_pat, 0);
    if a < n {
        proof {
            lemma_find_sub_bounds(h@, og_pat@, 0);
        }
        let vs = a + og_pat.len();
        let q = crate::subtitle::find_char(&h, '"', vs);
        if q < n {
            let t = html_decode(&slice_range(&h, vs, q));
            if t.len() > 0 {
                return Some(string_of(&t));
            }
        }
    }
    let ti_pat = chars_of("<title>");
    let a2 = find_sub_at(&h, &ti_pat, 0);
    if a2 < n {
        let e = find_sub_at(&h, &chars_of("</title>"), a2);
        if e < n && a2 + 7 <= e {
            let inner = slice_range(&h, a2 + 7, e);
            let empty_rep: Vec<char> = Vec::new();
            proof {
                assert(empty_rep@ =~= Seq::<char>::empty());
            }
            let t = trim(&replace_all(&inner, &chars_of(" - YouTube"), &empty_rep));
            if t.len() > 0 {
                return Some(string_of(&html_decode(&t)));
            }
        }
    }
    None
}

/// Whether the caption-track section names the language, by any of the
/// track-description forms.
pub open spec fn spec_has_lang(section: Seq<char>, code: Seq<char>) -> bool {
    ||| contains_seq(section, "\"languageCode\":\""@ + code + "\""@)
    ||| contains_seq(section, "\"vssId\":\"."@ + code + "\""@)
    ||| contains_seq(section, "\"vssId\":\"a."@ + code + "\""@)
}

fn has_lang(section: &Vec<char>, code: &str) -> (r: bool)
    ensures
        r == spec_has_lang(section@, code@),
{
    proof {
        reveal_strlit("\"languageCode\":\"");
        reveal_strlit("\"vssId\":\".");
        reveal_strlit("\"vssId\":\"a.");
        reveal_strlit("\"");
    }
    let mut p1 = chars_of("\"languageCode\":\"");
    append_chars(&mut p1, &chars_of(code));
    append_chars(&mut p1, &chars_of("\""));
    let mut p2 = chars_of("\"vssId\":\".");
    append_chars(&mut p2, &chars_of(code));
    append_chars(&mut p2, &chars_of("\""));
    let mut p3 = chars_of("\"vssId\":\"a.");
    append_chars(&mut p3, &chars_of(code));
    append_chars(&mut p3, &chars_of("\""));
    contains_sub(section, &p1) || contains_sub(section, &p2) || contains_sub(section, &p3)
}

/// The caption-track section of a watch page: the five thousand characters
/// after the track list's marker, when the marker is present.
pub open spec fn spec_caption_section(html: Seq<char>) -> Option<Seq<char>> {
    let a = spec_find_sub(html, "\"captionTracks\":"@, 0);
    if a < html.len() {
        let end = if a + 5000 <= html.len() {
            a + 5000
        } else {
            html.len() as int
        };
        Some(html.subrange(a, end))
    } else {
        None
    }
}

/// The language codes the caption-track section names, in the fixed probe
/// order; when the section names none but auto-generated captions are
/// marked, English alone.
pub open spec fn spec_caption_languages(html: Seq<char>) -> Seq<Seq<char>> {
    let found = match spec_caption_section(html) {
        Some(section) => spec_langs_in(section),
        None => Seq::<Seq<char>>::empty(),
    };
    if found.len() == 0 && contains_seq(html, "\"asr\""@) && contains_seq(
        html,
        "captionTracks"@,
    ) {
        seq!["en"@]
    } else {
        found
    }
}

/// The probe codes the section names, in probe order.
pub open spec fn spec_langs_in(section: Seq<char>) -> Seq<Seq<char>> {
    spec_lang_entry(section, "en"@) + spec_lang_entry(section, "es"@) + spec_lang_entry(
        section,
        "fr"@,
    ) + spec_lang_entry(section, "de"@) + spec_lang_entry(section, "pt"@) + spec_lang_entry(
        section,
        "ja"@,
    ) + spec_lang_entry(section, "zh"@) + spec_lang_entry(section, "ko"@) + spec_lang_entry(
        section,
        "ru"@,
    ) + spec_lang_entry(section, "it"@) + spec_lang_entry(section, "nl"@) + spec_lang_entry(
        section,
        "pl"@,
    ) + spec_lang_entry(section, "tr"@) + spec_lang_entry(section, "ar"@) + spec_lang_entry(
        section,
        "hi"@,
    )
}

pub open spec fn spec_lang_entry(section: Seq<char>, code: Seq<char>) -> Seq<Seq<char>> {
    if spec_has_lang(section, code) {
        seq![code]
    } else {
        Seq::<Seq<char>>::empty()
    }
}

fn push_lang_if_found(section: &Vec<char>, code: &str, langs: &mut Vec<String>)
    ensures
        final(langs)@.map_values(|p: String| p@) == old(langs)@.map_values(|p: String| p@)
            + spec_lang_entry(section@, code@),
{
    let ghost pre = langs@.map_values(|p: String| p@);
    if has_lang(section, code) {
        langs.push(String::from_str(code));
        proof {
            assert(langs@.map_values(|p: String| p@) =~= pre + seq![code@]);
        }
    } else {
        proof {
            assert(langs@.map_values(|p: String| p@) =~= pre
                + Seq::<Seq<char>>::empty());
        }
    }
}

/// List the caption languages a watch page reveals.
pub fn extract_caption_languages(html: &str) -> (r: Vec<String>)
    ensures
        r@.map_values(|p: String| p@) == spec_caption_languages(html@),
{
    proof {
        reveal_strlit("\"captionTracks\":");
        reveal_strlit("\"asr\"");
        reveal_strlit("captionTracks");
    }
    let h = chars_of(html);
    let n = h.len();
    let marker = chars_of("\"captionTracks\":");
    let a = find_sub_at(&h, &marker, 0);
    let mut langs: Vec<String> = Vec::new();
    if a < n {
        let end = if n - a >= 5000 {
            a + 5000
        } else {
            n
        };
        let section = slice_range(&h, a, end);
        push_lang_if_found(&section, "en", &mut langs);
        push_lang_if_found(&section, "es", &mut langs);
        push_lang_if_found(&section, "fr", &mut langs);
        push_lang_if_found(&section, "de", &mut langs);
        push_lang_if_found(&section, "pt", &mut langs);
        push_lang_if_found(&section, "ja", &mut langs);
        push_lang_if_found(&section, "zh", &mut langs);
        push_lang_if_found(&section, "ko", &mut langs);
        push_lang_if_found(&section, "ru", &mut langs);
        push_lang_if_found(&section, "it", &mut langs);
        push_lang_if_found(&section, "nl", &mut langs);
        push_lang_if_found(&section, "pl", &mut langs);
        push_lang_if_found(&section, "tr", &mut langs);
        push_lang_if_found(&section, "ar", &mut langs);
        push_lang_if_found(&section, "hi", &mut langs);
        proof {
            assert(langs@.map_values(|p: String| p@) =~= spec_langs_in(section@));
        }
    }
    if langs.len() == 0 {
        let asr = chars_of("\"asr\"");
        let ct = chars_of("captionTracks");
        if contains_sub(&h, &asr) && contains_sub(&h, &ct) {
            langs.push(String::from_str("en"));
            proof {
                assert(langs@.map_values(|p: String| p@) =~= seq!["en"@]);
            }
        }
    }
    proof {
        assert(langs@.map_values(|p: String| p@) =~= spec_caption_languages(html@));
    }
    langs
}

/// The caption URL a track-description pattern leads to: the `baseUrl`
/// value written closest before the pattern, its escaped ampersands
/// decoded.
pub open spec fn spec_url_before(section: Seq<char>, pat: Seq<char>) -> Option<Seq<char>> {
    let lp = spec_find_sub(section, pat, 0);
    if lp < section.len() {
        let area = section.subrange(0, lp);
        let bp = spec_rfind_sub(area, "\"baseUrl\":\""@, area.len() - 11);
        if bp >= 0 {
            let us = bp + 11;
            let q = spec_find_char(section, '"', us);
            if q < section.len() {
                Some(spec_replace_all(section.subrange(us, q), "\\u0026"@, "&"@))
            } else {
                None
            }
        } else {
            None
        }
    } else {
        None
    }
}

/// The first `baseUrl` value of the section, when it points at caption
/// timed text.
pub open spec fn spec_url_fallback(section: Seq<char>) -> Option<Seq<char>> {
    let bp = spec_find_sub(section, "\"baseUrl\":\""@, 0);
    if bp < section.len() {
        let us = bp + 11;
        let q = spec_find_char(section, '"', us);
        if q < section.len() {
            let u = section.subrange(us, q);
            if contains_seq(u, "timedtext"@) {
                Some(spec_replace_all(u, "\\u0026"@, "&"@))
            } else {
                None
            }
        } else {
            None
        }
    } else {
        None
    }
}

/// The section a caption URL is looked up in: ten thousand characters after
/// the track list's marker.
pub open spec fn spec_url_section(html: Seq<char>) -> Option<Seq<char>> {
    let a = spec_find_sub(html, "\"captionTracks\":"@, 0);
    if a < html.len() {
        let end = if a + 10000 <= html.len() {
            a + 10000
        } else {
            html.len() as int
        };
        Some(html.subrange(a, end))
    } else {
        None
    }
}

/// The caption URL a watch page reveals for a language: the track matching
/// the language's identifier — plain or auto-generated — or, failing both,
/// the section's first timed-text URL.
pub open spec fn spec_extract_caption_url(html: Seq<char>, lang: Seq<char>) -> Option<Seq<char>> {
    match spec_url_section(html) {
        Some(section) => {
            let p1 = "\"vssId\":\"."@ + lang + "\""@;
            let p2 = "\"vssId\":\"a."@ + lang + "\""@;
            match spec_url_before(section, p1) {
                Some(u) => Some(u),
                None => match spec_url_before(section, p2) {
                    Some(u) => Some(u),
                    None => spec_url_fallback(section),
                },
            }
        },
        None => None,
    }
}

fn url_before(section: &Vec<char>, pat: &Vec<char>) -> (r: Option<String>)
    requires
        pat@.len() > 0,
    ensures
        match r {
            Some(u) => spec_url_before(section@, pat@) == Some(u@),
            None => spec_url_before(section@, pat@) is None,
        },
{
    proof {
        reveal_strlit("\"baseUrl\":\"");
        reveal_strlit("\\u0026");
        reveal_strlit("&");
    }
    let n = section.len();
    let lp = find_sub_at(section, pat, 0);
    if lp >= n {
        return None;
    }
    let area = slice_range(section, 0, lp);
    let bpat = chars_of("\"baseUrl\":\"");
    if area.len() < 11 {
        proof {
            assert forall|k: int| !matches_at(area@, bpat@, k) by {}
            lemma_rfind_none(area@, bpat@, area@.len() - 11);
        }
        return None;
    }
    match rfind_sub_upto(&area, &bpat, area.len() - 11) {
        Some(bp) => {
            let us = bp + 11;
            proof {
                assert(us <= area@.len());
            }
            let q = crate::subtitle::find_char(section, '"', us);
            if q < n {
                let u = slice_range(section, us, q);
                Some(string_of(&replace_all(&u, &chars_of("\\u0026"), &chars_of("&"))))
            } else {
                None
            }
        },
        None => None,
    }
}

/// Below position zero, or with a pattern longer than the text, nothing
/// matches.
proof fn lemma_rfind_none(s: Seq<char>, pat: Seq<char>, upto: int)
    requires
        forall|k: int| !matches_at(s, pat, k),
    ensures
        spec_rfind_sub(s, pat, upto) == -1,
    decreases upto + 1,
{
    if upto >= 0 {
        lemma_rfind_none(s, pat, upto - 1);
    }
}

fn url_fallback(section: &Vec<char>) -> (r: Option<String>)
    ensures
        match r {
            Some(u) => spec_url_fallback(section@) == Some(u@),
            None => spec_url_fallback(section@) is None,
        },
{
    proof {
        reveal_strlit("\"baseUrl\":\"");
        reveal_strlit("\\u0026");
        reveal_strlit("&");
        reveal_strlit("timedtext");
    }
    let n = section.len();
    let bpat = chars_of("\"baseUrl\":\"");
    let bp = find_sub_at(section, &bpat, 0);
    if bp >= n {
        return None;
    }
    proof {
        lemma_find_sub_bounds(section@, bpat@, 0);
    }
    let us = bp + 11;
    let q = crate::subtitle::find_char(section, '"', us);
    if q < n {
        let u = slice_range(section, us, q);
        if contains_sub(&u, &chars_of("timedtext")) {
            Some(string_of(&replace_all(&u, &chars_of("\\u0026"), &chars_of("&"))))
        } else {
            None
        }
    } else {
        None
    }
}

/// Find the caption URL of a language in a watch page.
pub fn extract_caption_url(html: &str, lang: &str) -> (r: Option<String>)
    ensures
        match r {
            Some(u) => spec_extract_caption_url(html@, lang@) == Some(u@),
            None => spec_extract_caption_url(html@, lang@) is None,
        },
{
    proof {
        reveal_strlit("\"captionTracks\":");
        reveal_strlit("\"vssId\":\".");
        reveal_strlit("\"vssId\":\"a.");
        reveal_strlit("\"");
    }
    let h = chars_of(html);
    let n = h.len();
    let marker = chars_of("\"captionTracks\":");
    let a = find_sub_at(&h, &marker, 0);
    if a >= n {
        return None;
    }
    let end = if n - a >= 10000 {
        a + 10000
    } else {
        n
    };
    let section = slice_range(&h, a, end);
    let mut p1 = chars_of("\"vssId\":\".");
    append_chars(&mut p1, &chars_of(lang));
    append_chars(&mut p1, &chars_of("\""));
    let mut p2 = chars_of("\"vssId\":\"a.");
    append_chars(&mut p2, &chars_of(lang));
    append_chars(&mut p2, &chars_of("\""));
    proof {
        assert(p1@.len() > 0);
        assert(p2@.len() > 0);
    }
    match url_before(&section, &p1) {
        Some(u) => Some(u),
        None => match url_before(&section, &p2) {
            Some(u) => Some(u),
            None => url_fallback(&section),
        },
    }
}

/// One caption event lifted out of the JSON caption form: its start time,
/// when one is declared, and its raw segment texts.
#[derive(Debug, Clone)]
pub struct CaptionEvent {
    /// Start time of the event, in milliseconds.
    pub t_start_ms: Option<u64>,
    /// The texts of the event's segments, as fetched.
    pub texts: Vec<String>,
}

/// The text one event contributes: its trimmed, nonempty segment texts
/// joined with single spaces.
pub open spec fn spec_event_text(texts: Seq<String>) -> Seq<char>
    decreases texts.len(),
{
    if texts.len() == 0 {
        Seq::<char>::empty()
    } else {
        let pre = spec_event_text(texts.drop_last());
        let t = spec_trim(texts.last()@);
        if t.len() == 0 {
            pre
        } else if pre.len() == 0 {
            t
        } else {
            pre + seq![' '] + t
        }
    }
}

/// Join the trimmed, nonempty segment texts of one event.
pub fn event_text(texts: &Vec<String>) -> (r: Vec<char>)
    ensures
        r@ == spec_event_text(texts@),
{
    let mut r: Vec<char> = Vec::new();
    let mut i: usize = 0;
    proof {
        assert(texts@.subrange(0, 0) =~= Seq::<String>::empty());
    }
    while i < texts.len()
        invariant
            i <= texts@.len(),
            r@ == spec_event_text(texts@.subrange(0, i as int)),
        decreases texts@.len() - i,
    {
        let ghost pre = r@;
        let t = trim(&chars_of(texts[i].as_str()));
        if t.len() > 0 {
            if r.len() > 0 {
                r.push(' ');
            }
            append_chars(&mut r, &t);
        }
        proof {
            let cur = texts@.subrange(0, i + 1);
            assert(cur.drop_last() =~= texts@.subrange(0, i as int));
            assert(cur.last() == texts@[i as int]);
            if t@.len() > 0 && pre.len() > 0 {
                assert(r@ =~= pre + seq![' '] + t@);
            } else if t@.len() > 0 {
                assert(r@ =~= t@);
            }
            assert(r@ == spec_event_text(cur));
        }
        i += 1;
    }
    proof {
        assert(texts@.subrange(0, texts@.len() as int) =~= texts@);
    }
    r
}

/// The transcript parts the events yield, walked in order with the last
/// written start time in hand: an event with no text disappears; without
/// timestamps every text becomes its own part; with timestamps, an event
/// repeating the previous start time extends the previous part, and any
/// other event opens a new part, tagged when its start time is known.
pub open spec fn spec_group_events(
    events: Seq<CaptionEvent>,
    i: int,
    parts: Seq<Seq<char>>,
    last: Option<u64>,
    ts: bool,
) -> Seq<Seq<char>>
    decreases events.len() - i,
{
    if i < 0 || i >= events.len() {
        parts
    } else {
        let txt = spec_event_text(events[i].texts@);
        if txt.len() == 0 {
            spec_group_events(events, i + 1, parts, last, ts)
        } else if !ts {
            spec_group_events(events, i + 1, parts.push(txt), last, ts)
        } else {
            match events[i].t_start_ms {
                None => spec_group_events(events, i + 1, parts.push(txt), last, ts),
                Some(ms) => {
                    if last == Some(ms) && parts.len() > 0 {
                        spec_group_events(
                            events,
                            i + 1,
                            parts.update(parts.len() - 1, parts.last() + seq![' '] + txt),
                            last,
                            ts,
                        )
                    } else {
                        spec_group_events(
                            events,
                            i + 1,
                            parts.push(spec_caption_piece(txt, Some(ms as int), true)),
                            Some(ms),
                            ts,
                        )
                    }
                },
            }
        }
    }
}

/// The transcript the lifted caption events yield, or nothing when no event
/// carries text: the grouped parts joined by line breaks when timestamps are
/// asked for, otherwise joined by spaces and whitespace-normalized.
pub open spec fn spec_assemble_events(events: Seq<CaptionEvent>, ts: bool) -> Option<Seq<char>> {
    let parts = spec_group_events(events, 0, Seq::<Seq<char>>::empty(), None, ts);
    if parts.len() == 0 {
        None
    } else if ts {
        Some(crate::engine::spec_join(parts, "\n"@))
    } else {
        Some(spec_collapse_ws(crate::engine::spec_join(parts, " "@)))
    }
}

/// Assemble the lifted caption events into transcript text; `None` when no
/// event carries any text.
pub fn assemble_caption_events(events: &Vec<CaptionEvent>, include_timestamps: bool) -> (r: Option<
    String,
>)
    ensures
        match r {
            Some(t) => spec_assemble_events(events@, include_timestamps) == Some(t@),
            None => spec_assemble_events(events@, include_timestamps) is None,
        },
{
    let n = events.len();
    let mut parts: Vec<String> = Vec::new();
    let mut last: Option<u64> = None;
    let mut i: usize = 0;
    proof {
        assert(parts@.map_values(|p: String| p@) =~= Seq::<Seq<char>>::empty());
    }
    while i < n
        invariant
            i <= n,
            n == events@.len(),
            spec_group_events(
                events@,
                i as int,
                parts@.map_values(|p: String| p@),
                last,
                include_timestamps,
            ) == spec_group_events(
                events@,
                0,
                Seq::<Seq<char>>::empty(),
                None::<u64>,
                include_timestamps,
            ),
        decreases n - i,
    {
        let ghost pre = parts@.map_values(|p: String| p@);
        let txt = event_text(&events[i].texts);
        if txt.len() > 0 {
            if !include_timestamps {
                parts.push(string_of(&txt));
                proof {
                    assert(parts@.map_values(|p: String| p@) =~= pre.push(txt@));
                }
            } else {
                match events[i].t_start_ms {
                    None => {
                        parts.push(string_of(&txt));
                        proof {
                            assert(parts@.map_values(|p: String| p@) =~= pre.push(txt@));
                        }
                    },
                    Some(ms) => {
                        let same = match last {
                            Some(l) => l == ms,
                            None => false,
                        };
                        if same && parts.len() > 0 {
                            let mut tail = match parts.pop() {
                                Some(p) => p,
                                None => String::new(),
                            };
                            proof {
                                assert(parts@.map_values(|p: String| p@) =~= pre.drop_last());
                                assert(tail@ == pre.last());
                            }
                            tail.push(' ');
                            crate::strutil::push_chars(&mut tail, &txt);
                            proof {
                                assert(tail@ =~= pre.last() + seq![' '] + txt@);
                            }
                            let ghost popped = parts@.map_values(|p: String| p@);
                            parts.push(tail);
                            proof {
                                assert(parts@.map_values(|p: String| p@) =~= popped.push(
                                    pre.last() + seq![' '] + txt@,
                                ));
                                assert(parts@.map_values(|p: String| p@) =~= pre.update(
                                    pre.len() - 1,
                                    pre.last() + seq![' '] + txt@,
                                ));
                            }
                        } else {
                            let piece = render_caption_piece(&txt, Some(ms), true);
                            parts.push(piece);
                            last = Some(ms);
                            proof {
                                assert(parts@.map_values(|p: String| p@) =~= pre.push(
                                    spec_caption_piece(txt@, Some(ms as int), true),
                                ));
                            }
                        }
                    },
                }
            }
        }
        i += 1;
    }
    if parts.len() == 0 {
        proof {
            assert(parts@.map_values(|p: String| p@) =~= Seq::<Seq<char>>::empty());
        }
        return None;
    }
    if include_timestamps {
        Some(crate::engine::join_parts(&parts, "\n"))
    } else {
        let joined = crate::engine::join_parts(&parts, " ");
        Some(normalize_text(joined.as_str()))
    }
}

} // verus!
