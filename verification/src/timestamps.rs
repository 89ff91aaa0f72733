//! Rendering and re-parsing of time tags.
//!
//! Segment start times are rendered as `HH:MM:SS`; a transcript produced
//! against sped-up audio has every `[HH:MM:SS]` tag rewritten by re-parsing
//! it, converting to milliseconds, scaling by the speed factor and
//! re-rendering, so the user always sees original-audio time.

use vstd::prelude::*;
use vstd::string::StringExecFns;

verus! {

/// The decimal digit character for `n` in `0 ..= 9`.
pub open spec fn spec_digit(n: int) -> char {
    if n == 0 {
        '0'
    } else if n == 1 {
        '1'
    } else if n == 2 {
        '2'
    } else if n == 3 {
        '3'
    } else if n == 4 {
        '4'
    } else if n == 5 {
        '5'
    } else if n == 6 {
        '6'
    } else if n == 7 {
        '7'
    } else if n == 8 {
        '8'
    } else {
        '9'
    }
}

/// The decimal rendering of a non-negative number, without padding.
pub open spec fn spec_digits(n: int) -> Seq<char>
    decreases n,
{
    if n < 10 {
        seq![spec_digit(n)]
    } else {
        spec_digits(n / 10).push(spec_digit(n % 10))
    }
}

/// The decimal rendering padded to two places: one leading zero below ten.
pub open spec fn spec_two_digits(n: int) -> Seq<char> {
    if n < 10 {
        seq!['0', spec_digit(n)]
    } else {
        spec_digits(n)
    }
}

fn digit_char(n: u64) -> (r: char)
    requires
        n < 10,
    ensures
        r == spec_digit(n as int),
{
    match n {
        0 => '0',
        1 => '1',
        2 => '2',
        3 => '3',
        4 => '4',
        5 => '5',
        6 => '6',
        7 => '7',
        8 => '8',
        _ => '9',
    }
}

/// Append the decimal rendering of `n`.
pub fn push_digits(s: &mut String, n: u64)
    ensures
        final(s)@ == old(s)@ + spec_digits(n as int),
    decreases n,
{
    if n < 10 {
        s.push(digit_char(n));
        proof {
            assert(s@ =~= old(s)@ + spec_digits(n as int));
        }
    } else {
        push_digits(s, n / 10);
        s.push(digit_char(n % 10));
        proof {
            assert(s@ =~= old(s)@ + spec_digits(n as int));
        }
    }
}

/// Append the decimal rendering of `n`, padded to two places.
pub fn push_two_digits(s: &mut String, n: u64)
    ensures
        final(s)@ == old(s)@ + spec_two_digits(n as int),
{
    if n < 10 {
        s.push('0');
        s.push(digit_char(n));
        proof {
            assert(s@ =~= old(s)@ + spec_two_digits(n as int));
        }
    } else {
        push_digits(s, n);
    }
}

/// The `HH:MM:SS` rendering of a time in milliseconds: hours, minutes and
/// seconds each padded to two places, hours growing wider when needed.
pub open spec fn spec_timestamp(ms: int) -> Seq<char> {
    let total = ms / 1000;
    spec_two_digits(total / 3600) + seq![':'] + spec_two_digits((total % 3600) / 60) + seq![':']
        + spec_two_digits(total % 60)
}

/// Render a time in milliseconds as `HH:MM:SS`.
pub fn format_timestamp_ms(ms: u64) -> (r: String)
    ensures
        r@ == spec_timestamp(ms as int),
{
    let total = ms / 1000;
    let mut r = String::new();
    push_two_digits(&mut r, total / 3600);
    r.push(':');
    push_two_digits(&mut r, (total % 3600) / 60);
    r.push(':');
    push_two_digits(&mut r, total % 60);
    proof {
        assert(r@ =~= spec_timestamp(ms as int));
    }
    r
}

/// The `M:SS` rendering of a duration in milliseconds: whole minutes, then
/// seconds padded to two places.
pub open spec fn spec_duration_str(ms: int) -> Seq<char> {
    let total = ms / 1000;
    spec_digits(total / 60) + seq![':'] + spec_two_digits(total % 60)
}

/// Render a duration in milliseconds as `M:SS`.
pub fn format_duration_ms(ms: u64) -> (r: String)
    ensures
        r@ == spec_duration_str(ms as int),
{
    let total = ms / 1000;
    let mut r = String::new();
    push_digits(&mut r, total / 60);
    r.push(':');
    push_two_digits(&mut r, total % 60);
    proof {
        assert(r@ =~= spec_duration_str(ms as int));
    }
    r
}

/// A timestamp measured against audio sped up by factor `hundredths / 100`
/// corresponds to this time in the original audio: the timestamp multiplied
/// by the factor, rounded to the nearest millisecond.
pub open spec fn spec_adjusted_ms(ms: int, hundredths: int) -> int {
    (ms * hundredths + 50) / 100
}

/// Scale a timestamp back to original-audio time after speed adjustment:
/// `round(ms * speed)`, the speed factor given in hundredths.
pub fn adjust_timestamp_for_speed(timestamp_ms: u64, speed_hundredths: u32) -> (r: u64)
    requires
        timestamp_ms <= 0xFFFF_FFFF_FFFF,
        speed_hundredths <= 1000,
    ensures
        r == spec_adjusted_ms(timestamp_ms as int, speed_hundredths as int),
{
    proof {
        assert((timestamp_ms as int) * (speed_hundredths as int) + 50 <= u64::MAX as int)
            by (nonlinear_arith)
            requires
                timestamp_ms <= 0xFFFF_FFFF_FFFF,
                speed_hundredths <= 1000,
        ;
    }
    (timestamp_ms * (speed_hundredths as u64) + 50) / 100
}

/// Whether the ten characters starting at `i` form a `[HH:MM:SS]` tag.
pub open spec fn spec_tag_at(s: Seq<char>, i: int) -> bool {
    &&& 0 <= i && i + 10 <= s.len()
    &&& s[i] == '['
    &&& is_digit(s[i + 1]) && is_digit(s[i + 2])
    &&& s[i + 3] == ':'
    &&& is_digit(s[i + 4]) && is_digit(s[i + 5])
    &&& s[i + 6] == ':'
    &&& is_digit(s[i + 7]) && is_digit(s[i + 8])
    &&& s[i + 9] == ']'
}

/// Whether `c` is a decimal digit.
pub open spec fn is_digit(c: char) -> bool {
    '0' <= c && c <= '9'
}

/// The numeric value of a digit character.
pub open spec fn spec_digit_value(c: char) -> int {
    c as int - '0' as int
}

/// The time, in milliseconds, that a `[HH:MM:SS]` tag at `i` denotes.
pub open spec fn spec_tag_ms(s: Seq<char>, i: int) -> int {
    let h = spec_digit_value(s[i + 1]) * 10 + spec_digit_value(s[i + 2]);
    let m = spec_digit_value(s[i + 4]) * 10 + spec_digit_value(s[i + 5]);
    let sec = spec_digit_value(s[i + 7]) * 10 + spec_digit_value(s[i + 8]);
    (h * 3600 + m * 60 + sec) * 1000
}

/// The text with every `[HH:MM:SS]` tag rewritten to original-audio time:
/// scanning left to right, each tag becomes the tag of its adjusted time;
/// everything else is kept.
pub open spec fn spec_adjust_tags(s: Seq<char>, hundredths: int) -> Seq<char>
    decreases s.len(),
{
    if s.len() == 0 {
        s
    } else if spec_tag_at(s, 0) {
        seq!['['] + spec_timestamp(spec_adjusted_ms(spec_tag_ms(s, 0), hundredths)) + seq![']']
            + spec_adjust_tags(s.skip(10), hundredths)
    } else {
        seq![s[0]] + spec_adjust_tags(s.skip(1), hundredths)
    }
}

/// A tag denoting time `T`, measured against audio sped up by a factor of
/// `hundredths / 100`, is reported to the user as the tag of
/// `round(T * hundredths / 100)`: rewriting replaces the tag by its
/// adjusted rendering and leaves the rest of the text to the same rule.
pub proof fn lemma_tag_round_trip(s: Seq<char>, hundredths: int)
    requires
        spec_tag_at(s, 0),
    ensures
        spec_adjust_tags(s, hundredths) == seq!['['] + spec_timestamp(
            spec_adjusted_ms(spec_tag_ms(s, 0), hundredths),
        ) + seq![']'] + spec_adjust_tags(s.skip(10), hundredths),
{
}

fn check_digit(c: char) -> (r: bool)
    ensures
        r == is_digit(c),
{
    '0' <= c && c <= '9'
}

fn digit_value(c: char) -> (r: u64)
    requires
        is_digit(c),
    ensures
        r == spec_digit_value(c),
        r <= 9,
{
    (c as u32 - '0' as u32) as u64
}

fn check_tag_at(s: &Vec<char>, i: usize) -> (r: bool)
    requires
        i + 10 <= s@.len(),
    ensures
        r == spec_tag_at(s@, i as int),
{
    let n = s.len();
    proof {
        assert(i + 10 <= n);
    }
    s[i] == '[' && check_digit(s[i + 1]) && check_digit(s[i + 2]) && s[i + 3] == ':' && check_digit(
        s[i + 4],
    ) && check_digit(s[i + 5]) && s[i + 6] == ':' && check_digit(s[i + 7]) && check_digit(
        s[i + 8],
    ) && s[i + 9] == ']'
}

/// Rewrite every `[HH:MM:SS]` tag in a transcript to original-audio time:
/// each tag's value is re-parsed, scaled by the speed factor (given in
/// hundredths, at most 1000) and re-rendered; all other text is unchanged.
pub fn adjust_timestamps_in_text(text: &Vec<char>, speed_hundredths: u32) -> (r: String)
    requires
        speed_hundredths <= 1000,
    ensures
        r@ == spec_adjust_tags(text@, speed_hundredths as int),
{
    let n = text.len();
    let mut r = String::new();
    let mut i: usize = 0;
    proof {
        assert(text@.skip(0) =~= text@);
        assert(r@ + spec_adjust_tags(text@, speed_hundredths as int) =~= spec_adjust_tags(
            text@,
            speed_hundredths as int,
        ));
    }
    while i < n
        invariant
            i <= n,
            n == text@.len(),
            speed_hundredths <= 1000,
            r@ + spec_adjust_tags(text@.skip(i as int), speed_hundredths as int)
                == spec_adjust_tags(text@, speed_hundredths as int),
        decreases n - i,
    {
        let ghost pre = r@;
        let ghost rest = text@.skip(i as int);
        if n - i >= 10 && check_tag_at(text, i) {
            proof {
                assert(rest.len() == n - i);
                assert forall|k: int| 0 <= k < 10 implies rest[k] == text@[i + k] by {}
                assert(spec_tag_at(rest, 0));
                assert(spec_tag_ms(rest, 0) == spec_tag_ms(text@, i as int));
            }
            let h = digit_value(text[i + 1]) * 10 + digit_value(text[i + 2]);
            let m = digit_value(text[i + 4]) * 10 + digit_value(text[i + 5]);
            let sec = digit_value(text[i + 7]) * 10 + digit_value(text[i + 8]);
            let ms = (h * 3600 + m * 60 + sec) * 1000;
            let adjusted = adjust_timestamp_for_speed(ms, speed_hundredths);
            r.push('[');
            let tag = format_timestamp_ms(adjusted);
            r.append(tag.as_str());
            r.push(']');
            i += 10;
            proof {
                assert(rest.skip(10) =~= text@.skip(i as int));
                assert(r@ =~= pre + (seq!['['] + spec_timestamp(
                    spec_adjusted_ms(spec_tag_ms(rest, 0), speed_hundredths as int),
                ) + seq![']']));
                assert(spec_adjust_tags(rest, speed_hundredths as int) == seq!['[']
                    + spec_timestamp(
                    spec_adjusted_ms(spec_tag_ms(rest, 0), speed_hundredths as int),
                ) + seq![']'] + spec_adjust_tags(text@.skip(i as int), speed_hundredths as int));
                assert(r@ + spec_adjust_tags(text@.skip(i as int), speed_hundredths as int)
                    =~= spec_adjust_tags(text@, speed_hundredths as int));
            }
        } else {
            proof {
                assert(rest.len() > 0);
                assert(rest[0] == text@[i as int]);
                if n - i >= 10 {
                    assert(!spec_tag_at(rest, 0)) by {
                        assert(forall|k: int| 0 <= k < 10 ==> rest[k] == text@[i + k]);
                    }
                } else {
                    assert(rest.len() < 10);
                    assert(!spec_tag_at(rest, 0));
                }
            }
            r.push(text[i]);
            i += 1;
            proof {
                assert(rest.skip(1) =~= text@.skip(i as int));
                assert(r@ =~= pre + seq![rest[0]]);
                assert(r@ + spec_adjust_tags(text@.skip(i as int), speed_hundredths as int)
                    =~= spec_adjust_tags(text@, speed_hundredths as int));
            }
        }
    }
    proof {
        assert(text@.skip(n as int) =~= Seq::<char>::empty());
        assert(spec_adjust_tags(Seq::<char>::empty(), speed_hundredths as int)
            == Seq::<char>::empty());
        assert(r@ =~= spec_adjust_tags(text@, speed_hundredths as int));
    }
    r
}

} // verus!
