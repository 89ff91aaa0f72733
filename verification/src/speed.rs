//! Speed preprocessing decisions.
//!
//! Audio may be time-compressed before transcription by a bounded factor.
//! The decision — reject, pass the input through untouched, or run the
//! external tempo tool with a given filter argument — is computed here; the
//! host shell only executes it. Speed factors are given in hundredths, so a
//! factor of 1.5 is 150.
//!
//! Temporary files carry a recognisable name tag, and cleanup only ever
//! touches paths holding that tag, so no unrelated file can be deleted.

use vstd::prelude::*;
use vstd::string::StringExecFns;
use crate::error::AudioInkError;
use crate::strutil::{contains_seq, contains_sub, chars_of, spec_lower_seq, lower_seq, matches_at};
use crate::timestamps::{spec_digits, push_digits, spec_digit};
use crate::audio::spec_is_video_ext;

verus! {

/// Smallest accepted speed factor, in hundredths.
pub const MIN_SPEED_HUNDREDTHS: u32 = 50;

/// Largest accepted speed factor, in hundredths.
pub const MAX_SPEED_HUNDREDTHS: u32 = 200;

/// What the host shell must do for a requested speed factor.
pub enum SpeedPlan {
    /// The factor is within a hundredth of one: the input passes through
    /// unchanged, no tool runs.
    PassThrough,
    /// Run the tempo tool with this filter argument against a fresh
    /// temporary output file.
    Run { atempo_arg: String },
}

/// The tempo filter argument for a factor given in hundredths: `atempo=`
/// followed by the factor with trailing fractional zeros dropped, as in
/// `atempo=1.5`, `atempo=1.25` or `atempo=2`.
pub open spec fn spec_atempo_arg(hundredths: int) -> Seq<char> {
    let whole = "atempo="@ + spec_digits(hundredths / 100);
    if hundredths % 100 == 0 {
        whole
    } else if hundredths % 10 == 0 {
        whole + seq!['.', spec_digit((hundredths / 10) % 10)]
    } else {
        whole + seq!['.', spec_digit((hundredths / 10) % 10), spec_digit(hundredths % 10)]
    }
}

/// Decide what a requested speed factor means. Factors outside
/// `[0.50, 2.00]` are rejected before any external tool could run; a factor
/// of exactly one passes the audio through; anything else runs the tempo
/// tool.
pub fn plan_speedup(speed_hundredths: u32) -> (r: Result<SpeedPlan, AudioInkError>)
    ensures
        r is Err <==> (speed_hundredths < MIN_SPEED_HUNDREDTHS || speed_hundredths
            > MAX_SPEED_HUNDREDTHS),
        r matches Err(e) ==> (e matches AudioInkError::Internal(m) && m@
            == "Speed must be between 0.5 and 2.0"@),
        r is Ok ==> ((r->Ok_0 is PassThrough) <==> speed_hundredths == 100),
        r is Ok && speed_hundredths != 100 ==> (r->Ok_0 matches SpeedPlan::Run { atempo_arg }
            && atempo_arg@ == spec_atempo_arg(speed_hundredths as int)),
{
    if speed_hundredths < MIN_SPEED_HUNDREDTHS || speed_hundredths > MAX_SPEED_HUNDREDTHS {
        return Err(
            AudioInkError::Internal(
                String::from_str("Speed must be between 0.5 and 2.0"),
            ),
        );
    }
    if speed_hundredths == 100 {
        return Ok(SpeedPlan::PassThrough);
    }
    let mut arg = String::from_str("atempo=");
    push_digits(&mut arg, (speed_hundredths / 100) as u64);
    if speed_hundredths % 100 != 0 {
        arg.push('.');
        arg.push(digit_of(speed_hundredths / 10 % 10));
        if speed_hundredths % 10 != 0 {
            arg.push(digit_of(speed_hundredths % 10));
        }
    }
    proof {
        assert(arg@ =~= spec_atempo_arg(speed_hundredths as int));
    }
    Ok(SpeedPlan::Run { atempo_arg: arg })
}

fn digit_of(n: u32) -> (r: char)
    requires
        n < 10,
    ensures
        r == spec_digit(n as int),
{
    match n {
        0 => '0',
        1 => '1',
        2 => '2',
        3 => '3',
        4 => '4',
        5 => '5',
        6 => '6',
        7 => '7',
        8 => '8',
        _ => '9',
    }
}

/// The name tag every speed-adjusted temporary file carries.
pub open spec fn spec_speedup_tag() -> Seq<char> {
    "audioink_speedup_"@
}

/// The name tag every extracted-audio temporary file carries.
pub open spec fn spec_extracted_tag() -> Seq<char> {
    "audioink_extracted_"@
}

/// The file name for a speed-adjusted temporary output, unique per
/// invocation through the caller-supplied stamp.
pub fn speedup_temp_filename(stamp: &str) -> (r: String)
    ensures
        r@ == spec_speedup_tag() + stamp@ + ".wav"@,
        contains_seq(r@, spec_speedup_tag()),
{
    let r = String::from_str("audioink_speedup_").concat(stamp).concat(".wav");
    proof {
        assert(r@.subrange(0, spec_speedup_tag().len() as int) =~= spec_speedup_tag());
        assert(matches_at(r@, spec_speedup_tag(), 0));
    }
    r
}

/// The file name for an extracted-audio temporary output, unique per
/// invocation through the caller-supplied stamp.
pub fn extracted_temp_filename(stamp: &str) -> (r: String)
    ensures
        r@ == spec_extracted_tag() + stamp@ + ".wav"@,
        contains_seq(r@, spec_extracted_tag()),
{
    let r = String::from_str("audioink_extracted_").concat(stamp).concat(".wav");
    proof {
        assert(r@.subrange(0, spec_extracted_tag().len() as int) =~= spec_extracted_tag());
        assert(matches_at(r@, spec_extracted_tag(), 0));
    }
    r
}

/// Whether a path names a speed-adjusted temporary file this component
/// created: cleanup may touch only such paths.
pub fn is_speedup_temp(path: &str) -> (r: bool)
    ensures
        r == contains_seq(path@, spec_speedup_tag()),
{
    contains_sub(&chars_of(path), &chars_of("audioink_speedup_"))
}

/// Whether a path names an extracted-audio temporary file this component
/// created: cleanup may touch only such paths.
pub fn is_extracted_temp(path: &str) -> (r: bool)
    ensures
        r == contains_seq(path@, spec_extracted_tag()),
{
    contains_sub(&chars_of(path), &chars_of("audioink_extracted_"))
}

/// The extension of a path: the characters after the last `.` of the part
/// after the last `/`, if that part has a `.` that is neither its first nor
/// its last character.
pub open spec fn spec_extension(path: Seq<char>) -> Option<Seq<char>> {
    if exists|i: int| 0 <= i < path.len() && (path[i] == '.' || path[i] == '/') {
        let i = choose|i: int|
            0 <= i < path.len() && (path[i] == '.' || path[i] == '/') && forall|k: int|
                i < k < path.len() ==> !(path[k] == '.' || path[k] == '/');
        if path[i] == '.' && i > 0 && path[i - 1] != '/' && i + 1 < path.len() {
            Some(path.subrange(i + 1, path.len() as int))
        } else {
            None
        }
    } else {
        None
    }
}

/// The extension of a path, by the rule of `spec_extension`.
pub fn path_extension(path: &Vec<char>) -> (r: Option<Vec<char>>)
    ensures
        match r {
            Some(e) => spec_extension(path@) == Some(e@),
            None => spec_extension(path@) is None,
        },
{
    let n = path.len();
    let mut j: usize = n;
    while j > 0
        invariant
            j <= n,
            n == path@.len(),
            forall|k: int| j <= k < n ==> !(path@[k] == '.' || path@[k] == '/'),
        decreases j,
    {
        if path[j - 1] == '.' || path[j - 1] == '/' {
            let i = j - 1;
            proof {
                assert(0 <= i < path@.len() && (path@[i as int] == '.' || path@[i as int] == '/'));
                let w = choose|w: int|
                    0 <= w < path@.len() && (path@[w] == '.' || path@[w] == '/') && forall|k: int|
                        w < k < path@.len() ==> !(path@[k] == '.' || path@[k] == '/');
                assert(w == i as int);
            }
            if path[i] == '.' && i > 0 && path[i - 1] != '/' && i + 1 < n {
                let mut e: Vec<char> = Vec::new();
                let mut k: usize = i + 1;
                while k < n
                    invariant
                        i + 1 <= k <= n,
                        n == path@.len(),
                        e@ =~= path@.subrange(i + 1, k as int),
                    decreases n - k,
                {
                    e.push(path[k]);
                    k += 1;
                }
                proof {
                    assert(e@ =~= path@.subrange(i + 1, path@.len() as int));
                }
                return Some(e);
            } else {
                return None;
            }
        }
        j -= 1;
    }
    proof {
        assert(forall|i: int|
            0 <= i < path@.len() ==> !(path@[i] == '.' || path@[i] == '/'));
    }
    None
}

/// Whether the path names a video container whose audio track must be
/// extracted before decoding: its extension, lowered to ASCII lower case, is
/// a video format.
pub fn is_video_format(path: &str) -> (r: bool)
    ensures
        r == match spec_extension(path@) {
            Some(e) => spec_is_video_ext(spec_lower_seq(e)),
            None => false,
        },
{
    let p = chars_of(path);
    match path_extension(&p) {
        Some(e) => {
            let low = lower_seq(&e);
            let a = chars_of("mp4");
            let b = chars_of("avi");
            let c = chars_of("mov");
            eq_vecs(&low, &a) || eq_vecs(&low, &b) || eq_vecs(&low, &c)
        },
        None => false,
    }
}

fn eq_vecs(a: &Vec<char>, b: &Vec<char>) -> (r: bool)
    ensures
        r == (a@ == b@),
{
    if a.len() != b.len() {
        proof {
            assert(a@.len() != b@.len());
        }
        return false;
    }
    let mut i: usize = 0;
    while i < a.len()
        invariant
            i <= a@.len(),
            a@.len() == b@.len(),
            forall|k: int| 0 <= k < i ==> a@[k] == b@[k],
        decreases a@.len() - i,
    {
        if a[i] != b[i] {
            return false;
        }
        i += 1;
    }
    proof {
        assert(a@ =~= b@);
    }
    true
}

/// A temporary file named by this component is recognised by its own
/// cleanup guard: creating and then testing can never miss the tag.
pub proof fn lemma_speedup_cleanup_finds_own_files(stamp: Seq<char>)
    ensures
        contains_seq(spec_speedup_tag() + stamp + ".wav"@, spec_speedup_tag()),
        contains_seq(spec_extracted_tag() + stamp + ".wav"@, spec_extracted_tag()),
{
    let s1 = spec_speedup_tag() + stamp + ".wav"@;
    assert(s1.subrange(0, spec_speedup_tag().len() as int) =~= spec_speedup_tag());
    assert(matches_at(s1, spec_speedup_tag(), 0));
    let s2 = spec_extracted_tag() + stamp + ".wav"@;
    assert(s2.subrange(0, spec_extracted_tag().len() as int) =~= spec_extracted_tag());
    assert(matches_at(s2, spec_extracted_tag(), 0));
}

} // verus!
