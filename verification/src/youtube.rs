//! Naming rules around the remote media retrieval tool: how a video title
//! becomes a safe download file name, and which files count as the
//! retrieved audio. Running the tool is the host shell's work.

use vstd::prelude::*;
use vstd::string::StringExecFns;
use crate::history::spec_is_alphanumeric;
use crate::strutil::{chars_of, string_of, trim, spec_trim};

verus! {

/// What retrieving remote audio yields: where the audio file landed and the
/// title the tool reported.
#[derive(Debug, Clone)]
pub struct YouTubeDownloadResult {
    /// Path of the retrieved audio file.
    pub audio_path: String,
    /// Title of the source video.
    pub title: String,
}

/// A title character kept in a file name; everything else becomes an
/// underscore.
pub open spec fn spec_title_char(c: char) -> char {
    if spec_is_alphanumeric(c) || c == ' ' || c == '-' {
        c
    } else {
        '_'
    }
}

/// The file-name-safe form of a video title: letters, digits, spaces and
/// hyphens kept, everything else an underscore, the whole trimmed; an empty
/// result falls back to `audio`.
pub open spec fn spec_safe_title(title: Seq<char>) -> Seq<char> {
    let mapped = Seq::new(title.len(), |i: int| spec_title_char(title[i]));
    let t = spec_trim(mapped);
    if t.len() == 0 {
        "audio"@
    } else {
        t
    }
}

/// Reduce a video title to a file-name-safe form.
pub fn safe_title(title: &str) -> (r: String)
    ensures
        r@ == spec_safe_title(title@),
{
    let chars = chars_of(title);
    let mut mapped: Vec<char> = Vec::new();
    let mut i: usize = 0;
    while i < chars.len()
        invariant
            i <= chars@.len(),
            chars@ == title@,
            mapped@ =~= Seq::new(title@.len(), |k: int| spec_title_char(title@[k])).subrange(
                0,
                i as int,
            ),
        decreases chars@.len() - i,
    {
        let c = chars[i];
        if c.is_alphanumeric() || c == ' ' || c == '-' {
            mapped.push(c);
        } else {
            mapped.push('_');
        }
        proof {
            assert(mapped@ =~= Seq::new(title@.len(), |k: int| spec_title_char(title@[k])).subrange(
                0,
                i + 1,
            ));
        }
        i += 1;
    }
    proof {
        assert(mapped@ =~= Seq::new(title@.len(), |k: int| spec_title_char(title@[k])));
    }
    let t = trim(&mapped);
    if t.len() == 0 {
        String::from_str("audio")
    } else {
        string_of(&t)
    }
}

/// The output template handed to the retrieval tool: the safe title under
/// the download directory, the extension left to the tool.
pub fn download_output_template(download_dir: &str, safe: &str) -> (r: String)
    ensures
        r@ == download_dir@ + "/"@ + safe@ + ".%(ext)s"@,
{
    String::from_str(download_dir).concat("/").concat(safe).concat(".%(ext)s")
}

/// The path the retrieved audio is expected at.
pub fn downloaded_audio_path(download_dir: &str, safe: &str) -> (r: String)
    ensures
        r@ == download_dir@ + "/"@ + safe@ + ".wav"@,
{
    String::from_str(download_dir).concat("/").concat(safe).concat(".wav")
}

/// An extension the retrieval tool may leave audio under, when the expected
/// file is absent and the download directory is scanned instead.
pub open spec fn spec_is_retrieved_audio_ext(s: Seq<char>) -> bool {
    s == "wav"@ || s == "m4a"@ || s == "mp3"@ || s == "webm"@ || s == "opus"@
}

/// Whether a file extension names a format the retrieval tool leaves audio
/// under.
pub fn is_retrieved_audio_ext(extension: &str) -> (r: bool)
    ensures
        r == spec_is_retrieved_audio_ext(extension@),
{
    let ext = chars_of(extension);
    eq_chars(&ext, &chars_of("wav")) || eq_chars(&ext, &chars_of("m4a")) || eq_chars(
        &ext,
        &chars_of("mp3"),
    ) || eq_chars(&ext, &chars_of("webm")) || eq_chars(&ext, &chars_of("opus"))
}

fn eq_chars(a: &Vec<char>, b: &Vec<char>) -> (r: bool)
    ensures
        r == (a@ == b@),
{
    if a.len() != b.len() {
        proof {
            assert(a@.len() != b@.len());
        }
        return false;
    }
    let mut i: usize = 0;
    while i < a.len()
        invariant
            i <= a@.len(),
            a@.len() == b@.len(),
            forall|k: int| 0 <= k < i ==> a@[k] == b@[k],
        decreases a@.len() - i,
    {
        if a[i] != b[i] {
            return false;
        }
        i += 1;
    }
    proof {
        assert(a@ =~= b@);
    }
    true
}

} // verus!
