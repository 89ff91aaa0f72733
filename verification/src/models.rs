//! Model bookkeeping: paths, sizes, and the parsing of user-supplied model
//! and language names.

use vstd::prelude::*;
use vstd::string::StringExecFns;
use crate::config::{WhisperModel, Language};
use crate::strutil::{spec_lower_seq, lower_seq, chars_of};
use crate::timestamps::{spec_digits, spec_two_digits, push_digits, push_two_digits, spec_digit};

verus! {

/// One model as shown to the user: identity, size and whether its artifact
/// is on disk. Whether it is downloaded only the host shell can see, so the
/// flag is an argument.
#[derive(Debug, Clone)]
pub struct ModelInfo {
    /// The model's short name.
    pub name: String,
    /// One-line description of the model's tradeoff.
    pub description: String,
    /// Approximate artifact size in bytes.
    pub size_bytes: u64,
    /// The size rendered for display.
    pub size_formatted: String,
    /// Whether the artifact is on disk.
    pub downloaded: bool,
}

impl ModelInfo {
    /// Describe one model.
    pub fn from_model(model: &WhisperModel, downloaded: bool) -> (r: ModelInfo)
        ensures
            r.name@ == model.spec_name(),
            r.description@ == model.spec_description(),
            r.size_bytes == model.spec_size_bytes(),
            r.size_formatted@ == spec_format_size(model.spec_size_bytes() as int),
            r.downloaded == downloaded,
    {
        let size = model.size_bytes();
        ModelInfo {
            name: String::from_str(model.name()),
            description: String::from_str(model.description()),
            size_bytes: size,
            size_formatted: format_size(size),
            downloaded,
        }
    }
}

/// A size rendered coarsely: whole gigabytes with one decimal place when at
/// least one gigabyte, whole megabytes otherwise. Halves round up.
pub open spec fn spec_format_size(bytes: int) -> Seq<char> {
    let gb = 0x4000_0000int;
    let mb = 0x10_0000int;
    if bytes >= gb {
        let tenths = (bytes * 10 + gb / 2) / gb;
        spec_digits(tenths / 10) + seq!['.', spec_digit(tenths % 10)] + " GB"@
    } else {
        let whole = (bytes + mb / 2) / mb;
        spec_digits(whole) + " MB"@
    }
}

/// Render a size as `X.Y GB` or `X MB`.
pub fn format_size(bytes: u64) -> (r: String)
    ensures
        r@ == spec_format_size(bytes as int),
{
    let gb: u64 = 0x4000_0000;
    let mb: u64 = 0x10_0000;
    let mut r = String::new();
    if bytes >= gb {
        let tenths_wide: u128 = ((bytes as u128) * 10 + 0x2000_0000) / 0x4000_0000;
        proof {
            vstd::arithmetic::div_mod::lemma_div_is_ordered(
                (bytes as int) * 10 + 0x2000_0000,
                0xFFFF_FFFF_FFFF_FFFFint * 10 + 0x2000_0000,
                0x4000_0000,
            );
        }
        let tenths: u64 = tenths_wide as u64;
        push_digits(&mut r, tenths / 10);
        r.push('.');
        push_digits(&mut r, tenths % 10);
        r.append(" GB");
        proof {
            assert(spec_digits((tenths % 10) as int) =~= seq![spec_digit((tenths % 10) as int)]);
            assert(r@ =~= spec_format_size(bytes as int));
        }
    } else {
        let whole = (bytes + mb / 2) / mb;
        push_digits(&mut r, whole);
        r.append(" MB");
        proof {
            assert(r@ =~= spec_format_size(bytes as int));
        }
    }
    r
}

/// A size rendered finely: the largest fitting unit of gigabytes, megabytes
/// or kilobytes with two decimal places, bare bytes below one kilobyte.
/// Halves round up.
pub open spec fn spec_format_bytes(bytes: int) -> Seq<char> {
    let kb = 1024int;
    let mb = 0x10_0000int;
    let gb = 0x4000_0000int;
    if bytes >= gb {
        let cents = (bytes * 100 + gb / 2) / gb;
        spec_digits(cents / 100) + seq!['.'] + spec_two_digits(cents % 100) + " GB"@
    } else if bytes >= mb {
        let cents = (bytes * 100 + mb / 2) / mb;
        spec_digits(cents / 100) + seq!['.'] + spec_two_digits(cents % 100) + " MB"@
    } else if bytes >= kb {
        let cents = (bytes * 100 + kb / 2) / kb;
        spec_digits(cents / 100) + seq!['.'] + spec_two_digits(cents % 100) + " KB"@
    } else {
        spec_digits(bytes) + " bytes"@
    }
}

/// Render a size as `X.YZ GB`, `X.YZ MB`, `X.YZ KB` or `X bytes`.
pub fn format_bytes(bytes: u64) -> (r: String)
    ensures
        r@ == spec_format_bytes(bytes as int),
{
    let kb: u64 = 1024;
    let mb: u64 = 0x10_0000;
    let gb: u64 = 0x4000_0000;
    let mut r = String::new();
    if bytes >= gb {
        let cents_wide: u128 = ((bytes as u128) * 100 + 0x2000_0000) / 0x4000_0000;
        proof {
            vstd::arithmetic::div_mod::lemma_div_is_ordered(
                (bytes as int) * 100 + 0x2000_0000,
                0xFFFF_FFFF_FFFF_FFFFint * 100 + 0x2000_0000,
                0x4000_0000,
            );
        }
        let cents: u64 = cents_wide as u64;
        push_digits(&mut r, cents / 100);
        r.push('.');
        push_two_digits(&mut r, cents % 100);
        r.append(" GB");
        proof {
            assert(r@ =~= spec_format_bytes(bytes as int));
        }
    } else if bytes >= mb {
        let cents = (bytes * 100 + mb / 2) / mb;
        push_digits(&mut r, cents / 100);
        r.push('.');
        push_two_digits(&mut r, cents % 100);
        r.append(" MB");
        proof {
            assert(r@ =~= spec_format_bytes(bytes as int));
        }
    } else if bytes >= kb {
        let cents = (bytes * 100 + kb / 2) / kb;
        push_digits(&mut r, cents / 100);
        r.push('.');
        push_two_digits(&mut r, cents % 100);
        r.append(" KB");
        proof {
            assert(r@ =~= spec_format_bytes(bytes as int));
        }
    } else {
        push_digits(&mut r, bytes);
        r.append(" bytes");
        proof {
            assert(r@ =~= spec_format_bytes(bytes as int));
        }
    }
    r
}

/// Where the models live and how much space they take.
#[derive(Debug, Clone)]
pub struct ModelsStorageInfo {
    /// The directory holding the model artifacts.
    pub models_dir: String,
    /// Total size of the artifacts on disk, in bytes.
    pub total_size: u64,
    /// Each downloaded model with its size on disk.
    pub model_sizes: Vec<(WhisperModel, u64)>,
}

impl ModelsStorageInfo {
    /// The total size rendered for display.
    pub fn total_size_formatted(&self) -> (r: String)
        ensures
            r@ == spec_format_bytes(self.total_size as int),
    {
        format_bytes(self.total_size)
    }
}

/// The full path of a model artifact inside the models directory.
pub fn get_model_path(models_dir: &str, model: &WhisperModel) -> (r: String)
    ensures
        r@ == models_dir@ + "/"@ + model.spec_filename(),
{
    String::from_str(models_dir).concat("/").concat(model.filename())
}

fn eq_lowered(s: &Vec<char>, lit: &str) -> (r: bool)
    ensures
        r == (spec_lower_seq(s@) == lit@),
{
    let low = lower_seq(s);
    let pat = chars_of(lit);
    if low.len() != pat.len() {
        proof {
            assert(spec_lower_seq(s@).len() != lit@.len());
        }
        return false;
    }
    let mut i: usize = 0;
    while i < low.len()
        invariant
            i <= low@.len(),
            low@ == spec_lower_seq(s@),
            pat@ == lit@,
            low@.len() == pat@.len(),
            forall|k: int| 0 <= k < i ==> low@[k] == pat@[k],
        decreases low@.len() - i,
    {
        if low[i] != pat[i] {
            return false;
        }
        i += 1;
    }
    proof {
        assert(low@ =~= pat@);
    }
    true
}

/// The model a user-supplied name denotes, ignoring ASCII case.
pub open spec fn spec_parse_model(s: Seq<char>) -> Option<WhisperModel> {
    let low = spec_lower_seq(s);
    if low == "tiny"@ {
        Some(WhisperModel::Tiny)
    } else if low == "base"@ {
        Some(WhisperModel::Base)
    } else if low == "small"@ {
        Some(WhisperModel::Small)
    } else if low == "medium"@ {
        Some(WhisperModel::Medium)
    } else if low == "large"@ {
        Some(WhisperModel::Large)
    } else if low == "large-v3-turbo"@ {
        Some(WhisperModel::LargeV3Turbo)
    } else {
        None
    }
}

/// Parse a model name; an unknown name is an error carrying the name.
pub fn parse_model_name(name: &str) -> (r: Result<WhisperModel, String>)
    ensures
        match spec_parse_model(name@) {
            Some(m) => r == Result::<WhisperModel, String>::Ok(m),
            None => r is Err && r->Err_0@ == "Modelo desconocido: "@ + name@,
        },
{
    let s = chars_of(name);
    if eq_lowered(&s, "tiny") {
        Ok(WhisperModel::Tiny)
    } else if eq_lowered(&s, "base") {
        Ok(WhisperModel::Base)
    } else if eq_lowered(&s, "small") {
        Ok(WhisperModel::Small)
    } else if eq_lowered(&s, "medium") {
        Ok(WhisperModel::Medium)
    } else if eq_lowered(&s, "large") {
        Ok(WhisperModel::Large)
    } else if eq_lowered(&s, "large-v3-turbo") {
        Ok(WhisperModel::LargeV3Turbo)
    } else {
        Err(String::from_str("Modelo desconocido: ").concat(name))
    }
}

/// Parse a model name; the same rule as `parse_model_name`.
pub fn parse_model(name: &str) -> (r: Result<WhisperModel, String>)
    ensures
        match spec_parse_model(name@) {
            Some(m) => r == Result::<WhisperModel, String>::Ok(m),
            None => r is Err && r->Err_0@ == "Modelo desconocido: "@ + name@,
        },
{
    parse_model_name(name)
}

/// The language a user-supplied name denotes, by code or by name, ignoring
/// ASCII case; anything unknown means auto-detection.
pub open spec fn spec_parse_language(s: Seq<char>) -> Language {
    let low = spec_lower_seq(s);
    if low == "auto"@ {
        Language::Auto
    } else if low == "en"@ || low == "english"@ {
        Language::English
    } else if low == "es"@ || low == "spanish"@ {
        Language::Spanish
    } else if low == "fr"@ || low == "french"@ {
        Language::French
    } else if low == "de"@ || low == "german"@ || low == "deutsch"@ {
        Language::German
    } else if low == "it"@ || low == "italian"@ || low == "italiano"@ {
        Language::Italian
    } else if low == "pt"@ || low == "portuguese"@ {
        Language::Portuguese
    } else if low == "ja"@ || low == "japanese"@ {
        Language::Japanese
    } else if low == "zh"@ || low == "chinese"@ {
        Language::Chinese
    } else if low == "ko"@ || low == "korean"@ {
        Language::Korean
    } else if low == "ru"@ || low == "russian"@ {
        Language::Russian
    } else {
        Language::Auto
    }
}

/// Parse a language name or code; unknown names fall back to auto-detection.
pub fn parse_language(name: &str) -> (r: Language)
    ensures
        r == spec_parse_language(name@),
{
    let s = chars_of(name);
    if eq_lowered(&s, "auto") {
        Language::Auto
    } else if eq_lowered(&s, "en") || eq_lowered(&s, "english") {
        Language::English
    } else if eq_lowered(&s, "es") || eq_lowered(&s, "spanish") {
        Language::Spanish
    } else if eq_lowered(&s, "fr") || eq_lowered(&s, "french") {
        Language::French
    } else if eq_lowered(&s, "de") || eq_lowered(&s, "german") || eq_lowered(&s, "deutsch") {
        Language::German
    } else if eq_lowered(&s, "it") || eq_lowered(&s, "italian") || eq_lowered(&s, "italiano") {
        Language::Italian
    } else if eq_lowered(&s, "pt") || eq_lowered(&s, "portuguese") {
        Language::Portuguese
    } else if eq_lowered(&s, "ja") || eq_lowered(&s, "japanese") {
        Language::Japanese
    } else if eq_lowered(&s, "zh") || eq_lowered(&s, "chinese") {
        Language::Chinese
    } else if eq_lowered(&s, "ko") || eq_lowered(&s, "korean") {
        Language::Korean
    } else if eq_lowered(&s, "ru") || eq_lowered(&s, "russian") {
        Language::Russian
    } else {
        Language::Auto
    }
}

} // verus!
