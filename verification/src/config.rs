//! Model identities and transcription languages.

use vstd::prelude::*;
use vstd::string::StringExecFns;

verus! {

/// The acoustic models the engine can load, compared by value: the cache
/// hit/miss decision is driven by this identity.
#[derive(Clone, Copy, Debug, PartialEq, Eq, Structural)]
pub enum WhisperModel {
    Tiny,
    Base,
    Small,
    Medium,
    Large,
    LargeV3Turbo,
}

impl WhisperModel {
    /// File name of the model artifact on disk.
    pub fn filename(&self) -> (r: &'static str)
        ensures
            r@ == self.spec_filename(),
    {
        match self {
            WhisperModel::Tiny => "ggml-tiny.bin",
            WhisperModel::Base => "ggml-base.bin",
            WhisperModel::Small => "ggml-small.bin",
            WhisperModel::Medium => "ggml-medium.bin",
            WhisperModel::Large => "ggml-large.bin",
            WhisperModel::LargeV3Turbo => "ggml-large-v3-turbo.bin",
        }
    }

    pub open spec fn spec_filename(&self) -> Seq<char> {
        match self {
            WhisperModel::Tiny => "ggml-tiny.bin"@,
            WhisperModel::Base => "ggml-base.bin"@,
            WhisperModel::Small => "ggml-small.bin"@,
            WhisperModel::Medium => "ggml-medium.bin"@,
            WhisperModel::Large => "ggml-large.bin"@,
            WhisperModel::LargeV3Turbo => "ggml-large-v3-turbo.bin"@,
        }
    }

    /// Short name of the model, as callers spell it.
    pub fn name(&self) -> (r: &'static str)
        ensures
            r@ == self.spec_name(),
    {
        match self {
            WhisperModel::Tiny => "tiny",
            WhisperModel::Base => "base",
            WhisperModel::Small => "small",
            WhisperModel::Medium => "medium",
            WhisperModel::Large => "large",
            WhisperModel::LargeV3Turbo => "large-v3-turbo",
        }
    }

    pub open spec fn spec_name(&self) -> Seq<char> {
        match self {
            WhisperModel::Tiny => "tiny"@,
            WhisperModel::Base => "base"@,
            WhisperModel::Small => "small"@,
            WhisperModel::Medium => "medium"@,
            WhisperModel::Large => "large"@,
            WhisperModel::LargeV3Turbo => "large-v3-turbo"@,
        }
    }

    /// Where the model artifact can be fetched from.
    pub fn download_url(&self) -> (r: String)
        ensures
            r@ == "https://huggingface.co/ggerganov/whisper.cpp/resolve/main/"@
                + self.spec_filename(),
    {
        let base = String::from_str("https://huggingface.co/ggerganov/whisper.cpp/resolve/main/");
        base.concat(self.filename())
    }

    /// Approximate size of the model artifact, in bytes.
    pub fn size_bytes(&self) -> (r: u64)
        ensures
            r == self.spec_size_bytes(),
    {
        match self {
            WhisperModel::Tiny => 75_000_000,
            WhisperModel::Base => 142_000_000,
            WhisperModel::Small => 466_000_000,
            WhisperModel::Medium => 1_500_000_000,
            WhisperModel::Large => 2_900_000_000,
            WhisperModel::LargeV3Turbo => 809_000_000,
        }
    }

    pub open spec fn spec_size_bytes(&self) -> u64 {
        match self {
            WhisperModel::Tiny => 75_000_000u64,
            WhisperModel::Base => 142_000_000u64,
            WhisperModel::Small => 466_000_000u64,
            WhisperModel::Medium => 1_500_000_000u64,
            WhisperModel::Large => 2_900_000_000u64,
            WhisperModel::LargeV3Turbo => 809_000_000u64,
        }
    }

    /// One-line description of the model's speed/quality tradeoff.
    pub fn description(&self) -> (r: &'static str)
        ensures
            r@ == self.spec_description(),
    {
        match self {
            WhisperModel::Tiny => "Ultra rapido, menor calidad",
            WhisperModel::Base => "Balance entre velocidad y calidad",
            WhisperModel::Small => "Buena calidad, velocidad moderada",
            WhisperModel::Medium => "Alta calidad, mas lento",
            WhisperModel::Large => "Mejor calidad, el mas lento",
            WhisperModel::LargeV3Turbo => "Excelente calidad, mas rapido que large",
        }
    }

    pub open spec fn spec_description(&self) -> Seq<char> {
        match self {
            WhisperModel::Tiny => "Ultra rapido, menor calidad"@,
            WhisperModel::Base => "Balance entre velocidad y calidad"@,
            WhisperModel::Small => "Buena calidad, velocidad moderada"@,
            WhisperModel::Medium => "Alta calidad, mas lento"@,
            WhisperModel::Large => "Mejor calidad, el mas lento"@,
            WhisperModel::LargeV3Turbo => "Excelente calidad, mas rapido que large"@,
        }
    }

    /// Every model, in the order they are offered.
    pub fn all() -> (r: Vec<WhisperModel>)
        ensures
            r@ =~= seq![
                WhisperModel::Tiny,
                WhisperModel::Base,
                WhisperModel::Small,
                WhisperModel::Medium,
                WhisperModel::Large,
                WhisperModel::LargeV3Turbo,
            ],
    {
        let mut v: Vec<WhisperModel> = Vec::new();
        v.push(WhisperModel::Tiny);
        v.push(WhisperModel::Base);
        v.push(WhisperModel::Small);
        v.push(WhisperModel::Medium);
        v.push(WhisperModel::Large);
        v.push(WhisperModel::LargeV3Turbo);
        v
    }
}

/// Languages a transcription can be constrained to; `Auto` lets the engine
/// detect the language on its own.
#[derive(Clone, Copy, Debug, PartialEq, Eq, Structural)]
pub enum Language {
    Auto,
    English,
    Spanish,
    French,
    German,
    Italian,
    Portuguese,
    Japanese,
    Chinese,
    Korean,
    Russian,
}

impl Language {
    /// ISO code handed to the engine; `None` requests auto-detection.
    pub fn code(&self) -> (r: Option<&'static str>)
        ensures
            r is Some <==> *self != Language::Auto,
            r is Some ==> r->0@ == self.spec_code(),
    {
        match self {
            Language::Auto => None,
            Language::English => Some("en"),
            Language::Spanish => Some("es"),
            Language::French => Some("fr"),
            Language::German => Some("de"),
            Language::Italian => Some("it"),
            Language::Portuguese => Some("pt"),
            Language::Japanese => Some("ja"),
            Language::Chinese => Some("zh"),
            Language::Korean => Some("ko"),
            Language::Russian => Some("ru"),
        }
    }

    pub open spec fn spec_code(&self) -> Seq<char> {
        match self {
            Language::Auto => Seq::<char>::empty(),
            Language::English => "en"@,
            Language::Spanish => "es"@,
            Language::French => "fr"@,
            Language::German => "de"@,
            Language::Italian => "it"@,
            Language::Portuguese => "pt"@,
            Language::Japanese => "ja"@,
            Language::Chinese => "zh"@,
            Language::Korean => "ko"@,
            Language::Russian => "ru"@,
        }
    }

    /// Name shown to the user.
    pub fn display_name(&self) -> (r: &'static str)
        ensures
            r@ == self.spec_display_name(),
    {
        match self {
            Language::Auto => "Auto-detect",
            Language::English => "English",
            Language::Spanish => "Espanol",
            Language::French => "Francais",
            Language::German => "Deutsch",
            Language::Italian => "Italiano",
            Language::Portuguese => "Portugues",
            Language::Japanese => "Japanese",
            Language::Chinese => "Chinese",
            Language::Korean => "Korean",
            Language::Russian => "Russian",
        }
    }

    pub open spec fn spec_display_name(&self) -> Seq<char> {
        match self {
            Language::Auto => "Auto-detect"@,
            Language::English => "English"@,
            Language::Spanish => "Espanol"@,
            Language::French => "Francais"@,
            Language::German => "Deutsch"@,
            Language::Italian => "Italiano"@,
            Language::Portuguese => "Portugues"@,
            Language::Japanese => "Japanese"@,
            Language::Chinese => "Chinese"@,
            Language::Korean => "Korean"@,
            Language::Russian => "Russian"@,
        }
    }

    /// Every language, in the order they are offered.
    pub fn all() -> (r: Vec<Language>)
        ensures
            r@ =~= seq![
                Language::Auto,
                Language::English,
                Language::Spanish,
                Language::French,
                Language::German,
                Language::Italian,
                Language::Portuguese,
                Language::Japanese,
                Language::Chinese,
                Language::Korean,
                Language::Russian,
            ],
    {
        let mut v: Vec<Language> = Vec::new();
        v.push(Language::Auto);
        v.push(Language::English);
        v.push(Language::Spanish);
        v.push(Language::French);
        v.push(Language::German);
        v.push(Language::Italian);
        v.push(Language::Portuguese);
        v.push(Language::Japanese);
        v.push(Language::Chinese);
        v.push(Language::Korean);
        v.push(Language::Russian);
        v
    }
}

} // verus!
