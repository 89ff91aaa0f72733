use audioink::config::{Language, WhisperModel};
use audioink::error::AudioInkError;
use audioink::history::{
    build_txt_filename, find_entry, insert_entry, remove_entries, HistoryManager,
};
use audioink::models::{
    format_bytes, format_size, get_model_path, parse_language, parse_model, parse_model_name,
    ModelInfo, ModelsStorageInfo,
};
use audioink::platform::{get_ffmpeg_install_instructions, get_ytdlp_install_instructions};
use audioink::transcription::{AudioInfo, SourceType, TranscriptionEntry};
use audioink::youtube::{
    download_output_template, downloaded_audio_path, is_retrieved_audio_ext, safe_title,
    YouTubeDownloadResult,
};

#[test]
fn test_model_metadata() {
    assert_eq!(WhisperModel::Base.filename(), "ggml-base.bin");
    assert_eq!(WhisperModel::LargeV3Turbo.filename(), "ggml-large-v3-turbo.bin");
    assert_eq!(
        WhisperModel::Tiny.download_url(),
        "https://huggingface.co/ggerganov/whisper.cpp/resolve/main/ggml-tiny.bin"
    );
    assert_eq!(WhisperModel::Medium.size_bytes(), 1_500_000_000);
    assert_eq!(WhisperModel::all().len(), 6);
    assert_eq!(Language::all().len(), 11);
}

#[test]
fn test_parse_model_names() {
    assert_eq!(parse_model_name("base"), Ok(WhisperModel::Base));
    assert_eq!(parse_model_name("BASE"), Ok(WhisperModel::Base));
    assert_eq!(parse_model_name("large-v3-turbo"), Ok(WhisperModel::LargeV3Turbo));
    assert_eq!(parse_model("tiny"), Ok(WhisperModel::Tiny));
    let err = parse_model_name("bogus");
    assert_eq!(err, Err("Modelo desconocido: bogus".to_string()));
}

#[test]
fn test_parse_language_names() {
    assert_eq!(parse_language("auto"), Language::Auto);
    assert_eq!(parse_language("ES"), Language::Spanish);
    assert_eq!(parse_language("japanese"), Language::Japanese);
    // Anything unknown falls back to auto-detection.
    assert_eq!(parse_language("klingon"), Language::Auto);
}

#[test]
fn test_format_sizes() {
    assert_eq!(format_size(2 * 1024 * 1024 * 1024), "2.0 GB");
    assert_eq!(format_size(5 * 1024 * 1024), "5 MB");
    assert_eq!(format_bytes(1536), "1.50 KB");
    assert_eq!(format_bytes(512), "512 bytes");
    assert_eq!(format_bytes(3 * 1024 * 1024 * 1024), "3.00 GB");
}

#[test]
fn test_model_path_and_info() {
    let p = get_model_path("/data/models", &WhisperModel::Base);
    assert_eq!(p, "/data/models/ggml-base.bin");

    let info = ModelInfo::from_model(&WhisperModel::Tiny, false);
    assert_eq!(info.name, "tiny");
    assert_eq!(info.size_bytes, 75_000_000);
    assert!(!info.downloaded);
}

#[test]
fn test_storage_info_formatting() {
    let storage = ModelsStorageInfo {
        models_dir: "/data/models".to_string(),
        total_size: 1536,
        model_sizes: vec![(WhisperModel::Tiny, 1536)],
    };
    assert_eq!(storage.total_size_formatted(), "1.50 KB");
}

#[test]
fn test_install_instructions_are_actionable() {
    assert!(get_ytdlp_install_instructions().contains("yt-dlp"));
    assert!(get_ytdlp_install_instructions().contains("install"));
    assert!(get_ffmpeg_install_instructions().contains("ffmpeg"));
    assert!(get_ffmpeg_install_instructions().contains("install"));
}

#[test]
fn test_error_messages() {
    assert_eq!(
        AudioInkError::Audio("sin pista".to_string()).message(),
        "Error de audio: sin pista"
    );
    assert_eq!(
        AudioInkError::ModelNotFound("tiny".to_string()).message(),
        "Modelo no encontrado: tiny"
    );
    assert_eq!(
        AudioInkError::UnsupportedFormat("xyz".to_string()).message(),
        "Formato de archivo no soportado: xyz"
    );
    assert_eq!(AudioInkError::Cancelled.message(), "Operacion cancelada");
    // A missing tool surfaces its remedy, not a bare "not found".
    assert_eq!(
        AudioInkError::ToolUnavailable("install it with: apt install ffmpeg".to_string()).message(),
        "install it with: apt install ffmpeg"
    );
    assert_eq!(
        AudioInkError::ToolFailed("exit code 1".to_string()).message(),
        "Herramienta externa fallo: exit code 1"
    );
    assert_eq!(
        AudioInkError::Internal("boom".to_string()).message(),
        "Error interno: boom"
    );
}

fn entry(id: &str, name: &str, text: &str) -> TranscriptionEntry {
    TranscriptionEntry::new(
        name.to_string(),
        SourceType::Whisper,
        text.to_string(),
        None,
        100,
        Some("en".to_string()),
        id.to_string(),
        1_700_000_000_000,
    )
}

#[test]
fn test_entry_counts_words_and_chars() {
    let e = entry("id1", "song", "hello  brave new\nworld");
    assert_eq!(e.word_count, 4);
    assert_eq!(e.char_count, "hello  brave new\nworld".chars().count());
    assert_eq!(e.source_type.as_str(), "whisper");
}

#[test]
fn test_history_insert_caps_at_fifty() {
    let mut history: Vec<TranscriptionEntry> = Vec::new();
    for i in 0..55 {
        insert_entry(&mut history, entry(&format!("id{}", i), "n", "t"));
    }
    assert_eq!(history.len(), 50);
    // Newest first.
    assert_eq!(history[0].id, "id54");
    assert_eq!(history[49].id, "id5");
}

#[test]
fn test_history_find_and_remove() {
    let mut history = vec![entry("a", "n", "t"), entry("b", "n", "t"), entry("c", "n", "t")];
    assert_eq!(find_entry(&history, "b"), Some(1));
    assert_eq!(find_entry(&history, "zz"), None);

    let removed = remove_entries(&mut history, "b");
    assert!(removed);
    assert_eq!(history.len(), 2);
    assert_eq!(history[0].id, "a");
    assert_eq!(history[1].id, "c");

    let removed_again = remove_entries(&mut history, "b");
    assert!(!removed_again);
}

#[test]
fn test_history_paths_and_txt_filename() {
    let hm = HistoryManager::new("/data/audioink");
    assert_eq!(hm.history_file().as_str(), "/data/audioink/history.json");
    assert_eq!(hm.transcriptions_dir().as_str(), "/data/audioink/transcriptions");

    let f = build_txt_filename("20240101_010101", "My Song: Live! (remix)");
    assert_eq!(f, "20240101_010101_My_Song_Live_remix.txt");
}

#[test]
fn test_youtube_naming() {
    assert_eq!(safe_title("My Video: Part 2!"), "My Video_ Part 2_");
    assert_eq!(safe_title("  ??!  "), "___");
    assert_eq!(safe_title(""), "audio");
    assert_eq!(
        download_output_template("/tmp/dl", "clip"),
        "/tmp/dl/clip.%(ext)s"
    );
    assert_eq!(downloaded_audio_path("/tmp/dl", "clip"), "/tmp/dl/clip.wav");
    assert!(is_retrieved_audio_ext("wav"));
    assert!(is_retrieved_audio_ext("opus"));
    assert!(!is_retrieved_audio_ext("txt"));
    let r = YouTubeDownloadResult { audio_path: "/a.wav".to_string(), title: "t".to_string() };
    assert_eq!(r.audio_path, "/a.wav");
}

#[test]
fn test_audio_info() {
    let info = AudioInfo::new(61_000, 2, 44_100);
    assert_eq!(info.duration_str, "1:01");
    assert_eq!(info.channels, 2);

    let mut corrected = info.clone();
    corrected.apply_speed_correction(150);
    assert_eq!(corrected.duration_ms, 91_500);
    assert_eq!(corrected.duration_str, "1:31");
}
