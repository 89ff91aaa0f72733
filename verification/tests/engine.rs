use audioink::config::{Language, WhisperModel};
use audioink::engine::{join_parts, render_segments, EngineCache, Segment, TranscribeSession};
use audioink::error::AudioInkError;
use std::cell::Cell;

#[test]
fn test_language_code() {
    assert_eq!(Language::Auto.code(), None);
    assert_eq!(Language::English.code(), Some("en"));
    assert_eq!(Language::Spanish.code(), Some("es"));
}

#[test]
fn test_cache_same_identity_loads_once() {
    let loads = Cell::new(0u32);
    let mut cache: EngineCache<String> = EngineCache::new();

    let r1 = cache.get_or_create(WhisperModel::Base, || {
        loads.set(loads.get() + 1);
        Ok("engine".to_string())
    });
    assert!(r1.is_ok());
    let r2 = cache.get_or_create(WhisperModel::Base, || {
        loads.set(loads.get() + 1);
        Ok("engine".to_string())
    });
    assert!(r2.is_ok());
    // Two requests for the same identity perform exactly one load.
    assert_eq!(loads.get(), 1);
    assert!(cache.is_cached(&WhisperModel::Base));
}

#[test]
fn test_cache_replaces_on_new_identity() {
    let loads = Cell::new(0u32);
    let mut cache: EngineCache<u8> = EngineCache::new();
    cache
        .get_or_create(WhisperModel::Tiny, || {
            loads.set(loads.get() + 1);
            Ok(1)
        })
        .unwrap();
    cache
        .get_or_create(WhisperModel::Large, || {
            loads.set(loads.get() + 1);
            Ok(2)
        })
        .unwrap();
    // Two different identities in sequence: two loads, one resident engine
    // matching the second identity.
    assert_eq!(loads.get(), 2);
    assert!(cache.is_cached(&WhisperModel::Large));
    assert!(!cache.is_cached(&WhisperModel::Tiny));
    assert_eq!(cache.engine(), Some(&2));
}

#[test]
fn test_cache_failed_load_leaves_cache_unchanged() {
    let mut cache: EngineCache<u8> = EngineCache::new();
    let r = cache.get_or_create(WhisperModel::Tiny, || {
        Err(AudioInkError::ModelNotFound("tiny".to_string()))
    });
    assert!(r.is_err());
    assert!(!cache.is_cached(&WhisperModel::Tiny));
    assert!(cache.engine().is_none());
}

#[test]
fn test_render_segments_with_timestamps() {
    let segments = vec![
        Segment { text: "  hello  ".to_string(), t0_centis: 100 },
        Segment { text: "world".to_string(), t0_centis: 6100 },
    ];
    // Offsets make a later chunk's tags continuous with prior chunks.
    let text = render_segments(&segments, true, 60_000);
    assert_eq!(text, "[00:01:01] hello\n[00:02:01] world");
}

#[test]
fn test_render_segments_plain_concatenation() {
    let segments = vec![
        Segment { text: "hello ".to_string(), t0_centis: 0 },
        Segment { text: "world".to_string(), t0_centis: 500 },
    ];
    let text = render_segments(&segments, false, 0);
    assert_eq!(text, "hello world");
}

#[test]
fn test_session_three_minute_buffer_three_chunks() {
    // A 3-minute mono 16 kHz buffer yields exactly 3 chunks whose time
    // offsets are 0, 60 and 120 seconds.
    let samples: Vec<u32> = vec![0u32; 180 * 16000];
    let mut session = TranscribeSession::new(samples, Language::Auto, false);
    assert_eq!(session.chunk_count(), 3);

    let mut offsets: Vec<u64> = Vec::new();
    while !session.all_chunks_done() {
        offsets.push(session.current_offset_ms());
        assert_eq!(session.current_chunk().len(), 960_000);
        session.record_chunk_segments(&vec![Segment {
            text: format!("chunk {}", session.next_chunk_index()),
            t0_centis: 0,
        }]);
    }
    assert_eq!(offsets, vec![0, 60_000, 120_000]);

    let result = session.assemble(None, 1234);
    assert_eq!(result.text, "chunk 0 chunk 1 chunk 2");
    assert_eq!(result.language.as_deref(), Some("unknown"));
    assert_eq!(result.processing_time_ms, 1234);
}

#[test]
fn test_session_one_minute_buffer_single_chunk() {
    // One minute stays under the chunking threshold even though the chunk
    // duration alone would divide it.
    let samples: Vec<u32> = vec![0u32; 60 * 16000];
    let session = TranscribeSession::new(samples, Language::Auto, true);
    assert_eq!(session.chunk_count(), 1);
    assert_eq!(session.current_chunk().len(), 60 * 16000);
}

#[test]
fn test_session_progress_is_monotone() {
    let samples: Vec<u32> = vec![0u32; 180 * 16000];
    let mut session = TranscribeSession::new(samples, Language::Auto, false);
    let mut last = session.progress_permille();
    assert_eq!(last, 0);
    while !session.all_chunks_done() {
        session.record_chunk_segments(&vec![]);
        let now = session.progress_permille();
        assert!(now >= last);
        last = now;
    }
    assert_eq!(last, 1000);
}

#[test]
fn test_session_language_detection_recorded() {
    let samples: Vec<u32> = vec![0u32; 16000];
    let mut session = TranscribeSession::new(samples, Language::Auto, false);
    let window = session.detection_input();
    assert_eq!(window.len(), 16000);
    session.record_language("en".to_string());
    session.record_chunk_segments(&vec![Segment { text: "hi".to_string(), t0_centis: 0 }]);
    let result = session.assemble(None, 0);
    assert_eq!(result.language.as_deref(), Some("en"));
}

#[test]
fn test_session_cancellation_aborts() {
    let samples: Vec<u32> = vec![0u32; 180 * 16000];
    let mut session = TranscribeSession::new(samples, Language::Auto, false);
    session.record_chunk_segments(&vec![]);
    session.cancel();
    assert!(session.is_aborted());
}

#[test]
fn test_join_parts() {
    let parts = vec!["a".to_string(), "b".to_string(), "c".to_string()];
    assert_eq!(join_parts(&parts, "\n"), "a\nb\nc");
    assert_eq!(join_parts(&parts, " "), "a b c");
    let one = vec!["solo".to_string()];
    assert_eq!(join_parts(&one, "\n"), "solo");
    let none: Vec<String> = vec![];
    assert_eq!(join_parts(&none, "\n"), "");
}
