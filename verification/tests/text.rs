use audioink::captions::{
    assemble_caption_events, extract_attribute, extract_caption_languages, extract_caption_url,
    extract_title, html_decode, normalize_text, parse_number, parse_seconds_ms,
    parse_srv3_captions, parse_xml_captions, strip_inner_tags, CaptionEvent, YoutubeCaptionInfo,
};
use audioink::subtitle::{clean_subtitle_text, detect_language_from_filename};
use audioink::timestamps::{format_duration_ms, format_timestamp_ms};

#[test]
fn test_clean_subtitle_vtt() {
    let input = "WEBVTT\nKind: captions\nLanguage: en\n\n00:00:00.000 --> 00:00:05.000\nHello, this is a test.\n\n00:00:05.000 --> 00:00:10.000\n[Music] This is <b>another</b> line.";

    let result = clean_subtitle_text(input);
    assert_eq!(result, "Hello, this is a test. This is another line.");
}

#[test]
fn test_clean_subtitle_srt() {
    let input = "1\n00:00:00,000 --> 00:00:05,000\nHello world.\n\n2\n00:00:05,000 --> 00:00:10,000\nSecond line here.";

    let result = clean_subtitle_text(input);
    assert_eq!(result, "Hello world. Second line here.");
}

#[test]
fn test_detect_language() {
    assert_eq!(detect_language_from_filename("video.es.vtt"), Some("Spanish".to_string()));
    assert_eq!(detect_language_from_filename("video.en.srt"), Some("English".to_string()));
    assert_eq!(detect_language_from_filename("video.vtt"), None);
}

#[test]
fn test_format_timestamp() {
    assert_eq!(format_timestamp_ms(0), "00:00:00");
    assert_eq!(format_timestamp_ms(90_000), "00:01:30");
    assert_eq!(format_timestamp_ms(3_661_000), "01:01:01");
    assert_eq!(format_timestamp_ms(240_000), "00:04:00");
}

#[test]
fn test_format_duration() {
    assert_eq!(format_duration_ms(0), "0:00");
    assert_eq!(format_duration_ms(61_000), "1:01");
    assert_eq!(format_duration_ms(605_000), "10:05");
}

#[test]
fn test_html_decode() {
    let s: Vec<char> = "a &amp; b &lt;c&gt; &quot;d&quot; &#39;e&#39;".chars().collect();
    let decoded: String = html_decode(&s).into_iter().collect();
    assert_eq!(decoded, "a & b <c> \"d\" 'e'");
}

#[test]
fn test_normalize_text() {
    assert_eq!(normalize_text("  a   b \n c  "), "a b c");
    assert_eq!(normalize_text(""), "");
}

#[test]
fn test_strip_inner_tags() {
    let s: Vec<char> = "a<b>c</b>d".chars().collect();
    let stripped: String = strip_inner_tags(&s).into_iter().collect();
    assert_eq!(stripped, "acd");
}

#[test]
fn test_extract_attribute() {
    let tag: Vec<char> = "<p t=\"1500\" d=\"2000\">".chars().collect();
    let t: Option<String> = extract_attribute(&tag, "t").map(|v| v.into_iter().collect());
    assert_eq!(t.as_deref(), Some("1500"));
    let missing = extract_attribute(&tag, "x");
    assert!(missing.is_none());
}

#[test]
fn test_parse_numbers() {
    let v: Vec<char> = "1500".chars().collect();
    assert_eq!(parse_number(&v), Some(1500));
    let bad: Vec<char> = "15a0".chars().collect();
    assert_eq!(parse_number(&bad), None);
    let secs: Vec<char> = "12.345".chars().collect();
    assert_eq!(parse_seconds_ms(&secs), Some(12_345));
    let whole: Vec<char> = "7".chars().collect();
    assert_eq!(parse_seconds_ms(&whole), Some(7_000));
    let short_frac: Vec<char> = "1.5".chars().collect();
    assert_eq!(parse_seconds_ms(&short_frac), Some(1_500));
}

#[test]
fn test_parse_srv3() {
    let doc = "<timedtext><body><p t=\"0\" d=\"2000\">Hello <s>there</s></p><p t=\"61000\">world</p></body></timedtext>";
    assert_eq!(parse_srv3_captions(doc, false), "Hello there world");
    assert_eq!(
        parse_srv3_captions(doc, true),
        "[00:00:00] Hello there\n[00:01:01] world"
    );
}

#[test]
fn test_parse_xml() {
    let doc = "<transcript><text start=\"0\" dur=\"2\">Hello &amp; hi</text><text start=\"61.5\">world</text></transcript>";
    assert_eq!(parse_xml_captions(doc, false), "Hello & hi world");
    assert_eq!(parse_xml_captions(doc, true), "[00:00:00] Hello & hi\n[00:01:01] world");
}

#[test]
fn test_extract_title() {
    let html = "<html><meta property=\"og:title\" content=\"My Video\"><title>ignored</title></html>";
    assert_eq!(extract_title(html).as_deref(), Some("My Video"));

    let html2 = "<html><title>Other Video - YouTube</title></html>";
    assert_eq!(extract_title(html2).as_deref(), Some("Other Video"));

    assert_eq!(extract_title("<html></html>"), None);
}

#[test]
fn test_extract_caption_languages() {
    let html = "prefix \"captionTracks\":[{\"baseUrl\":\"u\",\"languageCode\":\"en\"},{\"languageCode\":\"es\"}] suffix";
    let langs = extract_caption_languages(html);
    assert_eq!(langs, vec!["en".to_string(), "es".to_string()]);

    let none = extract_caption_languages("<html>nothing</html>");
    assert!(none.is_empty());
}

#[test]
fn test_extract_caption_url() {
    let html = "x \"captionTracks\":[{\"baseUrl\":\"https://host/timedtext?v=1\\u0026lang=en\",\"vssId\":\".en\"}] y";
    let url = extract_caption_url(html, "en");
    assert_eq!(url.as_deref(), Some("https://host/timedtext?v=1&lang=en"));

    assert_eq!(extract_caption_url("<html></html>", "en"), None);
}

#[test]
fn test_assemble_caption_events() {
    let events = vec![
        CaptionEvent { t_start_ms: Some(1000), texts: vec!["Hello".to_string(), " \n ".to_string()] },
        CaptionEvent { t_start_ms: Some(1000), texts: vec!["again".to_string()] },
        CaptionEvent { t_start_ms: Some(61_000), texts: vec!["world".to_string()] },
        CaptionEvent { t_start_ms: None, texts: vec![] },
    ];
    // Events repeating a start time extend the previous line.
    let tagged = assemble_caption_events(&events, true).unwrap();
    assert_eq!(tagged, "[00:00:01] Hello again\n[00:01:01] world");

    let plain = assemble_caption_events(&events, false).unwrap();
    assert_eq!(plain, "Hello again world");

    assert!(assemble_caption_events(&vec![], true).is_none());
}

#[test]
fn test_caption_info_fields() {
    let info = YoutubeCaptionInfo {
        title: "T".to_string(),
        has_captions: true,
        caption_languages: vec!["en".to_string()],
    };
    assert!(info.has_captions);
    assert_eq!(info.caption_languages.len(), 1);
}
