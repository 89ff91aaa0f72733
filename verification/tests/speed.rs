use audioink::speed::{
    extracted_temp_filename, is_extracted_temp, is_speedup_temp, is_video_format, plan_speedup,
    speedup_temp_filename, SpeedPlan,
};
use audioink::timestamps::{adjust_timestamp_for_speed, adjust_timestamps_in_text};

#[test]
fn test_timestamp_adjustment() {
    // 1 minute at 1.5x speed should become 1.5 minutes.
    assert_eq!(adjust_timestamp_for_speed(60000, 150), 90000);

    // 2 minutes at 2x speed should become 4 minutes.
    assert_eq!(adjust_timestamp_for_speed(120000, 200), 240000);

    // No change at 1x speed.
    assert_eq!(adjust_timestamp_for_speed(60000, 100), 60000);
}

#[test]
fn test_speed_validation() {
    // Speed too low.
    let result = plan_speedup(40);
    assert!(result.is_err());

    // Speed too high.
    let result = plan_speedup(250);
    assert!(result.is_err());
}

#[test]
fn test_speed_noop_passes_through() {
    // A factor of one is a pass-through: no tool invocation is planned.
    match plan_speedup(100) {
        Ok(SpeedPlan::PassThrough) => {}
        _ => panic!("a factor of one must pass through"),
    }
}

#[test]
fn test_speed_plan_filter_argument() {
    match plan_speedup(150) {
        Ok(SpeedPlan::Run { atempo_arg }) => assert_eq!(atempo_arg, "atempo=1.5"),
        _ => panic!("1.5x must run the tool"),
    }
    match plan_speedup(125) {
        Ok(SpeedPlan::Run { atempo_arg }) => assert_eq!(atempo_arg, "atempo=1.25"),
        _ => panic!("1.25x must run the tool"),
    }
    match plan_speedup(200) {
        Ok(SpeedPlan::Run { atempo_arg }) => assert_eq!(atempo_arg, "atempo=2"),
        _ => panic!("2x must run the tool"),
    }
}

#[test]
fn test_temp_file_guards() {
    let f = speedup_temp_filename("20240101_010101");
    assert_eq!(f, "audioink_speedup_20240101_010101.wav");
    assert!(is_speedup_temp(&f));
    assert!(!is_speedup_temp("/tmp/unrelated.wav"));

    let e = extracted_temp_filename("20240101_010101");
    assert_eq!(e, "audioink_extracted_20240101_010101.wav");
    assert!(is_extracted_temp(&e));
    assert!(!is_extracted_temp(&f));
}

#[test]
fn test_video_format_detection() {
    assert!(is_video_format("/videos/clip.mp4"));
    assert!(is_video_format("clip.MOV"));
    assert!(!is_video_format("song.mp3"));
    assert!(!is_video_format("noextension"));
    assert!(!is_video_format(".hidden"));
}

#[test]
fn test_timestamp_rewrite_in_text() {
    // A tag measured against audio sped up 1.5x is reported at 1.5 times
    // its value.
    let text: Vec<char> = "[00:01:00] hello\n[00:02:00] world".chars().collect();
    let adjusted = adjust_timestamps_in_text(&text, 150);
    assert_eq!(adjusted, "[00:01:30] hello\n[00:03:00] world");

    // 2x on two minutes becomes four minutes.
    let text2: Vec<char> = "[00:02:00] x".chars().collect();
    assert_eq!(adjust_timestamps_in_text(&text2, 200), "[00:04:00] x");

    // Text without tags is unchanged.
    let plain: Vec<char> = "no tags here".chars().collect();
    assert_eq!(adjust_timestamps_in_text(&plain, 200), "no tags here");
}
