use aura::lyrics::{active_index, merge_translation, parse, LyricLine, LyricTrack};

fn at(lines: &[LyricLine], index: usize) -> (u64, &str) {
    (lines[index].millis, lines[index].text.as_str())
}

#[test]
fn lyrics_parses_two_and_three_digit_fractions_and_bare_seconds() {
    let lines = parse("[00:01]a\n[00:02.50]b\n[00:03.125]c");
    assert_eq!(lines.len(), 3);
    assert_eq!(at(&lines, 0), (1000, "a"));
    assert_eq!(at(&lines, 1), (2500, "b"));
    assert_eq!(at(&lines, 2), (3125, "c"));
}

#[test]
fn lyrics_a_line_with_several_timestamps_becomes_several_lines() {
    let lines = parse("[00:10.00][01:00.00][02:30.00]副歌");
    assert_eq!(lines.len(), 3);
    assert_eq!(at(&lines, 0), (10000, "副歌"));
    assert_eq!(at(&lines, 1), (60000, "副歌"));
    assert_eq!(at(&lines, 2), (150000, "副歌"));
}

#[test]
fn lyrics_metadata_tags_are_dropped_not_rendered() {
    let lines = parse("[ti:标题]\n[ar:歌手]\n[by:某人]\n[offset:+500]\n[00:05.00]正文");
    assert_eq!(lines.len(), 1);
    assert_eq!(at(&lines, 0), (5000, "正文"));
}

#[test]
fn lyrics_out_of_order_input_comes_back_sorted() {
    let lines = parse("[00:30.00]c\n[00:10.00]a\n[00:20.00]b");
    assert_eq!(
        lines.iter().map(|line| line.text.as_str()).collect::<Vec<_>>(),
        vec!["a", "b", "c"]
    );
}

#[test]
fn lyrics_brackets_inside_the_text_are_left_alone() {
    let lines = parse("[00:01.00]前奏 [笑] 后面");
    assert_eq!(lines.len(), 1);
    assert_eq!(at(&lines, 0), (1000, "前奏 [笑] 后面"));
}

#[test]
fn lyrics_lines_without_a_timestamp_are_skipped() {
    assert!(parse("纯文本\n\n[不是时间]也不是").is_empty());
}

#[test]
fn lyrics_active_index_before_the_first_line_is_none() {
    let lines = parse("[00:05.00]a\n[00:10.00]b");
    assert_eq!(active_index(&lines, 0), None);
    assert_eq!(active_index(&lines, 4999), None);
}

#[test]
fn lyrics_active_index_is_inclusive_on_the_boundary() {
    let lines = parse("[00:05.00]a\n[00:10.00]b");
    assert_eq!(active_index(&lines, 5000), Some(0));
    assert_eq!(active_index(&lines, 9999), Some(0));
    assert_eq!(active_index(&lines, 10000), Some(1));
}

#[test]
fn lyrics_active_index_after_the_last_line_stays_on_the_last_line() {
    let lines = parse("[00:05.00]a\n[00:10.00]b");
    assert_eq!(active_index(&lines, 9999000), Some(1));
    assert_eq!(active_index(&[], 1000), None);
}

#[test]
fn lyrics_translation_attaches_within_the_tolerance_and_is_dropped_outside_it() {
    let main = parse("[00:05.00]hello\n[00:10.00]world");
    let translation = parse("[00:05.20]你好\n[00:10.40]世界");
    let merged = merge_translation(main, &translation);
    assert_eq!(merged[0].translation.as_deref(), Some("你好"));
    assert_eq!(merged[1].translation, None);
}

#[test]
fn lyrics_translation_picks_the_nearest_line_when_several_are_in_range() {
    let main = parse("[00:05.00]a\n[00:05.25]b");
    let translation = parse("[00:05.20]译");
    let merged = merge_translation(main, &translation);
    assert_eq!(merged[0].translation, None);
    assert_eq!(merged[1].translation.as_deref(), Some("译"));
}

#[test]
fn lyrics_merging_into_an_empty_main_track_yields_nothing() {
    assert!(merge_translation(Vec::new(), &parse("[00:01.00]译")).is_empty());
}

#[test]
fn track_parses_once_per_index() {
    let mut track = LyricTrack::new();
    track.sync(0, Some("[00:01.00]a"), None);
    assert_eq!(track.lines().len(), 1);
    track.sync(0, Some("[00:01.00]x\n[00:02.00]y"), None);
    assert_eq!(track.lines().len(), 1);
    assert_eq!(track.lines()[0].text, "a");
    track.sync(1, Some("[00:01.00]x\n[00:02.00]y"), None);
    assert_eq!(track.lines().len(), 2);
}

#[test]
fn track_attaches_translation_only_when_it_is_not_blank() {
    let mut track = LyricTrack::new();
    track.sync(0, Some("[00:05.00]hello"), Some("   \n  "));
    assert_eq!(track.lines()[0].translation, None);
    track.sync(1, Some("[00:05.00]hello"), Some("[00:05.00]你好"));
    assert_eq!(track.lines()[0].translation.as_deref(), Some("你好"));
}

#[test]
fn track_reset_forces_a_reparse() {
    let mut track = LyricTrack::new();
    track.sync(0, Some("[00:01.00]a"), None);
    track.reset();
    assert_eq!(track.active(), -1);
    track.sync(0, Some("[00:01.00]b"), None);
    assert_eq!(track.lines()[0].text, "b");
}

#[test]
fn first_line_does_not_kick_off_a_slide() {
    let mut track = LyricTrack::new();
    track.sync(0, Some("[00:01.00]a\n[00:02.00]b"), None);
    let step = track.tick(1000);
    assert!(step.changed);
    assert_eq!(track.active(), 0);
    assert_eq!(step.slide_rows, None);
}

#[test]
fn changing_line_starts_a_slide_that_decays_to_zero() {
    let mut track = LyricTrack::new();
    track.sync(0, Some("[00:01.00]a\n[00:02.00]b"), None);
    track.tick(1000);
    let step = track.tick(2000);
    assert!(step.changed);
    assert_eq!(step.slide_rows, Some(1));
    let again = track.tick(2000);
    assert!(!again.changed);
    assert_eq!(again.slide_rows, None);
}

#[test]
fn a_big_jump_is_clamped() {
    let lrc: String = (0..40).map(|i| format!("[00:{:02}.00]line{i}\n", i)).collect();
    let mut track = LyricTrack::new();
    track.sync(0, Some(&lrc), None);
    track.tick(1000);
    assert_eq!(track.tick(35000).slide_rows, Some(34));
    let mut track2 = LyricTrack::new();
    track2.sync(0, Some(&lrc), None);
    track2.tick(35000);
    assert_eq!(track2.tick(1000).slide_rows, Some(-34));
}

#[test]
fn tick_on_an_empty_lyric_list_stays_put() {
    let mut track = LyricTrack::new();
    track.sync(0, None, None);
    assert!(track.lines().is_empty());
    let step = track.tick(10000);
    assert!(!step.changed);
    assert_eq!(track.active(), -1);
    assert_eq!(step.slide_rows, None);
}

#[test]
fn lyrics_timestamps_read_minutes_and_seconds_as_numbers() {
    let lines = parse("[1.5:00]a\n[00:1e1]b\n[-0:05]c\n[0.01:00]d\n[+1:2.5]e\n[1e-5:0]f");
    let times: Vec<(u64, &str)> = (0..lines.len()).map(|i| at(&lines, i)).collect();
    assert_eq!(
        times,
        vec![(0, "f"), (600, "d"), (5000, "c"), (10000, "b"), (62500, "e"), (90000, "a")]
    );
    assert!(parse("[-1:00]x\n[1e:00]w\n[.:00]v\n[1..5:00]u").is_empty());
}
