use playback_core::srt_merger::SubtitleEntry;
use playback_core::srt_merger::adjust_segment_times;
use playback_core::srt_merger::find_arrow;
use playback_core::srt_merger::insert_segment_subtitle;
use playback_core::srt_merger::merge_subtitles;
use playback_core::srt_merger::parse_srt_lines;
use playback_core::srt_merger::render_srt;

fn entry(index: usize, start_time: u64, end_time: u64, text: &[&str]) -> SubtitleEntry {
    SubtitleEntry {
        index,
        start_time,
        end_time,
        text: text.iter().map(|s| String::from(*s)).collect(),
    }
}

fn lines(text: &str) -> Vec<String> {
    text.lines().map(String::from).collect()
}

#[test]
fn adjust_shifts_both_times() {
    let subs = vec![entry(1, 1_000, 2_000, &["a"]), entry(2, 5_500, 7_250, &["b", "c"])];
    let adjusted = adjust_segment_times(subs, 60_000);
    assert_eq!(adjusted.len(), 2);
    assert_eq!(adjusted[0].start_time, 61_000);
    assert_eq!(adjusted[0].end_time, 62_000);
    assert_eq!(adjusted[0].index, 1);
    assert_eq!(adjusted[0].text, vec![String::from("a")]);
    assert_eq!(adjusted[1].start_time, 65_500);
    assert_eq!(adjusted[1].end_time, 67_250);
}

#[test]
fn adjust_saturates_at_the_largest_time() {
    let subs = vec![entry(1, u64::MAX - 5, u64::MAX - 1, &["x"])];
    let adjusted = adjust_segment_times(subs, 10);
    assert_eq!(adjusted[0].start_time, u64::MAX);
    assert_eq!(adjusted[0].end_time, u64::MAX);
}

#[test]
fn merge_sorts_by_start_and_renumbers() {
    let complete = vec![
        entry(1, 0, 1_000, &["one"]),
        entry(2, 10_000, 11_000, &["three"]),
    ];
    let segment = vec![entry(1, 5_000, 6_000, &["two"]), entry(2, 20_000, 21_000, &["four"])];
    let merged = merge_subtitles(complete, segment);
    assert_eq!(merged.len(), 4);
    let texts: Vec<&str> = merged.iter().map(|e| e.text[0].as_str()).collect();
    assert_eq!(texts, vec!["one", "two", "three", "four"]);
    for (i, e) in merged.iter().enumerate() {
        assert_eq!(e.index, i + 1);
    }
    assert!(merged.windows(2).all(|w| w[0].start_time <= w[1].start_time));
}

#[test]
fn merge_keeps_equal_starts_in_original_order() {
    let complete = vec![entry(7, 1_000, 2_000, &["first"])];
    let segment = vec![entry(9, 1_000, 3_000, &["second"])];
    let merged = merge_subtitles(complete, segment);
    assert_eq!(merged[0].text[0], "first");
    assert_eq!(merged[1].text[0], "second");
    assert_eq!(merged[0].index, 1);
    assert_eq!(merged[1].index, 2);
}

#[test]
fn insert_shifts_segment_then_merges() {
    let complete = vec![
        entry(1, 0, 2_000, &["intro"]),
        entry(2, 90_000, 92_000, &["outro"]),
    ];
    let segment = vec![entry(1, 1_000, 2_000, &["cut piece"])];
    let merged = insert_segment_subtitle(complete, segment, 50_000);
    assert_eq!(merged.len(), 3);
    assert_eq!(merged[1].text[0], "cut piece");
    assert_eq!(merged[1].start_time, 51_000);
    assert_eq!(merged[1].end_time, 52_000);
    assert_eq!(merged[0].index, 1);
    assert_eq!(merged[1].index, 2);
    assert_eq!(merged[2].index, 3);
}

#[test]
fn parse_srt_lines_reads_entries() {
    let file = "1\n00:00:01,000 --> 00:00:02,000\nHello\nworld\n\n2\n00:00:03,500 --> 00:00:04,000\nAgain\n";
    let entries = parse_srt_lines(&lines(file));
    assert_eq!(entries.len(), 2);
    assert_eq!(entries[0].index, 1);
    assert_eq!(entries[0].start_time, 1_000);
    assert_eq!(entries[0].end_time, 2_000);
    assert_eq!(entries[0].text, vec![String::from("Hello"), String::from("world")]);
    assert_eq!(entries[1].index, 2);
    assert_eq!(entries[1].start_time, 3_500);
    assert_eq!(entries[1].text, vec![String::from("Again")]);
}

#[test]
fn parse_srt_lines_trims_and_tolerates_blank_runs() {
    let file = "\n\n  3  \n  00:01:00,000 --> 00:01:01,000  \n  spaced text  \n\n\n";
    let entries = parse_srt_lines(&lines(file));
    assert_eq!(entries.len(), 1);
    assert_eq!(entries[0].index, 3);
    assert_eq!(entries[0].start_time, 60_000);
    assert_eq!(entries[0].text, vec![String::from("spaced text")]);
}

#[test]
fn parse_srt_lines_drops_incomplete_entries() {
    // No time line: the entry never completes.
    let no_times = "1\njust text\n\n";
    assert_eq!(parse_srt_lines(&lines(no_times)).len(), 0);
    // A malformed time line is ignored, so the text is never attached.
    let bad_times = "1\n00:00:01,000 --> oops\ntext\n\n";
    assert_eq!(parse_srt_lines(&lines(bad_times)).len(), 0);
    // No text: dropped as well.
    let no_text = "1\n00:00:01,000 --> 00:00:02,000\n\n";
    assert_eq!(parse_srt_lines(&lines(no_text)).len(), 0);
}

#[test]
fn parse_srt_lines_flushes_final_entry_without_blank_line() {
    let file = "1\n00:00:01,000 --> 00:00:02,000\ntail";
    let entries = parse_srt_lines(&lines(file));
    assert_eq!(entries.len(), 1);
    assert_eq!(entries[0].text, vec![String::from("tail")]);
}

#[test]
fn parse_srt_lines_number_line_starts_a_new_entry() {
    // A bare number inside the text is taken for a new entry number, as the
    // format's readers conventionally do: the unfinished entry is dropped.
    let file = "1\n00:00:01,000 --> 00:00:02,000\n1984\nmore\n\n";
    let entries = parse_srt_lines(&lines(file));
    assert_eq!(entries.len(), 0);
}

#[test]
fn render_writes_the_file_format_back() {
    let entries = vec![
        entry(1, 1_000, 2_000, &["Hello", "world"]),
        entry(2, 3_500, 4_000, &["Again"]),
    ];
    let expected = "1\n00:00:01,000 --> 00:00:02,000\nHello\nworld\n\n2\n00:00:03,500 --> 00:00:04,000\nAgain\n";
    assert_eq!(render_srt(&entries), expected);
}

#[test]
fn render_of_nothing_is_empty() {
    assert_eq!(render_srt(&Vec::new()), "");
}

#[test]
fn parse_of_render_is_identity() {
    let entries = vec![
        entry(1, 0, 750, &["a"]),
        entry(2, 62_345, 90_000, &["b", "c"]),
    ];
    let rendered = render_srt(&entries);
    let reparsed = parse_srt_lines(&rendered.lines().map(String::from).collect());
    assert_eq!(reparsed, entries);
}

#[test]
fn find_arrow_locates_separator() {
    assert_eq!(find_arrow("00:00:01,000 --> 00:00:02,000"), Some(13));
    assert_eq!(find_arrow("no arrow here"), None);
    assert_eq!(find_arrow("-->"), Some(0));
    assert_eq!(find_arrow("--"), None);
    assert_eq!(find_arrow("--->"), Some(1));
}
