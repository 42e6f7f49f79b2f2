use hkanno::Hkanno;
use hkanno::parser::ignore_blank_lines;
use hkanno::parse_hkanno_str;

fn parse_ok(input: &str) -> Hkanno<'_> {
    parse_hkanno_str(input)
        .unwrap_or_else(|e| panic!("parse should succeed: {}", e.to_string()))
}

fn parse_err(input: &str) {
    assert!(
        parse_hkanno_str(input).is_err(),
        "parse should fail, but succeeded"
    );
}

fn seconds(time: &str) -> f32 {
    time.parse::<f32>().unwrap()
}

#[test]
fn empty_input_is_ok() {
    let hkanno = parse_ok("");
    assert!(hkanno.annotation_tracks.is_empty());
}

#[test]
fn comment_only_is_ok() {
    let mut input = r#"
            # this is a comment
            # another comment
            "#;
    assert!(ignore_blank_lines(&mut input).is_ok());
}

#[test]
fn single_track_single_annotation() {
    let hkanno = parse_ok(
        r#"
            trackName: Test Track
            0.5 hello
            "#,
    );

    assert_eq!(hkanno.annotation_tracks.len(), 1);

    let track = &hkanno.annotation_tracks[0];
    assert_eq!(track.track_name.as_deref(), Some("Test Track"));

    assert_eq!(track.annotations.len(), 1);
    let anno = &track.annotations[0];
    assert_eq!(seconds(&anno.time), 0.5);
    assert_eq!(anno.text.as_deref(), Some("hello"));
}

#[test]
fn multiple_annotations_with_blank_lines() {
    let hkanno = parse_ok(
        r#"
            trackName: Track

            0.1 a

            0.2 b
            0.3 c

            "#,
    );

    let track = &hkanno.annotation_tracks[0];
    assert_eq!(track.annotations.len(), 3);
}

#[test]
fn multiple_tracks() {
    let hkanno = parse_ok(
        r#"
            trackName: A
            0.1 a

            trackName: B
            0.2 b
            "#,
    );

    assert_eq!(hkanno.annotation_tracks.len(), 2);
    assert_eq!(hkanno.annotation_tracks[0].track_name.as_deref(), Some("A"));
    assert_eq!(hkanno.annotation_tracks[1].track_name.as_deref(), Some("B"));
}

#[test]
fn trackname_is_case_insensitive() {
    let hkanno = parse_ok(
        r#"
            TRACKNAME: Upper
            0.0 x
            "#,
    );

    let track = &hkanno.annotation_tracks[0];
    assert_eq!(track.track_name.as_deref(), Some("Upper"));
}

#[test]
fn null_string_track_name() {
    let hkanno = parse_ok(
        r#"
            trackName: ␀
            0.0 test
            "#,
    );

    let track = &hkanno.annotation_tracks[0];
    assert!(track.track_name.is_none());
}

#[test]
fn null_string_annotation_text() {
    let hkanno = parse_ok(
        r#"
            trackName: T
            1.0 ␀
            "#,
    );

    let anno = &hkanno.annotation_tracks[0].annotations[0];
    assert!(anno.text.is_none());
}

#[test]
fn missing_track_name_is_error() {
    parse_err(
        r#"
            0.0 orphan
            "#,
    );
}

#[test]
fn malformed_float_is_error() {
    parse_err(
        r#"
            trackName: T
            abc text
            "#,
    );
}

#[test]
fn annotation_without_text_is_error() {
    parse_err(
        r#"
            trackName: T
            0.5
            "#,
    );
}

#[test]
fn scenario_single_track() {
    let hkanno = parse_ok("trackName: PairedRoot\n0.100000 MCO_DodgeOpen\n0.400000 MCO_DodgeClose\n");
    assert_eq!(hkanno.ptr, 0);
    assert_eq!(hkanno.num_original_frames, 0);
    assert_eq!(hkanno.duration, "0");
    assert_eq!(hkanno.annotation_tracks.len(), 1);
    let track = &hkanno.annotation_tracks[0];
    assert_eq!(track.track_name.as_deref(), Some("PairedRoot"));
    assert_eq!(track.annotations.len(), 2);
    assert_eq!(track.annotations[0].time, "0.100000");
    assert_eq!(seconds(&track.annotations[0].time), 0.1);
    assert_eq!(track.annotations[0].text.as_deref(), Some("MCO_DodgeOpen"));
    assert_eq!(track.annotations[1].time, "0.400000");
    assert_eq!(seconds(&track.annotations[1].time), 0.4);
    assert_eq!(track.annotations[1].text.as_deref(), Some("MCO_DodgeClose"));
}

#[test]
fn strictness_orphan_annotation_fails() {
    parse_err("0.0 orphan");
    parse_err("0.0 orphan\n");
}

#[test]
fn strictness_bad_float_fails() {
    parse_err("trackName: T\nabc text");
    parse_err("trackName: T\nabc text\n");
}

#[test]
fn strictness_missing_text_fails() {
    parse_err("trackName: T\n0.5");
    parse_err("trackName: T\n0.5\n");
}

#[test]
fn strictness_comment_only_has_no_tracks() {
    let hkanno = parse_ok("# only a comment\n   # and another\n\n");
    assert!(hkanno.annotation_tracks.is_empty());
}

#[test]
fn last_line_needs_its_line_ending() {
    parse_err("trackName: T\n0.5 hello");
    parse_err("trackName: T");
    let hkanno = parse_ok("trackName: T\n0.5 hello\n   \t ");
    assert_eq!(hkanno.annotation_tracks[0].annotations.len(), 1);
}

#[test]
fn sentinel_is_absent_and_empty_is_empty() {
    let hkanno = parse_ok("trackName: \u{2400}\n0.5 \u{2400}\ntrackName: \n0.5 \n");
    assert_eq!(hkanno.annotation_tracks.len(), 2);
    assert_eq!(hkanno.annotation_tracks[0].track_name, None);
    assert_eq!(hkanno.annotation_tracks[0].annotations[0].text, None);
    assert_eq!(hkanno.annotation_tracks[1].track_name.as_deref(), Some(""));
    assert_eq!(hkanno.annotation_tracks[1].annotations[0].text.as_deref(), Some(""));
}

#[test]
fn sentinel_with_company_is_text() {
    let hkanno = parse_ok("trackName: \u{2400}\u{2400}\n0.5 \u{2400} \n");
    assert_eq!(
        hkanno.annotation_tracks[0].track_name.as_deref(),
        Some("\u{2400}\u{2400}")
    );
    assert_eq!(
        hkanno.annotation_tracks[0].annotations[0].text.as_deref(),
        Some("\u{2400} ")
    );
}

#[test]
fn names_and_texts_keep_what_follows_the_first_space() {
    let hkanno = parse_ok("  trackName  :   a b : c  \n\t1   x  y \n");
    let track = &hkanno.annotation_tracks[0];
    assert_eq!(track.track_name.as_deref(), Some("a b : c  "));
    assert_eq!(track.annotations[0].time, "1");
    assert_eq!(track.annotations[0].text.as_deref(), Some("x  y "));
}

#[test]
fn carriage_return_line_feed_ends_a_line() {
    let hkanno = parse_ok("# c\r\ntrackName: A\r\n0.5 x\r\n\r\n");
    let track = &hkanno.annotation_tracks[0];
    assert_eq!(track.track_name.as_deref(), Some("A"));
    assert_eq!(track.annotations[0].text.as_deref(), Some("x"));
}

#[test]
fn lone_carriage_return_is_refused() {
    parse_err("trackName: A\rB\n");
    parse_err("trackName: A\n0.5 x\ry\n");
}

#[test]
fn float_literals_are_those_of_the_float_parser() {
    for time in ["1", "+1", "-1", "1.", ".5", "-.5", "1.5e3", "1E-3", "1e+3", "nan", "NaN", "inf", "-inf", "+infinity", "INFINITY"] {
        let text = format!("trackName: T\n{} x\n", time);
        let hkanno = parse_ok(&text);
        assert_eq!(hkanno.annotation_tracks[0].annotations[0].time, time);
        assert!(hkanno.annotation_tracks[0].annotations[0].time.parse::<f32>().is_ok());
    }
    for word in ["1e", "1e+", ".", "+", "1x", "0.5s", "infin", "-nan", "e5", "1,5", "0x10", "trackName"] {
        let text = format!("trackName: T\n{} x\n", word);
        parse_err(&text);
    }
}

#[test]
fn error_message_names_the_character() {
    let e = parse_hkanno_str("trackName: T\nabc text\n").unwrap_err();
    assert_eq!(e.message, "unexpected text at character 13");
    assert_eq!(e.to_string(), "Parse Error: unexpected text at character 13");
    let e = parse_hkanno_str("0.0 orphan").unwrap_err();
    assert_eq!(e.message, "unexpected text at character 0");
    let e = parse_hkanno_str("\n\n  x").unwrap_err();
    assert_eq!(e.message, "unexpected text at character 4");
}

#[test]
fn blank_lines_are_taken_off_the_front() {
    let mut input = "  \n# c\n\t#d\r\n x\n\n";
    assert!(ignore_blank_lines(&mut input).is_ok());
    assert_eq!(input, " x\n\n");
    let mut input = "   ";
    assert!(ignore_blank_lines(&mut input).is_ok());
    assert_eq!(input, "   ");
}

#[test]
fn comments_are_not_read() {
    let hkanno = parse_ok("# numOriginalFrames: 38\n# duration: 1.5\n# numAnnotationTracks: 7\n\ntrackName: A\n# numAnnotations: 9\n");
    assert_eq!(hkanno.num_original_frames, 0);
    assert_eq!(hkanno.duration, "0");
    assert_eq!(hkanno.annotation_tracks.len(), 1);
    assert!(hkanno.annotation_tracks[0].annotations.is_empty());
}

#[test]
fn a_comment_needs_its_line_ending_too() {
    parse_err("# c");
    parse_err("# a\rb\n");
    let hkanno = parse_ok("# c\n");
    assert!(hkanno.annotation_tracks.is_empty());
}

#[test]
fn white_space_may_trail_and_nothing_else() {
    let hkanno = parse_ok("trackName: A\n \r \n\r\r\n\t");
    assert_eq!(hkanno.annotation_tracks.len(), 1);
    parse_err("trackName: A\n \r \n0.5 x\n");
}
