use hkanno::roundtrip::{text_reads_back, time_is_read_back};
use hkanno::{parse_hkanno_str, Annotation, AnnotationTrack, Hkanno};
use std::borrow::Cow;

fn seconds(time: f32) -> Cow<'static, str> {
    Cow::Owned(format!("{:.6}", time))
}

fn track(name: Option<&'static str>, annotations: Vec<(f32, Option<&'static str>)>) -> AnnotationTrack<'static> {
    AnnotationTrack {
        track_name: name.map(Cow::Borrowed),
        annotations: annotations
            .into_iter()
            .map(|(time, text)| Annotation {
                time: seconds(time),
                text: text.map(Cow::Borrowed),
            })
            .collect(),
    }
}

fn same_tracks(a: &[AnnotationTrack<'_>], b: &[AnnotationTrack<'_>]) -> bool {
    a.len() == b.len()
        && a.iter().zip(b).all(|(x, y)| {
            x.track_name == y.track_name
                && x.annotations.len() == y.annotations.len()
                && x.annotations
                    .iter()
                    .zip(&y.annotations)
                    .all(|(p, q)| p.time == q.time && p.text == q.text)
        })
}

#[test]
fn what_is_written_is_read_back() {
    let hkanno = Hkanno {
        ptr: 7,
        num_original_frames: 38,
        duration: Cow::Owned(format!("{}", 1.5f32)),
        annotation_tracks: vec![
            track(Some("PairedRoot"), vec![(0.1, Some("MCO_DodgeOpen")), (0.4, None), (0.9, Some(""))]),
            track(Some("2_"), vec![]),
            track(None, vec![(-1.0, Some("# not a comment")), (f32::INFINITY, Some("trackName: x"))]),
            track(Some(""), vec![(f32::NAN, Some("a\tb  "))]),
            track(Some("#hash"), vec![]),
        ],
    };
    assert!(hkanno.reads_back());
    let text = hkanno.to_string();
    let read = parse_hkanno_str(&text).unwrap();
    assert!(same_tracks(&read.annotation_tracks, &hkanno.annotation_tracks));
    assert_eq!(read.ptr, 0);
    assert_eq!(read.num_original_frames, 0);
    assert_eq!(read.duration, "0");
}

#[test]
fn times_keep_six_digits_through_the_text() {
    let hkanno = Hkanno {
        ptr: 0,
        num_original_frames: 0,
        duration: Cow::Borrowed("0"),
        annotation_tracks: vec![track(Some("T"), vec![(0.1, Some("a")), (1234.5, Some("b"))])],
    };
    let text = hkanno.to_string();
    let read = parse_hkanno_str(&text).unwrap();
    let times: Vec<f32> = read.annotation_tracks[0]
        .annotations
        .iter()
        .map(|a| a.time.parse::<f32>().unwrap())
        .collect();
    assert_eq!(times, vec![0.1, 1234.5]);
}

#[test]
fn what_cannot_stand_on_a_line_is_not_read_back() {
    for name in [" lead", "\tlead", "two\nlines", "cr\rhere", "\u{2400}"] {
        assert!(!text_reads_back(name));
        let hkanno = Hkanno {
            ptr: 0,
            num_original_frames: 0,
            duration: Cow::Borrowed("0"),
            annotation_tracks: vec![AnnotationTrack {
                track_name: Some(Cow::Borrowed(name)),
                annotations: vec![],
            }],
        };
        assert!(!hkanno.reads_back());
        let text = hkanno.to_string();
        match parse_hkanno_str(&text) {
            Ok(read) => assert!(!same_tracks(&read.annotation_tracks, &hkanno.annotation_tracks)),
            Err(_) => {}
        }
    }
    for name in ["", "plain", "trail ", "in ner", "\u{2400}\u{2400}", "#", "0.5"] {
        assert!(text_reads_back(name));
    }
}

#[test]
fn times_that_are_no_literals_are_not_read_back() {
    for time in ["", "abc", "1 2", "1e", "0.5s", " 1", "#1", "trackName:"] {
        assert!(!time_is_read_back(time));
    }
    for time in ["0.100000", "-3", "1e5", "inf", "NaN", ".5", "5."] {
        assert!(time_is_read_back(time));
    }
    let hkanno = Hkanno {
        ptr: 0,
        num_original_frames: 0,
        duration: Cow::Borrowed("0"),
        annotation_tracks: vec![AnnotationTrack {
            track_name: Some(Cow::Borrowed("T")),
            annotations: vec![Annotation {
                time: Cow::Borrowed("soon"),
                text: Some(Cow::Borrowed("x")),
            }],
        }],
    };
    assert!(!hkanno.reads_back());
    assert!(parse_hkanno_str(&hkanno.to_string()).is_err());
}

#[test]
fn a_duration_with_a_line_break_is_not_read_back() {
    let hkanno = Hkanno {
        ptr: 0,
        num_original_frames: 0,
        duration: Cow::Borrowed("1\n2"),
        annotation_tracks: vec![],
    };
    assert!(!hkanno.reads_back());
    assert!(parse_hkanno_str(&hkanno.to_string()).is_err());
}
