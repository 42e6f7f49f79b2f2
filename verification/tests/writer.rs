use hkanno::{Annotation, AnnotationTrack, Hkanno};
use std::borrow::Cow;

fn seconds(time: f32) -> Cow<'static, str> {
    Cow::Owned(format!("{:.6}", time))
}

fn shown(number: f32) -> Cow<'static, str> {
    Cow::Owned(format!("{}", number))
}

#[test]
fn test_hkanno_to_string_format() {
    // Dummy Hkanno with 2 tracks and optional text
    let hkanno = Hkanno {
        ptr: 3,
        num_original_frames: 10,
        duration: shown(0.8),
        annotation_tracks: vec![
            AnnotationTrack {
                track_name: Some(Cow::Borrowed("Track1")),
                annotations: vec![
                    Annotation {
                        time: seconds(0.1),
                        text: Some(Cow::Borrowed("Start")),
                    },
                    Annotation {
                        time: seconds(0.5),
                        text: Some(Cow::Borrowed("Mid")),
                    },
                ],
            },
            AnnotationTrack {
                track_name: Some(Cow::Borrowed("Track2")),
                annotations: vec![
                    Annotation {
                        time: seconds(0.3),
                        text: Some(Cow::Borrowed("Alt1")),
                    },
                    Annotation {
                        time: seconds(0.7),
                        text: None, // missing text
                    },
                ],
            },
        ],
    };

    assert_eq!(hkanno.ptr, 3);

    let output = hkanno.to_string();

    // Header checks
    assert!(output.contains("# numOriginalFrames: 10"));
    assert!(output.contains("# duration: 0.8"));
    assert!(output.contains("# numAnnotationTracks: 2"));

    // Track1 checks
    assert!(output.contains("trackName: Track1"));
    assert!(output.contains("# numAnnotations: 2"));
    assert!(output.contains("0.100000 Start"));
    assert!(output.contains("0.500000 Mid"));

    // Track2 checks
    assert!(output.contains("trackName: Track2"));
    assert!(output.contains("0.300000 Alt1"));
    // None text replaced by NULL_STR
    assert!(output.contains("0.700000 \u{2400}"));
}

#[test]
fn text_is_exact() {
    let hkanno = Hkanno {
        ptr: 3,
        num_original_frames: -38,
        duration: shown(1.5),
        annotation_tracks: vec![
            AnnotationTrack {
                track_name: Some(Cow::Borrowed("PairedRoot")),
                annotations: vec![
                    Annotation {
                        time: seconds(0.1),
                        text: Some(Cow::Borrowed("MCO_DodgeOpen")),
                    },
                    Annotation {
                        time: seconds(0.4),
                        text: None,
                    },
                ],
            },
            AnnotationTrack {
                track_name: None,
                annotations: vec![],
            },
            AnnotationTrack {
                track_name: Some(Cow::Borrowed("")),
                annotations: vec![Annotation {
                    time: seconds(12.0),
                    text: Some(Cow::Borrowed("")),
                }],
            },
        ],
    };
    let expected = "# numOriginalFrames: -38\n# duration: 1.5\n# numAnnotationTracks: 3\n\n\
trackName: PairedRoot\n# numAnnotations: 2\n0.100000 MCO_DodgeOpen\n0.400000 \u{2400}\n\n\
trackName: \u{2400}\n# numAnnotations: 0\n\n\
trackName: \n# numAnnotations: 1\n12.000000 \n\n";
    assert_eq!(hkanno.to_string(), expected);
}

#[test]
fn text_of_nothing_is_the_header() {
    let hkanno = Hkanno {
        ptr: 0,
        num_original_frames: 0,
        duration: Cow::Borrowed("0"),
        annotation_tracks: vec![],
    };
    assert_eq!(
        hkanno.to_string(),
        "# numOriginalFrames: 0\n# duration: 0\n# numAnnotationTracks: 0\n\n"
    );
}

#[test]
fn whole_numbers_are_written_in_decimal() {
    for frames in [0, 7, 10, 2147483647, -1, -2147483648] {
        let hkanno = Hkanno {
            ptr: 0,
            num_original_frames: frames,
            duration: Cow::Borrowed("0"),
            annotation_tracks: vec![],
        };
        assert!(hkanno
            .to_string()
            .starts_with(&format!("# numOriginalFrames: {}\n", frames)));
    }
}

#[test]
fn into_static_keeps_what_is_held() {
    let text = String::from("trackName: A\n0.5 x\n1.5 \u{2400}\n");
    let owned = {
        let borrowed = hkanno::parse_hkanno_str(&text).unwrap();
        borrowed.into_static()
    };
    drop(text);
    assert_eq!(owned.annotation_tracks.len(), 1);
    assert_eq!(owned.annotation_tracks[0].track_name.as_deref(), Some("A"));
    assert!(matches!(owned.annotation_tracks[0].track_name, Some(Cow::Owned(_))));
    assert_eq!(owned.annotation_tracks[0].annotations[0].time, "0.5");
    assert!(matches!(owned.annotation_tracks[0].annotations[0].time, Cow::Owned(_)));
    assert_eq!(owned.annotation_tracks[0].annotations[1].text, None);
    let copy = owned.clone();
    assert_eq!(copy.to_string(), owned.to_string());
}
