//! The grammar as parser combinators state it: the library must accept the
//! same texts and read the same tracks.

use hkanno::parse_hkanno_str;
use winnow::ascii::{float, line_ending, multispace0, space0, space1, till_line_ending, Caseless};
use winnow::combinator::{opt, preceded, repeat};
use winnow::{ModalResult, Parser};

type Line<'a> = (f32, Option<&'a str>);
type Track<'a> = (Option<&'a str>, Vec<Line<'a>>);

fn value(text: &str) -> Option<&str> {
    if text == "\u{2400}" {
        None
    } else {
        Some(text)
    }
}

fn blank_line(input: &mut &str) -> ModalResult<()> {
    (space0, opt(("#", till_line_ending)), line_ending)
        .void()
        .parse_next(input)
}

fn blank_lines(input: &mut &str) -> ModalResult<()> {
    repeat(0.., blank_line).parse_next(input)
}

fn name_line<'a>(input: &mut &'a str) -> ModalResult<Option<&'a str>> {
    let (_, _, _, _, _, name, _) = (
        space0,
        Caseless("trackName"),
        space0,
        ":",
        space0,
        till_line_ending,
        line_ending,
    )
        .parse_next(input)?;
    Ok(value(name))
}

fn annotation<'a>(input: &mut &'a str) -> ModalResult<Line<'a>> {
    let (_, time, _, text, _) =
        (space0, float, space1, till_line_ending, line_ending).parse_next(input)?;
    Ok((time, value(text)))
}

fn track<'a>(input: &mut &'a str) -> ModalResult<Track<'a>> {
    let (_, name, _, annotations, _) = (
        blank_lines,
        name_line,
        blank_lines,
        repeat(0.., preceded(blank_lines, annotation)),
        blank_lines,
    )
        .parse_next(input)?;
    Ok((name, annotations))
}

fn document<'a>(input: &mut &'a str) -> ModalResult<Vec<Track<'a>>> {
    blank_lines.parse_next(input)?;
    let tracks = repeat(0.., track).parse_next(input)?;
    blank_lines.parse_next(input)?;
    multispace0.parse_next(input)?;
    Ok(tracks)
}

fn same_time(text: &str, time: f32) -> bool {
    match text.parse::<f32>() {
        Ok(read) => read.to_bits() == time.to_bits() || (read.is_nan() && time.is_nan()),
        Err(_) => false,
    }
}

fn compare(input: &str) {
    let expected = document.parse(input).ok();
    let read = parse_hkanno_str(input).ok();
    match (expected, read) {
        (None, None) => {}
        (Some(expected), Some(read)) => {
            let tracks = &read.annotation_tracks;
            assert_eq!(tracks.len(), expected.len(), "tracks of {:?}", input);
            for (track, (name, lines)) in tracks.iter().zip(&expected) {
                assert_eq!(track.track_name.as_deref(), *name, "name in {:?}", input);
                assert_eq!(track.annotations.len(), lines.len(), "lines of {:?}", input);
                for (annotation, (time, text)) in track.annotations.iter().zip(lines) {
                    assert!(same_time(&annotation.time, *time), "time in {:?}", input);
                    assert_eq!(annotation.text.as_deref(), *text, "text in {:?}", input);
                }
            }
        }
        (expected, read) => panic!(
            "{:?}: combinators {}, library {}",
            input,
            if expected.is_some() { "accept" } else { "refuse" },
            if read.is_some() { "accepts" } else { "refuses" },
        ),
    }
}

const PIECES: [&str; 24] = [
    "trackName", "TRACKname", "trackNam", ":", " ", "\t", "\n", "\r\n", "\r", "#", "0.5", "1e",
    "1e5", "-", ".", "5.", "x", "\u{2400}", "nan", "inf", "inity", "+", "é", "e",
];

#[test]
fn chosen_texts_are_read_alike() {
    for input in [
        "",
        "\n",
        " ",
        "# c",
        "# c\n",
        "trackName: A\n",
        "trackName: A",
        "trackName:A\n0.5 x\n",
        "  TrackName \t:\t A B \n\n# c\n 0.5\tx y \n\n",
        "trackName: A\r\n0.5 x\r\n",
        "trackName: A\rB\n",
        "trackName: \u{2400}\n0 \u{2400}\n1 \u{2400}\u{2400}\n",
        "trackName: \n0 \n",
        "trackName: A\n0.5\n",
        "trackName: A\n0.5x y\n",
        "trackName: A\n1e y\n",
        "trackName: A\n1e5 y\n.5 z\n5. w\n-inf v\n+infinity u\nnan t\n",
        "trackName: A\ninfin y\n",
        "trackName: A\n-nan y\n",
        "0.0 orphan\n",
        "trackName: A\n \r \n",
        "trackName: A\n \r \n0.5 x\n",
        "trackName: A\n#\n0.5 #x\n",
        "trackName: A\n0.5 x\ntrackName: B\ntrackName: C\n0.5 y\n",
        "# numOriginalFrames: 38\n# duration: 1.5\n# numAnnotationTracks: 1\n\ntrackName: PairedRoot\n# numAnnotations: 1\n0.100000 MCO_DodgeOpen\n\n",
        "trackName : é\n0.5 é\u{2400}\n",
        "trackNameé: A\n",
        "trackName: A\n0.5\u{a0}x\n",
    ] {
        compare(input);
    }
}

#[test]
fn short_texts_are_read_alike() {
    let mut text = String::new();
    for a in PIECES {
        for b in PIECES {
            for c in PIECES {
                text.clear();
                text.push_str(a);
                text.push_str(b);
                text.push_str(c);
                compare(&text);
            }
        }
    }
}

#[test]
fn lines_after_a_track_are_read_alike() {
    let mut text = String::new();
    for a in PIECES {
        for b in PIECES {
            for c in PIECES {
                text.clear();
                text.push_str("trackName: T\n");
                text.push_str(a);
                text.push_str(b);
                text.push_str(c);
                text.push_str("\n");
                compare(&text);
                text.push_str("0.5 x\n");
                compare(&text);
            }
        }
    }
}

#[test]
fn longer_texts_are_read_alike() {
    let mut seed: u64 = 0x2545_f491_4f6c_dd1d;
    let mut text = String::new();
    for _ in 0..20000 {
        text.clear();
        seed ^= seed << 13;
        seed ^= seed >> 7;
        seed ^= seed << 17;
        let mut bits = seed;
        let count = 4 + (bits % 9);
        bits /= 9;
        for _ in 0..count {
            let piece = match bits % 40 {
                n if n < 24 => PIECES[n as usize],
                n if n < 30 => "\n",
                n if n < 34 => " ",
                n if n < 37 => "0.5",
                _ => "trackName:",
            };
            text.push_str(piece);
            bits /= 40;
        }
        compare(&text);
    }
}
