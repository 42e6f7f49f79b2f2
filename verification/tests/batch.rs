use hkanno::batch::{dump_annotations, update_annotations, AnnotationFile};
use hkanno::classmap::{Class, ClassEntry, HkaAnimation};
use hkanno::editor::{apply_hkanno, read_hkanno};
use hkanno::{AnnotationTrack, ClassMap, HkannoError};
use std::borrow::Cow;

fn file(name: &str) -> AnnotationFile {
    AnnotationFile::new(
        format!("dir/{}.hkx", name),
        format!("dir/{}.txt", name),
        Some(format!("{}.hkx", name)),
        format!("# {}\n", name),
    )
}

fn objects(name: &'static str, with_animation: bool) -> ClassMap<'static> {
    let mut classes = vec![ClassEntry { ptr: 1, class: Class::Other }];
    if with_animation {
        classes.push(ClassEntry {
            ptr: 2,
            class: Class::HkaSplineCompressedAnimation {
                num_frames: 10,
                parent: HkaAnimation {
                    duration: Cow::Borrowed("0.5"),
                    frames_at_30_fps: 15,
                    annotation_tracks: vec![AnnotationTrack {
                        track_name: Some(Cow::Borrowed(name)),
                        annotations: vec![],
                    }],
                },
            },
        });
    }
    ClassMap { classes }
}

fn three() -> Vec<(&'static str, ClassMap<'static>)> {
    vec![
        ("dir/a.hkx", objects("a", true)),
        ("dir/b.hkx", objects("b", false)),
        ("dir/c.hkx", objects("c", true)),
    ]
}

fn with_path(path: &str, e: HkannoError) -> String {
    HkannoError::HkxError { source: Box::new(e), path: String::from(path) }.to_string()
}

#[test]
fn dump_with_one_bad_file_among_three() {
    let outcomes = three()
        .into_iter()
        .map(|(path, graph)| match read_hkanno(graph) {
            Ok(content) => Ok(AnnotationFile::new(
                String::from(path),
                path.replace(".hkx", ".txt"),
                path.rsplit('/').next().map(String::from),
                content,
            )),
            Err(e) => Err(with_path(path, e)),
        })
        .collect();
    let files = dump_annotations(outcomes).unwrap();
    assert_eq!(files.len(), 2);
    assert_eq!(files[0].hkx_path, "dir/a.hkx");
    assert_eq!(files[0].anno_path, "dir/a.txt");
    assert_eq!(files[0].display_name, "a.hkx");
    assert_eq!(
        files[0].content,
        "# numOriginalFrames: 10\n# duration: 0.5\n# numAnnotationTracks: 1\n\ntrackName: a\n# numAnnotations: 0\n\n"
    );
    assert_eq!(files[1].hkx_path, "dir/c.hkx");
    assert!(files[1].content.contains("trackName: c\n"));
}

#[test]
fn update_with_one_bad_file_among_three() {
    let mut graphs = three();
    let outcomes = graphs
        .iter_mut()
        .map(|(path, graph)| {
            apply_hkanno("trackName: new\n0.5 x\n", "xml")
                .and_then(|(hkanno, _)| hkanno.write_to_classmap(graph))
                .map_err(|e| with_path(path, e))
        })
        .collect();
    let message = update_annotations(outcomes).unwrap_err();
    assert_eq!(message, "path: dir/b.hkx, err: No `hkaAnimation`-derived class found");
    assert!(message.contains("dir/b.hkx"));
    // the other two were written all the same
    for (path, graph) in graphs {
        if path != "dir/b.hkx" {
            let text = read_hkanno(graph).unwrap();
            assert!(text.contains("trackName: new\n# numAnnotations: 1\n0.5 x\n"));
        }
    }
}

#[test]
fn dump_fails_only_where_nothing_succeeded() {
    let message = dump_annotations(vec![Err(String::from("one")), Err(String::from("two")), Err(String::from("three"))]).unwrap_err();
    assert_eq!(message, "one\ntwo\nthree");
    let message = dump_annotations(vec![Err(String::from("only"))]).unwrap_err();
    assert_eq!(message, "only");
    assert!(dump_annotations(vec![]).unwrap().is_empty());
    assert_eq!(dump_annotations(vec![Err(String::from("x")), Ok(file("a"))]).unwrap().len(), 1);
}

#[test]
fn update_counts_the_files() {
    assert_eq!(update_annotations(vec![]).unwrap(), "Updated 0 file(s)");
    assert_eq!(update_annotations(vec![Ok(())]).unwrap(), "Updated 1 file(s)");
    assert_eq!(update_annotations(vec![Ok(()); 12]).unwrap(), "Updated 12 file(s)");
    let message = update_annotations(vec![Err(String::from("a")), Ok(()), Err(String::from("b"))]).unwrap_err();
    assert_eq!(message, "a\nb");
}

#[test]
fn a_file_without_a_name_is_shown_as_unknown() {
    let f = AnnotationFile::new(String::from("x"), String::from("y"), None, String::new());
    assert_eq!(f.display_name, "unknown.hkx");
    assert_eq!(hkanno::batch::UNKNOWN_NAME, "unknown.hkx");
}
