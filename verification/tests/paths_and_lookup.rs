use katoa::locate::{
    katoa_dir_in, resolve_katoa_dir, resolve_pipeline, start_search, DirSearch, LookupError, LookupEvent,
    PipelineLookup,
};
use katoa::paths::{file_extension, file_stem, FilePath, PathPart};
use std::path::{Component, Path, PathBuf};

fn path(s: &str) -> FilePath {
    let mut parts = Vec::new();
    for c in Path::new(s).components() {
        parts.push(match c {
            Component::Prefix(p) => {
                PathPart::Prefix(p.as_os_str().to_str().unwrap().to_owned())
            }
            Component::RootDir => PathPart::Root,
            Component::CurDir => PathPart::Current,
            Component::ParentDir => PathPart::Up,
            Component::Normal(n) => PathPart::Name(n.to_str().unwrap().to_owned()),
        });
    }
    FilePath { parts }
}

fn show(p: &FilePath) -> String {
    let mut out = PathBuf::new();
    for part in &p.parts {
        match part {
            PathPart::Prefix(s) => out.push(s),
            PathPart::Root => out.push("/"),
            PathPart::Current => out.push("."),
            PathPart::Up => out.push(".."),
            PathPart::Name(s) => out.push(s),
        }
    }
    out.to_str().unwrap().to_owned()
}

fn same_as_std(p: &FilePath, q: &Path) -> bool {
    show(p) == show(&path(q.to_str().unwrap()))
}

const SAMPLES: [&str; 18] = [
    "", ".", "..", "/", "a", "a/", "a/b", "/a", "/a/b.c", "./a", "../a", "a/..", "a/.", ".katoa",
    "/home/me/.katoa/build.ts", "my.pipeline", "a.", "/..",
];

#[test]
fn paths_agree_with_std() {
    for a in SAMPLES {
        let std_a = Path::new(a);
        let ours = path(a);
        match (ours.parent(), std_a.parent()) {
            (Some(p), Some(q)) => assert!(same_as_std(&p, q), "parent of {a}"),
            (None, None) => {}
            _ => panic!("parent of {a}"),
        }
        assert_eq!(
            ours.file_name(),
            std_a.file_name().map(|n| n.to_str().unwrap().to_owned()),
            "name of {a}"
        );
        assert_eq!(ours.ends_with(".katoa"), std_a.ends_with(".katoa"));
        assert!(same_as_std(&ours.with_extension("ts"), &std_a.with_extension("ts")), "ts of {a}");
        assert!(same_as_std(&ours.with_extension(""), &std_a.with_extension("")), "none of {a}");
        assert!(same_as_std(&ours.copy(), std_a));
        assert!(same_as_std(&ours.child("x"), &std_a.join("x")));
        for b in SAMPLES {
            assert!(same_as_std(&ours.join(&path(b)), &std_a.join(b)), "{a} joined with {b}");
        }
    }
}

#[test]
fn volumes_are_kept_apart() {
    let volume = |s: &str| FilePath { parts: vec![PathPart::Prefix(s.to_owned()), PathPart::Root] };
    let base = volume("C:").child("work");
    let rooted = path("/windows");
    let joined = base.join(&rooted);
    assert_eq!(joined.parts.len(), 3);
    assert!(matches!(&joined.parts[0], PathPart::Prefix(s) if s == "C:"));
    let other = base.join(&volume("D:"));
    assert_eq!(other.parts.len(), 2);
    assert!(matches!(&other.parts[0], PathPart::Prefix(s) if s == "D:"));
}

#[test]
fn dots_are_resolved_on_verbatim_volumes() {
    let base = FilePath {
        parts: vec![PathPart::Prefix("\\\\?\\C:".to_owned()), PathPart::Root],
    }
    .child("a")
    .child("b");
    let text = |p: &FilePath| {
        p.parts
            .iter()
            .map(|part| match part {
                PathPart::Prefix(s) | PathPart::Name(s) => s.clone(),
                PathPart::Root => "root".to_owned(),
                PathPart::Current => ".".to_owned(),
                PathPart::Up => "..".to_owned(),
            })
            .collect::<Vec<String>>()
            .join("|")
    };
    assert_eq!(text(&base.join(&path("../x"))), "\\\\?\\C:|root|a|x");
    assert_eq!(text(&base.join(&path("../../../x"))), "\\\\?\\C:|root|x");
    assert_eq!(text(&base.join(&path("./x"))), "\\\\?\\C:|root|a|b|x");
    assert_eq!(text(&base.join(&path("/x"))), "\\\\?\\C:|root|x");
    let plain = FilePath { parts: vec![PathPart::Prefix("C:".to_owned()), PathPart::Root] };
    assert_eq!(text(&plain.join(&path("../x"))), "C:|root|..|x");
}

#[test]
fn a_search_needs_a_current_directory() {
    assert!(matches!(start_search(Ok(path("/a"))), Ok(DirSearch::Probe(p)) if show(&p) == "/a"));
    let refused = start_search(Err("gone".to_owned()));
    assert_eq!(refused.err().map(|error| error.message()), Some("gone".to_owned()));
}

#[test]
fn stems_and_extensions() {
    for (name, stem, ext) in [
        ("build.ts", "build", Some("ts")),
        ("build", "build", None),
        (".katoa", ".katoa", None),
        (".katoa.ts", ".katoa", Some("ts")),
        ("a.b.ts", "a.b", Some("ts")),
        ("a.", "a", Some("")),
        ("", "", None),
    ] {
        assert_eq!(file_stem(name), stem);
        assert_eq!(file_extension(name), ext.map(|e: &str| e.to_owned()));
    }
}

#[test]
fn setting_an_extension_keeps_directory_and_stem() {
    let p = path("/a/b.c/d.e").with_extension("ts");
    assert_eq!(show(&p), "/a/b.c/d.ts");
    assert_eq!(show(&path("/a/..").with_extension("ts")), "/a/..");
}

#[test]
fn a_child_has_its_directory_as_parent() {
    let c = path("/a/b").child("c");
    assert_eq!(show(&c.parent().unwrap()), "/a/b");
    assert_eq!(c.file_name(), Some("c".to_owned()));
}

fn search(cwd: &str, present: &[&str]) -> Option<String> {
    let mut state = DirSearch::Probe(path(cwd));
    loop {
        state = match state {
            DirSearch::Probe(at) => {
                let yes = present.contains(&show(&katoa_dir_in(&at)).as_str());
                resolve_katoa_dir(at, yes)
            }
            DirSearch::Found(dir) => return Some(show(&dir)),
            DirSearch::Missing => return None,
        };
    }
}

#[test]
fn nearest_katoa_directory_is_found() {
    let there = ["/a/.katoa", "/a/b/c/.katoa", "/.katoa"];
    assert_eq!(search("/a/b/c/d", &there), Some("/a/b/c/.katoa".to_owned()));
    assert_eq!(search("/a/b", &there), Some("/a/.katoa".to_owned()));
    assert_eq!(search("/x/y", &there), Some("/.katoa".to_owned()));
    assert_eq!(search("/x/y", &["/a/.katoa"]), None);
}

struct TestDisk {
    files: Vec<&'static str>,
    cwd: Result<&'static str, &'static str>,
    canonical_fails: bool,
}

fn look_up(pipeline: &str, disk: &TestDisk) -> (Result<String, String>, usize) {
    let mut state = PipelineLookup::IsFile(path(pipeline));
    let mut steps = 0;
    loop {
        let event = match &state {
            PipelineLookup::IsFile(p) => LookupEvent::Answer(disk.files.contains(&show(p).as_str())),
            PipelineLookup::Canonical(p) => {
                if disk.canonical_fails {
                    LookupEvent::Refused("permission denied".to_owned())
                } else {
                    LookupEvent::Path(path("/real").join(p))
                }
            }
            PipelineLookup::CurrentDir(_) => match disk.cwd {
                Ok(cwd) => LookupEvent::Path(path(cwd)),
                Err(e) => LookupEvent::Refused(e.to_owned()),
            },
            PipelineLookup::Search { at, .. } => {
                let dir = show(&katoa_dir_in(at));
                LookupEvent::Answer(disk.files.iter().any(|f| f.starts_with(&dir)))
            }
            PipelineLookup::Exists(p) => LookupEvent::Answer(disk.files.contains(&show(p).as_str())),
            PipelineLookup::Done(p) => return (Ok(show(p)), steps),
            PipelineLookup::Failed(e) => return (Err(e.message()), steps),
        };
        state = resolve_pipeline(state, event);
        steps += 1;
    }
}

#[test]
fn pipelines_are_looked_up() {
    let disk = TestDisk {
        files: vec!["/p/.katoa/build.ts", "/p/src/main.ts", ".katoa/local.ts", "stray.ts", "/p/.katoa/my.ts"],
        cwd: Ok("/p/src/deep"),
        canonical_fails: false,
    };
    assert_eq!(look_up("build", &disk).0, Ok("/p/.katoa/build.ts".to_owned()));
    assert_eq!(look_up("build.ts", &disk).0, Ok("/p/.katoa/build.ts".to_owned()));
    assert_eq!(look_up("my.pipeline", &disk).0, Ok("/p/.katoa/my.ts".to_owned()));
    assert_eq!(look_up("build", &disk).1, 6);
    assert_eq!(look_up("/p/.katoa/build.ts", &disk).0, Ok("/p/.katoa/build.ts".to_owned()));
    assert_eq!(look_up(".katoa/local.ts", &disk).0, Ok("/real/.katoa/local.ts".to_owned()));
    assert_eq!(
        look_up("stray.ts", &disk).0,
        Err("Pipeline must be in the .katoa directory".to_owned())
    );
    assert_eq!(
        look_up("/p/src/main.ts", &disk).0,
        Err("Pipeline must be in the .katoa directory".to_owned())
    );
    assert_eq!(look_up("deploy", &disk).0, Err("Could not find pipeline".to_owned()));
}

#[test]
fn lookups_fail_as_they_should() {
    let nowhere = TestDisk { files: vec![], cwd: Ok("/p/src"), canonical_fails: false };
    assert_eq!(look_up("build", &nowhere).0, Err("Could not find .katoa directory".to_owned()));
    let gone = TestDisk { files: vec![], cwd: Err("no such directory"), canonical_fails: false };
    assert_eq!(look_up("build", &gone).0, Err("no such directory".to_owned()));
    let locked = TestDisk {
        files: vec!["/p/.katoa/build.ts"],
        cwd: Ok("/p"),
        canonical_fails: true,
    };
    assert_eq!(look_up("/p/.katoa/build.ts", &locked).0, Err("permission denied".to_owned()));
    assert_eq!(LookupError::NoPipeline.message(), "Could not find pipeline");
}
