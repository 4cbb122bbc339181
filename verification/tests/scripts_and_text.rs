use katoa::deno::{
    deno_config, pipeline_url, run_deno, run_deno_builder, run_deno_builder_command,
    run_deno_command, serialize_args, step_command, url_or_message, ScriptOutcome,
};
use katoa::failure::Failure;
use katoa::paths::{FilePath, PathPart};
use katoa::text::{
    chars_of, concat2, concat3, contains_text, decimal_text, list_has, same_text, text_of,
};
use katoa::version::replace_with_version;

fn strings(list: &[&str]) -> Vec<String> {
    list.iter().map(|s| s.to_string()).collect()
}

#[test]
fn imports_are_pinned() {
    assert_eq!(
        replace_with_version("https://deno.land/x/katoa/mod.ts", false, false, "0.1.52"),
        "https://deno.land/x/katoa@v0.1.52/mod.ts"
    );
    let two = "a deno.land/x/katoa/ b\nimport \"https://deno.land/x/katoa/lib.ts\";\n";
    assert_eq!(
        replace_with_version(two, false, false, "1.2.3"),
        "a deno.land/x/katoa@v1.2.3/ b\nimport \"https://deno.land/x/katoa@v1.2.3/lib.ts\";\n"
    );
    assert_eq!(
        replace_with_version("deno.land/x/katoa/deno.land/x/katoa/", false, false, "1$0"),
        "deno.land/x/katoa@v1$0/deno.land/x/katoa@v1$0/"
    );
}

#[test]
fn the_dot_of_an_import_stands_for_any_character() {
    assert_eq!(
        replace_with_version("denoXland/x/katoa/ denoéland/x/katoa/", false, false, "1.0.0"),
        "deno.land/x/katoa@v1.0.0/ deno.land/x/katoa@v1.0.0/"
    );
    let broken = "deno\nland/x/katoa/ denoland/x/katoa/";
    assert_eq!(replace_with_version(broken, false, false, "1.0.0"), broken);
}

#[test]
fn scripts_are_left_alone_on_request() {
    let s = "https://deno.land/x/katoa/mod.ts";
    assert_eq!(replace_with_version(s, true, false, "1.0.0"), s);
    assert_eq!(replace_with_version(s, false, true, "1.0.0"), s);
    assert_eq!(replace_with_version("console.log(1)", false, false, "1.0.0"), "console.log(1)");
    assert_eq!(replace_with_version("", false, false, "1.0.0"), "");
}

#[test]
fn pinned_scripts_need_no_second_pass() {
    let once = replace_with_version("x deno.land/x/katoa/ y deno.land/x/katoa/", false, false, "2.0.1");
    assert_eq!(replace_with_version(&once, false, false, "2.0.1"), once);
}

#[test]
fn deno_is_called_with_these_arguments() {
    let line = run_deno_command(&strings(&["3", "4"]));
    assert_eq!(line.program, "deno");
    assert_eq!(line.args, strings(&["run", "-A", "-", "3", "4"]));
    let step = step_command(10, 907);
    assert_eq!(step.program, "deno");
    assert_eq!(step.args, strings(&["run", "-A", "-", "10", "907"]));
    let args = serialize_args("file:///p/.katoa/a.ts", "/tmp/out");
    let build = run_deno_builder_command("/bin/deno", &args, "/p", "/tmp/out", false);
    assert_eq!(build.program, "/bin/deno");
    assert_eq!(build.dir, Some("/p".to_owned()));
    assert_eq!(line.dir, None);
    assert_eq!(
        build.args,
        strings(&[
            "run",
            "--allow-read=/p",
            "--allow-write=/tmp/out",
            "--allow-net",
            "--allow-env=KATOA_JOB",
            "--no-config",
            "-",
            "file:///p/.katoa/a.ts",
            "/tmp/out",
        ])
    );
    let configured = run_deno_builder_command("deno", &strings(&[]), "/p", "/o", true);
    assert!(!configured.args.contains(&"--no-config".to_owned()));
    assert_eq!(configured.args.last().unwrap(), "-");
}

#[test]
fn deno_config_stands_in_the_project() {
    let config = deno_config(&FilePath { parts: vec![PathPart::Name("p".to_owned())] });
    assert_eq!(config.parts.len(), 2);
    assert_eq!(config.file_name(), Some("deno.json".to_owned()));
}

fn trouble(r: Result<(), Failure>) -> Option<(String, Option<String>)> {
    r.err().map(|failure| (failure.message, failure.cause))
}

#[test]
fn ends_of_scripts_are_judged() {
    for (outcome, message) in [
        (ScriptOutcome::NotStarted("why".to_owned()), "Failed to spawn deno"),
        (ScriptOutcome::NotWritten("why".to_owned()), "Failed to write to deno stdin"),
        (ScriptOutcome::NotAwaited("why".to_owned()), "Failed to wait for deno"),
    ] {
        let expected = Some((message.to_owned(), Some("why".to_owned())));
        assert_eq!(trouble(run_deno(&outcome)), expected);
        assert_eq!(trouble(run_deno_builder(&outcome)), expected);
    }
    let bad = ScriptOutcome::Ended { success: false };
    assert_eq!(trouble(run_deno(&bad)), None);
    assert_eq!(
        trouble(run_deno_builder(&bad)),
        Some(("Failed to run deno script".to_owned(), None))
    );
    let good = ScriptOutcome::Ended { success: true };
    assert_eq!(trouble(run_deno(&good)), None);
    assert_eq!(trouble(run_deno_builder(&good)), None);
}

#[test]
fn paths_become_urls() {
    assert_eq!(
        pipeline_url("/home/me/p-1/.katoa/build_2.ts"),
        Ok("file:///home/me/p-1/.katoa/build_2.ts".to_owned())
    );
    assert_eq!(
        pipeline_url("/home/my self/.katoa/b#1.ts"),
        Ok("file:///home/my%20self/.katoa/b%231.ts".to_owned())
    );
    let message = "Unable to convert pipeline path to URL";
    assert_eq!(pipeline_url("p/.katoa/build.ts"), Err(message.to_owned()));
    assert_eq!(pipeline_url(""), Err(message.to_owned()));
    assert_eq!(url_or_message(Some("u".to_owned())), Ok("u".to_owned()));
    assert_eq!(url_or_message(None), Err(message.to_owned()));
}

#[test]
fn text_helpers() {
    assert!(same_text("é", "é"));
    assert!(!same_text("a", "ab"));
    assert_eq!(chars_of("aé"), vec!['a', 'é']);
    assert_eq!(text_of(&vec!['a', 'b', 'c'], 1, 3), "bc");
    assert_eq!(concat2("a", "b"), "ab");
    assert_eq!(concat3("a", "b", "c"), "abc");
    assert!(contains_text("1.77.0-insider", "insider"));
    assert!(contains_text("abc", ""));
    assert!(contains_text("", ""));
    assert!(!contains_text("insid", "insider"));
    assert!(contains_text("aab", "ab"));
    assert_eq!(decimal_text(0), "0");
    assert_eq!(decimal_text(1203), "1203");
    assert_eq!(decimal_text(usize::MAX), format!("{}", usize::MAX));
    assert!(list_has(&strings(&["a", "b"]), "b"));
    assert!(!list_has(&strings(&["a", "b"]), "c"));
}
