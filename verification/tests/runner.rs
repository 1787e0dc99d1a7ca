use oi::program::{run_project, Outcome};
use oi::session::{trim, Reply, Session};
use oi::testing::{summary, test_project, Tally};

fn entry(src: &str) -> Vec<Vec<u8>> {
    vec![src.as_bytes().to_vec()]
}

fn text(b: &[u8]) -> String {
    String::from_utf8_lossy(b).to_string()
}

/// `oi test` on a project whose entry is `src`.
fn test(src: &str) -> Outcome {
    test_project(&entry(src), &Vec::new(), None)
}

/// `oi test` output of a project that must pass.
fn ok(out: Outcome) -> String {
    assert!(out.status == 0, "status {}: {}", out.status, text(&out.stderr));
    text(&out.stdout)
}

#[test]
fn run_strips_tests_before_typecheck() {
    let src = "@test bad :: fn() { 1 < \"x\" }\nmain :: fn() { print(\"fine\") }\n";
    assert_eq!(ok(run_project(&entry(src), &Vec::new())).trim(), "fine");
}

#[test]
fn test_runs_all_in_order() {
    let out = ok(test("@test first :: fn() { assert!(1 + 1 == 2) }\n@test second :: fn() { assert!(2 + 2 == 4) }\n"));
    assert!(out.find("first").unwrap() < out.find("second").unwrap() && out.contains("2 passed"));
}

#[test]
fn test_macro_runs_under_test_and_drops_under_run() {
    let src = "test! \"leading literal\" { assert! true }\nmain :: fn() { print(\"fine\") }\n";
    let out = ok(test(src));
    assert!(out.contains("leading literal ... ok") && out.contains("1 passed"));
    assert_eq!(ok(run_project(&entry(src), &Vec::new())).trim(), "fine");
}

#[test]
fn test_payload_renames_and_skips() {
    let out = ok(test("@test.{\"alt name\"} first :: fn() { assert! true }\n@test.{skip = true} second :: fn() { assert! false }\n"));
    assert!(out.contains("alt name ... ok") && out.contains("second ... skipped"));
    assert!(out.contains("1 passed; 1 skipped"));
}

#[test]
fn each_test_starts_from_the_declared_statics() {
    let src = "main :: fn() {}\nn := 0\n@test first :: fn() { n = n + 1; assert!(n == 1) }\n@test second :: fn() { n = n + 1; assert!(n == 1) }\n";
    assert!(ok(test(src)).contains("2 passed"));
}

#[test]
fn failing_test_is_isolated() {
    let out = test("@test first :: fn() { assert! false }\n@test second :: fn() { assert! true }\n");
    let stdout = text(&out.stdout);
    assert!(out.status != 0);
    assert!(stdout.contains("first ... FAILED") && stdout.contains("second ... ok"));
    assert!(stdout.contains("1 passed; 1 failed"));
    assert!(text(&out.stderr).contains("assertion failed"));
}

#[test]
fn a_pattern_leaves_tests_out() {
    let src = "@test alpha :: fn() { assert! true }\n@test beta :: fn() { assert! true }\n";
    let out = test_project(&entry(src), &Vec::new(), Some(b"alp"));
    let stdout = ok(out);
    assert!(stdout.contains("alpha ... ok") && !stdout.contains("beta ..."));
    assert!(stdout.contains("1 passed; 1 filtered out"));
}

#[test]
fn the_summary_names_only_what_happened() {
    let t = |p, f, s, x| text(&summary(&Tally { passed: p, failed: f, skipped: s, filtered: x }));
    assert_eq!(t(2, 0, 0, 0), "2 passed\n");
    assert_eq!(t(0, 3, 1, 12), "0 passed; 3 failed; 1 skipped; 12 filtered out\n");
    assert_eq!(t(1, 0, 0, 4), "1 passed; 4 filtered out\n");
}

#[test]
fn a_test_that_does_not_compile_fails_the_run() {
    let out = test("@test bad :: fn() { 1 < \"x\" }\n");
    assert!(out.status == 1 && out.stdout.is_empty() && text(&out.stderr).starts_with("Error:"));
}

#[test]
fn a_lone_source_runs_its_tests() {
    let out = oi::testing::test_source(b"@test one :: fn() { assert!(3 > 2) }\n", None);
    assert!(out.status == 0 && text(&out.stdout).contains("one ... ok\n1 passed"));
}

/// A session fed `input` line by line, as the REPL runs it.
fn session(input: &str) -> String {
    let mut s = Session::new();
    let mut out = String::new();
    for line in input.lines() {
        if let Reply::Ran(run) = s.step(line.as_bytes()) {
            out.push_str(&text(&run.stdout));
        }
    }
    out.trim().to_string()
}

#[test]
fn only_definitions_replay() {
    assert_eq!(session("x := 1\nprint x\ny := 2\n"), "1\n1\n2");
}

#[test]
fn clear_resets_the_session() {
    assert_eq!(session("x := 1\n:c\nprint x\n"), "1");
}

#[test]
fn session_commands_steer_the_session() {
    let mut s = Session::new();
    assert!(matches!(s.step(b"  "), Reply::Nothing));
    assert!(matches!(s.step(b":h"), Reply::Help));
    assert!(matches!(s.step(b"f :: fn() int { 7 }"), Reply::Ran(_)));
    assert_eq!(text(&s.kept), "f :: fn() int { 7 }\n");
    // a line that fails keeps nothing
    assert!(matches!(s.step(b"g :: fn() int { nope }"), Reply::Ran(o) if o.status == 1));
    assert_eq!(text(&s.kept), "f :: fn() int { 7 }\n");
    assert!(matches!(s.step(b" :c "), Reply::Cleared));
    assert!(s.kept.is_empty());
    assert!(matches!(s.step(b":quit"), Reply::Quit));
    assert_eq!(text(&trim(b" \t x := 1 \n")), "x := 1");
}
