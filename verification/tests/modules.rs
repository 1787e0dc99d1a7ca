use oi::program::{run_project, Outcome};

/// Run a project: `main.oi` is the entry, the other files are there for `use`.
fn project(files: &[(&str, &[&str])]) -> Outcome {
    let entry: Vec<Vec<u8>> = files.iter().filter(|(p, _)| *p == "main.oi").map(|(_, ls)| ls.join("\n").into_bytes()).collect();
    let others: Vec<(Vec<u8>, Vec<u8>)> = files
        .iter()
        .filter(|(p, _)| *p != "main.oi")
        .map(|(p, ls)| (p.as_bytes().to_vec(), ls.join("\n").into_bytes()))
        .collect();
    run_project(&entry, &others)
}

fn trim(b: &[u8]) -> String {
    String::from_utf8_lossy(b).trim().to_string()
}

/// The project prints `expected`.
fn check(files: &[(&str, &[&str])], expected: &str) {
    let out = project(files);
    assert!(out.status == 0, "status {}: {}", out.status, trim(&out.stderr));
    assert_eq!(trim(&out.stdout), expected);
}

/// The project is refused with an error containing `expected`.
fn fail_with(files: &[(&str, &[&str])], expected: &str) {
    let out = project(files);
    let err = trim(&out.stderr);
    assert!(out.status == 1 && err.contains(expected), "expected {expected:?}, got status {}: {err}", out.status);
}

#[test]
fn pub_static_crosses_modules() {
    check(
        &[
            ("main.oi", &["use mem", "main :: fn() { mem.track(3); mem.track(4); print(mem.used) }"]),
            ("mem.oi", &["module mem", "pub used := 0", "pub track :: fn(n: int) { used = used + n }"]),
        ],
        "7",
    );
}

#[test]
fn static_is_read_only_outside_its_module() {
    fail_with(
        &[("main.oi", &["use mem", "main :: fn() { mem.used = 9 }"]), ("mem.oi", &["module mem", "pub used := 0"])],
        "cannot assign to `mem.used` outside module `mem`",
    );
}

#[test]
fn static_needs_a_comptime_initializer() {
    fail_with(
        &[
            ("main.oi", &["use thing", "main :: fn() { print(thing.n) }"]),
            ("thing.oi", &["module thing", "pub n := compute()", "compute :: fn() int { 5 }"]),
        ],
        "a static needs a comptime initializer",
    );
}

#[test]
fn const_enum_variant_crosses_modules() {
    check(
        &[
            ("main.oi", &["use mem", "main :: fn() { print(mem.RED == mem.E.green) }"]),
            ("mem.oi", &["module mem", "pub E :: enum { red green }", "pub RED :: E.green"]),
        ],
        "true",
    );
}

#[test]
fn modules_keep_their_private_names() {
    let lib: &[&str] = &["module geo", "pub Point :: struct { x: int, y: int }", "pub sum :: fn(p: Point) int { twice(p.x) + p.y }", "twice :: fn(n: int) int { n * 2 }"];
    check(&[("main.oi", &["use geo", "print(geo.sum(geo.Point.{x = 1, y = 2}))"]), ("geo.oi", lib)], "4");
    fail_with(&[("main.oi", &["use geo", "print(geo.twice(1))"]), ("geo.oi", lib)], "`twice` is private to module `geo`");
    fail_with(&[("main.oi", &["use geo", "print(geo.area(1))"]), ("geo.oi", lib)], "module `geo` has no `area`");
    check(&[("main.oi", &["use geo.{sum, Point}", "print(sum(Point.{x = 3, y = 1}))"]), ("geo.oi", lib)], "7");
    fail_with(&[("main.oi", &["use nowhere", "print(1)"])], "cannot find module `nowhere`");
    fail_with(&[("main.oi", &["use geo", "print(1)"]), ("geo.oi", &["pub n :: 1"])], "must declare `module geo`");
    fail_with(&[("main.oi", &["use geo", "print(1)"]), ("geo.oi", &["module geo", "print(1)"])], "top-level statements");
}

#[test]
fn a_module_may_span_a_directory() {
    check(
        &[
            ("main.oi", &["use calc", "print(calc.add(2, 3), calc.neg(1))"]),
            ("calc/add.oi", &["module calc", "pub add :: fn(a: int, b: int) int { a + b }"]),
            ("calc/neg.oi", &["module calc", "pub neg :: fn(a: int) int { sub(0, a) }", "sub :: fn(a: int, b: int) int { a - b }"]),
        ],
        "5 -1",
    );
}

#[test]
fn directory_entry_runs_all_its_files_as_one_main() {
    let entry = vec![b"f :: fn() int { 42 }".to_vec(), b"print(f())".to_vec()];
    let out = run_project(&entry, &Vec::new());
    assert_eq!((out.status, trim(&out.stdout)), (0, "42".to_string()));
}

#[test]
fn import_cycles_are_refused() {
    fail_with(
        &[
            ("main.oi", &["use a", "print(a.one())"]),
            ("a.oi", &["module a", "use b", "pub one :: fn() int { 1 }"]),
            ("b.oi", &["module b", "use a", "pub two :: fn() int { 2 }"]),
        ],
        "import cycle: main -> a -> b -> a",
    );
    fail_with(&[("main.oi", &["use a", "print(1)"]), ("a.oi", &["module a", "use main"])], "import cycle: main -> a -> main");
}

#[test]
fn a_shared_import_is_no_cycle() {
    check(
        &[
            ("main.oi", &["use a", "use b", "print(a.f(), b.g())"]),
            ("a.oi", &["module a", "use c", "pub f :: fn() int { c.k() + 1 }"]),
            ("b.oi", &["module b", "use c", "pub g :: fn() int { c.k() + 2 }"]),
            ("c.oi", &["module c", "pub k :: fn() int { 10 }"]),
        ],
        "11 12",
    );
}

#[test]
fn imports_take_other_names() {
    let lib: &[&str] = &["module geo", "pub sum :: fn(a: int, b: int) int { a + b }", "pub twice :: fn(n: int) int { n * 2 }"];
    check(&[("main.oi", &["g :: use geo", "print(g.sum(1, 2))"]), ("geo.oi", lib)], "3");
    check(&[("main.oi", &["use geo.{add :: sum}", "print(add(2, 2))"]), ("geo.oi", lib)], "4");
    check(&[("main.oi", &["add :: use geo.sum", "print(add(3, 2))"]), ("geo.oi", lib)], "5");
    check(&[("main.oi", &["g :: use geo.{sum}", "print(g.sum(4, 2))"]), ("geo.oi", lib)], "6");
    fail_with(&[("main.oi", &["g :: use geo.{sum}", "print(g.twice(1))"]), ("geo.oi", lib)], "`twice` is not part of `g`");
    fail_with(&[("main.oi", &["use geo", "geo :: use other", "print(1)"]), ("geo.oi", lib)], "`geo` already names module `geo`");
    fail_with(&[("main.oi", &["use geo.sum.more", "print(1)"]), ("geo.oi", lib)], "nested module paths aren't supported yet");
}

#[test]
fn item_imports_can_be_made_public_again() {
    let a: &[&str] = &["module a", "pub f :: fn() int { 7 }"];
    let b: &[&str] = &["module b", "pub use a.{f}"];
    check(&[("main.oi", &["use b", "print(b.f())"]), ("a.oi", a), ("b.oi", b)], "7");
    check(&[("main.oi", &["use b.{f}", "print(f())"]), ("a.oi", a), ("b.oi", b)], "7");
    fail_with(&[("main.oi", &["use b", "print(1)"]), ("b.oi", &["module b", "pub use a"]), ("a.oi", a)], "only item imports can be re-exported yet");
}

#[test]
fn rt_is_internal_to_core() {
    fail_with(&[("main.oi", &["use rt", "print(1)"]), ("rt.oi", &["module rt", "pub x := 1"])], "`rt` is internal to core");
}
