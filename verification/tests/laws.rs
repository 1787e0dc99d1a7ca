use oi::ast::{BinOp, Expr};
use oi::cache::Store;
use oi::commands::{init, scaffold, Disk, Step, Template};
use oi::driver::{run_with_opts, DebugOpts, Emit};
use oi::ir::NumKind;
use oi::loader::{Loader, Module};
use oi::machine::{arith, narrow};
use oi::program::{check_source, run_source, session_defs};
use oi::rc::release_order;
use oi::role::marker;
use oi::text::fmt_i64;
use oi::translator::Translator;
use oi::types::{base_name, FieldDef, Typ};

fn kind(width: u32, signed: bool) -> NumKind {
    NumKind { width, signed }
}

fn text(b: &[u8]) -> String {
    String::from_utf8_lossy(b).to_string()
}

// ---------------------------------------------------------------- integers

#[test]
fn narrowing_wraps_into_the_kind() {
    assert_eq!(narrow(300, kind(8, false)), 44);
    assert_eq!(narrow(-1, kind(8, false)), 255);
    assert_eq!(narrow(200, kind(8, true)), -56);
    assert_eq!(narrow(127, kind(7, false)), 127);
    assert_eq!(narrow(128, kind(7, false)), 0);
    assert_eq!(narrow(i64::MIN, kind(64, true)), i64::MIN);
}

#[test]
fn narrowing_twice_is_narrowing_once() {
    for v in [-1000i64, -129, -1, 0, 1, 127, 128, 255, 256, 70000, i64::MAX, i64::MIN] {
        for k in [kind(8, false), kind(8, true), kind(7, false), kind(16, true), kind(64, true)] {
            assert_eq!(narrow(narrow(v, k), k), narrow(v, k));
        }
    }
}

#[test]
fn division_rounds_toward_zero() {
    let int = kind(64, true);
    assert_eq!(arith(BinOp::Div, -7, 2, int), Ok(-3));
    assert_eq!(arith(BinOp::Mod, -7, 2, int), Ok(-1));
    assert_eq!(arith(BinOp::Mod, 7, -2, int), Ok(1));
    assert_eq!(arith(BinOp::Mod, -10, 7, int), Ok(-3));
    assert_eq!(arith(BinOp::Mod, 10, -7, int), Ok(3));
    for (a, b) in [(-7i64, 2i64), (7, -2), (-7, -2), (9, 4), (0, 5), (i64::MIN, 3)] {
        let q = arith(BinOp::Div, a, b, int).unwrap();
        let r = arith(BinOp::Mod, a, b, int).unwrap();
        assert_eq!(q * b + r, a);
        assert!(r == 0 || (r < 0) == (a < 0));
        assert!(r.abs() < b.abs());
    }
}

#[test]
fn division_by_zero_and_negative_exponents_fail() {
    let int = kind(64, true);
    assert_eq!(arith(BinOp::Div, 1, 0, int), Err(b"division by zero".to_vec()));
    assert_eq!(arith(BinOp::Mod, 1, 0, int), Err(b"division by zero".to_vec()));
    assert_eq!(arith(BinOp::Pow, 2, -1, int), Err(b"negative exponent".to_vec()));
    assert_eq!(arith(BinOp::Pow, 2, 10, int), Ok(1024));
}

#[test]
fn arithmetic_wraps() {
    let int = kind(64, true);
    assert_eq!(arith(BinOp::Add, i64::MAX, 1, int), Ok(i64::MIN));
    assert_eq!(arith(BinOp::Mul, 16, 16, kind(8, false)), Ok(0));
    assert_eq!(arith(BinOp::Sub, 0, 1, kind(8, false)), Ok(255));
    assert_eq!(arith(BinOp::Pow, 2, 63, int), Ok(i64::MIN));
}

#[test]
fn integers_print_in_decimal() {
    assert_eq!(text(&fmt_i64(i64::MIN)), "-9223372036854775808");
    assert_eq!(text(&fmt_i64(0)), "0");
    assert_eq!(text(&fmt_i64(1024)), "1024");
}

// ---------------------------------------------------------------- the cache's layout

#[test]
fn cache_entries_are_named_by_their_key_in_hex() {
    let store = Store::open(b"/p", false).unwrap();
    assert_eq!(text(&store.dir), "/p/.oi/cache");
    assert_eq!(text(&store.entry(&[0x01, 0xab, 0xff])), "/p/.oi/cache/01abff");
    assert_eq!(text(&store.entry(&[])), "/p/.oi/cache/");
    assert!(Store::open(b"/p", true).is_none());
}

#[test]
fn distinct_keys_have_distinct_entries() {
    let store = Store::open(b".", false).unwrap();
    let keys: [&[u8]; 5] = [&[], &[0], &[0, 0], &[1, 0], &[0x10]];
    for (i, a) in keys.iter().enumerate() {
        for (j, b) in keys.iter().enumerate() {
            assert_eq!(store.entry(a) == store.entry(b), i == j);
        }
    }
}

// ---------------------------------------------------------------- scaffolding

#[test]
fn init_writes_the_entry_the_ignore_file_and_a_repository() {
    let steps = init(Disk { entry_exists: false, ignore_exists: false, inside_git: false }).unwrap();
    assert_eq!(steps.len(), 4);
    assert!(matches!(&steps[0], Step::Write(p, Template::Main) if text(p) == "./src/main.oi"));
    assert!(matches!(&steps[1], Step::Write(p, Template::Ignore) if text(p) == "./.gitignore"));
    assert!(matches!(&steps[2], Step::GitInit(d) if text(d) == "."));
    assert!(matches!(&steps[3], Step::Announce(m) if text(m) == "oi: created ./src/main.oi"));
}

#[test]
fn init_keeps_what_is_there() {
    let steps = init(Disk { entry_exists: false, ignore_exists: true, inside_git: true }).unwrap();
    assert_eq!(steps.len(), 2);
    assert!(matches!(&steps[0], Step::Write(_, Template::Main)));
    assert!(matches!(&steps[1], Step::Announce(_)));
}

#[test]
fn init_refuses_an_existing_entry() {
    let err = init(Disk { entry_exists: true, ignore_exists: false, inside_git: false }).unwrap_err();
    assert_eq!(text(&err), "oi: ./src/main.oi already exists");
    let err = scaffold(b"demo", Disk { entry_exists: true, ignore_exists: true, inside_git: true }).unwrap_err();
    assert_eq!(text(&err), "oi: demo/src/main.oi already exists");
}

// ---------------------------------------------------------------- names

#[test]
fn markers_resolve_to_core() {
    assert_eq!(text(&marker(b"nozero").unwrap()), "core::nozero");
    assert_eq!(text(&marker(b"pure").unwrap()), "core::pure");
    assert!(marker(b"nonzero").is_none());
    assert!(marker(b"").is_none());
}

#[test]
fn a_generic_instance_is_filed_under_its_base_name() {
    assert_eq!(text(&base_name(b"Box[int]")), "Box");
    assert_eq!(text(&base_name(b"Box")), "Box");
    assert_eq!(text(&base_name(b"Pair[int, Box[string]]")), "Pair");
}

// ---------------------------------------------------------------- ownership

fn file_type() -> Typ {
    Typ::Struct(b"File".to_vec(), vec![FieldDef { name: b"fd".to_vec(), typ: Typ::Int(64) }])
}

fn with_drop(tr: &mut Translator) {
    tr.claims.push((b"File".to_vec(), b"Drop".to_vec()));
    tr.scopes.push(Vec::new());
    tr.defers.push(Vec::new());
}

#[test]
fn a_binding_owns_a_resource_and_a_move_takes_it() {
    let mut tr = Translator::new();
    with_drop(&mut tr);
    assert!(tr.is_resource(&file_type()));
    assert!(tr.is_affine(&file_type()));
    tr.bind_local(b"f", 3, file_type(), false);
    assert_eq!(tr.scopes[0].len(), 1);
    assert_eq!(tr.scopes[0][0].0, 3);
    let local = tr.vars[0].1.copy();
    assert_eq!(tr.move_local(b"f", &local).ok(), Some(3));
    assert!(tr.vars.is_empty());
    assert!(tr.scopes[0].is_empty());
}

#[test]
fn a_borrowed_binding_cannot_move() {
    let mut tr = Translator::new();
    with_drop(&mut tr);
    tr.declare(b"f", 0, file_type(), false);
    let local = tr.vars[0].1.copy();
    let err = tr.move_local(b"f", &local).unwrap_err();
    assert_eq!(text(&err.msg), "cannot move `f`, it is borrowed here");
    assert_eq!(tr.vars.len(), 1);
}

#[test]
fn a_defer_body_cannot_move() {
    let mut tr = Translator::new();
    with_drop(&mut tr);
    tr.bind_local(b"f", 1, file_type(), false);
    tr.deferring = true;
    let local = tr.vars[0].1.copy();
    let err = tr.move_local(b"f", &local).unwrap_err();
    assert_eq!(text(&err.msg), "cannot move a local out of a defer body");
}

#[test]
fn plain_values_are_not_owned() {
    let mut tr = Translator::new();
    with_drop(&mut tr);
    tr.own_local(5, Typ::Int(64));
    assert!(tr.scopes[0].is_empty());
    tr.own_local(6, Typ::Array(Box::new(Typ::Int(64))));
    assert_eq!(tr.scopes[0].len(), 1);
}

#[test]
fn a_projection_cannot_move_a_resource() {
    let mut tr = Translator::new();
    with_drop(&mut tr);
    let e = Expr::Index { coll: Box::new(Expr::Ident(b"a".to_vec())), index: Box::new(Expr::Int(0)) };
    let err = tr.move_resource(&e, &file_type()).unwrap_err();
    assert_eq!(text(&err.msg), "cannot move File out of its container");
    // a plain value never moves
    assert!(tr.move_resource(&e, &Typ::Int(64)).is_ok());
}

#[test]
fn a_scope_releases_last_in_first_out() {
    let scope: Vec<(usize, Typ)> = vec![(1, Typ::Int(64)), (2, Typ::Int(64)), (3, Typ::Int(64))];
    assert_eq!(release_order(&scope), vec![2, 1, 0]);
    assert_eq!(release_order(&Vec::new()), Vec::<usize>::new());
}

#[test]
fn bound_values_are_read_in_place() {
    let mut tr = Translator::new();
    with_drop(&mut tr);
    tr.declare(b"x", 7, Typ::Int(64), false);
    let e = Expr::Ident(b"x".to_vec());
    let (slot, typ) = tr.expr(&e, 8).unwrap();
    assert_eq!(slot, 7);
    assert!(matches!(typ, Typ::Int(64)));
    assert!(tr.code.is_empty());
    let missing = Expr::Ident(b"y".to_vec());
    assert_eq!(text(&tr.expr(&missing, 8).unwrap_err().msg), "undefined variable `y`");
}

// ---------------------------------------------------------------- runs

#[test]
fn a_run_reports_rejections_and_aborts_by_status() {
    let ok = run_source(b"print(1)");
    assert_eq!((ok.status, text(&ok.stdout)), (0, "1\n".to_string()));
    let bad = run_source(b"print(nope)");
    assert_eq!(bad.status, 1);
    assert!(bad.stdout.is_empty());
    assert_eq!(text(&bad.stderr), "Error: undefined variable `nope`\n");
    let abort = run_source(b"print(1)\n1 / 0");
    assert_eq!(abort.status, 101);
    assert_eq!(text(&abort.stdout), "1\n");
    assert!(text(&abort.stderr).contains("division by zero"));
}

#[test]
fn check_compiles_without_running() {
    let out = check_source(b"print(1)");
    assert_eq!((out.status, out.stdout.len(), out.stderr.len()), (0, 0, 0));
    let out = run_with_opts(b"print(1)", DebugOpts { timings: false, emit: None, check: true });
    assert_eq!((out.status, out.stdout.len()), (0, 0));
    assert_eq!(check_source(b"if 1 { 2 }").status, 1);
}

#[test]
fn emit_tokens_lists_spans_and_kinds_then_runs() {
    let out = run_with_opts(b"x :: \"a\"\nx", DebugOpts { timings: false, emit: Some(Emit::Tokens), check: false });
    assert_eq!(out.status, 0);
    assert_eq!(text(&out.stdout), "a\n");
    assert_eq!(text(&out.stderr), "0..1 Ident(\"x\")\n2..4 DoubleColon\n5..8 Str(\"a\")\n9..10 Ident(\"x\")\n");
}

#[test]
fn emit_tokens_dumps_the_lexer_output() {
    let out = run_with_opts(b"1 + 2", DebugOpts { timings: false, emit: Some(Emit::Tokens), check: false });
    assert!(out.status == 0 && text(&out.stderr).contains("Plus"));
    assert_eq!(text(&out.stdout).trim(), "3");
}

#[test]
fn check_type_checks_without_running() {
    let opts = DebugOpts { timings: false, emit: None, check: true };
    let out = run_with_opts(br#"print("should not run")"#, opts);
    assert_eq!((out.status, text(&out.stdout)), (0, String::new()));
    let out = run_with_opts(b"x + 1", opts);
    assert!(out.status != 0 && text(&out.stderr).contains("undefined variable"));
}

#[test]
fn a_session_keeps_definitions_and_bindings() {
    assert_eq!(text(&session_defs(b"x := 1")), "x := 1\n");
    assert_eq!(text(&session_defs(b"f :: fn() int { 1 }")), "f :: fn() int { 1 }\n");
    assert_eq!(text(&session_defs(b"print(1)")), "");
    assert_eq!(text(&session_defs(b"x := 1; print(x); use m; pub y :: 2")), "x := 1\nuse m\npub y :: 2\n");
    assert_eq!(text(&session_defs(b"")), "");
    assert_eq!(text(&session_defs(b"x := (")), "");
}

// ---------------------------------------------------------------- errors

fn rejection(src: &str) -> String {
    let out = run_source(src.as_bytes());
    assert_eq!(out.status, 1, "src:\n{src}");
    text(&out.stderr)
}

#[test]
fn rejections_name_their_cause() {
    assert!(rejection("nope(1)").contains("undefined function `nope`"));
    assert!(rejection("E :: enum { a b }\nx : E = .a\nmatch x { .a => 1 }").contains("non-exhaustive match, missing: b"));
    assert!(rejection("x :: .a").contains("cannot infer the enum type of `.a` here"));
    assert!(rejection("1 or 2").contains("`or` needs a `?T`/`!T` value, got int"));
    assert!(rejection("x :: 1\nx = 2").contains("cannot assign to immutable `x`"));
    assert!(rejection("x := 1\nx = \"a\"").contains("cannot assign string to `x`, which is int"));
    assert!(rejection("loop 1 { }").contains("`loop` condition must be Bool, got int"));
    assert!(rejection("int.(\"42\")").contains("cannot cast string to int"));
    assert!(rejection("break").contains("`break` outside of a loop"));
    assert!(rejection("Opt[T] :: enum { nope, some(T) }\nf :: fn() Opt[int, string] { .nope }\n0").contains("expects 1 type argument(s), got 2"));
}

#[test]
fn runtime_aborts_name_their_cause() {
    let out = run_source(b"xs :: [1]\nxs[3]");
    assert_eq!(out.status, 101);
    assert!(text(&out.stderr).contains("index out of bounds"));
    let out = run_source(b"2 ** -1");
    assert_eq!(out.status, 101);
    assert!(text(&out.stderr).contains("negative exponent"));
}

fn unit_fn(name: &str) -> Expr {
    Expr::Fn { name: name.as_bytes().to_vec(), type_params: Vec::new(), params: Vec::new(), ret: None, body: Vec::new() }
}

#[test]
fn a_module_file_declares_its_module_and_holds_only_definitions() {
    let mut loader = Loader::new();
    let mut m = Module::new(b"thing");
    assert!(loader.add_file(&mut m, vec![Expr::Module(b"thing".to_vec()), unit_fn("a"), unit_fn("b")]).is_ok());
    assert_eq!(m.items.len(), 2);
    let err = loader.add_file(&mut m, vec![unit_fn("c")]).unwrap_err();
    assert!(text(&err.msg).contains("must declare `module thing`"));
    let err = loader.add_file(&mut m, vec![Expr::Module(b"thing".to_vec()), Expr::Int(1)]).unwrap_err();
    assert!(text(&err.msg).contains("top-level statements"));
    // a name another file of the module defines is refused, even for a function
    let err = loader.add_file(&mut m, vec![Expr::Module(b"thing".to_vec()), unit_fn("a")]).unwrap_err();
    assert!(text(&err.msg).contains("`a` is defined twice in module `thing`"));
}

#[test]
fn ownership_does_not_fade_with_depth() {
    let mut tr = Translator::new();
    with_drop(&mut tr);
    let mut t = file_type();
    for _ in 0..40 {
        t = Typ::Array(Box::new(t));
    }
    assert!(tr.is_resource(&t));
    assert!(tr.is_affine(&t));
    let mut plain = Typ::Int(64);
    for _ in 0..40 {
        plain = Typ::Array(Box::new(plain));
    }
    assert!(!tr.is_resource(&plain));
}

fn only_item(src: &[u8]) -> Expr {
    let mut items = oi::loader::parse_file(src).expect("parses");
    assert_eq!(items.len(), 1);
    items.pop().unwrap()
}

#[test]
fn operators_group_by_binding_power_and_associativity() {
    match only_item(b"2 ** 3 ** 2") {
        Expr::Binary(BinOp::Pow, l, r) => {
            assert!(matches!(*l, Expr::Int(2)));
            assert!(matches!(*r, Expr::Binary(BinOp::Pow, _, _)));
        },
        other => panic!("{other:?}"),
    }
    match only_item(b"1 + 2 * 3") {
        Expr::Binary(BinOp::Add, l, r) => {
            assert!(matches!(*l, Expr::Int(1)));
            assert!(matches!(*r, Expr::Binary(BinOp::Mul, _, _)));
        },
        other => panic!("{other:?}"),
    }
    match only_item(b"10 - 2 - 3") {
        Expr::Binary(BinOp::Sub, l, r) => {
            assert!(matches!(*l, Expr::Binary(BinOp::Sub, _, _)));
            assert!(matches!(*r, Expr::Int(3)));
        },
        other => panic!("{other:?}"),
    }
    match only_item(b"1 << 4 | 3") {
        Expr::Binary(BinOp::BitOr, l, _) => assert!(matches!(*l, Expr::Binary(BinOp::Shl, _, _))),
        other => panic!("{other:?}"),
    }
}

#[test]
fn the_entry_file_keeps_its_statements_in_order() {
    let mut loader = Loader::new();
    let mut m = Module::new(b"main");
    assert!(loader.add_file(&mut m, vec![Expr::Int(1), Expr::Bool(true), Expr::Int(3)]).is_ok());
    assert_eq!(m.items.len(), 3);
    assert!(matches!(m.items[0], Expr::Int(1)));
    assert!(matches!(m.items[1], Expr::Bool(true)));
    assert!(matches!(m.items[2], Expr::Int(3)));
    assert!(loader.add_file(&mut m, vec![Expr::Int(4)]).is_ok());
    assert_eq!(m.items.len(), 4);
    assert!(matches!(m.items[3], Expr::Int(4)));
}

#[test]
fn the_entry_module_of_plain_statements_loads() {
    let mut loader = Loader::new();
    assert!(loader.add_module(b"main", vec![vec![Expr::Int(1)], vec![Expr::Int(2)]]).is_ok());
    assert!(loader.has_module(b"main"));
}

#[test]
fn literal_statics_are_seeded_in_order() {
    let mut tr = Translator::new();
    let items = vec![
        Expr::Bind { mutable: true, name: b"a".to_vec(), typ: None, value: Some(Box::new(Expr::Int(1))) },
        Expr::Int(7),
        Expr::Bind { mutable: false, name: b"b".to_vec(), typ: None, value: Some(Box::new(Expr::Int(2))) },
    ];
    assert!(tr.seed_statics(&items).is_ok());
    assert_eq!(tr.statics.len(), 2);
    assert_eq!(tr.statics[0].0, b"a".to_vec());
    assert_eq!(tr.statics[1].0, b"b".to_vec());
    assert!(tr.statics[0].3 && !tr.statics[1].3);
}

#[test]
fn prefix_minus_takes_the_whole_power() {
    match only_item(b"-2 ** 2") {
        Expr::Negative(inner) => match *inner {
            Expr::Binary(BinOp::Pow, l, r) => {
                assert!(matches!(*l, Expr::Int(2)));
                assert!(matches!(*r, Expr::Int(2)));
            },
            other => panic!("{other:?}"),
        },
        other => panic!("{other:?}"),
    }
    match only_item(b"-2 + 3") {
        Expr::Binary(BinOp::Add, l, r) => {
            assert!(matches!(*l, Expr::Int(-2)));
            assert!(matches!(*r, Expr::Int(3)));
        },
        other => panic!("{other:?}"),
    }
}

#[test]
fn a_module_file_keeps_its_definitions_in_order() {
    let mut loader = Loader::new();
    let mut m = Module::new(b"shapes");
    let point = Expr::StructDef { name: b"Point".to_vec(), type_params: Vec::new(), fields: Vec::new() };
    let size = Expr::StructDef { name: b"Size".to_vec(), type_params: Vec::new(), fields: Vec::new() };
    assert!(loader.add_file(&mut m, vec![Expr::Module(b"shapes".to_vec()), point, size]).is_ok());
    assert_eq!(m.items.len(), 2);
    assert!(matches!(&m.items[0], Expr::StructDef { name, .. } if name == b"Point"));
    assert!(matches!(&m.items[1], Expr::StructDef { name, .. } if name == b"Size"));
}

#[test]
fn literals_qualify_to_themselves() {
    let modules = vec![Module::new(b"main")];
    let publics: Vec<Vec<u8>> = Vec::new();
    let reexports: Vec<(Vec<u8>, Vec<u8>)> = Vec::new();
    let out = oi::qualify::qualify_module(&modules, &publics, &reexports, 0, vec![Expr::Int(1), Expr::Bool(true)]).unwrap();
    assert_eq!(out.len(), 2);
    assert!(matches!(out[0], Expr::Int(1)));
    assert!(matches!(out[1], Expr::Bool(true)));
}

#[test]
fn a_literal_program_prints_its_value() {
    let out = oi::program::run_items(&Vec::new(), &vec![Expr::Int(-42)]);
    assert_eq!(out.status, 0);
    assert_eq!(text(&out.stdout), "-42\n");
    assert!(out.stderr.is_empty());
    let out = oi::program::run_items(&Vec::new(), &vec![Expr::Int(7)]);
    assert_eq!(text(&out.stdout), "7\n");
}

#[test]
fn an_operation_on_literals_prints_its_result() {
    let op = |o: BinOp, a: i64, b: i64| {
        let e = Expr::Binary(o, Box::new(Expr::Int(a)), Box::new(Expr::Int(b)));
        let out = oi::program::run_items(&Vec::new(), &vec![e]);
        assert_eq!(out.status, 0);
        text(&out.stdout)
    };
    assert_eq!(op(BinOp::Sub, 10, 3), "7\n");
    assert_eq!(op(BinOp::Mul, 2, -4), "-8\n");
    assert_eq!(op(BinOp::Add, i64::MAX, 1), format!("{}\n", i64::MIN));
}
