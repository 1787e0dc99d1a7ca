use oi::program::{run_source, Outcome};

/// The text of a stream, trimmed.
fn trim(b: &[u8]) -> String {
    String::from_utf8_lossy(b).trim().to_string()
}

/// Run a program.
fn exec(src: &str) -> Outcome {
    run_source(src.as_bytes())
}

/// Join source or output lines.
fn lines(parts: &[&str]) -> String {
    parts.join("\n")
}

/// Run a program that must succeed, returning its trimmed stdout.
fn run(src: &str) -> String {
    let out = exec(src);
    assert!(out.status == 0, "src:\n{src}\nstatus: {}\nstderr:\n{}", out.status, trim(&out.stderr));
    trim(&out.stdout)
}

/// Run a program, returning its trimmed stdout and stderr.
fn run_streams(src: &str) -> (String, String) {
    let out = exec(src);
    (trim(&out.stdout), trim(&out.stderr))
}

/// Run a program expecting a failure: a compile error or a runtime abort containing `expected`.
fn failure(src: &str, at_compile_time: bool, expected: &str) -> String {
    let out = exec(src);
    let err = trim(&out.stderr);
    let compiled = !err.starts_with("Error:");
    assert!(
        out.status != 0 && compiled == !at_compile_time && err.contains(expected),
        "expected a {} containing {expected:?}\nsrc:\n{src}\nstatus: {}\nstdout:\n{}\nstderr:\n{err}",
        if at_compile_time { "compile error" } else { "runtime abort" },
        out.status,
        trim(&out.stdout)
    );
    err
}

/// The compiler rejects the program with an error containing `expected`.
fn fail(src: &str, expected: &str) -> String {
    failure(src, true, expected)
}

/// The compiler rejects the program with an error containing `expected`.
fn fail_with(src: &str, expected: &str) -> String {
    failure(src, true, expected)
}

/// The program compiles, then aborts with a message containing `expected`.
fn fail_rt(src: &str, expected: &str) -> String {
    failure(src, false, expected)
}

/// The program prints `expected`.
fn check(src: &str, expected: &str) {
    assert_eq!(run(src), expected, "\nsrc:\n{src}");
}

// ---------------------------------------------------------------- io

#[test]
fn print_string() {
    check(r#"print("hello")"#, "hello");
}

#[test]
fn print_int() {
    check("print(42)", "42");
}

#[test]
fn print_bool() {
    check("print(true)", "true");
}

#[test]
fn print_multiple() {
    check(r#"print("a", "b", "c")"#, "a b c");
}

#[test]
fn print_as_statement() {
    check(
        r#"print("hello")
42"#,
        "hello\n42",
    );
}

#[test]
fn print_no_args() {
    check("print()", "");
}

#[test]
fn write_no_newline() {
    check(
        r#"write("hi")
42"#,
        "hi42",
    );
}

#[test]
fn write_no_args() {
    check("write()", "");
}

#[test]
fn eprint_goes_to_stderr() {
    let (stdout, stderr) = run_streams(
        r#"eprint("err")
42"#,
    );
    assert_eq!(stdout, "42");
    assert_eq!(stderr, "err");
}

#[test]
fn ewrite_goes_to_stderr() {
    let (stdout, stderr) = run_streams(
        r#"ewrite("err")
42"#,
    );
    assert_eq!(stdout, "42");
    assert_eq!(stderr, "err");
}

#[test]
fn eprint_no_args() {
    let (stdout, stderr) = run_streams("eprint()");
    assert_eq!(stdout, "");
    assert_eq!(stderr, "");
}

#[test]
fn ewrite_no_args() {
    check("ewrite()", "");
}

// ---------------------------------------------------------------- arithmetic

#[test]
fn int_add() {
    check("2 + 3", "5");
}

#[test]
fn int_sub() {
    check("10 - 4", "6");
}

#[test]
fn int_mul() {
    check("3 * 4", "12");
}

#[test]
fn int_div() {
    check("10 / 3", "3");
}

#[test]
fn int_mod() {
    check("10 % 7", "3");
}

#[test]
fn mod_negative_dividend() {
    check("-10 % 7", "-3");
}

#[test]
fn mod_negative_divisor() {
    check("10 % -7", "3");
}

#[test]
fn mod_binds_like_mul() {
    check("1 + 10 % 7", "4");
}

#[test]
fn negation() {
    check("-5", "-5");
}

#[test]
fn const_folding() {
    check(&lines(&["A :: int.min", "A"]), "-9223372036854775808");
    check(&lines(&["A :: u8.max", "A"]), "255");
    check(&lines(&[r#"A :: "a" + "b""#, "A"]), "ab");
    check(&lines(&["A := 2 ** 63", "A"]), "-9223372036854775808");
}

// ---------------------------------------------------------------- statements

#[test]
fn stmts() {
    check("x :: 3\ny :: x * x\nz :: y + x\nz\n", "12");
}

#[test]
fn semicolons_join_lines() {
    check("x :: 3; y :: x * x; y + x", "12");
}

#[test]
fn semicolon_terminator() {
    check("1 + 1;", "2");
}

#[test]
fn trailing_assign_yields_the_place() {
    check(&lines(&["x := 1", "5", "x = 3"]), "3");
}

#[test]
fn assign_in_expression_position() {
    check(&lines(&["x := 0", "n := (x = 3) + 1", "n"]), "4");
}

#[test]
fn field_read_back() {
    check("p := .{ x = 1 }\np.x = 5\n", "5");
}

#[test]
fn append_chains() {
    check(&lines(&["xs := [1]", "xs << 2 << 3"]), "[1, 2, 3]");
}

#[test]
fn assign_chains_right_assoc() {
    check(&lines(&["a := 0", "b := 0", "a = b = 3", "a"]), "3");
}

#[test]
fn destructure_yields_the_rhs() {
    check(&lines(&["v := ((a, b) := (1, 2))", "v"]), "(1, 2)");
}

// ---------------------------------------------------------------- conditionals

#[test]
fn ternary_true() {
    check(r#"if 2 > 1 { "yes" } else { "no" }"#, "yes");
}

#[test]
fn else_if_first() {
    let src = "i :: 0\nif i == 0 { \"zero\" } else if i == 1 { \"one\" } else { \"idk\" }\n";
    check(src, "zero");
}

#[test]
fn else_if_middle() {
    let src = "i :: 1\nif i == 0 { \"zero\" } else if i == 1 { \"one\" } else { \"idk\" }\n";
    check(src, "one");
}

#[test]
fn else_if_last() {
    let src = "i :: 2\nif i == 0 { \"zero\" } else if i == 1 { \"one\" } else { \"idk\" }\n";
    check(src, "idk");
}

#[test]
fn no_else_true() {
    check("if true { 42 }", "42");
}

#[test]
fn no_else_false_int() {
    check("if false { 42 }", "0");
}

#[test]
fn no_else_false_string() {
    check(r#"if false { "idk" }"#, "");
}

#[test]
fn if_as_binding() {
    check("x :: if true { 10 } else { 20 }\nx\n", "10");
}

#[test]
fn nested_if() {
    check("x :: if true { if false { 1 } else { 2 } } else { 3 }\nx\n", "2");
}

#[test]
fn branch_binding_is_local() {
    let src = "x := 1\nif true {\n\ty :: 5\n\tx = y\n}\nx\n";
    check(src, "5");
}

#[test]
fn branch_binding_does_not_leak() {
    let src = "if true { y :: 5 }\ny\n";
    fail_with(src, "undefined variable");
}

#[test]
fn guard_return_taken() {
    let src = "abs :: fn(x: int) int {\n\tif x < 0 { return -x }\n\tx\n}\nabs(-5)\n";
    check(src, "5");
}

#[test]
fn return_in_one_branch() {
    let src = "pick :: fn(x: int) int {\n\tif x > 0 { return 1 } else { 99 }\n}\npick(5)\n";
    check(src, "1");
}

#[test]
fn condition_must_be_bool() {
    fail_with("if 1 { 2 } else { 3 }", "must be Bool");
}

#[test]
fn mismatched_branches() {
    fail_with(r#"if true { 1 } else { "x" }"#, "mismatched types");
}

#[test]
fn do_body() {
    check(r#"if 2 > 1 do "yes" else do "no""#, "yes");
}

#[test]
fn do_else_if_chain() {
    let src = "i :: 1\nif i == 0 do \"zero\" else if i == 1 do \"one\" else do \"idk\"\n";
    check(src, "one");
}

#[test]
fn header_pattern_bind() {
    check(
        "Coin :: enum { quarter(int) penny }\nif .quarter.(cents) := Coin.quarter.(25) { print(cents) }\n",
        "25",
    );
    check(
        "Coin :: enum { quarter(int) penny }\nif .quarter.(cents) := Coin.penny { print(cents) } else { print(\"nope\") }\n",
        "nope",
    );
    check(
        "Coin :: enum { quarter(int) penny }\nif .quarter.(cents) := Coin.penny { cents }\n",
        "0",
    );
}

#[test]
fn header_binding() {
    let src = "x := 5\nif x := 9 do print(x)\nprint(x)\nif (a, b) :: (1, 2) do print(a + b)\nif n : int do print(n)\n";
    check(src, &lines(&["9", "5", "3", "0"]));
    fail_with(
        r#"if x := 5 { print(x) } else { print("dead") }"#,
        "this binding always succeeds, so `else` can never run",
    );
}

#[test]
fn header_bind_scoped_to_body() {
    let src = "Coin :: enum { quarter(int) penny }\nif .quarter.(state) := Coin.penny { print(state) } else { print(state) }\n";
    fail_with(src, "undefined variable `state`");
}

#[test]
fn do_guard_return() {
    let src = "abs :: fn(x: int) int {\n\tif x < 0 do return -x\n\tx\n}\nabs(-5)\n";
    check(src, "5");
}

// ---------------------------------------------------------------- defer

#[test]
fn runs_lifo_on_every_exit() {
    let src = "i := 0\nloop {\n\ti += 1\n\tdefer print(i)\n\tdefer { print(0) }\n\tif i < 2 { continue }\n\tbreak\n}\nprint(9)\n";
    check(src, &lines(&["0", "1", "0", "2", "9"]));
    // the binding is the one in scope at the defer
    check(&lines(&["x := 1", "defer print(x)", "x := 2", "print(0)"]), &lines(&["0", "1"]));
}

#[test]
fn dollar_is_the_returned_value_or_its_error() {
    let src = "f :: fn(bad: bool) !int {\n\tdefer print($ or -1)\n\tdefer or print($)\n\tif bad { return error(\"boom\") }\n\t1\n}\nprint(f(false) or -2)\nprint(f(true) or -2)\n";
    check(src, &lines(&["1", "1", "boom", "-1", "-2"]));
}

#[test]
fn body_cannot_leave_the_scope() {
    fail_with(
        &lines(&["f :: fn() int { defer { return 1 }; return 2 }", "f()"]),
        "cannot return from a defer body",
    );
    fail_with("defer break", "outside of a loop");
    fail_with(
        &lines(&["f :: fn() int { defer or print(0); return 1 }", "f()"]),
        "`defer or` needs a fn returning",
    );
}

// ---------------------------------------------------------------- bitwise

#[test]
fn ops() {
    check(
        "print(0b1100 & 0b1010)\nprint(0b1100 | 0b1010)\nprint(0b1100 ~ 0b1010)\nprint(0xFF00 & 0xF0F0)\nprint(!0)\n",
        &lines(&["8", "14", "6", "61440", "-1"]),
    );
}

#[test]
fn narrow_widths() {
    check(
        "x := u8.(0b1111_0000)\ny := u7.(0)\nprint(!x)\nprint(!y)\n",
        &lines(&["15", "127"]),
    );
}

#[test]
fn precedence() {
    check(
        "print(6 & 4 == 4)\nprint(3 & 1 + 1)\nprint(2 | 6 & 4)\n",
        &lines(&["true", "2", "6"]),
    );
}

#[test]
fn shifts() {
    check(
        "print(1 << 4)\nprint(-8 >> 1)\nprint(u8.(0b1000_0000) >> 1)\nprint(1 << 3 - 1)\nprint(1 << 4 | 3)\n",
        &lines(&["16", "-4", "64", "4", "19"]),
    );
}

#[test]
fn rejects_floats() {
    fail_with("1.5 & 2.0", "bitwise operators need integer operands");
}

#[test]
fn compound_assign() {
    check(
        "x := 0b1100\nx &= 0b1010\nx |= 1\nx ~= 2\nx <<= 4\nx >>= 1\nprint(x)\n",
        "88",
    );
}

#[test]
fn overloads() {
    check(
        "Flags :: struct { bits: int }\nFlags : Not, BitAnd, BitOr, BitXor, Shl, Shr < {\n\tnot :: fn(self) Flags { .{ bits = !self.bits } }\n\tbitand :: fn(self, other: Flags) Flags { .{ bits = self.bits & other.bits } }\n\tbitor :: fn(self, other: Flags) Flags { .{ bits = self.bits | other.bits } }\n\tbitxor :: fn(self, other: Flags) Flags { .{ bits = self.bits ~ other.bits } }\n\tshl :: fn(self, other: int) Flags { .{ bits = self.bits << other } }\n\tshr :: fn(self, other: int) Flags { .{ bits = self.bits >> other } }\n}\na := Flags.{ bits = 12 }\nbits := Flags.{ bits = 10 }\nprint((a & bits).bits, (a | bits).bits, (a ~ bits).bits, (a << 2).bits, (a >> 2).bits, (!a).bits)\n",
        "8 14 6 48 3 -13",
    );
}


// ---------------------------------------------------------------- juxtaposition

#[test]
fn paren_call_trailing_fn() {
    let src = "retry :: fn(n: int, f: fn() int) int { f() }\nretry(2) fn() int { 21 }\n";
    check(src, "21");
}

#[test]
fn bare_block_desugars_to_anon_fn() {
    let src = "retry :: fn(n: int, f: fn() int) int { f() }\nretry(2) { 21 }\n";
    check(src, "21");
}

#[test]
fn trailing_only_no_parens() {
    let src = "twice :: fn(f: fn() int) int { f() + f() }\ntwice fn() int { 21 }\n";
    check(src, "42");
}

#[test]
fn method_trailing_fn() {
    let src = "Box :: struct { n: int }\nBox :< {\n\twith :: fn(self, f: fn() int) int { self.n + f() }\n\tm :: fn(self, k: int, f: fn() int) int { self.n + k + f() }\n}\nb :: Box.{ n = 10 }\nprint(b.with fn() int { 5 })\nb.m(1) fn() int { 5 }\n";
    check(src, &lines(&["15", "16"]));
}

#[test]
fn leading_literals() {
    let src = "Box :: struct { n: int }\nBox :< { tag :: fn(self, a: :go) int { self.n } }\nshout :: fn(s: string) string { s }\ns :: shout \"hey\"\nprint(s)\nBox.{ n = 10 }.tag :go\n";
    check(src, &lines(&["hey", "10"]));
}

#[test]
fn leading_arg_is_any_expr() {
    let src = "Point :: struct { x: int, y: int }\np :: Point.{ x = 1, y = 2 }\nprint p\nprint p.x + 10\nprint -2\nprint 1 - 2\n";
    check(src, &lines(&["Point.{x = 1, y = 2}", "11", "-2", "-1"]));
}

#[test]
fn literal_and_trailing_fn() {
    let src = "run_test :: fn(name: string, f: fn() int) int { print(name) f() }\nrun_test \"reg\" fn() int { 21 }\n";
    check(src, &lines(&["reg", "21"]));
}

#[test]
fn headers_stay_juxt_free() {
    let src = "cond :: true\nif cond { print(1) }\ni := 0\nloop i < 3 { i = i + 1 }\nprint(i)\nx :: 5\nmatch x { 5 => print(9), else => print(0) }\n";
    check(src, &lines(&["1", "3", "9"]));
}

#[test]
fn call_then_literal_return() {
    let src = "logret :: fn() string { print(1) \"done\" }\nlogret()\n";
    check(src, &lines(&["1", "done"]));
}

#[test]
fn bind_rhs_trailing_fn() {
    let src = "twice :: fn(f: fn() int) int { f() + f() }\nx :: twice fn() int { 21 }\nx\n";
    check(src, "42");
}

#[test]
fn lists_beat_leading_args() {
    let src = "lat :: 1\nlong :: 2\nprint((lat long 4))\nprint([lat long 4])\n";
    check(src, &lines(&["(1, 2, 4)", "[1, 2, 4]"]));
}

#[test]
fn juxt_enum_shorthand_arg() {
    let src = "Phase :: enum { startup }\nhook :: fn(p: Phase, f: fn() int) int { print(p) f() }\nhook .startup { 21 }\n";
    check(src, &lines(&["startup", "21"]));
}

#[test]
fn newline_led_dot_stays_access() {
    let src = "\"ab\"\n\t.len\n";
    check(src, "2");
}

// ---------------------------------------------------------------- resources

const FILE: &str = "File :: struct { fd: int }\nFile : Drop < { drop :: fn(mut self) { print(\"drop\", self.fd) } }\n";

#[test]
fn reverse_drop_order() {
    check(&lines(&[FILE, "a :: File.{fd = 1}", "b :: File.{fd = 2}"]), &lines(&["drop 2", "drop 1"]));
}

#[test]
fn bind_move_kills_source() {
    fail_with(&lines(&[FILE, "f :: File.{fd = 1}", "g :: f", "print(f)"]), "undefined variable");
}

#[test]
fn arg_borrows_and_drops_once() {
    check(
        &lines(&[FILE, "look :: fn(f: File) {}", "f :: File.{fd = 1}", "look(f)", r#"print("marker")"#]),
        &lines(&["marker", "drop 1"]),
    );
}

#[test]
fn callee_cannot_steal_a_borrowed_arg() {
    fail_with(
        &lines(&[FILE, "steal :: fn(f: File) { g :: f }", "f :: File.{fd = 1}", "steal(f)"]),
        "it is borrowed here",
    );
}

#[test]
fn returned_resource_drops_once() {
    check(
        &lines(&[FILE, "open :: fn(n: int) File { File.{fd = n} }", "f :: open(3)", r#"print("before")"#]),
        &lines(&["before", "drop 3"]),
    );
}

#[test]
fn resource_field_makes_its_owner_one() {
    let owner = "Handle :: struct { file: File }";
    check(
        &lines(&[FILE, owner, "h :: Handle.{file = File.{fd = 1}}", r#"print("built")"#]),
        &lines(&["built", "drop 1"]),
    );
    fail_with(
        &lines(&[FILE, owner, "h :: Handle.{file = File.{fd = 1}}", "g :: h", "print(h)"]),
        "undefined variable",
    );
    fail_with(
        &lines(&[FILE, owner, "f :: File.{fd = 1}", "h :: Handle.{file = f}", "print(f)"]),
        "undefined variable",
    );
}

#[test]
fn deeply_nested_resources_still_drop() {
    let mut lit = String::from("File.{fd = 1}");
    for _ in 0..20 {
        lit = format!("[{lit}]");
    }
    let bind = format!("a :: {lit}");
    check(&lines(&[FILE, &bind, r#"print("built")"#]), &lines(&["built", "drop 1"]));
}

#[test]
fn array_elements_drop_with_their_last_owner() {
    check(
        &lines(&[FILE, "a :: [File.{fd = 1}, File.{fd = 2}]", "b :: a", r#"print("built")"#]),
        &lines(&["built", "drop 1", "drop 2"]),
    );
    fail_with(&lines(&[FILE, "f :: File.{fd = 1}", "a :: [f]", "print(f)"]), "undefined variable");
}

#[test]
fn a_projected_resource_is_a_borrow() {
    let a = "a :: [File.{fd = 1}]";
    check(
        &lines(&[FILE, a, "look :: fn(f: File) {}", "look(a[0])", "print(a[0].fd)"]),
        &lines(&["1", "drop 1"]),
    );
    fail_with(&lines(&[FILE, a, "g :: a[0]"]), "cannot move File out of its container");
}

#[test]
fn an_unbound_resource_drops_at_scope_exit() {
    check(&lines(&[FILE, "File.{fd = 1}", r#"print("end")"#]), &lines(&["end", "drop 1"]));
}

#[test]
fn overwrite_drops_the_old_value_and_moves_the_new() {
    check(
        &lines(&[FILE, "f := File.{fd = 1}", "g :: File.{fd = 2}", "f = g", r#"print("set")"#]),
        &lines(&["drop 1", "set", "drop 2"]),
    );
    fail_with(
        &lines(&[FILE, "f := File.{fd = 1}", "g :: File.{fd = 2}", "f = g", "print(g)"]),
        "undefined variable",
    );
}

#[test]
fn a_move_arg_transfers_ownership() {
    let eat = r#"eat :: fn(move f: File) { print("ate", f.fd) }"#;
    let f = "f :: File.{fd = 1}";
    check(
        &lines(&[FILE, eat, f, "eat(move f)", r#"print("after")"#]),
        &lines(&["ate 1", "drop 1", "after"]),
    );
    fail_with(&lines(&[FILE, eat, f, "eat(move f)", "print(f.fd)"]), "undefined variable");
    fail_with(&lines(&[FILE, eat, f, "eat(f)"]), "missing `move` at the callsite");
    fail_with(&lines(&["look :: fn(n: int) {}", "look(move 1)"]), "not `move`");
}

#[test]
fn move_self_consumes_the_receiver() {
    let close = r#"File :< { close :: fn(move self) { print("closing", self.fd) } }"#;
    check(
        &lines(&[FILE, close, "f :: File.{fd = 1}", "f.close()", r#"print("after")"#]),
        &lines(&["closing 1", "drop 1", "after"]),
    );
    fail_with(&lines(&[FILE, close, "f :: File.{fd = 1}", "f.close()", "print(f)"]), "undefined variable");
}

#[test]
fn fixed_array_elements_drop_with_their_last_owner() {
    let a = "a : [2]File : .[File.{fd = 1}, File.{fd = 2}]";
    check(&lines(&[FILE, a, "b :: a", r#"print("built")"#]), &lines(&["built", "drop 1", "drop 2"]));
    fail_with(&lines(&[FILE, a, "b :: a", "print(a[0].fd)"]), "undefined variable");
}

#[test]
fn map_values_drop_with_their_last_owner() {
    let f = "f :: File.{fd = 1}";
    check(&lines(&[FILE, f, r#"m :: ["a" = f]"#, r#"print("built")"#]), &lines(&["built", "drop 1"]));
    check(
        &lines(&[FILE, "m: [string]File", f, r#"m["a"] = f"#, r#"print("set")"#]),
        &lines(&["set", "drop 1"]),
    );
}

#[test]
fn maps_hold_one_value_per_key() {
    let src = lines(&[
        r#"m := ["a" = 1, "b" = 2, "a" = 4]"#,
        r#"m["a"] = m["a"] + 1"#,
        r#"m["c"] = 3"#,
        r#"print(m["a"], m.len)"#,
        r#"m.delete["b"]"#,
        "print(m.keys, m.values)",
        "print(m)",
    ]);
    check(&src, &lines(&["5 3", r#"["a", "c"] [5, 3]"#, r#"["a" = 5, "c" = 3]"#]));
    fail_rt(&lines(&[r#"m :: ["a" = 1]"#, r#"print(m["z"])"#]), "key not found");
    fail(&lines(&[r#"m :: ["a" = 1, 2 = 3]"#]), "map keys must agree");
    fail(&lines(&[r#"m :: ["a" = 1]"#, r#"m["b"] = 2"#]), "immutable");
}

#[test]
fn a_replaced_or_deleted_map_value_drops() {
    check(
        &lines(&[
            FILE,
            r#"m := ["a" = File.{fd = 1}]"#,
            r#"m["a"] = File.{fd = 2}"#,
            r#"print("replaced")"#,
            r#"m.delete["a"]"#,
            r#"print("deleted")"#,
        ]),
        &lines(&["drop 1", "replaced", "drop 2", "deleted"]),
    );
}

#[test]
fn boxed_payloads_drop_with_their_box() {
    let v = "V :: enum { Empty, Held(File) }";
    check(
        &lines(&[FILE, v, "o: ?File = File.{fd = 1}", "h :: V.Held(File.{fd = 2})", r#"print("built")"#]),
        &lines(&["built", "drop 2", "drop 1"]),
    );
    fail_with(&lines(&[FILE, v, "f :: File.{fd = 1}", "h :: V.Held(f)", "print(f)"]), "undefined variable");
}

#[test]
fn tuple_payloads_drop_with_their_tuple() {
    check(&lines(&[FILE, "t :: (File.{fd = 1}, 2)", r#"print("built")"#]), &lines(&["built", "drop 1"]));
}

#[test]
fn a_generic_claim_drops_each_instance() {
    check(
        &lines(&[
            "Box[T] :: struct { val: T }",
            r#"Box[T] : Drop < { drop :: fn(mut self) { print("drop", self.val) } }"#,
            "a :: Box[int].{val = 1}",
            r#"b :: Box[string].{val = "two"}"#,
            r#"print("built")"#,
        ]),
        &lines(&["built", "drop two", "drop 1"]),
    );
    fail_with(
        &lines(&["Show :: trait { show : fn(self) }", "Box[T] :: struct { val: T }", "Box[T] : Show < { show :: fn(self) {} }"]),
        "generic trait claims aren't supported yet",
    );
}

const REF: &str = "Ref :: struct { id: int }\nRef : Drop, Copy < {\n\tdrop :: fn(mut self) { print(\"drop\", self.id) }\n\tcopy :: fn(mut self) { print(\"copy\", self.id) }\n}\n";

#[test]
fn a_copy_claim_binds_a_duplicate() {
    check(
        &lines(&[REF, "a :: Ref.{id = 1}", "b :: a", r#"print("bound", a.id, b.id)"#]),
        &lines(&["copy 1", "bound 1 1", "drop 1", "drop 1"]),
    );
}

#[test]
fn a_move_skips_the_copy_hook() {
    check(
        &lines(&[REF, "eat :: fn(move r: Ref) {}", "r :: Ref.{id = 1}", "eat(move r)", r#"print("after")"#]),
        &lines(&["drop 1", "after"]),
    );
}

#[test]
fn a_container_copies_what_it_owns() {
    let owner = ["Box :: struct { r: Ref }", "b :: Box.{r = Ref.{id = 1}}", "c :: b"].join("\n");
    check(&lines(&[REF, &owner, r#"print("held", c.r.id)"#]), &lines(&["copy 1", "held 1", "drop 1", "drop 1"]));
    check(
        &lines(&[REF, "a :: [Ref.{id = 2}]", "g :: a[0]", r#"print("held", g.id)"#]),
        &lines(&["copy 2", "held 2", "drop 2", "drop 2"]),
    );
}

#[test]
fn a_generic_claim_copies_each_instance() {
    check(
        &lines(&[
            "Box[T] :: struct { val: T }",
            "Box[T] : Drop, Copy < {\n\tdrop :: fn(mut self) { print(\"drop\", self.val) }\n\tcopy :: fn(mut self) { print(\"copy\", self.val) }\n}\n",
            "a :: Box[int].{val = 1}",
            "b :: a",
            r#"print("built", b.val)"#,
        ]),
        &lines(&["copy 1", "built 1", "drop 1", "drop 1"]),
    );
}

#[test]
fn copy_without_drop_is_rejected() {
    fail_with(
        &lines(&["Plain :: struct { n: int }", "Plain : Copy < { copy :: fn(mut self) {} }"]),
        "claims `Copy` without `Drop`",
    );
}

// ---------------------------------------------------------------- casts

#[test]
fn struct_casts() {
    check("Point :: struct { x: int, y: int }\np :: Point.{x = 1, y = 2}\nprint(Point.(p).y)\n", "2");
    check("Money :: struct (int)\nm :: Money(5)\nprint(Money.(500).0, Money.(m).0)\n", "500 5");
    check("Pair :: struct (x: float, y: float)\nprint(Pair.(1.0, 2.0).y)\n", "2.0");
}

#[test]
fn alias_cast() {
    check(
        "Operation :: fn(int) int\ndouble :: fn(n: int) int { n * 2 }\nf :: Operation.(double)\nprint(f(21))\n",
        "42",
    );
}

#[test]
fn string_to_bytes_copies() {
    check("s :: \"hi\"\nb := []u8.(s)\nb << 33\nprint(s, b)\n", "hi [104, 105, 33]");
}

// ---------------------------------------------------------------- ranges

#[test]
fn stepped_pattern_and_membership() {
    check(
        &lines(&["print(4 in 0..2..10, 5 in 0..2..10)", r#"match 4 { 0..2..=4 => print("hit") }"#]),
        &lines(&["true false", "hit"]),
    );
}

#[test]
fn spreads_into_an_array() {
    check("[..(0..3), 7]", "[0, 1, 2, 7]");
    check("[..(10..8..0)]", "[10, 8, 6, 4, 2]");
}

#[test]
fn subscripts_with_a_range_value() {
    check(&lines(&["xs :: [1, 2, 3, 4]", "r := 1..3", "print(xs[r], xs[1..])"]), "[2, 3] [2, 3, 4]");
}

#[test]
fn spread_rejections() {
    fail_rt("[..(3..)]", "open range");
    fail_rt(&lines(&["xs :: [1, 2, 3, 4]", "r := 0..2..4", "print(xs[r])"]), "strided");
}

// ---------------------------------------------------------------- generic enums

#[test]
fn shorthand_round_trip() {
    let src = "Opt[T] :: enum { nope, some(T) }\nget :: fn() Opt[int] { .some.(5) }\nmatch get() {\n\t.some.(n) => n,\n\t.nope => -1,\n}\n";
    check(src, "5");
}

#[test]
fn nope_arm() {
    let src = "Opt[T] :: enum { nope, some(T) }\nget :: fn() Opt[int] { .nope }\nmatch get() {\n\t.some.(n) => n,\n\t.nope => -1,\n}\n";
    check(src, "-1");
}

#[test]
fn generic_fn_round_trip() {
    let src = "Opt[T] :: enum { nope, some(T) }\nwrap[T] :: fn(v: T) Opt[T] { .some.(v) }\nmatch wrap(9) {\n\t.some.(n) => n,\n\t.nope => -1,\n}\n";
    check(src, "9");
}

#[test]
fn two_instances_coexist() {
    let src = "Opt[T] :: enum { nope, some(T) }\ngeti :: fn() Opt[int] { .some.(1) }\ngets :: fn() Opt[string] { .some.(\"hi\") }\nmatch geti() { .some.(n) => print(n), .nope => {} }\nmatch gets() { .some.(s) => print(s), .nope => {} }\n";
    check(src, &lines(&["1", "hi"]));
}

#[test]
fn infers_params_from_instance() {
    let src = "Opt[T] :: enum { nope, some(T) }\nagain[T] :: fn(o: Opt[T]) Opt[T] { o }\ni : Opt[int] = .some.(7)\ns : Opt[string] = .some.(\"hi\")\nmatch again(i) { .some.(n) => print(n), .nope => {} }\nmatch again(s) { .some.(v) => print(v), .nope => {} }\n";
    check(src, &lines(&["7", "hi"]));

    let src = "Either[L, R] :: enum { left(L), right(R) }\nswap[L, R] :: fn(e: Either[L, R]) Either[R, L] {\n\tmatch e {\n\t\t.left.(v) => .right.(v),\n\t\t.right.(v) => .left.(v),\n\t}\n}\ne : Either[int, string] = .left.(1)\nmatch swap(e) { .left.(a) => print(a), .right.(b) => print(b) }\n";
    check(src, "1");
}

#[test]
fn recursive_payload() {
    let src = "Tree[T] :: enum { leaf(T), node(Tree[T]) }\nf :: fn() Tree[int] { .node.(.leaf.(5)) }\nmatch f() {\n\t.leaf.(v) => v,\n\t.node.(inner) => match inner { .leaf.(v) => v, .node.(x) => -1, },\n}\n";
    check(src, "5");
}

#[test]
fn qualified_variant_path() {
    let src = "Opt[T] :: enum { nope, yep(T) }\nprint(Opt[int].nope)\nprint(Opt[int].yep(3))\nprint(Result[int, string].err(\"nope\"))\nxs := [10, 20, 30]\ni := 1\nprint(xs[i])\n";
    check(src, &lines(&["nope", "yep.(3)", r#"err.("nope")"#, "20"]));
}

#[test]
fn bare_path_infers_from_the_payload() {
    let src = "Opt[T] :: enum { nope, yep(T) }\nprint(Opt.yep(\"hi\"))\nx: ?int = Option.some(9)\nprint(x?)\n";
    check(src, &lines(&[r#"yep.("hi")"#, "9"]));
}

// ---------------------------------------------------------------- annotations

#[test]
fn nozero_structs() {
    check("@nozero\nHandle :: struct { fd: int }\nh := Handle.{ fd = 3 }\nprint(h.fd)\n", "3");
    check(
        "@nozero\nHandle :: struct { fd: int }\nConn :: struct { handle: Handle = Handle.{ fd = 7 } }\nc := Conn.{}\nprint(c.handle.fd)\n",
        "7",
    );
}

#[test]
fn nozero_failures() {
    fail_with("@nozero\nHandle :: struct { fd: int }\nh: Handle\n", "`Handle` has no zero value");
    fail_with(
        "@nozero\nHandle :: struct { fd: int }\nConn :: struct { handle: Handle }\nc: Conn\n",
        "`Handle` has no zero value",
    );
}

// ---------------------------------------------------------------- statics

#[test]
fn static_is_shared_by_every_fn() {
    let src = "counter := 0\n\nbump :: fn() { counter = counter + 1 }\n\nmain :: fn() {\n\tbump()\n\tbump()\n\tprint(counter)\n}\n";
    check(src, "2");
}

#[test]
fn pure_fns_cannot_touch_statics() {
    let src = "total := 42\n\n@pure\npeek :: fn() int { total }\n\nmain :: fn() { print(peek()) }\n";
    fail(src, "`total` isn't allowed in a `@pure` fn");
}

#[test]
fn typed_static_without_init_zeroes() {
    let src = "foo: []int\nmain :: fn() { print(foo.len) }\n";
    check(src, "0");
}

// ---------------------------------------------------------------- generic functions

#[test]
fn max_int() {
    let src = "max[T] :: fn(a: T, b: T) T {\n\tif a > b { a } else { b }\n}\nmax(3, 7)\n";
    check(src, "7");
}

#[test]
fn self_recursive_generic() {
    let src = "fact[T] :: fn(n: T) T {\n\tif n <= 1 { 1 } else { n * fact(n - 1) }\n}\nfact(5)\n";
    check(src, "120");
}

#[test]
fn mutually_recursive_generics() {
    let src = "is_even[T] :: fn(n: T) bool {\n\tif n == 0 { true } else { is_odd(n - 1) }\n}\nis_odd[T] :: fn(n: T) bool {\n\tif n == 0 { false } else { is_even(n - 1) }\n}\nis_even(10)\n";
    check(src, "true");
}

#[test]
fn first_of_array() {
    let src = "first[T] :: fn(xs: []T) ?T {\n\tif xs.len == 0 { ?T.(none) } else { ?T.(xs[0]) }\n}\nfirst([1, 2, 3])\n";
    check(src, "some.(1)");
}

#[test]
fn type_mismatch_across_args() {
    fail(
        "max[T] :: fn(a: T, b: T) T { if a > b { a } else { b } }\nmax(1, \"a\")\n",
        "bound to both",
    );
}

#[test]
fn omitted_return_type_is_unit() {
    let src = "show[T] :: fn(x: T) { print(x) }\nshow(1)\nshow(2.5)\n";
    check(src, &lines(&["1", "2.5"]));
}

#[test]
fn omitted_return_type_rejects_a_value() {
    fail("noret[T] :: fn(x: T) { x }\nnoret(1)\n", "expected ()");
}

#[test]
fn explicit_type_arg_when_uninferable() {
    let src = "none_of[T] :: fn() ?T {\n\t?T.(none)\n}\nnone_of[int]()\n";
    check(src, "none");
}

#[test]
fn explicit_type_arg_redundant_with_inference() {
    let src = "max[T] :: fn(a: T, b: T) T {\n\tif a > b { a } else { b }\n}\nmax[int](3, 7)\n";
    check(src, "7");
}

#[test]
fn explicit_type_arg_count_mismatch() {
    fail(
        "max[T] :: fn(a: T, b: T) T { if a > b { a } else { b } }\nmax[int, string](3, 7)\n",
        "expects 1 type argument",
    );
}

#[test]
fn explicit_type_arg_on_non_generic_errors() {
    fail("add :: fn(a: int, b: int) int { a + b }\nadd[int](3, 7)\n", "is not generic");
}

// ---------------------------------------------------------------- more ranges

#[test]
fn ranges() {
    let src = "grade :: fn(n: int) string { match n { ..18 => \"minor\", 18..=64 => \"adult\", 65.. => \"elder\" } }\nxs :: [1, 2, 3, 4]\nprint(1..3, [..3], [..xs, 5])\nprint(grade(2), grade(64), grade(65))\nprint(xs[1..=2], xs[2..], xs[..])\nloop i in 2..=3 { print(i) }\n";
    check(
        src,
        &lines(&["1..3 [0..3] [1, 2, 3, 4, 5]", "minor adult elder", "[2, 3] [3, 4] [1, 2, 3, 4]", "2", "3"]),
    );
}

#[test]
fn stepped_ranges() {
    let src = "loop i in 0..2..=4 { print(i) }\nloop i in 3.. {\n\tif i == 5 { break }\n\tprint(i)\n}\nloop i in 9..7.. {\n\tif i < 5 { break }\n\tprint(i)\n}\n";
    check(src, &lines(&["0", "2", "4", "3", "4", "9", "7", "5"]));
}

#[test]
fn spreads_into_a_vararg() {
    let src = "sum :: fn(xs: ..int) int {\n\tt := 0\n\tloop x in xs { t += x }\n\tt\n}\nprint(sum(..(1..=4)))\n";
    check(src, "10");
}

// ---------------------------------------------------------------- casts, bounds and traits
#[test]
fn result_casts() {
    check("!int.(7)", "ok.(7)");
    check(r#"!int.(error("oops"))"#, r#"err.("oops")"#);
    fail("?int(42)", "");
}

#[test]
fn strings_do_not_parse() {
    fail(r#"int.("42")"#, "cannot cast string to int");
    fail(r#"float.("2.5")"#, "`float.try_from(...)` parses strings");
}

#[test]
fn mod_float_unsupported() {
    fail("10.0 % 3.0", "not yet supported on floats");
}

#[test]
fn bounded_type_param_parses_and_runs() {
    check("Ord :: trait {}\nint :< Ord\nbiggest[T: Ord] :: fn(a: T, b: T) T {\n\tif a > b { a } else { b }\n}\nbiggest(3, 7)\n", "7");
}

#[test]
fn std_bound_satisfied_by_builtin() {
    check("biggest[T: Ord] :: fn(a: T, b: T) T {\n\tif a > b { a } else { b }\n}\nbiggest(3, 7)\n", "7");
}

#[test]
fn bound_violated() {
    fail("Ord :: trait {}\nbiggest[T: Ord] :: fn(a: T, b: T) T {\n\tif a > b { a } else { b }\n}\nbiggest(3, 7)\n", "does not claim");
}

#[test]
fn unknown_bound_trait() {
    fail("biggest[T: Odr] :: fn(a: T, b: T) T {\n\tif a > b { a } else { b }\n}\nbiggest(3, 7)\n", "unknown trait");
}

#[test]
fn default_type_param_fills_when_uninferable() {
    check("none_of[T = int] :: fn() ?T {\n\t?T.(none)\n}\nnone_of()\n", "none");
}

#[test]
fn inference_and_explicit_args_beat_the_default() {
    check("id[T = int] :: fn(x: T) T { x }\nnone_of[T = int] :: fn() ?T { ?T.(none) }\nprint(id(\"a\"))\nprint(none_of[string]())\n", "a\nnone");
}

#[test]
fn static_call_on_an_array_bound_param() {
    check("empty[T] :: fn(xs: T) bool { T.is_empty(xs) }\nprint(empty([1, 2]))\n", "false");
}

#[test]
fn bare_name_needs_type_arguments() {
    fail("Opt[T] :: enum { nope, some(T) }\nf :: fn(o: Opt) int { 0 }\n0\n", "needs type arguments");
}

#[test]
fn wrong_arity() {
    fail("Opt[T] :: enum { nope, some(T) }\nf :: fn() Opt[int, string] { .nope }\n0\n", "expects 1 type argument(s), got 2");
}

#[test]
fn a_generic_struct_head_is_not_a_variant_path() {
    fail("Pair[A, B] :: struct { a: A, b: B }\nprint(Pair[int, string].a)\n", "is a type, not a value");
}

#[test]
fn static_call_through_a_bound() {
    check("Maker :: trait {\n\tmake: fn() Self\n\ttag :: fn() string { \"made\" }\n}\nA :: struct { n: int }\nA : Maker < { make :: fn() Self { .{ n = 1 } } }\nbuild[T: Maker] :: fn() T { print T.tag(); T.make() }\nprint(build[A]().n)\n", "made\n1");
}

#[test]
fn trait_fills_keep_the_slot_signature() {
    fail(&format!("{}\nSink :: trait {{ swallow : fn(self) }}\nFile : Sink < {{ swallow :: fn(move self) {{}} }}\n", "File :: struct { fd: int }"), "wrong signature");
    fail("Sink :: trait { swallow : fn(self) }\nA :: struct { n: int }\nA : Sink < {}\n", "without filling");
}

#[test]
fn widening_casts() {
    check("?int.(42)", "some.(42)");
    check(&lines(&["Handle :: int | string", "print(Handle.(5))"]), "5");
    check(
        "Shape :: trait { area : fn(self) int }\nSq :: struct { s: int }\nSq : Shape < { area :: fn(self) int { self.s * self.s } }\nd :: Shape.(Sq.{s = 3})\nprint(d.area())\n",
        "9",
    );
}

#[test]
fn an_object_cannot_hand_over_what_it_borrows() {
    let sink = "Sink :: trait { swallow : fn(move self) }";
    let claim = "File : Sink < { swallow :: fn(move self) {} }";
    let d = "d : Sink : File.{fd = 1}";
    fail_with(&lines(&[FILE, sink, claim, d, "d.swallow()"]), "only borrows its data");
    fail_with(&lines(&[FILE, "Sink :: trait { swallow : fn(self) }", claim]), "wrong signature");
}

#[test]
fn sums_and_objects_hold_their_values() {
    check(&lines(&["Handle :: int | string", r#"h : Handle = "door""#, "print(h)", "print(Handle.(5))"]), "door\n5");
    check(
        &lines(&[
            FILE,
            "Named :: trait { name : fn(self) int, twice :: fn(self) int { self.name() * 2 } }",
            "File : Named < { name :: fn(self) int { self.fd } }",
            "o : Named : File.{fd = 4}",
            "print(o.name(), o.twice())",
        ]),
        "4 8\ndrop 4",
    );
    fail(&lines(&["Shape :: trait { area : fn(self) int }", "Sq :: struct { s: int }", "d :: Shape.(Sq.{s = 3})"]), "does not claim");
}

// ---------------------------------------------------------------- interpolation

#[test]
fn struct_static_is_assignable_whole_and_by_field() {
    let src = "Godot :: struct { ptr: int, name: string }\n\nhandle := Godot.{}\n\nboot :: fn() { handle = Godot.{ 7, \"godot\" } }\n\nmain :: fn() {\n\tprint(handle.ptr)\n\tboot()\n\tprint(\"{handle.ptr} {handle.name}\")\n\thandle.ptr = 9\n\tprint(handle.ptr)\n}\n";
    check(src, &lines(&["0", "7 godot", "9"]));
}

#[test]
fn tuple_substitutions_monomorphize_separately() {
    let src = "show[T] :: fn(x: T) { print(\"{x}\") }\nshow((1, \"a\"))\nshow((true, false))\n";
    check(src, &lines(&[r#"(1, "a")"#, "(true, false)"]));
}

#[test]
fn holes_in_strings_show_their_values() {
    check(&lines(&["n :: 4", r#"print("n = {n}, twice {n * 2}, {[1, 2]}")"#]), "n = 4, twice 8, [1, 2]");
    fail(r#"print("open {n")"#, "unclosed");
}

// ---------------------------------------------------------------- macros

#[test]
fn macro_stmt_arg_then_block() {
    let src = "m! :: fn(n: Ast, b: Ast) Ast { `if %n { %{..b.items} }` }\nm! true { print(1) }\nm! false { print(9) }\n";
    check(src, "1");
}

#[test]
fn macro_block_arg() {
    let src = "m! :: fn(b: Ast) Ast { `%{..b.items}` }\nm! { print(2) }\nm!({ print(3) })\n";
    check(src, &lines(&["2", "3"]));
}

#[test]
fn macro_calls_put_their_arguments_in() {
    let src = "twice! :: fn(e: Ast) Ast { `print(%e, %e)` }\nn := 4\ntwice!(n + 1)\nf :: fn() { twice! 7 }\nf()\n";
    check(src, &lines(&["5 5", "7 7"]));
    fail("m! :: fn(b: Ast) Ast { `%{..b.items}` }\nm!(1, 2)\n", "takes 1 argument(s)");
    fail("m! :: fn(b: Ast) Ast { print(1) }\n", "one quote");
}

// ---------------------------------------------------------------- the entry module

#[test]
fn a_later_fn_replaces_an_earlier_one() {
    check("f :: fn() int { 1 }\nf :: fn() int { 2 }\nprint(f())\n", "2");
    fail("S :: struct { a: int }\nS :: struct { b: int }\n", "`S` is defined twice in module `main`");
    fail("f :: fn() int { 1 }\nf :: struct { b: int }\n", "defined twice");
}

#[test]
fn the_entry_file_is_module_main() {
    check("module main\nprint(1)\n", "1");
    fail("module other\nprint(1)\n", "the entry file is module `main`");
    fail("print(1)\nmodule main\n", "`module` must come first");
    fail("@pure\nprint(1)\n", "annotations only attach to definitions");
}

#[test]
fn pipelines_hand_the_value_on_as_dollar() {
    let src = lines(&[
        "double :: fn(n: int) int { n * 2 }",
        "add :: fn(a: int, b: int) int { a + b }",
        "print(3 |> double)",
        "print(2 |> double |> double)",
        "print(5 |> add(1, $))",
        "print(1 + 2 |> double)",
    ]);
    assert_eq!(run(&src), "6\n8\n6\n6");
}

#[test]
fn an_or_tail_calls_a_bare_name_with_the_error() {
    let src = lines(&[
        "recover :: fn(e: Error) int { print(e); 0 }",
        "f :: fn(bad: bool) !int { if bad { return error(\"boom\") }; 1 }",
        "print(f(true) or recover)",
        "print(f(false) or recover)",
    ]);
    assert_eq!(run(&src), "boom\n0\n1");
}

#[test]
fn is_asks_whether_a_type_claims_a_trait() {
    check(
        "Show :: trait { show : fn(self) }\nA :: struct { n: int }\nB :: struct { n: int }\nA : Show < { show :: fn(self) { print(self.n) } }\nprint(A is Show, B is Show, B is not Show)\n",
        "true false true",
    );
    check("Ord :: trait {}\nint :< Ord\nprint(int is Ord, bool is Ord)\n", "true false");
    check(
        "Ord :: trait {}\nint :< Ord\nsays[T] :: fn(x: T) bool { T is Ord }\nprint(says(1), says(true))\n",
        "true false",
    );
}

#[test]
fn pow() {
    check("2 ** 10", "1024");
    check("2 ** 3 ** 2", "512");
    check("-2 ** 2", "-4");
    fail_rt("2 ** -1", "negative exponent");
}

#[test]
fn enum_from_names_tags_and_atoms() {
    let src = lines(&[
        "Color :: enum { red, green(int) }",
        r#"print(Color.from("green"))"#,
        "print(Color.from(0))",
        "print(Color.from(:red))",
        r#"print(Color.from("blue"))"#,
    ]);
    check(&src, &lines(&["ok.(green.(0))", "ok.(red)", "ok.(red)", r#"err.("no matching variant")"#]));
}

#[test]
fn enum_from_refuses_other_arguments() {
    fail(&lines(&["Color :: enum { red }", "Color.from(true)"]), "`Color.from` needs an int, string, or atom. Got bool");
    fail(&lines(&["Color :: enum { red }", "Color.from()"]), "`Color.from` takes 1 argument, got 0");
}

#[test]
fn break_is_no_value() {
    fail(&lines(&["loop i in 0..3 {", "    print(break)", "}"]), "`break` and `continue` never produce a value");
}

#[test]
fn ord_gives_the_variant_index() {
    check(&lines(&["Coin :: enum { quarter(int) penny }", "c := Coin.penny", "print(ord(c), ord(Coin.quarter.(25)))"]), "1 0");
    fail(&lines(&["print(ord(3))"]), "`ord` expects an Ordinal, got int");
    fail(&lines(&["print(ord())"]), "`ord` cast takes exactly 1 argument");
}
