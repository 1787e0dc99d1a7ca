#![verifier::loop_isolation(false)]

//! `oi test`: each test of a program runs on its own, from the statics as declared, and the run
//! reports each test's outcome and a summary.
use vstd::prelude::*;
use vstd::string::StringSliceAdditionalSpecFns;

use crate::ast::Expr;
use crate::program::{Outcome, report};
use crate::text::{bytes_eq, lit, push_all, push_str, push_u64, spec_digits};
use crate::translator::Translator;

verus! {

/// A test: the name it reports under, whether it is skipped, and its function's name.
pub struct TestCase {
    pub display: Vec<u8>,
    pub skip: bool,
    pub func: Vec<u8>,
}

/// How many tests ran well, failed, were skipped, and were left out by the pattern.
pub struct Tally {
    pub passed: u64,
    pub failed: u64,
    pub skipped: u64,
    pub filtered: u64,
}

/// `; {n} {what}` when `n` is not zero.
pub open spec fn spec_part(n: nat, what: Seq<u8>) -> Seq<u8> {
    if n == 0 {
        Seq::empty()
    } else {
        "; ".spec_bytes() + spec_digits(n) + " ".spec_bytes() + what
    }
}

/// The summary line: `{passed} passed`, then the failed, skipped and filtered-out counts that
/// are not zero.
pub open spec fn spec_summary(t: Tally) -> Seq<u8> {
    spec_digits(t.passed as nat) + " passed".spec_bytes() + spec_part(t.failed as nat, "failed".spec_bytes())
        + spec_part(t.skipped as nat, "skipped".spec_bytes()) + spec_part(t.filtered as nat, "filtered out".spec_bytes())
        + seq![10u8]
}

/// Append `; {n} {what}` when `n` is not zero.
fn push_part(out: &mut Vec<u8>, n: u64, what: &str)
    ensures
        final(out)@ == old(out)@ + spec_part(n as nat, what.spec_bytes()),
{
    if n > 0 {
        let ghost before = out@;
        push_str(out, "; ");
        push_u64(out, n);
        push_str(out, " ");
        push_str(out, what);
        assert(out@ =~= before + spec_part(n as nat, what.spec_bytes()));
    } else {
        assert(out@ =~= old(out)@ + spec_part(n as nat, what.spec_bytes()));
    }
}

/// The summary line of a test run.
pub fn summary(t: &Tally) -> (r: Vec<u8>)
    ensures
        r@ == spec_summary(*t),
{
    let mut out: Vec<u8> = Vec::new();
    push_u64(&mut out, t.passed);
    push_str(&mut out, " passed");
    push_part(&mut out, t.failed, "failed");
    push_part(&mut out, t.skipped, "skipped");
    push_part(&mut out, t.filtered, "filtered out");
    out.push(10);
    assert(out@ =~= spec_summary(*t));
    out
}

/// How many tests a program's items hold.
pub open spec fn spec_test_count(items: Seq<Expr>) -> nat
    decreases items.len(),
{
    if items.len() == 0 {
        0
    } else {
        (if items[0] is TestDef {
            1nat
        } else {
            0nat
        }) + spec_test_count(items.subrange(1, items.len() as int))
    }
}

/// The items with each test's function standing in for the test, and the tests in order.
pub fn split_tests(items: Vec<Expr>) -> (r: (Vec<Expr>, Vec<TestCase>))
    ensures
        r.0@.len() == items@.len(),
        r.1@.len() == spec_test_count(items@),
{
    let ghost all = items@;
    let mut items = items;
    let mut out: Vec<Expr> = Vec::new();
    let mut tests: Vec<TestCase> = Vec::new();
    while items.len() > 0
        invariant
            out@.len() + items@.len() == all.len(),
            tests@.len() + spec_test_count(items@) == spec_test_count(all),
        decreases items@.len(),
    {
        let ghost before = items@;
        let e = items.remove(0);
        assert(items@ =~= before.subrange(1, before.len() as int));
        assert(e == before[0]);
        match e {
            Expr::TestDef { display, skip, item } => {
                let func = match &*item {
                    Expr::Fn { name, .. } => name.clone(),
                    Expr::Annotated(_, inner) => match &**inner {
                        Expr::Fn { name, .. } => name.clone(),
                        _ => Vec::new(),
                    },
                    _ => Vec::new(),
                };
                tests.push(TestCase { display, skip, func });
                out.push(*item);
            },
            other => out.push(other),
        }
    }
    (out, tests)
}

/// Whether `pattern` occurs in `s`.
pub fn contains(s: &[u8], pattern: &[u8]) -> (r: bool)
    ensures
        r == exists|i: int| 0 <= i && i + pattern@.len() <= s@.len() && #[trigger] s@.subrange(i, i + pattern@.len()) == pattern@,
{
    if pattern.len() > s.len() {
        assert forall|i: int| 0 <= i && i + pattern@.len() <= s@.len() implies #[trigger] s@.subrange(
            i,
            i + pattern@.len(),
        ) != pattern@ by {}
        return false;
    }
    let mut i: usize = 0;
    while i <= s.len() - pattern.len()
        invariant
            pattern@.len() <= s@.len(),
            i <= s@.len() - pattern@.len() + 1,
            forall|j: int| 0 <= j < i ==> #[trigger] s@.subrange(j, j + pattern@.len()) != pattern@,
        decreases s@.len() - i,
    {
        let mut k: usize = 0;
        let mut same = true;
        while k < pattern.len()
            invariant
                i + pattern@.len() <= s@.len(),
                k <= pattern@.len(),
                same == forall|m: int| 0 <= m < k ==> s@[i + m] == pattern@[m],
            decreases pattern@.len() - k,
        {
            if s[i + k] != pattern[k] {
                same = false;
            }
            k = k + 1;
        }
        if same {
            assert(s@.subrange(i as int, i + pattern@.len()) =~= pattern@);
            return true;
        }
        assert(s@.subrange(i as int, i + pattern@.len()) != pattern@) by {
            let m = choose|m: int| 0 <= m < pattern@.len() && s@[i + m] != pattern@[m];
            assert(s@.subrange(i as int, i + pattern@.len())[m] == s@[i + m]);
        }
        i = i + 1;
    }
    false
}

/// Run a program's tests: each whose name holds the pattern runs on its own, from the statics as
/// declared; each prints `test {name} ... ` and then `ok`, `FAILED` or `skipped`; a summary line
/// ends the run. Status 1 with the error when the program does not compile, 1 when a test
/// failed, else 0.
pub fn run_tests(deps: &Vec<Expr>, items: Vec<Expr>, pattern: Option<&[u8]>) -> (r: (Outcome, Option<Tally>))
    ensures
        r.0.status == 0 || r.0.status == 1,
        r.1 matches Some(t) ==> (r.0.status == 0 <==> t.failed == 0),
        r.1 matches Some(t) ==> t.passed + t.failed + t.skipped + t.filtered == spec_test_count(items@),
        r.1 matches Some(t) ==> r.0.stdout@.len() >= spec_summary(t).len() && r.0.stdout@.subrange(
            r.0.stdout@.len() - spec_summary(t).len(),
            r.0.stdout@.len() as int,
        ) == spec_summary(t),
        r.1 is None ==> r.0.status == 1 && r.0.stdout@.len() == 0 && r.0.stderr@.len() > 0,
{
    let (items, tests) = split_tests(items);
    let mut tr = Translator::new();
    match tr.compile_program(deps, &items, true) {
        Ok(_) => {},
        Err(d) => {
            return (Outcome { stdout: Vec::new(), stderr: report(d.msg.as_slice()), status: 1 }, None);
        },
    }
    // the entries first, then the runs
    let mut entries: Vec<Option<usize>> = Vec::new();
    let mut i: usize = 0;
    while i < tests.len()
        invariant
            i <= tests@.len(),
            entries@.len() == i,
        decreases tests@.len() - i,
    {
        let chosen = match pattern {
            Some(p) => contains(tests[i].display.as_slice(), p),
            None => true,
        };
        let e = if chosen && !tests[i].skip {
            match tr.find_sig(tests[i].func.as_slice()) {
                Some(f) => Some(tr.test_entry(f)),
                None => None,
            }
        } else {
            None
        };
        entries.push(e);
        i = i + 1;
    }
    let mut t = Tally { passed: 0, failed: 0, skipped: 0, filtered: 0 };
    let mut stdout: Vec<u8> = Vec::new();
    let mut stderr: Vec<u8> = Vec::new();
    let mut i: usize = 0;
    while i < tests.len()
        invariant
            i <= tests@.len(),
            entries@.len() == tests@.len(),
            t.passed + t.failed + t.skipped + t.filtered == i,
        decreases tests@.len() - i,
    {
        let chosen = match pattern {
            Some(p) => contains(tests[i].display.as_slice(), p),
            None => true,
        };
        if !chosen {
            t.filtered = t.filtered + 1;
        } else {
            push_str(&mut stdout, "test ");
            push_all(&mut stdout, tests[i].display.as_slice());
            push_str(&mut stdout, " ... ");
            if tests[i].skip {
                push_str(&mut stdout, "skipped\n");
                t.skipped = t.skipped + 1;
            } else {
                let ok = match entries[i] {
                    Some(entry) => {
                        let (out, err, failure) = crate::machine::run_program(&tr.funcs, &tr.enums, entry);
                        push_all(&mut stdout, out.as_slice());
                        push_all(&mut stderr, err.as_slice());
                        match failure {
                            Some(m) => {
                                push_str(&mut stderr, "panic: ");
                                push_all(&mut stderr, m.as_slice());
                                stderr.push(10);
                                false
                            },
                            None => true,
                        }
                    },
                    None => false,
                };
                if ok {
                    push_str(&mut stdout, "ok\n");
                    t.passed = t.passed + 1;
                } else {
                    push_str(&mut stdout, "FAILED\n");
                    t.failed = t.failed + 1;
                }
            }
        }
        i = i + 1;
    }
    let line = summary(&t);
    push_all(&mut stdout, line.as_slice());
    assert(stdout@.subrange(stdout@.len() - line@.len(), stdout@.len() as int) =~= line@);
    let status = if t.failed == 0 {
        0
    } else {
        1
    };
    (Outcome { stdout, stderr, status }, Some(t))
}

/// Whether a run's output ends with the summary line of a tally, and its status says whether a
/// test of the tally failed.
pub open spec fn reports_tally(r: Outcome, t: Tally) -> bool {
    &&& r.stdout@.len() >= spec_summary(t).len()
    &&& r.stdout@.subrange(r.stdout@.len() - spec_summary(t).len(), r.stdout@.len() as int) == spec_summary(t)
    &&& (r.status == 0 <==> t.failed == 0)
}

/// Whether a run either reports a tally, or failed before any test ran: status 1, nothing on
/// stdout, the error report on stderr.
pub open spec fn test_run_outcome(r: Outcome) -> bool {
    ||| exists|t: Tally| #[trigger] reports_tally(r, t)
    ||| r.status == 1 && r.stdout@.len() == 0 && r.stderr@.len() > 0
}

/// Run the tests of one source.
pub fn test_source(src: &[u8], pattern: Option<&[u8]>) -> (r: Outcome)
    ensures
        r.status == 0 || r.status == 1,
        test_run_outcome(r),
        r.status == 0 ==> exists|t: Tally| #[trigger] reports_tally(r, t) && t.failed == 0,
{
    let items = match crate::program::load_source(src) {
        Ok(items) => items,
        Err(msg) => {
            return Outcome { stdout: Vec::new(), stderr: report(msg.as_slice()), status: 1 };
        },
    };
    let (out, tally) = run_tests(&Vec::new(), items, pattern);
    proof {
        if let Some(t) = tally {
            assert(reports_tally(out, t));
        }
    }
    out
}

/// Run the tests of a project's `main` module, with the modules it imports.
pub fn test_project(entry: &Vec<Vec<u8>>, files: &Vec<(Vec<u8>, Vec<u8>)>, pattern: Option<&[u8]>) -> (r: Outcome)
    ensures
        r.status == 0 || r.status == 1,
        test_run_outcome(r),
        r.status == 0 ==> exists|t: Tally| #[trigger] reports_tally(r, t) && t.failed == 0,
{
    match crate::program::project_items(entry, files) {
        Ok((deps, items)) => {
            let (out, tally) = run_tests(&deps, items, pattern);
            proof {
                if let Some(t) = tally {
                    assert(reports_tally(out, t));
                }
            }
            out
        },
        Err(msg) => Outcome { stdout: Vec::new(), stderr: report(msg.as_slice()), status: 1 },
    }
}

} // verus!
