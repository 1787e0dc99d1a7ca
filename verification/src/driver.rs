//! Running a program with the debugging switches.
use vstd::prelude::*;
use vstd::string::StringSliceAdditionalSpecFns;

use crate::program::{Compiled, Outcome, check_source, compile, load_source, report, run_compiled};
use crate::text::{push_all, push_str, push_u64};

verus! {

/// A compilation stage to dump to stderr instead of running.
#[derive(Clone, Copy, Debug, PartialEq, Eq, Structural)]
pub enum Emit {
    Tokens,
    Ast,
    Clif,
}

/// Flags that toggle introspection.
#[derive(Clone, Copy, Debug, Default)]
pub struct DebugOpts {
    pub timings: bool,
    pub emit: Option<Emit>,
    pub check: bool,
}

/// The line a token is dumped as: its span, then its kind.
pub open spec fn spec_token_line(t: crate::lexer::Token) -> Seq<u8> {
    crate::text::spec_digits(t.start as nat) + "..".spec_bytes() + crate::text::spec_digits(t.end as nat) + seq![32u8]
        + crate::lexer::spec_describe(t.tok) + seq![10u8]
}

/// The lines of a list of tokens.
pub open spec fn spec_token_lines(toks: Seq<crate::lexer::Token>) -> Seq<u8>
    decreases toks.len(),
{
    if toks.len() == 0 {
        Seq::empty()
    } else {
        spec_token_lines(toks.drop_last()) + spec_token_line(toks.last())
    }
}

/// The lines of a list of compiled functions: each one's name and instruction count.
pub open spec fn spec_function_lines(funcs: Seq<crate::ir::Func>) -> Seq<u8>
    decreases funcs.len(),
{
    if funcs.len() == 0 {
        Seq::empty()
    } else {
        spec_function_lines(funcs.drop_last()) + funcs.last().name@ + ": ".spec_bytes() + crate::text::spec_digits(
            funcs.last().body@.len(),
        ) + " instructions\n".spec_bytes()
    }
}

/// The tokens of a program, one per line: the span, then the token's kind.
pub fn dump_tokens(src: &[u8], out: &mut Vec<u8>) -> (r: bool)
    ensures
        !r ==> final(out)@ == old(out)@,
        final(out)@.len() >= old(out)@.len(),
        r ==> exists|toks: Seq<crate::lexer::Token>|
            crate::lexer::well_placed(toks, src@.len()) && final(out)@ == old(out)@ + #[trigger] spec_token_lines(toks),
{
    let toks = match crate::lexer::lex(src) {
        Ok(t) => t,
        Err(_) => {
            return false;
        },
    };
    let mut i: usize = 0;
    while i < toks.len()
        invariant
            i <= toks@.len(),
            out@ == old(out)@ + spec_token_lines(toks@.take(i as int)),
        decreases toks@.len() - i,
    {
        push_u64(out, toks[i].start as u64);
        push_str(out, "..");
        push_u64(out, toks[i].end as u64);
        out.push(32);
        crate::lexer::describe(&toks[i].tok, out);
        out.push(10);
        assert(toks@.take(i + 1).drop_last() =~= toks@.take(i as int));
        i = i + 1;
    }
    assert(toks@.take(toks@.len() as int) =~= toks@);
    true
}

/// One line per compiled function: its name and its instruction count.
pub fn dump_functions(c: &Compiled, out: &mut Vec<u8>)
    ensures
        final(out)@ == old(out)@ + spec_function_lines(c.funcs@),
{
    let mut f: usize = 0;
    while f < c.funcs.len()
        invariant
            f <= c.funcs@.len(),
            out@ == old(out)@ + spec_function_lines(c.funcs@.take(f as int)),
        decreases c.funcs@.len() - f,
    {
        push_all(out, c.funcs[f].name.as_slice());
        push_str(out, ": ");
        push_u64(out, c.funcs[f].body.len() as u64);
        push_str(out, " instructions\n");
        assert(c.funcs@.take(f + 1).drop_last() =~= c.funcs@.take(f as int));
        f = f + 1;
    }
    assert(c.funcs@.take(c.funcs@.len() as int) =~= c.funcs@);
}

/// Compile and run a program with the debugging switches: `check` compiles without running;
/// `emit` dumps the tokens, or the compiled functions, to stderr before the run.
pub fn run_with_opts(src: &[u8], opts: DebugOpts) -> (r: Outcome)
    ensures
        opts.check ==> r.stdout@.len() == 0,
        r.status == 0 || r.status == 1 || r.status == 101,
        r.status == 1 ==> r.stdout@.len() == 0,
{
    let mut dump: Vec<u8> = Vec::new();
    if let Some(Emit::Tokens) = opts.emit {
        dump_tokens(src, &mut dump);
    }
    if opts.check {
        let out = check_source(src);
        push_all(&mut dump, out.stderr.as_slice());
        return Outcome { stdout: out.stdout, stderr: dump, status: out.status };
    }
    let items = match load_source(src) {
        Ok(items) => items,
        Err(msg) => {
            let r = report(msg.as_slice());
            push_all(&mut dump, r.as_slice());
            return Outcome { stdout: Vec::new(), stderr: dump, status: 1 };
        },
    };
    let c = match compile(&Vec::new(), &items) {
        Ok(c) => c,
        Err(msg) => {
            let r = report(msg.as_slice());
            push_all(&mut dump, r.as_slice());
            return Outcome { stdout: Vec::new(), stderr: dump, status: 1 };
        },
    };
    if let Some(Emit::Clif) = opts.emit {
        dump_functions(&c, &mut dump);
    }
    let out = run_compiled(&c);
    push_all(&mut dump, out.stderr.as_slice());
    Outcome { stdout: out.stdout, stderr: dump, status: out.status }
}

} // verus!
