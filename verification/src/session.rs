//! An interactive session: each line runs after what the earlier lines defined, and a few
//! commands steer the session.
use vstd::prelude::*;
use vstd::string::StringSliceAdditionalSpecFns;

use crate::program::{Outcome, run_source, session_defs};
use crate::text::push_all;

verus! {

/// A session: the source of the definitions, imports and bindings its lines kept.
pub struct Session {
    pub kept: Vec<u8>,
}

/// What a session does with a line.
pub enum Reply {
    /// A blank line: nothing.
    Nothing,
    /// `:h` or `:help`: show the help.
    Help,
    /// `:q`, `:quit`, `:x` or `:exit`: end the session.
    Quit,
    /// `:c` or `:clear`: forget what the earlier lines kept.
    Cleared,
    /// Anything else ran, after what the session kept; here is what it printed.
    Ran(Outcome),
}

/// Whether a byte is a space, a tab, a carriage return or a line break.
pub open spec fn spec_blank(c: u8) -> bool {
    c == 32 || c == 9 || c == 13 || c == 10
}

/// A line without the blanks around it.
pub open spec fn spec_trim(s: Seq<u8>) -> Seq<u8>
    decreases s.len(),
{
    if s.len() > 0 && spec_blank(s[0]) {
        spec_trim(s.subrange(1, s.len() as int))
    } else if s.len() > 0 && spec_blank(s.last()) {
        spec_trim(s.drop_last())
    } else {
        s
    }
}

/// A line without the blanks around it.
pub fn trim(s: &[u8]) -> (r: Vec<u8>)
    ensures
        r@ == spec_trim(s@),
{
    let mut a: usize = 0;
    let mut b: usize = s.len();
    assert(s@.subrange(0, s@.len() as int) =~= s@);
    while a < b && (s[a] == 32 || s[a] == 9 || s[a] == 13 || s[a] == 10)
        invariant
            a <= b <= s@.len(),
            b == s@.len(),
            spec_trim(s@) == spec_trim(s@.subrange(a as int, b as int)),
        decreases b - a,
    {
        assert(s@.subrange(a as int + 1, b as int) =~= s@.subrange(a as int, b as int).subrange(
            1,
            (b - a) as int,
        ));
        a = a + 1;
    }
    while a < b && (s[b - 1] == 32 || s[b - 1] == 9 || s[b - 1] == 13 || s[b - 1] == 10)
        invariant
            a <= b <= s@.len(),
            a == b || !spec_blank(s@[a as int]),
            spec_trim(s@) == spec_trim(s@.subrange(a as int, b as int)),
        decreases b - a,
    {
        assert(s@.subrange(a as int, b - 1) =~= s@.subrange(a as int, b as int).drop_last());
        b = b - 1;
    }
    let mut out: Vec<u8> = Vec::new();
    let mut k = a;
    while k < b
        invariant
            a <= k <= b <= s@.len(),
            out@ == s@.subrange(a as int, k as int),
        decreases b - k,
    {
        out.push(s[k]);
        assert(s@.subrange(a as int, k + 1) =~= s@.subrange(a as int, k as int).push(s@[k as int]));
        k = k + 1;
    }
    out
}

/// Whether a trimmed line asks for the help.
pub open spec fn asks_help(t: Seq<u8>) -> bool {
    t == ":help".spec_bytes() || t == ":h".spec_bytes()
}

/// Whether a trimmed line ends the session.
pub open spec fn asks_quit(t: Seq<u8>) -> bool {
    t == ":quit".spec_bytes() || t == ":q".spec_bytes() || t == ":exit".spec_bytes() || t == ":x".spec_bytes()
}

/// Whether a trimmed line clears the session.
pub open spec fn asks_clear(t: Seq<u8>) -> bool {
    t == ":clear".spec_bytes() || t == ":c".spec_bytes()
}

impl Session {
    /// A session that has kept nothing.
    pub fn new() -> (r: Session)
        ensures
            r.kept@.len() == 0,
    {
        Session { kept: Vec::new() }
    }

    /// Take a line: a blank line does nothing; `:h`/`:help` asks for the help; `:q`, `:quit`,
    /// `:x`, `:exit` end the session; `:c`/`:clear` forget what the session kept; any other
    /// line runs after the kept source, and when it runs cleanly the session keeps its
    /// definitions, imports and bindings.
    pub fn step(&mut self, line: &[u8]) -> (r: Reply)
        ensures
            r is Nothing <==> spec_trim(line@).len() == 0,
            r is Help <==> asks_help(spec_trim(line@)),
            r is Quit <==> asks_quit(spec_trim(line@)),
            r is Cleared <==> asks_clear(spec_trim(line@)),
            r is Help || r is Quit || r is Nothing ==> final(self).kept == old(self).kept,
            r is Cleared ==> final(self).kept@.len() == 0,
            r matches Reply::Ran(out) ==> (out.status != 0 ==> final(self).kept == old(self).kept),
            r matches Reply::Ran(out) ==> final(self).kept@.subrange(0, old(self).kept@.len() as int) == old(self).kept@,
    {
        proof {
            reveal_strlit(":help");
            reveal_strlit(":h");
            reveal_strlit(":quit");
            reveal_strlit(":q");
            reveal_strlit(":exit");
            reveal_strlit(":x");
            reveal_strlit(":clear");
            reveal_strlit(":c");
            assert(vstd::string::is_ascii(":help") && vstd::string::is_ascii(":quit") && vstd::string::is_ascii(":exit"));
            assert(vstd::string::is_ascii(":h") && vstd::string::is_ascii(":q") && vstd::string::is_ascii(":x"));
            assert(vstd::string::is_ascii(":c") && vstd::string::is_ascii(":clear"));
            assert(":help".spec_bytes()[1] != ":quit".spec_bytes()[1]);
            assert(":help".spec_bytes()[1] != ":exit".spec_bytes()[1]);
            assert(":h".spec_bytes()[1] != ":q".spec_bytes()[1]);
            assert(":h".spec_bytes()[1] != ":x".spec_bytes()[1]);
            assert(":h".spec_bytes()[1] != ":c".spec_bytes()[1]);
            assert(":q".spec_bytes()[1] != ":c".spec_bytes()[1]);
            assert(":x".spec_bytes()[1] != ":c".spec_bytes()[1]);
        }
        let t = trim(line);
        if t.len() == 0 {
            return Reply::Nothing;
        }
        if crate::text::is(t.as_slice(), ":help") || crate::text::is(t.as_slice(), ":h") {
            return Reply::Help;
        }
        if crate::text::is(t.as_slice(), ":quit") || crate::text::is(t.as_slice(), ":q") || crate::text::is(
            t.as_slice(),
            ":exit",
        ) || crate::text::is(t.as_slice(), ":x") {
            return Reply::Quit;
        }
        if crate::text::is(t.as_slice(), ":clear") || crate::text::is(t.as_slice(), ":c") {
            self.kept = Vec::new();
            return Reply::Cleared;
        }
        let mut src = self.kept.clone();
        push_all(&mut src, line);
        src.push(10);
        let out = run_source(src.as_slice());
        if out.status == 0 {
            let defs = session_defs(line);
            let ghost before = self.kept@;
            push_all(&mut self.kept, defs.as_slice());
            assert(self.kept@.subrange(0, before.len() as int) =~= before);
        }
        Reply::Ran(out)
    }
}

} // verus!
