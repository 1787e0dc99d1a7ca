//! Scaffolding a project: which files to write, and what to say, given what is on disk.
use vstd::prelude::*;
use vstd::string::StringSliceAdditionalSpecFns;

use crate::text::{lit, push_all, push_str};

verus! {

/// A file that a scaffold writes.
#[derive(Clone, Copy, Debug, PartialEq, Eq, Structural)]
pub enum Template {
    /// `src/main.oi`, from the main template.
    Main,
    /// `.gitignore`, from the ignore template.
    Ignore,
}

/// One step of scaffolding a project.
#[derive(Debug)]
pub enum Step {
    /// Write a template to a path, creating its directories.
    Write(Vec<u8>, Template),
    /// Make the directory a git repository.
    GitInit(Vec<u8>),
    /// Print a line to stdout.
    Announce(Vec<u8>),
}

/// What the disk holds around the project directory.
#[derive(Clone, Copy, Debug)]
pub struct Disk {
    /// Whether `src/main.oi` exists already.
    pub entry_exists: bool,
    /// Whether `.gitignore` exists already.
    pub ignore_exists: bool,
    /// Whether the directory lies inside a git repository.
    pub inside_git: bool,
}

/// A path under a directory.
pub open spec fn spec_join(dir: Seq<u8>, rel: Seq<u8>) -> Seq<u8> {
    dir + seq![47u8] + rel
}

/// The project's entry file.
pub open spec fn spec_entry(dir: Seq<u8>) -> Seq<u8> {
    spec_join(dir, "src/main.oi".spec_bytes())
}

/// The project's ignore file.
pub open spec fn spec_ignore(dir: Seq<u8>) -> Seq<u8> {
    spec_join(dir, ".gitignore".spec_bytes())
}

/// The number of steps a scaffold takes on a disk.
pub open spec fn spec_step_count(disk: Disk) -> int {
    2 + (if disk.ignore_exists {
        0int
    } else {
        1int
    }) + (if disk.inside_git {
        0int
    } else {
        1int
    })
}

/// A path under a directory.
pub fn join(dir: &[u8], rel: &str) -> (r: Vec<u8>)
    ensures
        r@ == spec_join(dir@, rel.spec_bytes()),
{
    let mut out = crate::text::owned(dir);
    out.push(47);
    push_str(&mut out, rel);
    out
}

/// Scaffold a project in `dir`: the entry file (refused when it exists), the ignore file when
/// missing, a git repository when outside one, and a line that names the entry.
pub fn scaffold(dir: &[u8], disk: Disk) -> (r: Result<Vec<Step>, Vec<u8>>)
    ensures
        disk.entry_exists <==> r is Err,
        r matches Err(m) ==> m@ == "oi: ".spec_bytes() + spec_entry(dir@) + " already exists".spec_bytes(),
        r matches Ok(steps) ==> {
            &&& steps@.len() == spec_step_count(disk)
            &&& steps@[0] matches Step::Write(p, Template::Main) && p@ == spec_entry(dir@)
            &&& !disk.ignore_exists ==> (steps@[1] matches Step::Write(p, Template::Ignore) && p@
                == spec_ignore(dir@))
            &&& !disk.inside_git ==> (steps@[steps@.len() - 2] matches Step::GitInit(d) && d@ == dir@)
            &&& steps@.last() matches Step::Announce(m) && m@ == "oi: created ".spec_bytes() + spec_entry(
                dir@,
            )
        },
{
    let entry = join(dir, "src/main.oi");
    if disk.entry_exists {
        let mut msg = lit("oi: ");
        push_all(&mut msg, entry.as_slice());
        push_str(&mut msg, " already exists");
        return Err(msg);
    }
    let mut steps: Vec<Step> = Vec::new();
    steps.push(Step::Write(crate::text::owned(entry.as_slice()), Template::Main));
    if !disk.ignore_exists {
        steps.push(Step::Write(join(dir, ".gitignore"), Template::Ignore));
    }
    if !disk.inside_git {
        steps.push(Step::GitInit(crate::text::owned(dir)));
    }
    let mut msg = lit("oi: created ");
    push_all(&mut msg, entry.as_slice());
    steps.push(Step::Announce(msg));
    Ok(steps)
}

/// Scaffold a project in the current directory.
pub fn init(disk: Disk) -> (r: Result<Vec<Step>, Vec<u8>>)
    ensures
        disk.entry_exists <==> r is Err,
        r matches Err(m) ==> m@ == "oi: ".spec_bytes() + spec_entry(seq![46u8]) + " already exists".spec_bytes(),
        r matches Ok(steps) ==> {
            &&& steps@.len() == spec_step_count(disk)
            &&& steps@[0] matches Step::Write(p, Template::Main) && p@ == spec_entry(seq![46u8])
            &&& !disk.ignore_exists ==> (steps@[1] matches Step::Write(p, Template::Ignore) && p@
                == spec_ignore(seq![46u8]))
            &&& !disk.inside_git ==> (steps@[steps@.len() - 2] matches Step::GitInit(d) && d@ == seq![46u8])
            &&& steps@.last() matches Step::Announce(m) && m@ == "oi: created ".spec_bytes() + spec_entry(
                seq![46u8],
            )
        },
{
    let mut dot: Vec<u8> = Vec::new();
    dot.push(46);
    assert(dot@ == seq![46u8]);
    scaffold(dot.as_slice(), disk)
}

} // verus!
