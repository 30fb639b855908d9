//! The command layer: the shared per-invocation state, the interface
//! every subcommand's arguments implement, the bare argument records,
//! and the interpretation of the one-time overwrite confirmation.

use vstd::prelude::*;

use crate::actions::Actions;
use crate::policy::Policy;
use crate::text::{eq_ignore_case, lower_seq, trim_blanks, trimmed};

verus! {

/// What every subcommand's arguments can do: run over the discovered
/// files.
pub trait ArgRun {
    fn run_multiple(self, path: &str, files: Vec<String>, verbose: bool, jobs: usize);
}

/// One invocation's shared state: the root path, the discovered
/// record files, verbosity, and the derived worker count.
pub struct CliCommand<'a> {
    pub path: &'a str,
    pub files: Vec<String>,
    pub verbose: bool,
    pub jobs: usize,
}

impl<'a> CliCommand<'a> {
    /// Bind an invocation's state, deriving the worker count from the
    /// request and the number of discovered files.
    pub fn new(path: &'a str, files: Vec<String>, verbose: bool, jobs: Option<usize>) -> (r: Self)
        ensures
            r.path@ == path@,
            r.files == files,
            r.verbose == verbose,
            jobs is None ==> r.jobs == 1,
            jobs matches Some(j) ==> (j > 0 ==> r.jobs == j),
            jobs == Some(0usize) ==> r.jobs <= files@.len() && (files@.len() >= 1 ==> r.jobs
                >= 1),
    {
        let count = files.len();
        Self { path, jobs: crate::batch::jobs_handling(jobs, count), files, verbose }
    }

    /// Hand the invocation to the subcommand's arguments.
    pub fn run(self, arg: impl ArgRun) {
        arg.run_multiple(self.path, self.files, self.verbose, self.jobs)
    }
}

/// The de-identification subcommand's arguments.
pub struct AnoArgs {
    /// The mutation strategy; an absent value means zeroing.
    pub action: Option<Actions>,
    /// The severity policy; an absent value means basic.
    pub policy: Option<Policy>,
    /// The output directory; an absent value means overwriting in
    /// place, after confirmation.
    pub out: Option<String>,
    /// Preview the first discovered file instead of writing it.
    pub dry: bool,
}

/// The tag-listing subcommand's arguments.
pub struct TagsArgs {
    /// Which tags to list.
    pub kind: crate::entries::TagFlags,
    /// Whether pixel data is read as well.
    pub with_pixel_data: bool,
    /// The worker count request.
    pub jobs: Option<usize>,
    /// Export the listing to this path as JSON.
    pub json: Option<String>,
    /// Export the listing to this path as CSV.
    pub csv: Option<String>,
}

/// The image-view subcommand's arguments.
pub struct ViewArgs {
    /// How many rendered images to open for display.
    pub open: Option<u8>,
    /// Render into a temporary directory instead of beside the input.
    pub temp: bool,
    /// The output directory; an absent value means beside the input.
    pub out: Option<String>,
    /// The worker count request.
    pub jobs: Option<usize>,
}

/// Whether a typed reply counts as assent: `y` or `yes`, after
/// trimming, in any ASCII case.
pub open spec fn spec_is_yes(s: Seq<char>) -> bool {
    lower_seq(trimmed(s)) == "y"@ || lower_seq(trimmed(s)) == "yes"@
}

/// Interpret the reply to the one-time overwrite confirmation.
pub fn interpret_yes_no(answer: &str) -> (r: bool)
    ensures
        r == spec_is_yes(answer@),
{
    let t = trim_blanks(answer);
    proof {
        reveal_strlit("y");
        reveal_strlit("yes");
        assert(lower_seq("y"@) =~= "y"@);
        assert(lower_seq("yes"@) =~= "yes"@);
    }
    eq_ignore_case(t.as_str(), "y") || eq_ignore_case(t.as_str(), "yes")
}

} // verus!
