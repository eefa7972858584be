//! The prompt-deferral coordinator and the command re-invocation driver.
//!
//! One scan pass collects every `prompt` label, in source order, and leaves
//! one placeholder marker per prompt in the partially expanded string.
//! Each submitted answer replaces the first remaining marker — so answers
//! land left to right, whatever the timing — as literal text: an answer is
//! never itself scanned for tokens.  When no prompt remains, the final
//! string is split on single spaces and the command is invoked with that
//! argument list, exactly once.  Cancelling a prompt drops the pending
//! state: no command runs and nothing of the partial string escapes.

use vstd::prelude::*;

use crate::resolver::prompt_marker;
use crate::scanner::{scan_from, scan_expand, Expansion};
use crate::snapshot::EditorSnapshot;
use crate::text::{replace_first, replace_first_in};
use crate::words::{split_spaces_from, split_spaces, join_spaces_from, join_from};

verus! {

/// A fully resolved invocation: the command name and the argument list it
/// receives.
pub struct Invocation {
    pub name: String,
    pub args: Vec<String>,
}

/// State of an invocation whose `prompt` tokens are not all answered yet:
/// the command name, the partially expanded string (one placeholder marker
/// per unanswered prompt), and the unanswered labels, in source order.
pub struct PendingExpansion {
    pub name: String,
    pub partial: String,
    pub labels: Vec<String>,
}

/// What the host must do next.
pub enum Step {
    /// Every token is resolved: invoke this command, exactly once.
    Run(Invocation),
    /// Open a prompt with this label and feed the answer to
    /// `PendingExpansion::submit`; or drop the state to cancel.
    Prompt(String, PendingExpansion),
}

/// The argument list a fully resolved string yields: split at every single
/// space, empty fields kept.
pub open spec fn args_of(text: Seq<char>) -> Seq<Seq<char>> {
    split_spaces_from(text, 0)
}

/// Join the raw arguments, scan the result, and either hand back the
/// complete invocation or request the first prompt.
pub fn expand_and_execute(snap: &EditorSnapshot, name: &String, args: &Vec<String>) -> (r: Step)
    requires
        snap.wf(),
    ensures
        ({
            let sc = scan_from(snap@, join_spaces_from(args.deep_view(), 0), 0);
            match r {
                Step::Run(inv) => {
                    &&& sc.prompts.len() == 0
                    &&& inv.name@ == name@
                    &&& inv.args.deep_view() == args_of(sc.text)
                },
                Step::Prompt(label, st) => {
                    &&& sc.prompts.len() > 0
                    &&& label@ == sc.prompts[0]
                    &&& st.name@ == name@
                    &&& st.partial@ == sc.text
                    &&& st.labels.deep_view() == sc.prompts.skip(1)
                },
            }
        }),
{
    let input: String = join_from(args, 0);
    let exp: Expansion = scan_expand(snap, input.as_str());
    let Expansion { output, prompts, diagnostics: _ } = exp;
    if prompts.len() == 0 {
        let run_args: Vec<String> = split_spaces(output.as_str());
        Step::Run(Invocation { name: name.clone(), args: run_args })
    } else {
        let ghost all = prompts.deep_view();
        let mut labels: Vec<String> = prompts;
        let first: String = labels.remove(0);
        proof {
            assert(labels.deep_view() =~= all.skip(1));
        }
        Step::Prompt(first, PendingExpansion { name: name.clone(), partial: output, labels })
    }
}

impl PendingExpansion {
    /// Substitute the answer for the first remaining placeholder marker,
    /// then either request the next prompt or hand back the invocation.
    pub fn submit(self, answer: &str) -> (r: Step)
        ensures
            ({
                let p2 = replace_first(self.partial@, prompt_marker(), answer@);
                match r {
                    Step::Run(inv) => {
                        &&& self.labels@.len() == 0
                        &&& inv.name@ == self.name@
                        &&& inv.args.deep_view() == args_of(p2)
                    },
                    Step::Prompt(label, st) => {
                        &&& self.labels@.len() > 0
                        &&& label@ == self.labels@[0]@
                        &&& st.name@ == self.name@
                        &&& st.partial@ == p2
                        &&& st.labels.deep_view() == self.labels.deep_view().skip(1)
                    },
                }
            }),
    {
        proof {
            reveal_strlit("%{prompt}");
        }
        let substituted: String = replace_first_in(self.partial.as_str(), "%{prompt}", answer);
        let PendingExpansion { name, partial: _, labels } = self;
        let ghost all = labels.deep_view();
        let mut labels: Vec<String> = labels;
        if labels.len() == 0 {
            let run_args: Vec<String> = split_spaces(substituted.as_str());
            Step::Run(Invocation { name, args: run_args })
        } else {
            let next: String = labels.remove(0);
            proof {
                assert(labels.deep_view() =~= all.skip(1));
            }
            Step::Prompt(next, PendingExpansion { name, partial: substituted, labels })
        }
    }
}

} // verus!
