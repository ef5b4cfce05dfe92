//! What the template rendering engine reports back, and the report that is
//! put together from it.

use vstd::prelude::*;
use vstd::string::*;

verus! {

/// What the engine did with an artifact.
#[derive(Debug, Clone, Copy, PartialEq, Eq)]
pub enum ArtifactAction {
    Created,
    Overwritten,
    Skipped,
    Unchanged,
}

/// The outcome of rendering one template.
#[derive(Debug, PartialEq, Eq)]
pub struct ArtifactOutcome {
    pub path: String,
    pub action: ArtifactAction,
    pub message: String,
}

pub struct OutcomeModel {
    pub path: Seq<char>,
    pub action: ArtifactAction,
    pub message: Seq<char>,
}

impl View for ArtifactOutcome {
    type V = OutcomeModel;

    open spec fn view(&self) -> OutcomeModel {
        OutcomeModel { path: self.path@, action: self.action, message: self.message@ }
    }
}

impl DeepView for ArtifactOutcome {
    type V = OutcomeModel;

    open spec fn deep_view(&self) -> OutcomeModel {
        self@
    }
}

/// The engine could not produce an artifact.  `details` is what the engine
/// said, word for word.
#[derive(Debug, PartialEq, Eq)]
pub struct RenderError {
    pub details: String,
}

pub struct RenderErrorModel {
    pub details: Seq<char>,
}

impl View for RenderError {
    type V = RenderErrorModel;

    open spec fn view(&self) -> RenderErrorModel {
        RenderErrorModel { details: self.details@ }
    }
}

/// The messages of `outcomes`, in order, with a line break between each two.
pub open spec fn report(outcomes: Seq<OutcomeModel>) -> Seq<char>
    decreases outcomes.len(),
{
    if outcomes.len() == 0 {
        Seq::empty()
    } else if outcomes.len() == 1 {
        outcomes[0].message
    } else {
        report(outcomes.drop_last()) + "\n"@ + outcomes.last().message
    }
}

impl ArtifactOutcome {
    pub fn new(path: &str, action: ArtifactAction, message: &str) -> (outcome: ArtifactOutcome)
        ensures
            outcome@ == (OutcomeModel { path: path@, action, message: message@ }),
    {
        ArtifactOutcome { path: path.to_owned(), action, message: message.to_owned() }
    }
}

impl RenderError {
    pub fn new(details: &str) -> (error: RenderError)
        ensures
            error@.details == details@,
    {
        RenderError { details: details.to_owned() }
    }
}

impl Clone for RenderError {
    fn clone(&self) -> (copy: RenderError)
        ensures
            copy@ == self@,
    {
        RenderError { details: self.details.clone() }
    }
}

/// Joins the messages of the rendering outcomes, in the order in which the
/// templates were rendered, into one report.
pub fn collect_messages(outcomes: &[ArtifactOutcome]) -> (messages: String)
    ensures
        messages@ == report(outcomes.deep_view()),
{
    let ghost all = outcomes.deep_view();
    let n = outcomes.len();
    let mut messages = String::new();
    let mut i: usize = 0;
    while i < n
        invariant
            n == outcomes@.len(),
            i <= n,
            all == outcomes.deep_view(),
            messages@ == report(all.take(i as int)),
        decreases n - i,
    {
        proof {
            let upto = all.take(i + 1);
            assert(upto.drop_last() =~= all.take(i as int));
            assert(upto.last() == outcomes@[i as int]@);
        }
        if i > 0 {
            messages.append("\n");
        }
        messages.append(outcomes[i].message.as_str());
        i += 1;
    }
    assert(all.take(n as int) =~= all);
    messages
}

} // verus!
