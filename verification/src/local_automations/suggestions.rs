//! Suggested automations shown in Settings → Automations.
//!
//! Each suggestion is a recipe: "Set up" opens a new tab with a Warp agent
//! conversation seeded with a recipe-specific prompt, or copies the prompt
//! for another agent.

use vstd::prelude::*;

verus! {

/// A suggested automation recipe.
#[derive(Debug, Clone, Copy, PartialEq, Eq, Structural)]
pub enum SuggestedAutomation {
    StaleBranchCleanup,
    PrBabysitter,
    MiniSoftwareFactory,
}

impl SuggestedAutomation {
    /// Every suggestion, in the order the section lists them.
    pub open spec fn spec_all() -> Seq<SuggestedAutomation> {
        seq![
            SuggestedAutomation::StaleBranchCleanup,
            SuggestedAutomation::PrBabysitter,
            SuggestedAutomation::MiniSoftwareFactory,
        ]
    }

    /// Every suggestion, in the order the section lists them.
    pub fn all() -> (r: [SuggestedAutomation; 3])
        ensures
            r@ == Self::spec_all(),
    {
        let r = [
            SuggestedAutomation::StaleBranchCleanup,
            SuggestedAutomation::PrBabysitter,
            SuggestedAutomation::MiniSoftwareFactory,
        ];
        assert(r@ =~= Self::spec_all());
        r
    }

    /// The suggestion at `index` of the section, if there is one.
    pub fn at(index: usize) -> (r: Option<SuggestedAutomation>)
        ensures
            r == (if index < 3 {
                Some(Self::spec_all()[index as int])
            } else {
                None
            }),
    {
        if index == 0 {
            Some(SuggestedAutomation::StaleBranchCleanup)
        } else if index == 1 {
            Some(SuggestedAutomation::PrBabysitter)
        } else if index == 2 {
            Some(SuggestedAutomation::MiniSoftwareFactory)
        } else {
            None
        }
    }

    /// The title shown on the suggestion row.
    pub open spec fn spec_title(self) -> Seq<char> {
        match self {
            SuggestedAutomation::StaleBranchCleanup => "Stale branch cleanup"@,
            SuggestedAutomation::PrBabysitter => "PR babysitter"@,
            SuggestedAutomation::MiniSoftwareFactory => "Mini software factory"@,
        }
    }

    pub fn title(self) -> (r: &'static str)
        ensures
            r@ == self.spec_title(),
    {
        match self {
            SuggestedAutomation::StaleBranchCleanup => "Stale branch cleanup",
            SuggestedAutomation::PrBabysitter => "PR babysitter",
            SuggestedAutomation::MiniSoftwareFactory => "Mini software factory",
        }
    }

    /// The one-line description shown under the title.
    pub open spec fn spec_description(self) -> Seq<char> {
        match self {
            SuggestedAutomation::StaleBranchCleanup => "Prune merged and abandoned branches in a repo you pick, on a schedule."@,
            SuggestedAutomation::PrBabysitter => "Keep your open PRs moving: address review feedback and rebase stale branches."@,
            SuggestedAutomation::MiniSoftwareFactory => "Agents triage new issues, implement on label, and review PRs via GitHub triggers."@,
        }
    }

    pub fn description(self) -> (r: &'static str)
        ensures
            r@ == self.spec_description(),
    {
        match self {
            SuggestedAutomation::StaleBranchCleanup => "Prune merged and abandoned branches in a repo you pick, on a schedule.",
            SuggestedAutomation::PrBabysitter => "Keep your open PRs moving: address review feedback and rebase stale branches.",
            SuggestedAutomation::MiniSoftwareFactory => "Agents triage new issues, implement on label, and review PRs via GitHub triggers.",
        }
    }

    /// The prompt seeded into an agent conversation or copied for another
    /// agent. It defers all mechanics to the create-automation skill and
    /// states only the recipe.
    pub open spec fn spec_prompt(self) -> Seq<char> {
        match self {
            SuggestedAutomation::StaleBranchCleanup => "Use the create-automation skill to set up a stale branch cleanup automation: on a schedule, in a repo I pick, find local branches that are merged or idle for 30+ days, delete only fully merged ones, and report anything skipped. It must never force-delete unmerged work or touch the current branch."@,
            SuggestedAutomation::PrBabysitter => "Use the create-automation skill to set up a \"PR babysitter\" automation for a repo I pick: on each run, list my open PRs, address unresolved review feedback where the fix is clear, rebase branches that are behind their base, push the updates, and summarize what changed. It must never merge PRs or force-push over other people's commits."@,
            SuggestedAutomation::MiniSoftwareFactory => "Use the create-automation skill to set up a mini software factory on a GitHub repository I pick: GitHub-triggered agents that triage new issues, implement issues when labeled ready, and review pull requests. Walk me through the requirements and check with me before any billable runs."@,
        }
    }

    pub fn prompt(self) -> (r: &'static str)
        ensures
            r@ == self.spec_prompt(),
    {
        match self {
            SuggestedAutomation::StaleBranchCleanup => "Use the create-automation skill to set up a stale branch cleanup automation: on a schedule, in a repo I pick, find local branches that are merged or idle for 30+ days, delete only fully merged ones, and report anything skipped. It must never force-delete unmerged work or touch the current branch.",
            SuggestedAutomation::PrBabysitter => "Use the create-automation skill to set up a \"PR babysitter\" automation for a repo I pick: on each run, list my open PRs, address unresolved review feedback where the fix is clear, rebase branches that are behind their base, push the updates, and summarize what changed. It must never merge PRs or force-push over other people's commits.",
            SuggestedAutomation::MiniSoftwareFactory => "Use the create-automation skill to set up a mini software factory on a GitHub repository I pick: GitHub-triggered agents that triage new issues, implement issues when labeled ready, and review pull requests. Walk me through the requirements and check with me before any billable runs.",
        }
    }
}

} // verus!
