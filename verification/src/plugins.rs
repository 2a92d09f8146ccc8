//! What the agent plugin manager tells the rest of the client when the
//! plugin discovery preference changes.
//!
//! The plugin registry answers a preference change with a transition: the
//! teardown steps to perform, and whether the plugin set must be scanned
//! again. The manager turns each step into an event for the surfaces that
//! hold plugin state; scanning is its own business.

use vstd::prelude::*;

verus! {

/// A step of tearing plugins down; `C` identifies a plugin component.
#[derive(Debug)]
pub enum PluginTeardownStep<C> {
    /// Stop watching the plugin search roots.
    StopWatchers,
    /// Withdraw plugin skills from the model catalog and the resolver.
    WithdrawSkills,
    /// Cancel in-flight plugin MCP tool calls.
    CancelInFlightMcpCalls,
    /// Stop and unregister these plugin MCP installations.
    UnregisterMcpInstallations { components: Vec<C> },
}

/// What the plugin manager tells the rest of the client.
#[derive(Debug)]
pub enum PluginManagerEvent<C> {
    /// The active plugin set changed; skill and MCP surfaces re-read it.
    PluginsChanged,
    /// Plugin skills must leave the model catalog and the invocation
    /// resolver.
    WithdrawSkills,
    /// In-flight plugin MCP tool calls must be cancelled.
    CancelInFlightMcpCalls,
    /// These plugin MCP installations must be stopped and unregistered.
    UnregisterMcpInstallations { components: Vec<C> },
}

/// The event for a teardown step. Stopping the watchers has none: the
/// manager owns its scanning, and the registry already stopped it.
pub open spec fn teardown_event_spec<C>(step: PluginTeardownStep<C>) -> Option<PluginManagerEvent<C>> {
    match step {
        PluginTeardownStep::StopWatchers => None,
        PluginTeardownStep::WithdrawSkills => Some(PluginManagerEvent::WithdrawSkills),
        PluginTeardownStep::CancelInFlightMcpCalls => Some(PluginManagerEvent::CancelInFlightMcpCalls),
        PluginTeardownStep::UnregisterMcpInstallations { components } => Some(
            PluginManagerEvent::UnregisterMcpInstallations { components },
        ),
    }
}

pub fn teardown_event<C>(step: PluginTeardownStep<C>) -> (r: Option<PluginManagerEvent<C>>)
    ensures
        r == teardown_event_spec(step),
{
    match step {
        PluginTeardownStep::StopWatchers => None,
        PluginTeardownStep::WithdrawSkills => Some(PluginManagerEvent::WithdrawSkills),
        PluginTeardownStep::CancelInFlightMcpCalls => Some(PluginManagerEvent::CancelInFlightMcpCalls),
        PluginTeardownStep::UnregisterMcpInstallations { components } => Some(
            PluginManagerEvent::UnregisterMcpInstallations { components },
        ),
    }
}

/// The events of a teardown, in the order of its steps.
pub open spec fn teardown_events<C>(steps: Seq<PluginTeardownStep<C>>) -> Seq<PluginManagerEvent<C>>
    decreases steps.len(),
{
    if steps.len() == 0 {
        Seq::empty()
    } else {
        let rest = teardown_events(steps.drop_last());
        match teardown_event_spec(steps.last()) {
            Some(e) => rest.push(e),
            None => rest,
        }
    }
}

/// What the manager does with a registry transition.
pub struct PreferenceChange<C> {
    /// The events to emit, in order.
    pub events: Vec<PluginManagerEvent<C>>,
    /// Whether to scan the plugin search roots again.
    pub rescan: bool,
}

/// A preference change: nothing when the registry's state did not change
/// (`noop`); else the teardown's events, then a rescan when the registry
/// asks for one, or else the news that the (now empty) plugin set changed.
pub fn discovery_preference_change<C>(noop: bool, teardown: Vec<PluginTeardownStep<C>>, rescan: bool) -> (r:
    PreferenceChange<C>)
    ensures
        noop ==> r.events@.len() == 0 && !r.rescan,
        !noop ==> r.rescan == rescan,
        !noop && rescan ==> r.events@ == teardown_events(teardown@),
        !noop && !rescan ==> r.events@ == teardown_events(teardown@).push(PluginManagerEvent::PluginsChanged),
{
    let mut events: Vec<PluginManagerEvent<C>> = Vec::new();
    if noop {
        return PreferenceChange { events, rescan: false };
    }
    let ghost steps = teardown@;
    let mut teardown = teardown;
    let mut n: usize = 0;
    assert(steps.len() == teardown.len());
    assert(steps.skip(0) =~= steps);
    while teardown.len() > 0
        invariant
            n + teardown@.len() == steps.len(),
            steps.len() <= usize::MAX,
            teardown@ == steps.skip(n as int),
            events@ == teardown_events(steps.take(n as int)),
        decreases teardown.len(),
    {
        let step = teardown.remove(0);
        proof {
            assert(step == steps[n as int]);
            assert(steps.take(n + 1).drop_last() =~= steps.take(n as int));
            assert(teardown@ =~= steps.skip(n + 1));
        }
        match teardown_event(step) {
            Some(e) => events.push(e),
            None => {},
        }
        n = n + 1;
    }
    assert(steps.take(n as int) =~= steps);
    if !rescan {
        events.push(PluginManagerEvent::PluginsChanged);
    }
    PreferenceChange { events, rescan }
}

/// Discovery is on when the feature is and the discovery policy allows it
/// under the user's preference; only then does the manager scan at start.
pub fn discovery_enabled(feature_enabled: bool, policy_allows: bool) -> (r: bool)
    ensures
        r == (feature_enabled && policy_allows),
{
    feature_enabled && policy_allows
}

/// A teardown tells the client of every step but stopping the watchers: one
/// event for each other step.
pub proof fn law_teardown_reports_each_step<C>(steps: Seq<PluginTeardownStep<C>>)
    ensures
        teardown_events(steps).len() == steps.filter(|s: PluginTeardownStep<C>| !(s is StopWatchers)).len(),
    decreases steps.len(),
{
    reveal_with_fuel(Seq::filter, 1);
    if steps.len() > 0 {
        law_teardown_reports_each_step(steps.drop_last());
        assert(steps.drop_last().push(steps.last()) =~= steps);
        steps.drop_last().lemma_filter_push(steps.last(), |s: PluginTeardownStep<C>| !(s is StopWatchers));
    }
}

} // verus!
