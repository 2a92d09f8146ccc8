//! Tracking of an orchestrated run's children, from first discovery to pane
//! materialization.
//!
//! Every signal a child can produce enters through
//! [`OrchestrationChildTracker::observe_child`]: discovery, lifecycle
//! events, session links, seed rows and in-band registrations. The tracker
//! keeps one entry per child task, the in-band children it never fetches
//! metadata for, the runs whose metadata fetch is in flight, and session ids
//! that arrived before their child. Each call returns the broadcasts and
//! metadata fetches for the caller to carry out; a fetch answered from cache
//! comes back through [`OrchestrationChildTracker::apply_fetched`].

use vstd::prelude::*;

use crate::text::{owned, texts_equal};

verus! {

/// How this process consumes a parent family's events: the primary
/// consumer delivers the parent's own events and pushes the server cursor;
/// an observer drops them and keeps a local cursor only.
#[derive(Debug, Clone, Copy, PartialEq, Eq, Structural)]
pub enum OrchestrationEventConsumer {
    Primary { orchestrator_conversation_id: u128 },
    Observer { placeholder_conversation_id: u128 },
}

impl OrchestrationEventConsumer {
    /// The conversation a tracked child is associated with before it has
    /// one of its own: the mode's conversation in either role.
    pub open spec fn spec_placeholder(self) -> u128 {
        match self {
            OrchestrationEventConsumer::Primary { orchestrator_conversation_id } => orchestrator_conversation_id,
            OrchestrationEventConsumer::Observer { placeholder_conversation_id } => placeholder_conversation_id,
        }
    }

    pub fn placeholder_conversation_id(&self) -> (r: u128)
        ensures
            r == self.spec_placeholder(),
    {
        match self {
            OrchestrationEventConsumer::Primary { orchestrator_conversation_id } => *orchestrator_conversation_id,
            OrchestrationEventConsumer::Observer { placeholder_conversation_id } => *placeholder_conversation_id,
        }
    }
}

/// A child's state, keyed by its task id. `S` is the task state the seed
/// rows report.
pub struct TrackedChild<S> {
    /// The placeholder (or, for in-band children, the real local
    /// conversation) representing the child.
    pub conversation_id: u128,
    /// The sandbox session, once linked.
    pub session_id: Option<u128>,
    /// The last task state seen, when known.
    pub last_state: Option<S>,
    /// Whether pane materialization was requested.
    pub pane_materialized: bool,
    /// Whether the entry is a placeholder for a remote run (`false` only for
    /// in-band children, which own a real conversation).
    pub is_remote_child: bool,
}

/// A task row from a seed, restore or cache hit: its id, the run id it is
/// known by, its session (already parsed) and its state.
pub struct SeededTask<S> {
    pub task_id: u128,
    pub run_id: String,
    pub session_id: Option<u128>,
    pub state: S,
}

/// Every way a child becomes known. `L` is the lifecycle event kind.
pub enum ChildSignal<S, L> {
    /// The child started (seen on the parent run).
    Started,
    /// The child's sandbox session was linked; `None` when its id did not
    /// parse.
    SessionLinked { session_id: Option<u128> },
    /// A lifecycle event on the child run.
    Lifecycle(L),
    /// A seed row.
    Seeded(SeededTask<S>),
    /// A child this process created, with its existing conversation.
    Registered { conversation_id: u128 },
}

/// What the caller carries out after a call.
pub enum TrackerEffect<L> {
    /// Broadcast that a child appeared (once per child).
    ChildSpawned { run_id: String },
    /// Broadcast (and write through) the child's new status.
    ChildStatusChanged { run_id: String, status: L },
    /// Ask the shared fetch authority for the task's metadata; a cached
    /// answer is handed back through `apply_fetched`.
    FetchMetadata { task_id: u128, run_id: String },
}

pub enum EffectView<L> {
    ChildSpawned(Seq<char>),
    ChildStatusChanged(Seq<char>, L),
    FetchMetadata(u128, Seq<char>),
}

impl<L> View for TrackerEffect<L> {
    type V = EffectView<L>;

    open spec fn view(&self) -> EffectView<L> {
        match self {
            TrackerEffect::ChildSpawned { run_id } => EffectView::ChildSpawned(run_id@),
            TrackerEffect::ChildStatusChanged { run_id, status } => EffectView::ChildStatusChanged(run_id@, *status),
            TrackerEffect::FetchMetadata { task_id, run_id } => EffectView::FetchMetadata(*task_id, run_id@),
        }
    }
}

pub open spec fn effect_views<L>(v: Seq<TrackerEffect<L>>) -> Seq<EffectView<L>> {
    v.map_values(|e: TrackerEffect<L>| e@)
}

/// A tracked child with its task id and run id.
pub struct ChildEntry<S> {
    pub task_id: u128,
    pub run_id: String,
    pub child: TrackedChild<S>,
}

/// The tracker's state as plain values.
pub struct TrackerView<S> {
    pub parent_task_id: u128,
    pub mode: OrchestrationEventConsumer,
    pub children: Seq<(u128, Seq<char>, TrackedChild<S>)>,
    pub in_band: Seq<u128>,
    pub fetches: Seq<Seq<char>>,
    pub pending_sessions: Seq<(u128, u128)>,
    pub dispatch_count: nat,
}

pub open spec fn entry_views<S>(v: Seq<ChildEntry<S>>) -> Seq<(u128, Seq<char>, TrackedChild<S>)> {
    v.map_values(|e: ChildEntry<S>| (e.task_id, e.run_id@, e.child))
}

pub open spec fn string_views(v: Seq<String>) -> Seq<Seq<char>> {
    v.map_values(|s: String| s@)
}

/// The first child entry for task `t`.
pub open spec fn find_child<S>(cs: Seq<(u128, Seq<char>, TrackedChild<S>)>, t: u128) -> Option<int>
    decreases cs.len(),
{
    if cs.len() == 0 {
        None
    } else if cs[0].0 == t {
        Some(0)
    } else {
        match find_child(cs.drop_first(), t) {
            Some(i) => Some(i + 1),
            None => None,
        }
    }
}

/// The first child entry known by run id `r`.
pub open spec fn find_child_run<S>(cs: Seq<(u128, Seq<char>, TrackedChild<S>)>, r: Seq<char>) -> Option<int>
    decreases cs.len(),
{
    if cs.len() == 0 {
        None
    } else if cs[0].1 == r {
        Some(0)
    } else {
        match find_child_run(cs.drop_first(), r) {
            Some(i) => Some(i + 1),
            None => None,
        }
    }
}

/// The first occurrence of `x` in `s`.
pub open spec fn find_first<T>(s: Seq<T>, x: T) -> Option<int>
    decreases s.len(),
{
    if s.len() == 0 {
        None
    } else if s[0] == x {
        Some(0)
    } else {
        match find_first(s.drop_first(), x) {
            Some(i) => Some(i + 1),
            None => None,
        }
    }
}

/// The first pending session entry for task `t`.
pub open spec fn find_pending(ps: Seq<(u128, u128)>, t: u128) -> Option<int>
    decreases ps.len(),
{
    if ps.len() == 0 {
        None
    } else if ps[0].0 == t {
        Some(0)
    } else {
        match find_pending(ps.drop_first(), t) {
            Some(i) => Some(i + 1),
            None => None,
        }
    }
}

pub open spec fn remove_first<T>(s: Seq<T>, x: T) -> Seq<T> {
    match find_first(s, x) {
        Some(i) => s.remove(i),
        None => s,
    }
}

pub open spec fn insert_once<T>(s: Seq<T>, x: T) -> Seq<T> {
    match find_first(s, x) {
        Some(_) => s,
        None => s.push(x),
    }
}

/// Takes the pending session for task `t`, if any.
pub open spec fn take_pending(ps: Seq<(u128, u128)>, t: u128) -> (Seq<(u128, u128)>, Option<u128>) {
    match find_pending(ps, t) {
        Some(i) => (ps.remove(i), Some(ps[i].1)),
        None => (ps, None),
    }
}

/// Records (or replaces) the pending session for task `t`.
pub open spec fn put_pending(ps: Seq<(u128, u128)>, t: u128, s: u128) -> Seq<(u128, u128)> {
    match find_pending(ps, t) {
        Some(i) => ps.update(i, (t, s)),
        None => ps.push((t, s)),
    }
}

pub open spec fn remove_pending(ps: Seq<(u128, u128)>, t: u128) -> Seq<(u128, u128)> {
    take_pending(ps, t).0
}

/// Requests the pane once the child's session is known (step 4).
pub open spec fn maybe_pane<S>(v: TrackerView<S>, t: u128) -> TrackerView<S> {
    match find_child(v.children, t) {
        Some(i) => if v.children[i].2.session_id is Some && !v.children[i].2.pane_materialized {
            TrackerView {
                children: v.children.update(
                    i,
                    (v.children[i].0, v.children[i].1, TrackedChild { pane_materialized: true, ..v.children[i].2 }),
                ),
                ..v
            }
        } else {
            v
        },
        None => v,
    }
}

/// Starts (or dedupes) a metadata fetch for a run: the run's guard is set
/// and the dispatch counted only the first time; the fetch authority is
/// asked either way (it answers a warm cache at once and suppresses a
/// duplicate request).
pub open spec fn spawn_fetch<S, L>(v: TrackerView<S>, t: u128, run: Seq<char>) -> (TrackerView<S>, Seq<EffectView<L>>) {
    if find_first(v.fetches, run) is Some {
        (v, seq![EffectView::FetchMetadata(t, run)])
    } else {
        (
            TrackerView { fetches: v.fetches.push(run), dispatch_count: v.dispatch_count + 1, ..v },
            seq![EffectView::FetchMetadata(t, run)],
        )
    }
}

/// Re-drives the fetch while a tracked, out-of-band child still lacks its
/// session or its pane (step 3).
pub open spec fn refetch_if_incomplete<S, L>(v: TrackerView<S>, t: u128, run: Seq<char>) -> (TrackerView<S>, Seq<EffectView<L>>) {
    if find_first(v.in_band, t) is Some {
        (v, Seq::empty())
    } else {
        match find_child(v.children, t) {
            Some(i) => if v.children[i].2.session_id is None || !v.children[i].2.pane_materialized {
                spawn_fetch(v, t, run)
            } else {
                (v, Seq::empty())
            },
            None => (v, Seq::empty()),
        }
    }
}

/// Records a new child and broadcasts it.
pub open spec fn insert_child<S, L>(v: TrackerView<S>, t: u128, run: Seq<char>, child: TrackedChild<S>) -> (TrackerView<S>, Seq<EffectView<L>>) {
    (TrackerView { children: v.children.push((t, run, child)), ..v }, seq![EffectView::ChildSpawned(run)])
}

/// Drops everything tracked for a run (a killed run).
pub open spec fn forget_run<S>(v: TrackerView<S>, run: Seq<char>) -> TrackerView<S> {
    let v1 = TrackerView { fetches: remove_first(v.fetches, run), ..v };
    match find_child_run(v1.children, run) {
        Some(i) => {
            let t = v1.children[i].0;
            TrackerView {
                children: v1.children.remove(i),
                in_band: remove_first(v1.in_band, t),
                pending_sessions: remove_pending(v1.pending_sessions, t),
                ..v1
            }
        },
        None => v1,
    }
}

pub open spec fn started_spec<S, L>(v: TrackerView<S>, t: u128, run: Seq<char>) -> (TrackerView<S>, Seq<EffectView<L>>) {
    if find_child(v.children, t) is Some {
        let (v1, e1) = refetch_if_incomplete::<S, L>(v, t, run);
        (maybe_pane(v1, t), e1)
    } else {
        spawn_fetch(v, t, run)
    }
}

pub open spec fn lifecycle_spec<S, L>(v: TrackerView<S>, t: u128, run: Seq<char>, kind: L) -> (TrackerView<S>, Seq<EffectView<L>>) {
    if find_child(v.children, t) is Some {
        let (v1, e1) = refetch_if_incomplete::<S, L>(v, t, run);
        (maybe_pane(v1, t), seq![EffectView::ChildStatusChanged(run, kind)] + e1)
    } else if find_first(v.fetches, run) is Some {
        (v, Seq::empty())
    } else {
        spawn_fetch(v, t, run)
    }
}

pub open spec fn registered_spec<S, L>(v: TrackerView<S>, t: u128, run: Seq<char>, conversation_id: u128) -> (TrackerView<S>, Seq<EffectView<L>>) {
    let v2 = TrackerView { fetches: remove_first(v.fetches, run), in_band: insert_once(v.in_band, t), ..v };
    match find_child(v2.children, t) {
        Some(i) => (
            TrackerView {
                children: v2.children.update(
                    i,
                    (v2.children[i].0, v2.children[i].1, TrackedChild { conversation_id, ..v2.children[i].2 }),
                ),
                ..v2
            },
            Seq::empty(),
        ),
        None => {
            let (ps, session) = take_pending(v2.pending_sessions, t);
            let (v4, e) = insert_child::<S, L>(
                TrackerView { pending_sessions: ps, ..v2 },
                t,
                run,
                TrackedChild {
                    conversation_id,
                    session_id: session,
                    last_state: None,
                    pane_materialized: false,
                    is_remote_child: false,
                },
            );
            (maybe_pane(v4, t), e)
        },
    }
}

pub open spec fn session_linked_spec<S, L>(v: TrackerView<S>, t: u128, session: Option<u128>) -> (TrackerView<S>, Seq<EffectView<L>>) {
    match session {
        None => (v, Seq::empty()),
        Some(s) => match find_child(v.children, t) {
            Some(i) => {
                let c = v.children[i].2;
                (
                    TrackerView {
                        children: v.children.update(
                            i,
                            (
                                v.children[i].0,
                                v.children[i].1,
                                TrackedChild {
                                    session_id: if c.session_id is None {
                                        Some(s)
                                    } else {
                                        c.session_id
                                    },
                                    pane_materialized: true,
                                    ..c
                                },
                            ),
                        ),
                        ..v
                    },
                    Seq::empty(),
                )
            },
            None => (TrackerView { pending_sessions: put_pending(v.pending_sessions, t, s), ..v }, Seq::empty()),
        },
    }
}

pub open spec fn seeded_spec<S, L>(v: TrackerView<S>, t: u128, run: Seq<char>, seed_session: Option<u128>, state: S) -> (TrackerView<S>, Seq<EffectView<L>>) {
    if t == v.parent_task_id {
        (v, Seq::empty())
    } else {
        let v1 = TrackerView { fetches: remove_first(v.fetches, run), ..v };
        match find_child(v1.children, t) {
            Some(i) => {
                let c = v1.children[i].2;
                let v2 = TrackerView {
                    children: v1.children.update(
                        i,
                        (
                            v1.children[i].0,
                            v1.children[i].1,
                            TrackedChild {
                                last_state: Some(state),
                                session_id: if c.session_id is None {
                                    seed_session
                                } else {
                                    c.session_id
                                },
                                ..c
                            },
                        ),
                    ),
                    ..v1
                };
                (maybe_pane(v2, t), Seq::empty())
            },
            None => {
                let (ps, session) = match seed_session {
                    Some(s) => (v1.pending_sessions, Some(s)),
                    None => take_pending(v1.pending_sessions, t),
                };
                let (v3, e) = insert_child::<S, L>(
                    TrackerView { pending_sessions: ps, ..v1 },
                    t,
                    run,
                    TrackedChild {
                        conversation_id: v.mode.spec_placeholder(),
                        session_id: session,
                        last_state: Some(state),
                        pane_materialized: false,
                        is_remote_child: true,
                    },
                );
                (maybe_pane(v3, t), e)
            },
        }
    }
}

/// The tracker's response to a signal for run `run` (whose id parsed to
/// `task`, if it did): a killed run is forgotten; a run id that does not
/// parse is dropped; otherwise the signal is applied.
pub open spec fn observe_spec<S, L>(v: TrackerView<S>, run: Seq<char>, task: Option<u128>, signal: ChildSignal<S, L>, killed: Seq<Seq<char>>) -> (TrackerView<S>, Seq<EffectView<L>>) {
    if killed.contains(run) {
        (forget_run(v, run), Seq::empty())
    } else {
        match task {
            None => (v, Seq::empty()),
            Some(t) => match signal {
                ChildSignal::Registered { conversation_id } => registered_spec(v, t, run, conversation_id),
                ChildSignal::SessionLinked { session_id } => session_linked_spec(v, t, session_id),
                ChildSignal::Lifecycle(kind) => lifecycle_spec(v, t, run, kind),
                ChildSignal::Seeded(seed) => seeded_spec(v, seed.task_id, seed.run_id@, seed.session_id, seed.state),
                ChildSignal::Started => started_spec(v, t, run),
            },
        }
    }
}

/// Tracks the children of one parent family.
pub struct OrchestrationChildTracker<S> {
    parent_task_id: u128,
    mode: OrchestrationEventConsumer,
    children: Vec<ChildEntry<S>>,
    in_band_children: Vec<u128>,
    metadata_fetches: Vec<String>,
    pending_session_ids: Vec<(u128, u128)>,
    metadata_fetch_dispatch_count: usize,
}

impl<S> View for OrchestrationChildTracker<S> {
    type V = TrackerView<S>;

    closed spec fn view(&self) -> TrackerView<S> {
        TrackerView {
            parent_task_id: self.parent_task_id,
            mode: self.mode,
            children: entry_views(self.children@),
            in_band: self.in_band_children@,
            fetches: string_views(self.metadata_fetches@),
            pending_sessions: self.pending_session_ids@,
            dispatch_count: self.metadata_fetch_dispatch_count as nat,
        }
    }
}

fn find_child_exec<S>(cs: &Vec<ChildEntry<S>>, t: u128) -> (r: Option<usize>)
    ensures
        match r {
            Some(k) => find_child(entry_views(cs@), t) == Some(k as int),
            None => find_child(entry_views(cs@), t) is None,
        },
{
    let ghost s = entry_views(cs@);
    let mut i: usize = 0;
    assert(s.skip(0) =~= s);
    while i < cs.len()
        invariant
            i <= cs.len(),
            s == entry_views(cs@),
            find_child(s, t) == match find_child(s.skip(i as int), t) {
                Some(k) => Some(k + i),
                None => None::<int>,
            },
        decreases cs.len() - i,
    {
        proof {
            assert(s.skip(i as int).drop_first() =~= s.skip(i + 1));
            assert(s.skip(i as int)[0] == s[i as int]);
        }
        if cs[i].task_id == t {
            return Some(i);
        }
        i = i + 1;
    }
    assert(s.skip(i as int).len() == 0);
    None
}

fn find_child_run_exec<S>(cs: &Vec<ChildEntry<S>>, run: &str) -> (r: Option<usize>)
    ensures
        match r {
            Some(k) => find_child_run(entry_views(cs@), run@) == Some(k as int),
            None => find_child_run(entry_views(cs@), run@) is None,
        },
{
    let ghost s = entry_views(cs@);
    let mut i: usize = 0;
    assert(s.skip(0) =~= s);
    while i < cs.len()
        invariant
            i <= cs.len(),
            s == entry_views(cs@),
            find_child_run(s, run@) == match find_child_run(s.skip(i as int), run@) {
                Some(k) => Some(k + i),
                None => None::<int>,
            },
        decreases cs.len() - i,
    {
        proof {
            assert(s.skip(i as int).drop_first() =~= s.skip(i + 1));
            assert(s.skip(i as int)[0] == s[i as int]);
        }
        if texts_equal(cs[i].run_id.as_str(), run) {
            return Some(i);
        }
        i = i + 1;
    }
    assert(s.skip(i as int).len() == 0);
    None
}

fn find_text(v: &Vec<String>, x: &str) -> (r: Option<usize>)
    ensures
        match r {
            Some(k) => find_first(string_views(v@), x@) == Some(k as int),
            None => find_first(string_views(v@), x@) is None,
        },
{
    let ghost s = string_views(v@);
    let mut i: usize = 0;
    assert(s.skip(0) =~= s);
    while i < v.len()
        invariant
            i <= v.len(),
            s == string_views(v@),
            find_first(s, x@) == match find_first(s.skip(i as int), x@) {
                Some(k) => Some(k + i),
                None => None::<int>,
            },
        decreases v.len() - i,
    {
        proof {
            assert(s.skip(i as int).drop_first() =~= s.skip(i + 1));
            assert(s.skip(i as int)[0] == s[i as int]);
        }
        if texts_equal(v[i].as_str(), x) {
            return Some(i);
        }
        i = i + 1;
    }
    assert(s.skip(i as int).len() == 0);
    None
}

fn find_id(v: &Vec<u128>, x: u128) -> (r: Option<usize>)
    ensures
        match r {
            Some(k) => find_first(v@, x) == Some(k as int),
            None => find_first(v@, x) is None,
        },
{
    let mut i: usize = 0;
    assert(v@.skip(0) =~= v@);
    while i < v.len()
        invariant
            i <= v.len(),
            find_first(v@, x) == match find_first(v@.skip(i as int), x) {
                Some(k) => Some(k + i),
                None => None::<int>,
            },
        decreases v.len() - i,
    {
        proof {
            assert(v@.skip(i as int).drop_first() =~= v@.skip(i + 1));
            assert(v@.skip(i as int)[0] == v@[i as int]);
        }
        if v[i] == x {
            return Some(i);
        }
        i = i + 1;
    }
    assert(v@.skip(i as int).len() == 0);
    None
}

fn find_pending_exec(v: &Vec<(u128, u128)>, t: u128) -> (r: Option<usize>)
    ensures
        match r {
            Some(k) => find_pending(v@, t) == Some(k as int),
            None => find_pending(v@, t) is None,
        },
{
    let mut i: usize = 0;
    assert(v@.skip(0) =~= v@);
    while i < v.len()
        invariant
            i <= v.len(),
            find_pending(v@, t) == match find_pending(v@.skip(i as int), t) {
                Some(k) => Some(k + i),
                None => None::<int>,
            },
        decreases v.len() - i,
    {
        proof {
            assert(v@.skip(i as int).drop_first() =~= v@.skip(i + 1));
            assert(v@.skip(i as int)[0] == v@[i as int]);
        }
        if v[i].0 == t {
            return Some(i);
        }
        i = i + 1;
    }
    assert(v@.skip(i as int).len() == 0);
    None
}

pub proof fn lemma_find_child_bounds<S>(cs: Seq<(u128, Seq<char>, TrackedChild<S>)>, t: u128)
    ensures
        find_child(cs, t) matches Some(i) ==> 0 <= i < cs.len() && cs[i].0 == t,
    decreases cs.len(),
{
    if cs.len() > 0 {
        lemma_find_child_bounds(cs.drop_first(), t);
    }
}

pub proof fn lemma_find_child_run_bounds<S>(cs: Seq<(u128, Seq<char>, TrackedChild<S>)>, r: Seq<char>)
    ensures
        find_child_run(cs, r) matches Some(i) ==> 0 <= i < cs.len() && cs[i].1 == r,
        find_child_run(cs, r) is None ==> forall|k: int| 0 <= k < cs.len() ==> cs[k].1 != r,
    decreases cs.len(),
{
    if cs.len() > 0 {
        lemma_find_child_run_bounds(cs.drop_first(), r);
        if find_child_run(cs, r) is None {
            assert forall|k: int| 0 <= k < cs.len() implies cs[k].1 != r by {
                if k > 0 {
                    assert(cs[k] == cs.drop_first()[k - 1]);
                }
            }
        }
    }
}

pub proof fn lemma_find_first_bounds<T>(s: Seq<T>, x: T)
    ensures
        find_first(s, x) matches Some(i) ==> 0 <= i < s.len() && s[i] == x,
        find_first(s, x) is None ==> !s.contains(x),
    decreases s.len(),
{
    if s.len() > 0 {
        lemma_find_first_bounds(s.drop_first(), x);
        if find_first(s, x) is None {
            assert forall|k: int| 0 <= k < s.len() implies s[k] != x by {
                if k > 0 {
                    assert(s[k] == s.drop_first()[k - 1]);
                }
            }
        }
    }
}

pub proof fn lemma_find_pending_bounds(ps: Seq<(u128, u128)>, t: u128)
    ensures
        find_pending(ps, t) matches Some(i) ==> 0 <= i < ps.len() && ps[i].0 == t,
    decreases ps.len(),
{
    if ps.len() > 0 {
        lemma_find_pending_bounds(ps.drop_first(), t);
    }
}

impl<S> OrchestrationChildTracker<S> {
    /// An empty tracker for the parent family in the given mode.
    pub fn new(parent_task_id: u128, mode: OrchestrationEventConsumer) -> (r: Self)
        ensures
            r@.parent_task_id == parent_task_id,
            r@.mode == mode,
            r@.children.len() == 0,
            r@.in_band.len() == 0,
            r@.fetches.len() == 0,
            r@.pending_sessions.len() == 0,
            r@.dispatch_count == 0,
    {
        let r = OrchestrationChildTracker {
            parent_task_id,
            mode,
            children: Vec::new(),
            in_band_children: Vec::new(),
            metadata_fetches: Vec::new(),
            pending_session_ids: Vec::new(),
            metadata_fetch_dispatch_count: 0,
        };
        assert(entry_views(r.children@).len() == 0);
        assert(string_views(r.metadata_fetches@).len() == 0);
        r
    }

    /// Whether a metadata fetch is in flight for the run.
    pub fn has_in_flight_fetch(&self, run_id: &str) -> (r: bool)
        ensures
            r == (find_first(self@.fetches, run_id@) is Some),
    {
        find_text(&self.metadata_fetches, run_id).is_some()
    }

    /// The number of metadata fetches dispatched so far.
    pub fn metadata_fetch_dispatch_count(&self) -> (r: usize)
        ensures
            r == self@.dispatch_count,
    {
        self.metadata_fetch_dispatch_count
    }

    /// The tracked child of a task, if any.
    pub fn child(&self, task_id: u128) -> (r: Option<&TrackedChild<S>>)
        ensures
            match find_child(self@.children, task_id) {
                Some(i) => r == Some(&self@.children[i].2),
                None => r is None,
            },
    {
        proof {
            lemma_find_child_bounds(entry_views(self.children@), task_id);
        }
        match find_child_exec(&self.children, task_id) {
            Some(i) => {
                assert(entry_views(self.children@)[i as int] == (
                    self.children@[i as int].task_id,
                    self.children@[i as int].run_id@,
                    self.children@[i as int].child,
                ));
                Some(&self.children[i].child)
            },
            None => None,
        }
    }

    /// The number of tracked children.
    pub fn child_count(&self) -> (r: usize)
        ensures
            r == self@.children.len(),
    {
        self.children.len()
    }

    fn remove_fetch(&mut self, run: &str)
        ensures
            final(self)@ == (TrackerView { fetches: remove_first(old(self)@.fetches, run@), ..old(self)@ }),
    {
        match find_text(&self.metadata_fetches, run) {
            Some(i) => {
                proof {
                    lemma_find_first_bounds(string_views(self.metadata_fetches@), run@);
                }
                let ghost before = self.metadata_fetches@;
                self.metadata_fetches.remove(i);
                assert(string_views(self.metadata_fetches@) =~= string_views(before).remove(i as int));
            },
            None => {},
        }
    }

    fn maybe_request_pane(&mut self, t: u128)
        ensures
            final(self)@ == maybe_pane(old(self)@, t),
    {
        match find_child_exec(&self.children, t) {
            Some(i) => {
                proof {
                    lemma_find_child_bounds(entry_views(self.children@), t);
                }
                let should = self.children[i].child.session_id.is_some() && !self.children[i].child.pane_materialized;
                if should {
                    let ghost before = self.children@;
                    let mut entry = self.children.remove(i);
                    entry.child.pane_materialized = true;
                    self.children.insert(i, entry);
                    assert(entry_views(self.children@) =~= entry_views(before).update(
                        i as int,
                        (
                            before[i as int].task_id,
                            before[i as int].run_id@,
                            TrackedChild { pane_materialized: true, ..before[i as int].child },
                        ),
                    ));
                }
            },
            None => {},
        }
    }

    fn spawn_metadata_fetch<L>(&mut self, t: u128, run: &str, effects: &mut Vec<TrackerEffect<L>>)
        requires
            old(self)@.dispatch_count < usize::MAX,
        ensures
            ({
                let (v, e) = spawn_fetch::<S, L>(old(self)@, t, run@);
                final(self)@ == v && effect_views(final(effects)@) == effect_views(old(effects)@) + e
            }),
    {
        let ghost e0 = effect_views(effects@);
        let known = find_text(&self.metadata_fetches, run).is_some();
        if !known {
            let ghost before = self.metadata_fetches@;
            self.metadata_fetches.push(owned(run));
            assert(string_views(self.metadata_fetches@) =~= string_views(before).push(run@));
            self.metadata_fetch_dispatch_count = self.metadata_fetch_dispatch_count + 1;
        }
        effects.push(TrackerEffect::FetchMetadata { task_id: t, run_id: owned(run) });
        assert(effect_views(effects@) =~= e0 + seq![EffectView::FetchMetadata(t, run@)]);
    }

    fn refetch_metadata_if_incomplete<L>(&mut self, t: u128, run: &str, effects: &mut Vec<TrackerEffect<L>>)
        requires
            old(self)@.dispatch_count < usize::MAX,
        ensures
            ({
                let (v, e) = refetch_if_incomplete::<S, L>(old(self)@, t, run@);
                final(self)@ == v && effect_views(final(effects)@) == effect_views(old(effects)@) + e
            }),
    {
        if find_id(&self.in_band_children, t).is_some() {
            assert(effect_views(effects@) =~= effect_views(effects@) + Seq::<EffectView<L>>::empty());
            return;
        }
        match find_child_exec(&self.children, t) {
            Some(i) => {
                proof {
                    lemma_find_child_bounds(entry_views(self.children@), t);
                }
                let incomplete = self.children[i].child.session_id.is_none() || !self.children[i].child.pane_materialized;
                if incomplete {
                    self.spawn_metadata_fetch(t, run, effects);
                } else {
                    assert(effect_views(effects@) =~= effect_views(effects@) + Seq::<EffectView<L>>::empty());
                }
            },
            None => {
                assert(effect_views(effects@) =~= effect_views(effects@) + Seq::<EffectView<L>>::empty());
            },
        }
    }

    fn insert_new_child<L>(&mut self, t: u128, run: &str, child: TrackedChild<S>, effects: &mut Vec<TrackerEffect<L>>)
        ensures
            ({
                let (v, e) = insert_child::<S, L>(old(self)@, t, run@, child);
                final(self)@ == v && effect_views(final(effects)@) == effect_views(old(effects)@) + e
            }),
    {
        let ghost e0 = effect_views(effects@);
        let ghost c0 = self.children@;
        self.children.push(ChildEntry { task_id: t, run_id: owned(run), child });
        assert(entry_views(self.children@) =~= entry_views(c0).push((t, run@, child)));
        effects.push(TrackerEffect::ChildSpawned { run_id: owned(run) });
        assert(effect_views(effects@) =~= e0 + seq![EffectView::ChildSpawned(run@)]);
    }

    fn take_pending_session(&mut self, t: u128) -> (r: Option<u128>)
        ensures
            ({
                let (ps, s) = take_pending(old(self)@.pending_sessions, t);
                final(self)@ == (TrackerView { pending_sessions: ps, ..old(self)@ }) && r == s
            }),
    {
        match find_pending_exec(&self.pending_session_ids, t) {
            Some(i) => {
                proof {
                    lemma_find_pending_bounds(self.pending_session_ids@, t);
                }
                let (_, s) = self.pending_session_ids.remove(i);
                Some(s)
            },
            None => None,
        }
    }

    fn forget(&mut self, run: &str)
        ensures
            final(self)@ == forget_run(old(self)@, run@),
    {
        self.remove_fetch(run);
        match find_child_run_exec(&self.children, run) {
            Some(i) => {
                proof {
                    lemma_find_child_run_bounds(entry_views(self.children@), run@);
                }
                let ghost before = self.children@;
                let entry = self.children.remove(i);
                assert(entry_views(self.children@) =~= entry_views(before).remove(i as int));
                let t = entry.task_id;
                match find_id(&self.in_band_children, t) {
                    Some(k) => {
                        proof {
                            lemma_find_first_bounds(self.in_band_children@, t);
                        }
                        self.in_band_children.remove(k);
                    },
                    None => {},
                }
                let _ = self.take_pending_session(t);
            },
            None => {},
        }
    }

    /// Applies a task row answered by the fetch authority's cache (or any
    /// other seed row) — see [`seeded_spec`].
    pub fn apply_fetched<L>(&mut self, task: SeededTask<S>) -> (r: Vec<TrackerEffect<L>>)
        ensures
            ({
                let (v, e) = seeded_spec::<S, L>(old(self)@, task.task_id, task.run_id@, task.session_id, task.state);
                final(self)@ == v && effect_views(r@) == e
            }),
    {
        let mut effects: Vec<TrackerEffect<L>> = Vec::new();
        assert(effect_views(effects@) =~= Seq::<EffectView<L>>::empty());
        self.apply_seeded(task, &mut effects);
        assert(effect_views(effects@) =~= Seq::<EffectView<L>>::empty() + seeded_spec::<S, L>(
            old(self)@,
            task.task_id,
            task.run_id@,
            task.session_id,
            task.state,
        ).1);
        effects
    }

    fn apply_seeded<L>(&mut self, task: SeededTask<S>, effects: &mut Vec<TrackerEffect<L>>)
        ensures
            ({
                let (v, e) = seeded_spec::<S, L>(old(self)@, task.task_id, task.run_id@, task.session_id, task.state);
                final(self)@ == v && effect_views(final(effects)@) == effect_views(old(effects)@) + e
            }),
    {
        let ghost e0 = effect_views(effects@);
        let ghost v0 = self@;
        if task.task_id == self.parent_task_id {
            assert(effect_views(effects@) =~= e0 + Seq::<EffectView<L>>::empty());
            return;
        }
        let t = task.task_id;
        let SeededTask { task_id: _, run_id, session_id: seed_session, state } = task;
        self.remove_fetch(run_id.as_str());
        match find_child_exec(&self.children, t) {
            Some(i) => {
                proof {
                    lemma_find_child_bounds(entry_views(self.children@), t);
                }
                let ghost before = self.children@;
                let mut entry = self.children.remove(i);
                entry.child.last_state = Some(state);
                if entry.child.session_id.is_none() {
                    entry.child.session_id = seed_session;
                }
                self.children.insert(i, entry);
                assert(entry_views(self.children@) =~= entry_views(before).update(
                    i as int,
                    (
                        before[i as int].task_id,
                        before[i as int].run_id@,
                        TrackedChild {
                            last_state: Some(state),
                            session_id: if before[i as int].child.session_id is None {
                                seed_session
                            } else {
                                before[i as int].child.session_id
                            },
                            ..before[i as int].child
                        },
                    ),
                ));
                self.maybe_request_pane(t);
                assert(effect_views(effects@) =~= e0 + Seq::<EffectView<L>>::empty());
            },
            None => {
                let session = match seed_session {
                    Some(s) => Some(s),
                    None => self.take_pending_session(t),
                };
                let conversation_id = self.mode.placeholder_conversation_id();
                self.insert_new_child(
                    t,
                    run_id.as_str(),
                    TrackedChild {
                        conversation_id,
                        session_id: session,
                        last_state: Some(state),
                        pane_materialized: false,
                        is_remote_child: true,
                    },
                    effects,
                );
                self.maybe_request_pane(t);
            },
        }
    }

    /// The single entry point for every child signal (see [`observe_spec`]).
    /// `task_id` is the run id parsed as a task id (`None` when it does not
    /// parse); `killed_run_ids` are the runs killed locally.
    pub fn observe_child<L>(
        &mut self,
        child_run_id: &str,
        task_id: Option<u128>,
        signal: ChildSignal<S, L>,
        killed_run_ids: &Vec<String>,
    ) -> (r: Vec<TrackerEffect<L>>)
        requires
            old(self)@.dispatch_count < usize::MAX,
        ensures
            ({
                let (v, e) = observe_spec(old(self)@, child_run_id@, task_id, signal, string_views(killed_run_ids@));
                final(self)@ == v && effect_views(r@) == e
            }),
    {
        let ghost v0 = self@;
        let mut effects: Vec<TrackerEffect<L>> = Vec::new();
        assert(effect_views(effects@) =~= Seq::<EffectView<L>>::empty());
        let killed = find_text(killed_run_ids, child_run_id).is_some();
        proof {
            lemma_find_first_bounds(string_views(killed_run_ids@), child_run_id@);
            if string_views(killed_run_ids@).contains(child_run_id@) {
                let k = choose|k: int| 0 <= k < string_views(killed_run_ids@).len() && string_views(killed_run_ids@)[k] == child_run_id@;
                assert(find_first(string_views(killed_run_ids@), child_run_id@) is Some);
            }
        }
        if killed {
            self.forget(child_run_id);
            return effects;
        }
        let t = match task_id {
            Some(t) => t,
            None => {
                return effects;
            },
        };
        match signal {
            ChildSignal::Registered { conversation_id } => {
                self.remove_fetch(child_run_id);
                if find_id(&self.in_band_children, t).is_none() {
                    self.in_band_children.push(t);
                }
                match find_child_exec(&self.children, t) {
                    Some(i) => {
                        proof {
                            lemma_find_child_bounds(entry_views(self.children@), t);
                        }
                        let ghost before = self.children@;
                        let mut entry = self.children.remove(i);
                        entry.child.conversation_id = conversation_id;
                        self.children.insert(i, entry);
                        assert(entry_views(self.children@) =~= entry_views(before).update(
                            i as int,
                            (
                                before[i as int].task_id,
                                before[i as int].run_id@,
                                TrackedChild { conversation_id, ..before[i as int].child },
                            ),
                        ));
                    },
                    None => {
                        let session = self.take_pending_session(t);
                        self.insert_new_child(
                            t,
                            child_run_id,
                            TrackedChild {
                                conversation_id,
                                session_id: session,
                                last_state: None,
                                pane_materialized: false,
                                is_remote_child: false,
                            },
                            &mut effects,
                        );
                        self.maybe_request_pane(t);
                        assert(effect_views(effects@) =~= Seq::<EffectView<L>>::empty() + seq![
                            EffectView::ChildSpawned(child_run_id@),
                        ]);
                    },
                }
            },
            ChildSignal::SessionLinked { session_id } => {
                match session_id {
                    None => {},
                    Some(s) => {
                        match find_child_exec(&self.children, t) {
                            Some(i) => {
                                proof {
                                    lemma_find_child_bounds(entry_views(self.children@), t);
                                }
                                let ghost before = self.children@;
                                let mut entry = self.children.remove(i);
                                if entry.child.session_id.is_none() {
                                    entry.child.session_id = Some(s);
                                }
                                entry.child.pane_materialized = true;
                                self.children.insert(i, entry);
                                assert(entry_views(self.children@) =~= entry_views(before).update(
                                    i as int,
                                    (
                                        before[i as int].task_id,
                                        before[i as int].run_id@,
                                        TrackedChild {
                                            session_id: if before[i as int].child.session_id is None {
                                                Some(s)
                                            } else {
                                                before[i as int].child.session_id
                                            },
                                            pane_materialized: true,
                                            ..before[i as int].child
                                        },
                                    ),
                                ));
                            },
                            None => {
                                match find_pending_exec(&self.pending_session_ids, t) {
                                    Some(k) => {
                                        proof {
                                            lemma_find_pending_bounds(self.pending_session_ids@, t);
                                        }
                                        self.pending_session_ids.set(k, (t, s));
                                    },
                                    None => {
                                        self.pending_session_ids.push((t, s));
                                    },
                                }
                            },
                        }
                    },
                }
            },
            ChildSignal::Lifecycle(kind) => {
                match find_child_exec(&self.children, t) {
                    Some(_) => {
                        effects.push(TrackerEffect::ChildStatusChanged { run_id: owned(child_run_id), status: kind });
                        let ghost e1 = effect_views(effects@);
                        assert(e1 =~= seq![EffectView::ChildStatusChanged(child_run_id@, kind)]);
                        self.refetch_metadata_if_incomplete(t, child_run_id, &mut effects);
                        self.maybe_request_pane(t);
                    },
                    None => {
                        if find_text(&self.metadata_fetches, child_run_id).is_none() {
                            self.spawn_metadata_fetch(t, child_run_id, &mut effects);
                            assert(effect_views(effects@) =~= Seq::<EffectView<L>>::empty() + seq![
                                EffectView::FetchMetadata(t, child_run_id@),
                            ]);
                        }
                    },
                }
            },
            ChildSignal::Seeded(task) => {
                self.apply_seeded(task, &mut effects);
                assert(effect_views(effects@) =~= Seq::<EffectView<L>>::empty() + seeded_spec::<S, L>(
                    v0,
                    task.task_id,
                    task.run_id@,
                    task.session_id,
                    task.state,
                ).1);
            },
            ChildSignal::Started => {
                match find_child_exec(&self.children, t) {
                    Some(_) => {
                        self.refetch_metadata_if_incomplete(t, child_run_id, &mut effects);
                        self.maybe_request_pane(t);
                    },
                    None => {
                        self.spawn_metadata_fetch(t, child_run_id, &mut effects);
                        assert(effect_views(effects@) =~= Seq::<EffectView<L>>::empty() + seq![
                            EffectView::FetchMetadata(t, child_run_id@),
                        ]);
                    },
                }
            },
        }
        effects
    }
}

/// A killed run leaves nothing behind: no in-flight fetch and no child
/// known by its run id, and no broadcast or fetch is issued for it.
pub proof fn law_killed_run_is_forgotten<S, L>(v: TrackerView<S>, run: Seq<char>, task: Option<u128>, signal: ChildSignal<S, L>, killed: Seq<Seq<char>>)
    requires
        killed.contains(run),
        forall|i: int, j: int| 0 <= i < j < v.fetches.len() ==> v.fetches[i] != v.fetches[j],
        forall|i: int, j: int| 0 <= i < j < v.children.len() ==> v.children[i].1 != v.children[j].1,
    ensures
        !observe_spec(v, run, task, signal, killed).0.fetches.contains(run),
        forall|k: int| 0 <= k < observe_spec(v, run, task, signal, killed).0.children.len()
            ==> observe_spec(v, run, task, signal, killed).0.children[k].1 != run,
        observe_spec(v, run, task, signal, killed).1.len() == 0,
{
    lemma_find_first_bounds(v.fetches, run);
    let f1 = remove_first(v.fetches, run);
    assert forall|k: int| 0 <= k < f1.len() implies f1[k] != run by {
        if let Some(i) = find_first(v.fetches, run) {
            if k < i {
                assert(f1[k] == v.fetches[k]);
            } else {
                assert(f1[k] == v.fetches[k + 1]);
            }
        }
    }
    lemma_find_child_run_bounds(v.children, run);
    let r = observe_spec(v, run, task, signal, killed).0;
    if let Some(i) = find_child_run(v.children, run) {
        assert forall|k: int| 0 <= k < r.children.len() implies r.children[k].1 != run by {
            if k < i {
                assert(r.children[k] == v.children[k]);
            } else {
                assert(r.children[k] == v.children[k + 1]);
            }
        }
    }
}

/// Discovery is deduplicated: a second `Started` for a run whose fetch is in
/// flight, and has no child yet, dispatches no new fetch.
pub proof fn law_started_fetches_once<S, L>(v: TrackerView<S>, t: u128, run: Seq<char>)
    requires
        find_child(v.children, t) is None,
    ensures
        started_spec::<S, L>(started_spec::<S, L>(v, t, run).0, t, run).0.dispatch_count <= v.dispatch_count + 1,
        started_spec::<S, L>(v, t, run).0.fetches.contains(run),
{
    let v1 = started_spec::<S, L>(v, t, run).0;
    lemma_find_first_bounds(v.fetches, run);
    if find_first(v.fetches, run) is None {
        assert(v1.fetches[v1.fetches.len() - 1] == run);
    }
    lemma_find_first_bounds(v1.fetches, run);
    assert(v1.children == v.children);
}

/// An in-band child is never fetched for: once registered, a later
/// `Started` only re-drives the pane request.
pub proof fn law_in_band_never_fetched<S, L>(v: TrackerView<S>, t: u128, run: Seq<char>, conversation_id: u128)
    ensures
        ({
            let w = registered_spec::<S, L>(v, t, run, conversation_id).0;
            &&& find_first(w.in_band, t) is Some
            &&& started_spec::<S, L>(w, t, run).1.len() == 0
            &&& started_spec::<S, L>(w, t, run).0.dispatch_count == w.dispatch_count
        }),
{
    let ib = insert_once(v.in_band, t);
    lemma_find_first_bounds(v.in_band, t);
    if find_first(v.in_band, t) is None {
        assert(ib[ib.len() - 1] == t);
    }
    lemma_find_first_bounds(ib, t);
    let w = registered_spec::<S, L>(v, t, run, conversation_id).0;
    assert(w.in_band == ib);
    let v2 = TrackerView { fetches: remove_first(v.fetches, run), in_band: ib, ..v };
    lemma_find_child_bounds(v2.children, t);
    match find_child(v2.children, t) {
        Some(i) => {
            assert(w.children[i].0 == t);
            lemma_find_child_some(w.children, t, i);
        },
        None => {
            let (ps, session) = take_pending(v2.pending_sessions, t);
            let c = TrackedChild {
                conversation_id,
                session_id: session,
                last_state: None::<S>,
                pane_materialized: false,
                is_remote_child: false,
            };
            let v4 = insert_child::<S, L>(TrackerView { pending_sessions: ps, ..v2 }, t, run, c).0;
            assert(v4.children[v4.children.len() - 1].0 == t);
            lemma_maybe_pane_keeps_children_keys::<S>(v4, t);
            assert(w == maybe_pane(v4, t));
            assert(w.children[v4.children.len() - 1].0 == t);
            lemma_find_child_some(w.children, t, v4.children.len() - 1);
        },
    }
}

proof fn lemma_find_child_some<S>(cs: Seq<(u128, Seq<char>, TrackedChild<S>)>, t: u128, i: int)
    ensures
        0 <= i < cs.len() && cs[i].0 == t ==> find_child(cs, t) is Some,
    decreases cs.len(),
{
    if 0 <= i < cs.len() && cs[i].0 == t && cs[0].0 != t {
        assert(cs.drop_first()[i - 1] == cs[i]);
        lemma_find_child_some(cs.drop_first(), t, i - 1);
    }
}

proof fn lemma_maybe_pane_keeps_children_keys<S>(v: TrackerView<S>, t: u128)
    ensures
        maybe_pane(v, t).children.len() == v.children.len(),
        forall|k: int| 0 <= k < v.children.len() ==> maybe_pane(v, t).children[k].0 == v.children[k].0,
        maybe_pane(v, t).in_band == v.in_band,
        maybe_pane(v, t).dispatch_count == v.dispatch_count,
        maybe_pane(v, t).fetches == v.fetches,
{
    lemma_find_child_bounds(v.children, t);
}

} // verus!
