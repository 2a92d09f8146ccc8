//! Readiness of the one-time startup scan of global MCP config files.
//!
//! The cohort holds the global config sources the scan still owes a first
//! outcome for, and whether completion was already announced. The latch
//! freezes the list of servers to wait for once the scan settles; a waiter
//! that arrives later still reads the frozen list.

use vstd::prelude::*;

use crate::text::{owned, texts_equal};

verus! {

/// The MCP configuration family a config file belongs to.
#[derive(Clone, Copy, Debug, PartialEq, Eq, Structural)]
pub enum MCPProvider {
    Warp,
}

/// A global config source: its file path and provider.
pub type McpSource = (String, MCPProvider);

pub open spec fn source_view(s: McpSource) -> (Seq<char>, MCPProvider) {
    (s.0@, s.1)
}

pub open spec fn sources_set(v: Seq<McpSource>) -> Set<(Seq<char>, MCPProvider)> {
    v.map_values(|s: McpSource| source_view(s)).to_set()
}

/// Global config sources owed by the startup scan, plus whether completion
/// has already been emitted.
pub struct InitialGlobalScanCohort {
    pending: Vec<McpSource>,
    emitted: bool,
}

pub struct CohortView {
    pub pending: Set<(Seq<char>, MCPProvider)>,
    pub emitted: bool,
}

impl View for InitialGlobalScanCohort {
    type V = CohortView;

    closed spec fn view(&self) -> CohortView {
        CohortView { pending: sources_set(self.pending@), emitted: self.emitted }
    }
}

fn same_source(a: &McpSource, b: &McpSource) -> (r: bool)
    ensures
        r == (source_view(*a) == source_view(*b)),
{
    a.1 == b.1 && texts_equal(a.0.as_str(), b.0.as_str())
}

fn copy_source(s: &McpSource) -> (r: McpSource)
    ensures
        source_view(r) == source_view(*s),
{
    (owned(s.0.as_str()), s.1)
}

/// The position of `source` among `v`, if it is there.
fn position(v: &Vec<McpSource>, source: &McpSource) -> (r: Option<usize>)
    ensures
        match r {
            Some(i) => i < v@.len() && source_view(v@[i as int]) == source_view(*source),
            None => !sources_set(v@).contains(source_view(*source)),
        },
{
    let mut i: usize = 0;
    while i < v.len()
        invariant
            i <= v.len(),
            forall|k: int| 0 <= k < i ==> source_view(#[trigger] v@[k]) != source_view(*source),
        decreases v.len() - i,
    {
        if same_source(&v[i], source) {
            return Some(i);
        }
        i = i + 1;
    }
    proof {
        if sources_set(v@).contains(source_view(*source)) {
            let m = v@.map_values(|s: McpSource| source_view(s));
            let k = choose|k: int| 0 <= k < m.len() && m[k] == source_view(*source);
            assert(source_view(v@[k]) == source_view(*source));
        }
    }
    None
}

proof fn lemma_push_set(v: Seq<McpSource>, s: McpSource)
    ensures
        sources_set(v.push(s)) == sources_set(v).insert(source_view(s)),
{
    let f = |x: McpSource| source_view(x);
    assert(v.push(s).map_values(f) =~= v.map_values(f).push(source_view(s)));
    v.map_values(f).lemma_push_to_set_commute(source_view(s));
}

proof fn lemma_remove_set(v: Seq<McpSource>, i: int)
    requires
        0 <= i < v.len(),
        forall|a: int, b: int| 0 <= a < b < v.len() ==> source_view(#[trigger] v[a]) != source_view(#[trigger] v[b]),
    ensures
        sources_set(v.remove(i)) == sources_set(v).remove(source_view(v[i])),
{
    let f = |x: McpSource| source_view(x);
    let m = v.map_values(f);
    let r = v.remove(i).map_values(f);
    assert forall|x: (Seq<char>, MCPProvider)| #[trigger] r.to_set().contains(x) <==> m.to_set().remove(source_view(v[i])).contains(x) by {
        if r.to_set().contains(x) {
            let k = choose|k: int| 0 <= k < r.len() && r[k] == x;
            if k < i {
                assert(m[k] == x);
                assert(source_view(v[k]) != source_view(v[i]));
            } else {
                assert(m[k + 1] == x);
                assert(source_view(v[k + 1]) != source_view(v[i]));
            }
        }
        if m.to_set().remove(source_view(v[i])).contains(x) {
            let k = choose|k: int| 0 <= k < m.len() && m[k] == x;
            assert(k != i);
            if k < i {
                assert(r[k] == x);
            } else {
                assert(r[k - 1] == x);
            }
        }
    }
    assert(r.to_set() =~= m.to_set().remove(source_view(v[i])));
}

impl InitialGlobalScanCohort {
    #[verifier::type_invariant]
    spec fn distinct(self) -> bool {
        forall|a: int, b: int|
            0 <= a < b < self.pending@.len() ==> source_view(#[trigger] self.pending@[a]) != source_view(
                #[trigger] self.pending@[b],
            )
    }

    /// A cohort owing the given sources (each counted once), not yet
    /// emitted.
    pub fn from_pending(pending: Vec<McpSource>) -> (r: Self)
        ensures
            r@.pending == sources_set(pending@),
            !r@.emitted,
    {
        let mut cohort = InitialGlobalScanCohort { pending: Vec::new(), emitted: false };
        assert(cohort.pending@.map_values(|s: McpSource| source_view(s)) =~= Seq::empty());
        let mut i: usize = 0;
        assert(pending@.take(0) =~= Seq::<McpSource>::empty());
        while i < pending.len()
            invariant
                i <= pending.len(),
                cohort@.pending == sources_set(pending@.take(i as int)),
                !cohort@.emitted,
            decreases pending.len() - i,
        {
            cohort.insert(copy_source(&pending[i]));
            proof {
                assert(pending@.take(i + 1) =~= pending@.take(i as int).push(pending@[i as int]));
                lemma_push_set(pending@.take(i as int), pending@[i as int]);
            }
            i = i + 1;
        }
        assert(pending@.take(pending.len() as int) =~= pending@);
        cohort
    }

    /// Owes `source` too.
    pub fn insert(&mut self, source: McpSource)
        ensures
            final(self)@.pending == old(self)@.pending.insert(source_view(source)),
            final(self)@.emitted == old(self)@.emitted,
    {
        proof {
            use_type_invariant(&*self);
        }
        match position(&self.pending, &source) {
            Some(i) => {
                proof {
                    let m = self.pending@.map_values(|s: McpSource| source_view(s));
                    assert(m[i as int] == source_view(source));
                    assert(sources_set(self.pending@).insert(source_view(source)) =~= sources_set(self.pending@));
                }
            },
            None => {
                proof {
                    lemma_push_set(self.pending@, source);
                    assert forall|a: int, b: int| 0 <= a < b < self.pending@.push(source).len() implies source_view(
                        #[trigger] self.pending@.push(source)[a],
                    ) != source_view(#[trigger] self.pending@.push(source)[b]) by {
                        if b == self.pending@.len() {
                            let m = self.pending@.map_values(|s: McpSource| source_view(s));
                            assert(m[a] == source_view(self.pending@[a]));
                        }
                    }
                }
                let mut pending: Vec<McpSource> = Vec::new();
                core::mem::swap(&mut pending, &mut self.pending);
                pending.push(source);
                self.pending = pending;
            },
        }
    }

    /// Whether `source` is still owed.
    pub fn contains(&self, source: &McpSource) -> (r: bool)
        ensures
            r == self@.pending.contains(source_view(*source)),
    {
        match position(&self.pending, source) {
            Some(i) => {
                proof {
                    let m = self.pending@.map_values(|s: McpSource| source_view(s));
                    assert(m[i as int] == source_view(*source));
                }
                true
            },
            None => false,
        }
    }

    /// Whether every source has settled.
    pub fn is_empty(&self) -> (r: bool)
        ensures
            r == (self@.pending == Set::<(Seq<char>, MCPProvider)>::empty()),
    {
        proof {
            let m = self.pending@.map_values(|s: McpSource| source_view(s));
            if self.pending@.len() > 0 {
                assert(m.to_set().contains(m[0]));
            } else {
                assert(m =~= Seq::empty());
                assert(m.to_set() =~= Set::empty());
            }
        }
        self.pending.len() == 0
    }

    /// Whether completion was emitted.
    pub fn has_emitted(&self) -> (r: bool)
        ensures
            r == self@.emitted,
    {
        self.emitted
    }

    /// Removes `source` if it was still owed; returns whether it was.
    pub fn remove(&mut self, source: &McpSource) -> (r: bool)
        ensures
            r == old(self)@.pending.contains(source_view(*source)),
            final(self)@.pending == old(self)@.pending.remove(source_view(*source)),
            final(self)@.emitted == old(self)@.emitted,
    {
        proof {
            use_type_invariant(&*self);
        }
        match position(&self.pending, source) {
            Some(i) => {
                proof {
                    let m = self.pending@.map_values(|s: McpSource| source_view(s));
                    assert(m[i as int] == source_view(*source));
                    lemma_remove_set(self.pending@, i as int);
                    assert forall|a: int, b: int| 0 <= a < b < self.pending@.remove(i as int).len() implies source_view(
                        #[trigger] self.pending@.remove(i as int)[a],
                    ) != source_view(#[trigger] self.pending@.remove(i as int)[b]) by {
                        let aa = if a < i { a } else { a + 1 };
                        let bb = if b < i { b } else { b + 1 };
                        assert(self.pending@.remove(i as int)[a] == self.pending@[aa]);
                        assert(self.pending@.remove(i as int)[b] == self.pending@[bb]);
                    }
                }
                let mut pending: Vec<McpSource> = Vec::new();
                core::mem::swap(&mut pending, &mut self.pending);
                pending.remove(i);
                self.pending = pending;
                true
            },
            None => {
                proof {
                    assert(sources_set(self.pending@).remove(source_view(*source)) =~= sources_set(self.pending@));
                }
                false
            },
        }
    }

    /// Marks completion if every owed source has settled and completion was
    /// not emitted before; returns whether the caller should emit it (see
    /// [`try_complete_spec`]).
    pub fn try_complete(&mut self) -> (r: bool)
        ensures
            (final(self)@, r) == try_complete_spec(old(self)@),
    {
        proof {
            use_type_invariant(&*self);
        }
        if self.emitted || !self.is_empty() {
            return false;
        }
        self.emitted = true;
        true
    }
}

/// Completion is due when every owed source has settled and it was not
/// emitted before; it is then marked emitted.
pub open spec fn try_complete_spec(v: CohortView) -> (CohortView, bool) {
    if !v.emitted && v.pending == Set::<(Seq<char>, MCPProvider)>::empty() {
        (CohortView { emitted: true, ..v }, true)
    } else {
        (v, false)
    }
}

/// Completion is emitted at most once, and only when nothing is owed: a
/// second attempt right after a successful one declines, and no later
/// change of the owed set brings it back.
pub proof fn law_complete_emits_once(v: CohortView, later_pending: Set<(Seq<char>, MCPProvider)>)
    ensures
        try_complete_spec(v).1 ==> v.pending == Set::<(Seq<char>, MCPProvider)>::empty(),
        try_complete_spec(v).1 ==> !try_complete_spec(
            CohortView { pending: later_pending, ..try_complete_spec(v).0 },
        ).1,
{
}

/// The latch that freezes the servers to wait for when the startup scan
/// settles. The first completion wins; later ones change nothing.
pub struct InitialGlobalMcpReadiness {
    result: Option<Vec<u128>>,
}

impl View for InitialGlobalMcpReadiness {
    type V = Option<Seq<u128>>;

    closed spec fn view(&self) -> Option<Seq<u128>> {
        match self.result {
            Some(v) => Some(v@),
            None => None,
        }
    }
}

impl InitialGlobalMcpReadiness {
    /// A latch that has not completed.
    pub fn pending() -> (r: Self)
        ensures
            r@ is None,
    {
        InitialGlobalMcpReadiness { result: None }
    }

    /// A latch completed with nothing to wait for.
    pub fn complete_empty() -> (r: Self)
        ensures
            r@ == Some(Seq::<u128>::empty()),
    {
        let mut latch = Self::pending();
        latch.complete(Vec::new());
        latch
    }

    /// Freezes the wait set (server ids) unless one is frozen already.
    pub fn complete(&mut self, wait_server_ids: Vec<u128>)
        ensures
            final(self)@ == complete_spec(old(self)@, wait_server_ids@),
    {
        if self.result.is_some() {
            return;
        }
        self.result = Some(wait_server_ids);
    }

    /// The frozen wait set, if the scan settled.
    pub fn result(&self) -> (r: Option<Vec<u128>>)
        ensures
            match r {
                Some(v) => self@ == Some(v@),
                None => self@ is None,
            },
    {
        match &self.result {
            Some(v) => Some(v.clone()),
            None => None,
        }
    }

    pub fn is_complete(&self) -> (r: bool)
        ensures
            r == self@ is Some,
    {
        self.result.is_some()
    }

    /// What a waiter reads once the latch completed: the frozen wait set
    /// (nothing while pending).
    pub fn waited_result(&self) -> (r: Vec<u128>)
        ensures
            r@ == match self@ {
                Some(v) => v,
                None => Seq::<u128>::empty(),
            },
    {
        match &self.result {
            Some(v) => v.clone(),
            None => Vec::new(),
        }
    }
}

/// The first completion freezes its wait set; a completed latch stays as
/// it is.
pub open spec fn complete_spec(latch: Option<Seq<u128>>, ids: Seq<u128>) -> Option<Seq<u128>> {
    match latch {
        Some(frozen) => Some(frozen),
        None => Some(ids),
    }
}

/// Completing again changes nothing, so a waiter that arrives after
/// completion reads the set the first completion froze.
pub proof fn law_first_completion_wins(latch: Option<Seq<u128>>, first: Seq<u128>, second: Seq<u128>)
    ensures
        complete_spec(complete_spec(latch, first), second) == complete_spec(latch, first),
        latch is None ==> complete_spec(complete_spec(latch, first), second) == Some(first),
{
}

} // verus!
