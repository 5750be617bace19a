//! The registry of compute targets, keyed by surface identifier.
//!
//! The registry is the one structure that is shared between the pass that
//! prepares bundles and the pass that dispatches. It is mutated by the first
//! and read, through a snapshot, by the second.

use crate::bundle::BindBundle;
use crate::target::{Observation, PipelinePair, TargetRecord};
use std::collections::HashMap;
use vstd::prelude::*;
use vstd::std_specs::hash::*;
use vstd::std_specs::iter::IteratorSpec;

verus! {

broadcast use vstd::std_specs::hash::group_hash_axioms;

/// One target of a snapshot: a surface identifier and a copy of its record.
#[derive(Clone, Copy, Debug, PartialEq, Eq, Structural)]
pub struct TargetEntry {
    pub surface: u64,
    pub record: TargetRecord,
}

/// The compute targets known so far, one record per surface identifier.
pub struct Registry {
    targets: HashMap<u64, TargetRecord>,
}

impl View for Registry {
    type V = Map<u64, TargetRecord>;

    closed spec fn view(&self) -> Map<u64, TargetRecord> {
        self.targets@
    }
}

/// The targets after `surface` is supplied with `bundle`: a known surface
/// keeps its record but for the bundle, a new one gets a fresh record with
/// the handles `fresh`.
pub open spec fn spec_upsert(
    targets: Map<u64, TargetRecord>,
    surface: u64,
    bundle: BindBundle,
    fresh: PipelinePair,
) -> Map<u64, TargetRecord> {
    if targets.contains_key(surface) {
        targets.insert(surface, targets[surface].spec_with_bundle(bundle))
    } else {
        targets.insert(surface, TargetRecord::spec_fresh(bundle, fresh))
    }
}

/// The targets after a known `surface` is given `bundle`: its record takes
/// the bundle, and nothing happens for an unknown surface.
pub open spec fn spec_refresh(
    targets: Map<u64, TargetRecord>,
    surface: u64,
    bundle: BindBundle,
) -> Map<u64, TargetRecord> {
    if targets.contains_key(surface) {
        targets.insert(surface, targets[surface].spec_with_bundle(bundle))
    } else {
        targets
    }
}

/// The targets after the pipeline of `surface` is observed: the record of a
/// known surface advances, and nothing happens for an unknown one.
pub open spec fn spec_observe(
    targets: Map<u64, TargetRecord>,
    surface: u64,
    seen: Observation,
) -> Map<u64, TargetRecord> {
    if targets.contains_key(surface) {
        targets.insert(surface, targets[surface].spec_advance(seen))
    } else {
        targets
    }
}

/// `entries` holds exactly the targets of `targets`: each surface once, with
/// its record.
pub open spec fn lists_targets(entries: Seq<TargetEntry>, targets: Map<u64, TargetRecord>) -> bool {
    &&& forall|i: int, j: int|
        0 <= i < j < entries.len() ==> entries[i].surface != entries[j].surface
    &&& forall|i: int|
        0 <= i < entries.len() ==> targets.contains_key(#[trigger] entries[i].surface)
            && targets[entries[i].surface] == entries[i].record
    &&& forall|surface: u64| #[trigger]
        targets.contains_key(surface) ==> exists|i: int|
            0 <= i < entries.len() && entries[i].surface == surface
}

impl Registry {
    /// An empty registry.
    pub fn new() -> (registry: Registry)
        ensures
            registry@ == Map::<u64, TargetRecord>::empty(),
    {
        Registry { targets: HashMap::new() }
    }

    /// The number of targets.
    pub fn len(&self) -> (count: usize)
        ensures
            count == self@.len(),
            self@.dom().finite(),
    {
        self.targets.len()
    }

    /// Whether there is no target yet.
    pub fn is_empty(&self) -> (empty: bool)
        ensures
            empty == (self@.len() == 0),
            self@.dom().finite(),
    {
        self.targets.len() == 0
    }

    /// Whether `surface` has a record. A surface without one has not been
    /// prepared yet; that is no error.
    pub fn contains(&self, surface: u64) -> (known: bool)
        ensures
            known == self@.contains_key(surface),
    {
        self.targets.contains_key(&surface)
    }

    /// A copy of the record of `surface`, if it has one.
    pub fn get(&self, surface: u64) -> (record: Option<TargetRecord>)
        ensures
            record == if self@.contains_key(surface) {
                Some(self@[surface])
            } else {
                None
            },
    {
        match self.targets.get(&surface) {
            Some(record) => Some(*record),
            None => None,
        }
    }

    /// Supplies `surface` with a bundle. A surface seen for the first time
    /// gets a record that is loading and holds the handles `fresh`. A known
    /// surface gets the bundle and keeps its handles, its state and its
    /// failure mark; `fresh` is not used. No other record changes.
    pub fn upsert(&mut self, surface: u64, bundle: BindBundle, fresh: PipelinePair)
        ensures
            final(self)@ == spec_upsert(old(self)@, surface, bundle, fresh),
            final(self)@.dom() == old(self)@.dom().insert(surface),
            final(self)@[surface].bundle == bundle,
            old(self)@.contains_key(surface) ==> {
                &&& final(self)@[surface].pipelines == old(self)@[surface].pipelines
                &&& final(self)@[surface].state == old(self)@[surface].state
                &&& final(self)@[surface].failure == old(self)@[surface].failure
            },
            !old(self)@.contains_key(surface) ==> final(self)@[surface]
                == TargetRecord::spec_fresh(bundle, fresh),
            forall|other: u64|
                other != surface && old(self)@.contains_key(other) ==> final(self)@[other] == old(
                    self,
                )@[other],
    {
        let record = match self.targets.get(&surface) {
            Some(known) => known.with_bundle(bundle),
            None => TargetRecord::fresh(bundle, fresh),
        };
        self.targets.insert(surface, record);
    }

    /// Gives a known surface a new bundle; its handles, its state and its
    /// failure mark stay. Returns whether the surface is known: for an unknown
    /// one nothing is stored.
    pub fn refresh(&mut self, surface: u64, bundle: BindBundle) -> (known: bool)
        ensures
            known == old(self)@.contains_key(surface),
            final(self)@ == spec_refresh(old(self)@, surface, bundle),
            final(self)@.dom() == old(self)@.dom(),
            known ==> final(self)@[surface].bundle == bundle,
    {
        let record = match self.targets.get(&surface) {
            Some(known) => known.with_bundle(bundle),
            None => {
                return false;
            },
        };
        self.targets.insert(surface, record);
        true
    }

    /// Applies one pipeline observation to the target of `surface` and
    /// returns its record afterwards. An unknown surface has nothing to
    /// advance: the registry stays as it is and `None` is returned.
    pub fn observe(&mut self, surface: u64, seen: Observation) -> (record: Option<TargetRecord>)
        ensures
            final(self)@ == spec_observe(old(self)@, surface, seen),
            record == if old(self)@.contains_key(surface) {
                Some(old(self)@[surface].spec_advance(seen))
            } else {
                None
            },
            final(self)@.dom() == old(self)@.dom(),
    {
        let advanced = match self.targets.get(&surface) {
            Some(known) => known.advance(seen),
            None => {
                return None;
            },
        };
        self.targets.insert(surface, advanced);
        Some(advanced)
    }

    /// The identifiers of all targets, each once, in no particular order.
    pub fn surfaces(&self) -> (ids: Vec<u64>)
        ensures
            ids@.no_duplicates(),
            ids@.to_set() == self@.dom(),
            ids@.len() == self@.len(),
    {
        let mut ids: Vec<u64> = Vec::new();
        let ghost keys = spec_keys_iter(&self.targets).remaining();
        for k in it: self.targets.keys()
            invariant
                it.seq() == keys,
                ids@.len() == it.index(),
                forall|j: int| 0 <= j < ids@.len() ==> ids@[j] == *keys[j],
        {
            ids.push(*k);
        }
        proof {
            assert(ids@ =~= keys.unref());
        }
        ids
    }

    /// A snapshot of all targets: every surface once, with a copy of its
    /// record, in no particular order. Later changes to the registry do not
    /// reach a snapshot.
    pub fn all(&self) -> (entries: Vec<TargetEntry>)
        ensures
            lists_targets(entries@, self@),
            entries@.len() == self@.len(),
    {
        let ids = self.surfaces();
        let mut entries: Vec<TargetEntry> = Vec::new();
        let mut i: usize = 0;
        while i < ids.len()
            invariant
                i <= ids.len(),
                ids@.to_set() == self@.dom(),
                entries@.len() == i,
                forall|j: int|
                    0 <= j < i ==> (#[trigger] entries@[j]).surface == ids@[j]
                        && entries@[j].record == self@[ids@[j]],
            decreases ids.len() - i,
        {
            let surface = ids[i];
            match self.targets.get(&surface) {
                Some(record) => {
                    entries.push(TargetEntry { surface, record: *record });
                },
                None => {
                    assert(false);
                },
            }
            i += 1;
        }
        proof {
            assert forall|surface: u64| #[trigger] self@.contains_key(surface) implies exists|
                i: int,
            |
                0 <= i < entries@.len() && entries@[i].surface == surface by {
                let k = choose|k: int| 0 <= k < ids@.len() && ids@[k] == surface;
                assert(entries@[k].surface == surface);
            }
            assert forall|i: int| 0 <= i < entries@.len() implies self@.contains_key(
                #[trigger] entries@[i].surface,
            ) && self@[entries@[i].surface] == entries@[i].record by {
                assert(ids@.to_set().contains(ids@[i]));
            }
        }
        entries
    }
}

/// Two targets never share a bundle: after two different surfaces are
/// supplied with bundles of different parameters, in either order, each
/// holds the bundle it was given, the two records hold different bundles,
/// and the registry is the same whichever came first.
pub proof fn lemma_targets_keep_own_bundles(
    targets: Map<u64, TargetRecord>,
    surface_a: u64,
    bundle_a: BindBundle,
    fresh_a: PipelinePair,
    surface_b: u64,
    bundle_b: BindBundle,
    fresh_b: PipelinePair,
)
    requires
        surface_a != surface_b,
        bundle_a.params != bundle_b.params,
    ensures
        ({
            let first_a = spec_upsert(
                spec_upsert(targets, surface_a, bundle_a, fresh_a),
                surface_b,
                bundle_b,
                fresh_b,
            );
            let first_b = spec_upsert(
                spec_upsert(targets, surface_b, bundle_b, fresh_b),
                surface_a,
                bundle_a,
                fresh_a,
            );
            &&& first_a == first_b
            &&& first_a[surface_a].bundle == bundle_a
            &&& first_a[surface_b].bundle == bundle_b
            &&& first_a[surface_a].bundle != first_a[surface_b].bundle
        }),
{
    let first_a = spec_upsert(
        spec_upsert(targets, surface_a, bundle_a, fresh_a),
        surface_b,
        bundle_b,
        fresh_b,
    );
    let first_b = spec_upsert(
        spec_upsert(targets, surface_b, bundle_b, fresh_b),
        surface_a,
        bundle_a,
        fresh_a,
    );
    assert(first_a =~= first_b);
}

/// Supplying a known surface again, with whatever bundle and handles, leaves
/// its handles, its state and its failure mark as they were: the handles of
/// a target are those of its first observation.
pub proof fn lemma_resupply_keeps_pipelines(
    targets: Map<u64, TargetRecord>,
    surface: u64,
    bundle: BindBundle,
    fresh: PipelinePair,
)
    requires
        targets.contains_key(surface),
    ensures
        spec_upsert(targets, surface, bundle, fresh)[surface].pipelines
            == targets[surface].pipelines,
        spec_upsert(targets, surface, bundle, fresh)[surface].state == targets[surface].state,
        spec_upsert(targets, surface, bundle, fresh)[surface].failure
            == targets[surface].failure,
        spec_upsert(targets, surface, bundle, fresh)[surface].bundle == bundle,
        spec_upsert(targets, surface, bundle, fresh).dom() == targets.dom(),
{
}

} // verus!
