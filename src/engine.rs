//! Observation: how much of an object a given power reveals, and the step
//! that moves one observable object into the record of observations.
use vstd::prelude::*;

use crate::seq_sets::views;
use crate::state::{no_downgrade, observation_recorded, GameState};
use crate::types::{AstroObject, DetailModel, ObjectModel};

verus! {

/// The level of the last tier, in sequence order, whose threshold `power`
/// reaches; 0 when it reaches none.
pub open spec fn resolved_level(d: Seq<DetailModel>, power: int) -> nat
    decreases d.len(),
{
    if d.len() == 0 {
        0
    } else if d.last().power_needed <= power {
        d.last().level
    } else {
        resolved_level(d.drop_last(), power)
    }
}

/// Tiers numbered `0..N-1` in order.
pub open spec fn numbered(d: Seq<DetailModel>) -> bool {
    forall|i: int| 0 <= i < d.len() ==> #[trigger] d[i].level == i
}

proof fn lemma_numbered_prefix(d: Seq<DetailModel>)
    requires
        numbered(d),
        d.len() > 0,
    ensures
        numbered(d.drop_last()),
        d.last().level == d.len() - 1,
{
    assert forall|i: int| 0 <= i < d.drop_last().len() implies #[trigger] d.drop_last()[i].level
        == i by {
        assert(d.drop_last()[i] == d[i]);
    }
    assert(d.last() == d[d.len() - 1]);
}

/// On numbered tiers the resolved level names a tier.
pub proof fn lemma_resolved_level_in_range(d: Seq<DetailModel>, power: int)
    requires
        numbered(d),
        d.len() > 0,
    ensures
        resolved_level(d, power) < d.len(),
    decreases d.len(),
{
    lemma_numbered_prefix(d);
    if d.last().power_needed > power {
        if d.len() > 1 {
            lemma_resolved_level_in_range(d.drop_last(), power);
        } else {
            assert(resolved_level(d.drop_last(), power) == 0);
        }
    }
}

/// Raising the power never lowers the level resolved for a well-formed
/// object.
pub proof fn lemma_resolve_monotonic(object: ObjectModel, low: int, high: int)
    requires
        object.wf(),
        low <= high,
    ensures
        resolved_level(object.detail, low) <= resolved_level(object.detail, high),
{
    lemma_resolved_level_monotonic(object.detail, low, high);
}

proof fn lemma_resolved_level_monotonic(d: Seq<DetailModel>, low: int, high: int)
    requires
        numbered(d),
        low <= high,
    ensures
        resolved_level(d, low) <= resolved_level(d, high),
    decreases d.len(),
{
    if d.len() > 0 {
        lemma_numbered_prefix(d);
        let prefix = d.drop_last();
        if d.last().power_needed > high {
            lemma_resolved_level_monotonic(prefix, low, high);
        } else if d.last().power_needed > low {
            if prefix.len() > 0 {
                lemma_resolved_level_in_range(prefix, low);
            }
        }
    }
}

/// The detail level that `max_power` reveals of `object`: the level of the
/// last tier whose threshold it reaches, and 0 when it reaches none.
pub fn resolve_detail_level(object: &AstroObject, max_power: i32) -> (r: usize)
    ensures
        r as nat == resolved_level(object@.detail, max_power as int),
{
    let ghost d = object@.detail;
    let mut level: usize = 0;
    let mut i: usize = 0;
    while i < object.detail.len()
        invariant
            d == object@.detail,
            i <= object.detail@.len(),
            level as nat == resolved_level(d.take(i as int), max_power as int),
        decreases object.detail.len() - i,
    {
        let tier = &object.detail[i];
        proof {
            let t = d.take(i + 1);
            assert(t.drop_last() =~= d.take(i as int));
            assert(t.last() == tier@);
        }
        if tier.power_needed <= max_power {
            level = tier.level;
        }
        i = i + 1;
    }
    proof {
        assert(d.take(d.len() as int) =~= d);
    }
    level
}

/// What an observation found: the object, the level of detail reached, and
/// the discovery text of that level.
#[derive(Debug)]
pub struct Observation {
    pub object: AstroObject,
    pub level: usize,
    pub discovery_text: String,
}

/// Observes the observable object at position `index`: it is recorded as
/// observed at the level that the power at hand resolves.
pub fn observe_at(state: &mut GameState, index: usize) -> (r: Observation)
    requires
        old(state).wf(),
        index < old(state).observables.len(),
    ensures
        final(state).wf(),
        r.object@ == old(state).observables@[index as int]@,
        old(state)@.observable.contains(r.object@),
        r.level as nat == resolved_level(r.object@.detail, old(state).max_power as int),
        r.level < r.object@.detail.len(),
        r.discovery_text@ == r.object@.detail[r.level as int].discovery_text,
        observation_recorded(old(state)@, r.object@, r.level as nat, final(state)@),
        final(state)@.objects() == old(state)@.objects(),
        no_downgrade(old(state)@, final(state)@),
{
    let object = state.observables[index].clone();
    proof {
        assert(views(state.observables@)[index as int] == object@);
        assert(state@.observable.contains(object@));
        lemma_resolved_level_in_range(object@.detail, state.max_power as int);
    }
    let level = resolve_detail_level(&object, state.max_power);
    let discovery_text = object.detail[level].discovery_text.clone();
    proof {
        assert(object.detail@[level as int]@ == object@.detail[level as int]);
    }
    let recorded = state.record_observation(&object, level);
    proof {
        assert(recorded is Ok);
    }
    Observation { object, level, discovery_text }
}

} // verus!
