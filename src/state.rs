//! The mutable session: owned telescopes, the resolving power they grant, and
//! the partition of the loaded objects into unobservable, observable and
//! observed.
use vstd::prelude::*;

use crate::error::GameError;
use crate::seq_sets::{lemma_push_set, lemma_remove_set, lemma_views_push, lemma_views_remove, views};
use crate::types::{AstroObject, ObjectModel, Telescope, TelescopeModel};

verus! {

/// The objects recorded as observed, in order of observation.
pub open spec fn observed_keys(s: Seq<(AstroObject, usize)>) -> Seq<ObjectModel> {
    s.map_values(|p: (AstroObject, usize)| p.0@)
}

/// The observations as a map from object to the detail level reached.
pub open spec fn observed_map(s: Seq<(AstroObject, usize)>) -> Map<ObjectModel, nat>
    decreases s.len(),
{
    if s.len() == 0 {
        Map::empty()
    } else {
        observed_map(s.drop_last()).insert(s.last().0@, s.last().1 as nat)
    }
}

/// The objects of `s` that the power `p` reaches.
pub open spec fn within_reach(s: Set<ObjectModel>, p: int) -> Set<ObjectModel> {
    s.filter(|m: ObjectModel| m.power_needed <= p)
}

/// The objects of `s` that the power `p` does not reach.
pub open spec fn out_of_reach(s: Set<ObjectModel>, p: int) -> Set<ObjectModel> {
    s.filter(|m: ObjectModel| m.power_needed > p)
}

/// The mathematical value of a `GameState`.
pub struct GameModel {
    pub telescopes: Set<TelescopeModel>,
    pub max_power: int,
    pub unobservable: Set<ObjectModel>,
    pub observable: Set<ObjectModel>,
    pub observed: Map<ObjectModel, nat>,
}

impl GameModel {
    /// Every object loaded so far, wherever it stands.
    pub open spec fn objects(self) -> Set<ObjectModel> {
        self.unobservable + self.observable + self.observed.dom()
    }
}

/// An object within sight: observable, or already observed.
pub open spec fn seen(g: GameModel, m: ObjectModel) -> bool {
    g.observable.contains(m) || g.observed.contains_key(m)
}

/// Every object that was within sight before is within sight after, and is
/// not unobservable.
pub open spec fn no_downgrade(before: GameModel, after: GameModel) -> bool {
    forall|m: ObjectModel| #[trigger]
        seen(before, m) ==> seen(after, m) && !after.unobservable.contains(m)
}

/// Once an object is observable or observed, it never returns to the
/// unobservable ones, over any run of operations.
pub proof fn lemma_no_downgrade_chain(a: GameModel, b: GameModel, c: GameModel)
    requires
        no_downgrade(a, b),
        no_downgrade(b, c),
    ensures
        no_downgrade(a, c),
{
    assert forall|m: ObjectModel| #[trigger] seen(a, m) implies seen(c, m)
        && !c.unobservable.contains(m) by {
        assert(seen(b, m));
    }
}

/// `after` is `before` once the telescope `scope` is in the player's hands:
/// the power is the greater of the two, the telescope is owned, and every
/// unobservable object that the new power reaches has become observable.
pub open spec fn telescope_added(before: GameModel, scope: TelescopeModel, after: GameModel) -> bool {
    &&& after.max_power == if scope.max_power > before.max_power {
        scope.max_power
    } else {
        before.max_power
    }
    &&& after.telescopes == before.telescopes.insert(scope)
    &&& after.observed == before.observed
    &&& after.observable == before.observable + within_reach(before.unobservable, after.max_power)
    &&& after.unobservable == out_of_reach(before.unobservable, after.max_power)
}

/// `after` is `before` once `object` has been observed at `level`: the object
/// has moved from the observable ones into the record, and nothing else has
/// changed.
pub open spec fn observation_recorded(
    before: GameModel,
    object: ObjectModel,
    level: nat,
    after: GameModel,
) -> bool {
    &&& after.observable == before.observable.remove(object)
    &&& after.observed == before.observed.insert(object, level)
    &&& after.unobservable == before.unobservable
    &&& after.telescopes == before.telescopes
    &&& after.max_power == before.max_power
    &&& after.observable.len() + 1 == before.observable.len()
    &&& after.observed.len() == before.observed.len() + 1
}

#[derive(Debug)]
pub struct GameState {
    /// The devices the player owns, each once.
    pub telescopes: Vec<Telescope>,
    /// The greatest power among the owned devices, and 0 when there is none.
    pub max_power: i32,
    /// Objects that need more power than the player has.
    pub unobservables: Vec<AstroObject>,
    /// Objects within reach that have not been observed yet.
    pub observables: Vec<AstroObject>,
    /// Objects observed, with the detail level reached.
    pub observed: Vec<(AstroObject, usize)>,
}

impl View for GameState {
    type V = GameModel;

    open spec fn view(&self) -> GameModel {
        GameModel {
            telescopes: views(self.telescopes@).to_set(),
            max_power: self.max_power as int,
            unobservable: views(self.unobservables@).to_set(),
            observable: views(self.observables@).to_set(),
            observed: observed_map(self.observed@),
        }
    }
}

proof fn lemma_observed_push(s: Seq<(AstroObject, usize)>, p: (AstroObject, usize))
    ensures
        observed_map(s.push(p)) == observed_map(s).insert(p.0@, p.1 as nat),
        observed_keys(s.push(p)) == observed_keys(s).push(p.0@),
{
    assert(s.push(p).drop_last() =~= s);
    assert(observed_keys(s.push(p)) =~= observed_keys(s).push(p.0@));
}

proof fn lemma_observed_dom(s: Seq<(AstroObject, usize)>)
    ensures
        observed_map(s).dom() == observed_keys(s).to_set(),
    decreases s.len(),
{
    if s.len() == 0 {
        assert(observed_keys(s).to_set() =~= Set::empty());
    } else {
        let prefix = s.drop_last();
        lemma_observed_dom(prefix);
        assert(s == prefix.push(s.last()));
        lemma_observed_push(prefix, s.last());
        lemma_push_set(observed_keys(prefix), s.last().0@);
    }
}

/// Whether `v` holds a telescope equal to `t`.
fn owns_telescope(v: &Vec<Telescope>, t: &Telescope) -> (r: bool)
    ensures
        r == views(v@).to_set().contains(t@),
{
    let mut i: usize = 0;
    while i < v.len()
        invariant
            i <= v.len(),
            forall|j: int| 0 <= j < i ==> v@[j]@ != t@,
        decreases v.len() - i,
    {
        if v[i] == *t {
            proof {
                assert(views(v@)[i as int] == t@);
            }
            return true;
        }
        i = i + 1;
    }
    proof {
        if views(v@).contains(t@) {
            let j = choose|j: int| 0 <= j < v@.len() && views(v@)[j] == t@;
            assert(v@[j]@ == t@);
        }
    }
    false
}

/// Where `v` holds an object equal to `o`, if it does.
fn position_of(v: &Vec<AstroObject>, o: &AstroObject) -> (r: Option<usize>)
    ensures
        match r {
            Some(i) => i < v@.len() && v@[i as int]@ == o@,
            None => !views(v@).to_set().contains(o@),
        },
{
    let mut i: usize = 0;
    while i < v.len()
        invariant
            i <= v.len(),
            forall|j: int| 0 <= j < i ==> v@[j]@ != o@,
        decreases v.len() - i,
    {
        if v[i] == *o {
            return Some(i);
        }
        i = i + 1;
    }
    proof {
        if views(v@).contains(o@) {
            let j = choose|j: int| 0 <= j < v@.len() && views(v@)[j] == o@;
            assert(v@[j]@ == o@);
        }
    }
    None
}

/// Whether `v` records an observation of an object equal to `o`.
fn records_object(v: &Vec<(AstroObject, usize)>, o: &AstroObject) -> (r: bool)
    ensures
        r == observed_keys(v@).to_set().contains(o@),
{
    let mut i: usize = 0;
    while i < v.len()
        invariant
            i <= v.len(),
            forall|j: int| 0 <= j < i ==> v@[j].0@ != o@,
        decreases v.len() - i,
    {
        if v[i].0 == *o {
            proof {
                assert(observed_keys(v@)[i as int] == o@);
            }
            return true;
        }
        i = i + 1;
    }
    proof {
        if observed_keys(v@).contains(o@) {
            let j = choose|j: int| 0 <= j < v@.len() && observed_keys(v@)[j] == o@;
            assert(v@[j].0@ == o@);
        }
    }
    false
}

impl GameState {
    /// The structure of the state: each collection free of duplicates, the
    /// three groups of objects disjoint, every object well formed, every
    /// recorded level a tier of its object, and the power the greatest among
    /// the telescopes (0 without one).
    pub open spec fn partitioned(&self) -> bool {
        &&& views(self.telescopes@).no_duplicates()
        &&& views(self.unobservables@).no_duplicates()
        &&& views(self.observables@).no_duplicates()
        &&& observed_keys(self.observed@).no_duplicates()
        &&& self@.unobservable.disjoint(self@.observable)
        &&& self@.unobservable.disjoint(self@.observed.dom())
        &&& self@.observable.disjoint(self@.observed.dom())
        &&& forall|m: ObjectModel| #[trigger] self@.unobservable.contains(m) ==> m.wf()
        &&& forall|m: ObjectModel| #[trigger] self@.observable.contains(m) ==> m.wf()
        &&& forall|m: ObjectModel| #[trigger] self@.observed.contains_key(m) ==> m.wf()
        &&& forall|m: ObjectModel| #[trigger]
            self@.observed.contains_key(m) ==> self@.observed[m] < m.detail.len()
        &&& self.max_power >= 0
        &&& forall|t: TelescopeModel| #[trigger]
            self@.telescopes.contains(t) ==> t.max_power <= self.max_power
        &&& self.max_power == 0 || exists|t: TelescopeModel| #[trigger]
            self@.telescopes.contains(t) && t.max_power == self.max_power
    }

    /// Every observable object is within reach of the power at hand.
    pub open spec fn observables_in_reach(&self) -> bool {
        forall|m: ObjectModel| #[trigger]
            self@.observable.contains(m) ==> m.power_needed <= self.max_power
    }

    /// Every unobservable object is out of reach of the power at hand.
    pub open spec fn unobservables_out_of_reach(&self) -> bool {
        forall|m: ObjectModel| #[trigger]
            self@.unobservable.contains(m) ==> m.power_needed > self.max_power
    }

    /// The invariant that every operation keeps.
    pub open spec fn wf(&self) -> bool {
        &&& self.partitioned()
        &&& self.observables_in_reach()
        &&& self.unobservables_out_of_reach()
    }

    /// An empty session: no telescope, no power, no object.
    pub fn init() -> (r: GameState)
        ensures
            r.wf(),
            r@.telescopes == Set::<TelescopeModel>::empty(),
            r@.max_power == 0,
            r@.unobservable == Set::<ObjectModel>::empty(),
            r@.observable == Set::<ObjectModel>::empty(),
            r@.observed == Map::<ObjectModel, nat>::empty(),
    {
        let r = GameState {
            telescopes: Vec::new(),
            max_power: 0,
            unobservables: Vec::new(),
            observables: Vec::new(),
            observed: Vec::new(),
        };
        proof {
            assert(views(r.telescopes@).to_set() =~= Set::empty());
            assert(views(r.unobservables@).to_set() =~= Set::empty());
            assert(views(r.observables@).to_set() =~= Set::empty());
            assert(observed_map(r.observed@) == Map::<ObjectModel, nat>::empty());
        }
        r
    }

    /// Loads objects, each into `observables` when the power at hand reaches
    /// it and into `unobservables` otherwise; `objects` is left empty. Each
    /// object is to be loaded once.
    pub fn add_data(&mut self, objects: &mut Vec<AstroObject>)
        requires
            old(self).wf(),
            views(old(objects)@).no_duplicates(),
            forall|i: int| 0 <= i < old(objects)@.len() ==> (#[trigger] old(objects)@[i])@.wf(),
            forall|i: int|
                0 <= i < old(objects)@.len() ==> !old(self)@.objects().contains(
                    (#[trigger] old(objects)@[i])@,
                ),
        ensures
            final(self).wf(),
            final(objects)@.len() == 0,
            final(self)@.telescopes == old(self)@.telescopes,
            final(self)@.max_power == old(self)@.max_power,
            final(self)@.observed == old(self)@.observed,
            final(self)@.observable == old(self)@.observable + within_reach(
                views(old(objects)@).to_set(),
                old(self)@.max_power,
            ),
            final(self)@.unobservable == old(self)@.unobservable + out_of_reach(
                views(old(objects)@).to_set(),
                old(self)@.max_power,
            ),
            final(self)@.objects() == old(self)@.objects() + views(old(objects)@).to_set(),
            no_downgrade(old(self)@, final(self)@),
    {
        let ghost all = views(objects@);
        let ghost mut done: Set<ObjectModel> = Set::empty();
        let ghost p = self.max_power as int;
        while objects.len() > 0
            invariant
                self.wf(),
                self.telescopes == old(self).telescopes,
                self.max_power == old(self).max_power,
                self.observed == old(self).observed,
                p == self.max_power as int,
                all == views(old(objects)@),
                all.no_duplicates(),
                forall|i: int| 0 <= i < all.len() ==> (#[trigger] all[i]).wf(),
                forall|i: int| 0 <= i < all.len() ==> !old(self)@.objects().contains(#[trigger] all[i]),
                objects@.len() <= all.len(),
                views(objects@) == all.take(objects@.len() as int),
                forall|m: ObjectModel|
                    #[trigger] done.contains(m) <==> exists|j: int|
                        objects@.len() <= j < all.len() && all[j] == m,
                self@.observable == old(self)@.observable + within_reach(done, p),
                self@.unobservable == old(self)@.unobservable + out_of_reach(done, p),
            decreases objects.len(),
        {
            let ghost k = objects@.len() - 1;
            proof {
                assert(all[k] == views(objects@)[k]);
            }
            let obj = objects.pop().unwrap();
            proof {
                assert(views(objects@) =~= all.take(k));
                assert(obj@ == all[k]);
                assert(!done.contains(obj@)) by {
                    if done.contains(obj@) {
                        let j = choose|j: int| k + 1 <= j < all.len() && all[j] == obj@;
                        assert(all[j] == all[k]);
                    }
                }
                assert(!self@.objects().contains(obj@));
            }
            if obj.power_needed <= self.max_power {
                proof {
                    lemma_views_push(self.observables@, obj);
                    lemma_push_set(views(self.observables@), obj@);
                }
                self.observables.push(obj);
            } else {
                proof {
                    lemma_views_push(self.unobservables@, obj);
                    lemma_push_set(views(self.unobservables@), obj@);
                }
                self.unobservables.push(obj);
            }
            proof {
                let x = all[k];
                let d = done;
                done = done.insert(x);
                assert forall|m: ObjectModel| #[trigger] done.contains(m) <==> exists|j: int|
                    objects@.len() <= j < all.len() && all[j] == m by {
                    if d.contains(m) {
                        let j = choose|j: int| k + 1 <= j < all.len() && all[j] == m;
                        assert(objects@.len() <= j < all.len() && all[j] == m);
                    }
                    if m == x {
                        assert(objects@.len() <= k < all.len() && all[k] == m);
                    }
                }
                assert(within_reach(done, p) =~= if x.power_needed <= p {
                    within_reach(d, p).insert(x)
                } else {
                    within_reach(d, p)
                });
                assert(out_of_reach(done, p) =~= if x.power_needed > p {
                    out_of_reach(d, p).insert(x)
                } else {
                    out_of_reach(d, p)
                });
                assert(self@.observable =~= old(self)@.observable + within_reach(done, p));
                assert(self@.unobservable =~= old(self)@.unobservable + out_of_reach(done, p));
                assert(self@.telescopes == old(self)@.telescopes);
                assert(self@.observed == old(self)@.observed);
            }
        }
        proof {
            assert(done =~= all.to_set());
            assert(self@.objects() =~= old(self)@.objects() + all.to_set());
        }
    }

    /// Moves every unobservable object that the power at hand reaches into
    /// `observables`; the others stay where they are.
    pub fn refresh_observables(&mut self)
        requires
            old(self).partitioned(),
            old(self).observables_in_reach(),
        ensures
            final(self).wf(),
            final(self)@.telescopes == old(self)@.telescopes,
            final(self)@.max_power == old(self)@.max_power,
            final(self)@.observed == old(self)@.observed,
            final(self)@.observable == old(self)@.observable + within_reach(
                old(self)@.unobservable,
                old(self)@.max_power,
            ),
            final(self)@.unobservable == out_of_reach(old(self)@.unobservable, old(self)@.max_power),
            final(self)@.objects() == old(self)@.objects(),
            no_downgrade(old(self)@, final(self)@),
    {
        let mut pending: Vec<AstroObject> = Vec::new();
        std::mem::swap(&mut self.unobservables, &mut pending);
        proof {
            assert(views(self.unobservables@).to_set() =~= Set::empty());
            assert(views(pending@) == views(old(self).unobservables@));
            assert forall|i: int| 0 <= i < pending@.len() implies !self@.objects().contains(
                (#[trigger] pending@[i])@,
            ) && pending@[i]@.wf() by {
                assert(views(pending@)[i] == pending@[i]@);
                assert(old(self)@.unobservable.contains(pending@[i]@));
            }
            assert(self@.telescopes == old(self)@.telescopes);
            assert(self@.observable == old(self)@.observable);
            assert(self@.observed == old(self)@.observed);
            assert(self.partitioned());
        }
        self.add_data(&mut pending);
        proof {
            assert(self@.unobservable =~= out_of_reach(old(self)@.unobservable, old(self)@.max_power));
            assert(self@.objects() =~= old(self)@.objects());
        }
    }

    /// Takes a telescope into the player's hands: the power becomes the
    /// greater of the current one and the telescope's, the telescope joins the
    /// owned ones (owning it already changes nothing), and every object that
    /// the new power reaches becomes observable.
    pub fn add_telescope(&mut self, scope: Telescope)
        requires
            old(self).wf(),
        ensures
            final(self).wf(),
            telescope_added(old(self)@, scope@, final(self)@),
            final(self).max_power >= old(self).max_power,
            final(self)@.objects() == old(self)@.objects(),
            no_downgrade(old(self)@, final(self)@),
    {
        if scope.max_power > self.max_power {
            self.max_power = scope.max_power;
        }
        let ghost scope_model = scope@;
        if !owns_telescope(&self.telescopes, &scope) {
            proof {
                lemma_views_push(self.telescopes@, scope);
                lemma_push_set(views(self.telescopes@), scope@);
            }
            self.telescopes.push(scope);
        }
        proof {
            assert(self@.telescopes =~= old(self)@.telescopes.insert(scope_model));
            if self.max_power != old(self).max_power {
                assert(self@.telescopes.contains(scope_model));
            } else if self.max_power != 0 {
                let t = choose|t: TelescopeModel| #[trigger]
                    old(self)@.telescopes.contains(t) && t.max_power == old(self).max_power;
                assert(self@.telescopes.contains(t));
            }
            assert(self@.unobservable == old(self)@.unobservable);
            assert(self@.observable == old(self)@.observable);
            assert(self@.observed == old(self)@.observed);
            assert(views(self.telescopes@).no_duplicates());
            assert(forall|t: TelescopeModel| #[trigger]
                self@.telescopes.contains(t) ==> t.max_power <= self.max_power);
            assert(self.max_power == 0 || exists|t: TelescopeModel| #[trigger]
                self@.telescopes.contains(t) && t.max_power == self.max_power);
        }
        self.refresh_observables();
    }

    /// Records that `object` was observed at `level`: it leaves `observables`
    /// and enters `observed`. Refused, with nothing changed, unless the object
    /// is observable and not yet observed.
    pub fn record_observation(&mut self, object: &AstroObject, level: usize) -> (r: Result<
        (),
        GameError,
    >)
        requires
            old(self).wf(),
            level < object.detail.len(),
        ensures
            final(self).wf(),
            r is Ok <==> old(self)@.observable.contains(object@) && !old(self)@.observed.contains_key(
                object@,
            ),
            r is Ok ==> observation_recorded(old(self)@, object@, level as nat, final(self)@),
            r is Err ==> r == Err::<(), GameError>(GameError::PreconditionError) && *final(self)
                == *old(self),
            final(self)@.objects() == old(self)@.objects(),
            no_downgrade(old(self)@, final(self)@),
    {
        proof {
            lemma_observed_dom(self.observed@);
        }
        let found = position_of(&self.observables, object);
        let i = match found {
            Some(i) => i,
            None => {
                return Err(GameError::PreconditionError);
            },
        };
        if records_object(&self.observed, object) {
            return Err(GameError::PreconditionError);
        }
        proof {
            assert(views(self.observables@)[i as int] == object@);
            lemma_views_remove(self.observables@, i as int);
            lemma_remove_set(views(self.observables@), i as int);
        }
        let removed = self.observables.remove(i);
        proof {
            lemma_observed_push(self.observed@, (removed, level));
            lemma_push_set(observed_keys(self.observed@), object@);
        }
        self.observed.push((removed, level));
        proof {
            assert(self@.observable == old(self)@.observable.remove(object@));
            assert(self@.observed == old(self)@.observed.insert(object@, level as nat));
            assert(self@.unobservable == old(self)@.unobservable);
            assert(self@.telescopes == old(self)@.telescopes);
            assert(self@.objects() =~= old(self)@.objects());
            assert(object@.detail.len() == object.detail@.len());
            assert(old(self)@.observable.contains(object@));
            assert(self@.unobservable.disjoint(self@.observable));
            assert(self@.unobservable.disjoint(self@.observed.dom()));
            assert(self@.observable.disjoint(self@.observed.dom()));
            assert(forall|m: ObjectModel| #[trigger] self@.observed.contains_key(m) ==> m.wf());
            assert(forall|m: ObjectModel| #[trigger]
                self@.observed.contains_key(m) ==> self@.observed[m] < m.detail.len());
            vstd::seq_lib::seq_to_set_is_finite(views(old(self).observables@));
            vstd::seq_lib::seq_to_set_is_finite(observed_keys(old(self).observed@));
        }
        Ok(())
    }
}

/// Adding the same telescope a second time changes nothing: not the owned
/// telescopes, not the power, not the partition.
pub proof fn lemma_add_telescope_idempotent(
    first: GameState,
    second: GameState,
    third: GameState,
    scope: TelescopeModel,
)
    requires
        first.wf(),
        second.wf(),
        telescope_added(first@, scope, second@),
        telescope_added(second@, scope, third@),
    ensures
        third@ == second@,
{
    assert(third@.telescopes =~= second@.telescopes);
    assert(third@.observable =~= second@.observable);
    assert(third@.unobservable =~= second@.unobservable);
}

} // verus!
