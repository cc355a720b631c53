//! The game: a session, the catalog of telescopes, a source of randomness,
//! and the tick that the host runs at a fixed interval.
use vstd::prelude::*;

use rand::rngs::{OsRng, SmallRng};
use rand::seq::IteratorRandom;
use rand::SeedableRng;

use crate::data::{catalog_objects, catalog_telescopes, game_objects, game_telescopes};
use crate::engine::{observe_at, resolved_level, Observation};
use crate::error::GameError;
use crate::seq_sets::views;
use crate::state::{no_downgrade, observation_recorded, out_of_reach, telescope_added, within_reach, GameState};
use crate::types::{Keyed, ObjectModel, Telescope, TelescopeIndex, TelescopeModel};

verus! {

#[verifier::external_type_specification]
#[verifier::external_body]
pub struct ExSmallRng(SmallRng);

#[verifier::external_type_specification]
#[verifier::external_body]
pub struct ExRandError(rand::Error);

/// Relies on rand's `SeedableRng::from_rng` for `SmallRng`, fed by `OsRng`: a
/// generator seeded from the operating system's randomness, or the error
/// `OsRng` reports when the system supplies none.
#[verifier::external_body]
fn entropy_rng() -> Result<SmallRng, rand::Error> {
    SmallRng::from_rng(OsRng)
}

/// Relies on rand's `SeedableRng::seed_from_u64`: a generator seeded from
/// `seed`, for runs that can be repeated.
#[verifier::external_body]
fn seeded_rng(seed: u64) -> SmallRng {
    SmallRng::seed_from_u64(seed)
}

/// Relies on rand's `IteratorRandom::choose` over the range `0..n`: `None`
/// exactly when the range is empty, and otherwise one of its items, drawn
/// uniformly.
#[verifier::external_body]
fn choose_index(rng: &mut SmallRng, n: usize) -> (r: Option<usize>)
    ensures
        r is None <==> n == 0,
        r matches Some(i) ==> i < n,
{
    (0..n).choose(rng)
}

/// The time between two ticks of the game, in milliseconds.
pub const GAME_LOOP_MS: u32 = 1000;

/// Whether the loop has been started.
#[derive(Clone, Copy, Debug, PartialEq, Eq, Structural)]
pub enum LoopPhase {
    Idle,
    Running,
}

/// What one tick did, for the host to show, and when the next one is due.
#[derive(Debug)]
pub struct Tick {
    /// The generation that this tick ran as.
    pub generation: i32,
    pub observation: Result<Observation, GameError>,
    /// How long the host waits before the next tick.
    pub delay_ms: u32,
}

pub struct Game {
    pub state: GameState,
    pub telescopes: TelescopeIndex,
    pub rng: SmallRng,
    /// The number of ticks run so far.
    pub generation: i32,
    pub phase: LoopPhase,
}

/// The models of the catalog's telescopes.
pub open spec fn telescope_models(index: &TelescopeIndex) -> Map<Seq<char>, TelescopeModel> {
    index.view().map_values(|t: Telescope| t@)
}

impl Game {
    /// A game that has just been set up: the whole catalog loaded with no
    /// power at hand, no telescope owned, no tick run.
    pub open spec fn fresh(&self) -> bool {
        &&& self.state.wf()
        &&& self.state@.telescopes == Set::<TelescopeModel>::empty()
        &&& self.state@.max_power == 0
        &&& self.state@.observed == Map::<ObjectModel, nat>::empty()
        &&& self.state@.observable == within_reach(catalog_objects().to_set(), 0)
        &&& self.state@.unobservable == out_of_reach(catalog_objects().to_set(), 0)
        &&& telescope_models(&self.telescopes) == catalog_telescopes()
        &&& self.generation == 0
        &&& self.phase == LoopPhase::Idle
    }

    fn with_rng(rng: SmallRng) -> (r: Game)
        ensures
            r.fresh(),
    {
        let mut state = GameState::init();
        let mut objects = game_objects();
        proof {
            assert forall|i: int| 0 <= i < objects@.len() implies !state@.objects().contains(
                (#[trigger] objects@[i])@,
            ) by {}
        }
        state.add_data(&mut objects);
        proof {
            assert(state@.observable =~= within_reach(catalog_objects().to_set(), 0));
            assert(state@.unobservable =~= out_of_reach(catalog_objects().to_set(), 0));
        }
        Game { state, telescopes: game_telescopes(), rng, generation: 0, phase: LoopPhase::Idle }
    }

    /// A new game whose randomness comes from the operating system; fails
    /// with `NoEntropy` when the system supplies no randomness.
    pub fn new() -> (r: Result<Game, GameError>)
        ensures
            r matches Ok(g) ==> g.fresh(),
            r matches Err(e) ==> e is NoEntropy,
    {
        match entropy_rng() {
            Ok(rng) => Ok(Game::with_rng(rng)),
            Err(_) => Err(GameError::NoEntropy),
        }
    }

    /// A new game whose random choices are fixed by `seed`.
    pub fn from_seed(seed: u64) -> (r: Game)
        ensures
            r.fresh(),
    {
        Game::with_rng(seeded_rng(seed))
    }

    /// Starts the player off with the naked eye, the telescope filed under
    /// `"eye"`; fails with `UnknownKey` when the catalog has none.
    pub fn init(&mut self) -> (r: Result<(), GameError>)
        requires
            old(self).state.wf(),
        ensures
            final(self).state.wf(),
            final(self).state@.objects() == old(self).state@.objects(),
            no_downgrade(old(self).state@, final(self).state@),
            final(self).telescopes == old(self).telescopes,
            final(self).generation == old(self).generation,
            final(self).phase == old(self).phase,
            r is Ok <==> old(self).telescopes.view().contains_key("eye"@),
            r is Ok ==> telescope_added(
                old(self).state@,
                old(self).telescopes.view()["eye"@]@,
                final(self).state@,
            ),
            r is Err ==> final(self).state == old(self).state,
            r matches Err(e) ==> (e matches GameError::UnknownKey(k) && k@ == "eye"@),
    {
        match self.telescopes.get_by_key("eye") {
            Some(eye) => {
                self.state.add_telescope(eye);
                Ok(())
            },
            None => Err(GameError::UnknownKey(String::from_str("eye"))),
        }
    }

    /// Makes telescopes available over time; no rule does so yet, and the
    /// game is left as it is.
    pub fn acquire_telescopes(&mut self)
        ensures
            *final(self) == *old(self),
    {
    }

    /// Observes one observable object, drawn at random: it moves into the
    /// record at the level the power at hand resolves. Fails with
    /// `NothingToObserve`, changing nothing, when no object is observable.
    pub fn random_observation(&mut self) -> (r: Result<Observation, GameError>)
        requires
            old(self).state.wf(),
        ensures
            final(self).state.wf(),
            final(self).state@.objects() == old(self).state@.objects(),
            no_downgrade(old(self).state@, final(self).state@),
            final(self).telescopes == old(self).telescopes,
            final(self).generation == old(self).generation,
            final(self).phase == old(self).phase,
            old(self).state@.observable == Set::<ObjectModel>::empty() ==> r matches Err(
                GameError::NothingToObserve,
            ),
            old(self).state@.observable == Set::<ObjectModel>::empty() ==> final(self).state == old(
                self).state,
            old(self).state@.observable != Set::<ObjectModel>::empty() ==> (r matches Ok(o)
                && old(self).state@.observable.contains(o.object@)
                && o.level as nat == resolved_level(o.object@.detail, old(self).state.max_power as int)
                && o.discovery_text@ == o.object@.detail[o.level as int].discovery_text
                && observation_recorded(old(self).state@, o.object@, o.level as nat, final(self).state@)),
    {
        let n = self.state.observables.len();
        if n == 0 {
            proof {
                assert(self.state@.observable =~= Set::empty());
            }
            return Err(GameError::NothingToObserve);
        }
        proof {
            assert(views(self.state.observables@)[0] == self.state.observables@[0]@);
            assert(self.state@.observable.contains(self.state.observables@[0]@));
        }
        match choose_index(&mut self.rng, n) {
            Some(i) => Ok(observe_at(&mut self.state, i)),
            None => Err(GameError::NothingToObserve),
        }
    }

    /// Sets the loop running; a running loop stays as it is.
    pub fn start(&mut self)
        ensures
            final(self).phase == LoopPhase::Running,
            final(self).state == old(self).state,
            final(self).telescopes == old(self).telescopes,
            final(self).rng == old(self).rng,
            final(self).generation == old(self).generation,
    {
        self.phase = LoopPhase::Running;
    }

    /// Counts the tick that has just run, and gives the delay before the next.
    pub fn proceed(&mut self) -> (r: u32)
        requires
            old(self).generation < i32::MAX,
        ensures
            final(self).generation == old(self).generation + 1,
            final(self).state == old(self).state,
            final(self).telescopes == old(self).telescopes,
            final(self).rng == old(self).rng,
            final(self).phase == old(self).phase,
            r == GAME_LOOP_MS,
    {
        self.generation = self.generation + 1;
        GAME_LOOP_MS
    }

    /// One tick of a running loop: telescopes are acquired, one random
    /// observation is made (finding nothing to observe does not stop the
    /// loop), and the generation advances. An idle loop does nothing.
    pub fn main_loop(&mut self) -> (r: Option<Tick>)
        requires
            old(self).state.wf(),
            old(self).generation < i32::MAX,
        ensures
            final(self).state.wf(),
            final(self).state@.objects() == old(self).state@.objects(),
            no_downgrade(old(self).state@, final(self).state@),
            final(self).telescopes == old(self).telescopes,
            final(self).phase == old(self).phase,
            old(self).phase == LoopPhase::Idle ==> r is None,
            old(self).phase == LoopPhase::Idle ==> final(self).state == old(self).state,
            old(self).phase == LoopPhase::Idle ==> final(self).generation == old(self).generation,
            old(self).phase == LoopPhase::Idle ==> final(self).rng == old(self).rng,
            old(self).phase == LoopPhase::Running ==> (r matches Some(t)
                && t.generation == old(self).generation
                && t.delay_ms == GAME_LOOP_MS),
            old(self).phase == LoopPhase::Running ==> final(self).generation == old(self).generation + 1,
            old(self).phase == LoopPhase::Running && old(self).state@.observable == Set::<ObjectModel>::empty()
                ==> (r matches Some(t) && t.observation matches Err(GameError::NothingToObserve)),
            old(self).phase == LoopPhase::Running && old(self).state@.observable == Set::<ObjectModel>::empty()
                ==> final(self).state == old(self).state,
            old(self).phase == LoopPhase::Running && old(self).state@.observable != Set::<ObjectModel>::empty()
                ==> (r matches Some(t) && t.observation matches Ok(o)
                && old(self).state@.observable.contains(o.object@)
                && o.level as nat == resolved_level(o.object@.detail, old(self).state.max_power as int)
                && o.discovery_text@ == o.object@.detail[o.level as int].discovery_text
                && observation_recorded(old(self).state@, o.object@, o.level as nat, final(self).state@)),
    {
        if self.phase == LoopPhase::Idle {
            return None;
        }
        let generation = self.generation;
        self.acquire_telescopes();
        let observation = self.random_observation();
        let delay_ms = self.proceed();
        Some(Tick { generation, observation, delay_ms })
    }
}

} // verus!
