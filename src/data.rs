//! The catalog of the game: the objects in the sky and the telescopes that
//! can be had.
use vstd::prelude::*;

use crate::seq_sets::views;
use crate::types::{
    object_model, AstroObject, AstroObjectCategory, ObjectModel, Telescope, TelescopeIndex,
    TelescopeModel,
};

verus! {

pub const SIRIUS_SEEN: &'static str = "You can see the Dog Star! Your eyes must be working.";

pub const SIRIUS_B_SEEN: &'static str = "You've observed Sirius B, the double star to Sirius A!";

pub const ANDROMEDA_SEEN: &'static str = "Andromeda is larger than you thought.";

pub const ANDROMEDA_CORE_SEEN: &'static str = "You can make out the core of the Andromeda Galaxy.";

pub const ANDROMEDA_ARMS_SEEN: &'static str =
    "Hey! You can see the spiral arms of the Andromeda Galaxy!";

pub const ALIENS_SEEN: &'static str = "Huh, that looks weird.";

pub const ALIENS_GREEN_SEEN: &'static str = "Umm.. it looks green?";

pub const ALIENS_SAUCER_SEEN: &'static str = "WTF?? That is definitely a flying saucer!";

/// The objects of the catalog, in order.
pub open spec fn catalog_objects() -> Seq<ObjectModel> {
    seq![
        object_model(
            AstroObjectCategory::Star,
            "sirius",
            "Sirius",
            seq![(1i32, SIRIUS_SEEN), (10i32, SIRIUS_B_SEEN)],
        ),
        object_model(
            AstroObjectCategory::Galaxy,
            "m31",
            "M31 Andromeda Galaxy",
            seq![(3i32, ANDROMEDA_SEEN), (6i32, ANDROMEDA_CORE_SEEN), (12i32, ANDROMEDA_ARMS_SEEN)],
        ),
        object_model(
            AstroObjectCategory::AlienShip,
            "aliens",
            "aliens!!",
            seq![(7i32, ALIENS_SEEN), (8i32, ALIENS_GREEN_SEEN), (11i32, ALIENS_SAUCER_SEEN)],
        ),
    ]
}

/// The objects of the catalog: well formed, each with its own key.
pub fn game_objects() -> (r: Vec<AstroObject>)
    ensures
        views(r@) == catalog_objects(),
        views(r@).no_duplicates(),
        forall|i: int| 0 <= i < r@.len() ==> (#[trigger] r@[i])@.wf(),
{
    let mut r: Vec<AstroObject> = Vec::new();
    r.push(
        AstroObject::new(
            AstroObjectCategory::Star,
            "sirius",
            "Sirius",
            vec![(1, SIRIUS_SEEN), (10, SIRIUS_B_SEEN)],
        ),
    );
    r.push(
        AstroObject::new(
            AstroObjectCategory::Galaxy,
            "m31",
            "M31 Andromeda Galaxy",
            vec![(3, ANDROMEDA_SEEN), (6, ANDROMEDA_CORE_SEEN), (12, ANDROMEDA_ARMS_SEEN)],
        ),
    );
    r.push(
        AstroObject::new(
            AstroObjectCategory::AlienShip,
            "aliens",
            "aliens!!",
            vec![(7, ALIENS_SEEN), (8, ALIENS_GREEN_SEEN), (11, ALIENS_SAUCER_SEEN)],
        ),
    );
    proof {
        assert(views(r@) =~= catalog_objects());
        reveal_strlit("sirius");
        reveal_strlit("m31");
        reveal_strlit("aliens");
        assert(r@[0]@.key == "sirius"@ && r@[1]@.key == "m31"@ && r@[2]@.key == "aliens"@);
        assert("sirius"@.len() == 6 && "m31"@.len() == 3 && "aliens"@[0] == 'a');
        assert("sirius"@[0] == 's');
    }
    r
}

/// The telescopes of the catalog, by key.
pub open spec fn catalog_telescopes() -> Map<Seq<char>, TelescopeModel> {
    map![
        "eye"@ => TelescopeModel {
            key: "eye"@,
            name: "The naked eye"@,
            description: "Nature's built-in telescope"@,
            max_power: 4,
        },
        "refractor_2in"@ => TelescopeModel {
            key: "refractor_2in"@,
            name: "Cheap 2\" refractor"@,
            description: "You have a more powerful scope than Galileo did!"@,
            max_power: 10,
        },
        "reflector_6in"@ => TelescopeModel {
            key: "reflector_6in"@,
            name: "Solid 6\" reflector"@,
            description: "Reflectors are much more compact than refractors"@,
            max_power: 13,
        },
        "dobsonian_20in"@ => TelescopeModel {
            key: "dobsonian_20in"@,
            name: "A 20\" Dobsonian"@,
            description: "Basically a big bucket for light"@,
            max_power: 18,
        },
        "keck"@ => TelescopeModel {
            key: "keck"@,
            name: "The Keck Observatory 10M"@,
            description: "Built on sacred Hawaiian land"@,
            max_power: 20,
        },
    ]
}

/// Each telescope type of the catalog, indexed by key.
pub fn game_telescopes() -> (r: TelescopeIndex)
    ensures
        r.view().map_values(|t: Telescope| t@) == catalog_telescopes(),
{
    let mut telescopes: Vec<Telescope> = Vec::new();
    telescopes.push(Telescope::new("eye", "The naked eye", 4, "Nature's built-in telescope"));
    telescopes.push(
        Telescope::new(
            "refractor_2in",
            "Cheap 2\" refractor",
            10,
            "You have a more powerful scope than Galileo did!",
        ),
    );
    telescopes.push(
        Telescope::new(
            "reflector_6in",
            "Solid 6\" reflector",
            13,
            "Reflectors are much more compact than refractors",
        ),
    );
    telescopes.push(
        Telescope::new("dobsonian_20in", "A 20\" Dobsonian", 18, "Basically a big bucket for light"),
    );
    telescopes.push(
        Telescope::new("keck", "The Keck Observatory 10M", 20, "Built on sacred Hawaiian land"),
    );
    let mut index = TelescopeIndex::new();
    let ghost start = telescopes@;
    let mut i: usize = 0;
    while i < telescopes.len()
        invariant
            telescopes@ == start,
            i <= start.len(),
            index.view().map_values(|t: Telescope| t@) == views(start.take(i as int)).fold_left(
                Map::<Seq<char>, TelescopeModel>::empty(),
                |m: Map<Seq<char>, TelescopeModel>, t: TelescopeModel| m.insert(t.key, t),
            ),
        decreases start.len() - i,
    {
        let ghost before = index.view();
        index.insert(telescopes[i].clone());
        proof {
            let s = views(start.take(i + 1));
            assert(s.drop_last() =~= views(start.take(i as int)));
            assert(s.last() == start[i as int]@);
            assert(index.view().map_values(|t: Telescope| t@) =~= before.map_values(
                |t: Telescope| t@,
            ).insert(start[i as int].key@, start[i as int]@));
        }
        i = i + 1;
    }
    proof {
        assert(start.take(5) =~= start);
        assert(views(start).fold_left(
            Map::<Seq<char>, TelescopeModel>::empty(),
            |m: Map<Seq<char>, TelescopeModel>, t: TelescopeModel| m.insert(t.key, t),
        ) =~= catalog_telescopes()) by {
            reveal_with_fuel(Seq::fold_left, 6);
        }
    }
    index
}

} // verus!
