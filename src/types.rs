//! The catalog's data: astronomical objects with their tiers of detail, and
//! telescopes with the resolving power they grant.
use vstd::prelude::*;

verus! {

/// What kind of thing an object is; it only serves display and grouping.
#[derive(Clone, Copy, Debug, PartialEq, Eq, Structural, Hash)]
pub enum AstroObjectCategory {
    Star,
    Galaxy,
    AlienShip,
}

/// One tier of discovery within an object: the power it takes to perceive it
/// and the text shown on first reaching it.
#[derive(Debug, Hash)]
pub struct AstroDetail {
    pub level: usize,
    pub power_needed: i32,
    pub discovery_text: String,
}

/// The mathematical value of an `AstroDetail`.
pub struct DetailModel {
    pub level: nat,
    pub power_needed: int,
    pub discovery_text: Seq<char>,
}

impl View for AstroDetail {
    type V = DetailModel;

    open spec fn view(&self) -> DetailModel {
        DetailModel {
            level: self.level as nat,
            power_needed: self.power_needed as int,
            discovery_text: self.discovery_text@,
        }
    }
}

impl PartialEq for AstroDetail {
    fn eq(&self, other: &AstroDetail) -> bool {
        self.level == other.level && self.power_needed == other.power_needed
            && self.discovery_text == other.discovery_text
    }
}

impl vstd::std_specs::cmp::PartialEqSpecImpl for AstroDetail {
    open spec fn obeys_eq_spec() -> bool {
        true
    }

    open spec fn eq_spec(&self, other: &AstroDetail) -> bool {
        self@ == other@
    }
}

impl Eq for AstroDetail {}

impl Clone for AstroDetail {
    fn clone(&self) -> (r: Self)
        ensures
            r == *self,
    {
        AstroDetail {
            level: self.level,
            power_needed: self.power_needed,
            discovery_text: self.discovery_text.clone(),
        }
    }
}

/// The models of a sequence of tiers.
pub open spec fn detail_models(d: Seq<AstroDetail>) -> Seq<DetailModel> {
    d.map_values(|x: AstroDetail| x@)
}

/// An observable target of the sky.
#[derive(Debug, Hash)]
pub struct AstroObject {
    pub key: String,
    pub name: String,
    pub category: AstroObjectCategory,
    pub power_needed: i32,
    pub detail: Vec<AstroDetail>,
}

/// The mathematical value of an `AstroObject`; two objects are the same object
/// exactly when their models are equal.
pub struct ObjectModel {
    pub key: Seq<char>,
    pub name: Seq<char>,
    pub category: AstroObjectCategory,
    pub power_needed: int,
    pub detail: Seq<DetailModel>,
}

impl View for AstroObject {
    type V = ObjectModel;

    open spec fn view(&self) -> ObjectModel {
        ObjectModel {
            key: self.key@,
            name: self.name@,
            category: self.category,
            power_needed: self.power_needed as int,
            detail: detail_models(self.detail@),
        }
    }
}

impl ObjectModel {
    /// A well-formed object has at least one tier, its tiers are numbered
    /// `0..N-1` in order, and the power it needs is the least of their
    /// thresholds.
    pub open spec fn wf(self) -> bool {
        &&& self.detail.len() > 0
        &&& forall|i: int| 0 <= i < self.detail.len() ==> #[trigger] self.detail[i].level == i
        &&& forall|i: int|
            0 <= i < self.detail.len() ==> self.power_needed <= #[trigger] self.detail[i].power_needed
        &&& exists|i: int|
            0 <= i < self.detail.len() && #[trigger] self.detail[i].power_needed == self.power_needed
    }
}

/// Whether two sequences of tiers have the same models, element by element.
fn same_details(a: &Vec<AstroDetail>, b: &Vec<AstroDetail>) -> (r: bool)
    ensures
        r == (detail_models(a@) == detail_models(b@)),
{
    if a.len() != b.len() {
        proof {
            assert(detail_models(a@).len() != detail_models(b@).len());
        }
        return false;
    }
    let mut i: usize = 0;
    while i < a.len()
        invariant
            a.len() == b.len(),
            i <= a.len(),
            forall|j: int| 0 <= j < i ==> a@[j]@ == b@[j]@,
        decreases a.len() - i,
    {
        if a[i] != b[i] {
            proof {
                assert(detail_models(a@)[i as int] != detail_models(b@)[i as int]);
            }
            return false;
        }
        i = i + 1;
    }
    proof {
        assert(detail_models(a@) =~= detail_models(b@));
    }
    true
}

impl PartialEq for AstroObject {
    fn eq(&self, other: &AstroObject) -> bool {
        self.key == other.key && self.name == other.name && self.category == other.category
            && self.power_needed == other.power_needed && same_details(&self.detail, &other.detail)
    }
}

impl vstd::std_specs::cmp::PartialEqSpecImpl for AstroObject {
    open spec fn obeys_eq_spec() -> bool {
        true
    }

    open spec fn eq_spec(&self, other: &AstroObject) -> bool {
        self@ == other@
    }
}

impl Eq for AstroObject {}

impl Clone for AstroObject {
    fn clone(&self) -> (r: Self)
        ensures
            r@ == self@,
    {
        let mut detail: Vec<AstroDetail> = Vec::new();
        let mut i: usize = 0;
        while i < self.detail.len()
            invariant
                i <= self.detail.len(),
                detail@.len() == i,
                forall|j: int| 0 <= j < i ==> detail@[j] == self.detail@[j],
            decreases self.detail.len() - i,
        {
            detail.push(self.detail[i].clone());
            i = i + 1;
        }
        proof {
            assert(detail_models(detail@) =~= detail_models(self.detail@));
        }
        AstroObject {
            key: self.key.clone(),
            name: self.name.clone(),
            category: self.category,
            power_needed: self.power_needed,
            detail,
        }
    }
}

/// The models of the tiers given to `AstroObject::new`, numbered in order.
pub open spec fn tier_models(tiers: Seq<(i32, &str)>) -> Seq<DetailModel> {
    Seq::new(
        tiers.len(),
        |i: int|
            DetailModel {
                level: i as nat,
                power_needed: tiers[i].0 as int,
                discovery_text: tiers[i].1@,
            },
    )
}

/// The model of the object that `AstroObject::new` builds from these parts.
pub open spec fn object_model(
    category: AstroObjectCategory,
    key: &str,
    name: &str,
    tiers: Seq<(i32, &str)>,
) -> ObjectModel {
    ObjectModel {
        key: key@,
        name: name@,
        category,
        power_needed: least_power(tiers),
        detail: tier_models(tiers),
    }
}

/// The least threshold among the tiers.
pub open spec fn least_power(tiers: Seq<(i32, &str)>) -> int
    decreases tiers.len(),
{
    if tiers.len() <= 1 {
        if tiers.len() == 0 {
            0
        } else {
            tiers[0].0 as int
        }
    } else {
        let rest = least_power(tiers.drop_last());
        if (tiers.last().0 as int) < rest {
            tiers.last().0 as int
        } else {
            rest
        }
    }
}

proof fn lemma_least_power(tiers: Seq<(i32, &str)>)
    requires
        tiers.len() > 0,
    ensures
        forall|i: int| 0 <= i < tiers.len() ==> least_power(tiers) <= #[trigger] tiers[i].0,
        exists|i: int| 0 <= i < tiers.len() && #[trigger] tiers[i].0 as int == least_power(tiers),
    decreases tiers.len(),
{
    if tiers.len() > 1 {
        let prefix = tiers.drop_last();
        lemma_least_power(prefix);
        assert forall|i: int| 0 <= i < tiers.len() implies least_power(tiers) <= #[trigger] tiers[i].0 by {
            if i < prefix.len() {
                assert(tiers[i] == prefix[i]);
            }
        }
        let j = choose|j: int| 0 <= j < prefix.len() && #[trigger] prefix[j].0 as int == least_power(prefix);
        assert(tiers[j] == prefix[j]);
        assert(tiers[tiers.len() - 1] == tiers.last());
    } else {
        assert(tiers[0].0 as int == least_power(tiers));
    }
}

impl AstroObject {
    /// Builds an object from its tiers, given in order of discovery: tier `i`
    /// gets level `i`, and the object needs the least of the thresholds.
    pub fn new(category: AstroObjectCategory, key: &str, name: &str, tiers: Vec<(i32, &str)>) -> (r:
        AstroObject)
        requires
            tiers.len() > 0,
        ensures
            r@ == object_model(category, key, name, tiers@),
            r@.wf(),
    {
        let mut detail: Vec<AstroDetail> = Vec::new();
        let mut least: i32 = tiers[0].0;
        let mut i: usize = 0;
        while i < tiers.len()
            invariant
                0 < tiers.len(),
                i <= tiers.len(),
                detail@.len() == i,
                forall|j: int| 0 <= j < i ==> #[trigger] detail@[j]@ == tier_models(tiers@)[j],
                i == 0 ==> least == tiers@[0].0,
                i > 0 ==> least == least_power(tiers@.take(i as int)),
            decreases tiers.len() - i,
        {
            let (power, text) = tiers[i];
            proof {
                let t = tiers@.take(i + 1);
                assert(t.drop_last() =~= tiers@.take(i as int));
                assert(t.last() == tiers@[i as int]);
                if i == 0 {
                    assert(least_power(t) == tiers@[0].0);
                }
            }
            if power < least {
                least = power;
            }
            detail.push(AstroDetail { level: i, power_needed: power, discovery_text: String::from_str(text) });
            i = i + 1;
        }
        proof {
            assert(tiers@.take(tiers@.len() as int) =~= tiers@);
            assert(detail_models(detail@) =~= tier_models(tiers@));
            lemma_least_power(tiers@);
            let m = detail_models(detail@);
            assert forall|j: int| 0 <= j < m.len() implies least <= #[trigger] m[j].power_needed by {
                assert(tiers@[j].0 as int == m[j].power_needed);
            }
            let j = choose|j: int| 0 <= j < tiers.len() && #[trigger] tiers@[j].0 as int == least_power(tiers@);
            assert(m[j].power_needed == least);
        }
        let r = AstroObject {
            key: String::from_str(key),
            name: String::from_str(name),
            category,
            power_needed: least,
            detail,
        };
        proof {
            let m = r@.detail;
            assert forall|j: int| 0 <= j < m.len() implies #[trigger] m[j].level == j by {
                assert(m[j] == tier_models(tiers@)[j]);
            }
        }
        r
    }
}

/// A device that grants the player resolving power.
#[derive(Debug, Hash)]
pub struct Telescope {
    pub key: String,
    pub name: String,
    pub description: String,
    pub max_power: i32,
}

/// The mathematical value of a `Telescope`.
pub struct TelescopeModel {
    pub key: Seq<char>,
    pub name: Seq<char>,
    pub description: Seq<char>,
    pub max_power: int,
}

impl View for Telescope {
    type V = TelescopeModel;

    open spec fn view(&self) -> TelescopeModel {
        TelescopeModel {
            key: self.key@,
            name: self.name@,
            description: self.description@,
            max_power: self.max_power as int,
        }
    }
}

impl Telescope {
    pub fn new(key: &str, name: &str, max_power: i32, description: &str) -> (r: Telescope)
        ensures
            r@ == (TelescopeModel {
                key: key@,
                name: name@,
                description: description@,
                max_power: max_power as int,
            }),
    {
        Telescope {
            key: String::from_str(key),
            name: String::from_str(name),
            description: String::from_str(description),
            max_power,
        }
    }
}

impl PartialEq for Telescope {
    fn eq(&self, other: &Telescope) -> bool {
        self.key == other.key && self.name == other.name && self.description == other.description
            && self.max_power == other.max_power
    }
}

impl vstd::std_specs::cmp::PartialEqSpecImpl for Telescope {
    open spec fn obeys_eq_spec() -> bool {
        true
    }

    open spec fn eq_spec(&self, other: &Telescope) -> bool {
        self@ == other@
    }
}

impl Eq for Telescope {}

impl Clone for Telescope {
    fn clone(&self) -> (r: Self)
        ensures
            r == *self,
    {
        Telescope {
            key: self.key.clone(),
            name: self.name.clone(),
            description: self.description.clone(),
            max_power: self.max_power,
        }
    }
}

/// Telescopes with distinct keys.
pub open spec fn keys_unique(s: Seq<Telescope>) -> bool {
    forall|i: int, j: int| 0 <= i < s.len() && 0 <= j < s.len() && i != j ==> s[i].key@ != s[j].key@
}

/// The telescopes of `s` by key.
pub open spec fn index_map(s: Seq<Telescope>) -> Map<Seq<char>, Telescope> {
    Map::new(
        |k: Seq<char>| exists|i: int| 0 <= i < s.len() && s[i].key@ == k,
        |k: Seq<char>| s[choose|i: int| 0 <= i < s.len() && s[i].key@ == k],
    )
}

proof fn lemma_index_at(s: Seq<Telescope>, i: int)
    requires
        keys_unique(s),
        0 <= i < s.len(),
    ensures
        index_map(s).contains_key(s[i].key@),
        index_map(s)[s[i].key@] == s[i],
{
    let k = s[i].key@;
    assert(index_map(s).contains_key(k));
    let j = choose|j: int| 0 <= j < s.len() && s[j].key@ == k;
    assert(j == i);
}

/// Telescopes looked up by their key.
#[derive(Debug)]
pub struct TelescopeIndex {
    entries: Vec<Telescope>,
}

impl TelescopeIndex {
    #[verifier::type_invariant]
    spec fn inv(self) -> bool {
        keys_unique(self.entries@)
    }

    pub closed spec fn view(&self) -> Map<Seq<char>, Telescope> {
        index_map(self.entries@)
    }

    pub fn new() -> (r: TelescopeIndex)
        ensures
            r.view() == Map::<Seq<char>, Telescope>::empty(),
    {
        let r = TelescopeIndex { entries: Vec::new() };
        proof {
            assert(index_map(r.entries@) =~= Map::<Seq<char>, Telescope>::empty());
        }
        r
    }

    /// Files `t` under its key, in place of any telescope filed there before.
    pub fn insert(&mut self, t: Telescope)
        ensures
            final(self).view() == old(self).view().insert(t.key@, t),
    {
        proof {
            use_type_invariant(&*self);
        }
        let ghost s = self.entries@;
        let ghost m = index_map(s);
        let mut i: usize = 0;
        while i < self.entries.len()
            invariant
                s == self.entries@,
                i <= s.len(),
                forall|j: int| 0 <= j < i ==> s[j].key@ != t.key@,
            ensures
                i <= s.len(),
                forall|j: int| 0 <= j < i ==> s[j].key@ != t.key@,
                i < s.len() ==> s[i as int].key@ == t.key@,
            decreases s.len() - i,
        {
            if self.entries[i].key == t.key {
                break;
            }
            i = i + 1;
        }
        let ghost k = t.key@;
        let mut entries: Vec<Telescope> = Vec::new();
        let mut j: usize = 0;
        while j < self.entries.len()
            invariant
                s == self.entries@,
                j <= s.len(),
                entries@ == s.take(j as int),
            decreases s.len() - j,
        {
            entries.push(self.entries[j].clone());
            proof {
                assert(entries@ =~= s.take(j + 1));
            }
            j = j + 1;
        }
        proof {
            assert(entries@ =~= s);
        }
        if i < self.entries.len() {
            let ghost n = s.update(i as int, t);
            proof {
                assert(keys_unique(n)) by {
                    assert forall|a: int, b: int|
                        0 <= a < n.len() && 0 <= b < n.len() && a != b implies n[a].key@
                        != n[b].key@ by {
                        assert(n[a].key@ == s[a].key@ && n[b].key@ == s[b].key@);
                    }
                }
                assert forall|key: Seq<char>| #[trigger]
                    index_map(n).contains_key(key) implies m.insert(k, t).contains_key(key)
                    && index_map(n)[key] == m.insert(k, t)[key] by {
                    let j = choose|j: int| 0 <= j < n.len() && n[j].key@ == key;
                    lemma_index_at(n, j);
                    if j != i {
                        lemma_index_at(s, j);
                    }
                }
                assert forall|key: Seq<char>| #[trigger]
                    m.insert(k, t).contains_key(key) implies index_map(n).contains_key(key) by {
                    if key == k {
                        lemma_index_at(n, i as int);
                    } else {
                        let j = choose|j: int| 0 <= j < s.len() && s[j].key@ == key;
                        lemma_index_at(n, j);
                    }
                }
                assert(index_map(n) =~= m.insert(k, t));
            }
            entries.set(i, t);
        } else {
            let ghost n = s.push(t);
            proof {
                assert(keys_unique(n)) by {
                    assert forall|a: int, b: int|
                        0 <= a < n.len() && 0 <= b < n.len() && a != b implies n[a].key@
                        != n[b].key@ by {
                        if a < s.len() {
                            assert(n[a] == s[a]);
                        }
                        if b < s.len() {
                            assert(n[b] == s[b]);
                        }
                    }
                }
                assert forall|key: Seq<char>| #[trigger]
                    index_map(n).contains_key(key) implies m.insert(k, t).contains_key(key)
                    && index_map(n)[key] == m.insert(k, t)[key] by {
                    let j = choose|j: int| 0 <= j < n.len() && n[j].key@ == key;
                    lemma_index_at(n, j);
                    if j < s.len() {
                        assert(n[j] == s[j]);
                        lemma_index_at(s, j);
                    }
                }
                assert forall|key: Seq<char>| #[trigger]
                    m.insert(k, t).contains_key(key) implies index_map(n).contains_key(key) by {
                    if key == k {
                        lemma_index_at(n, s.len() as int);
                    } else {
                        let j = choose|j: int| 0 <= j < s.len() && s[j].key@ == key;
                        assert(n[j] == s[j]);
                        lemma_index_at(n, j);
                    }
                }
                assert(index_map(n) =~= m.insert(k, t));
            }
            entries.push(t);
        }
        self.entries = entries;
    }
}

/// A collection whose items can be looked up by a key.
pub trait Keyed {
    type KeyedItem;

    /// The item filed under `key`, if there is one.
    spec fn keyed(&self, key: Seq<char>) -> Option<Self::KeyedItem>;

    fn get_by_key(&self, key: &str) -> (r: Option<Self::KeyedItem>)
        ensures
            r == self.keyed(key@),
    ;
}

impl Keyed for TelescopeIndex {
    type KeyedItem = Telescope;

    open spec fn keyed(&self, key: Seq<char>) -> Option<Telescope> {
        if self.view().contains_key(key) {
            Some(self.view()[key])
        } else {
            None
        }
    }

    fn get_by_key(&self, key: &str) -> (r: Option<Telescope>) {
        proof {
            use_type_invariant(self);
        }
        let wanted = String::from_str(key);
        let mut i: usize = 0;
        while i < self.entries.len()
            invariant
                i <= self.entries@.len(),
                keys_unique(self.entries@),
                wanted@ == key@,
                forall|j: int| 0 <= j < i ==> self.entries@[j].key@ != key@,
            decreases self.entries@.len() - i,
        {
            if self.entries[i].key == wanted {
                proof {
                    lemma_index_at(self.entries@, i as int);
                }
                return Some(self.entries[i].clone());
            }
            i = i + 1;
        }
        None
    }
}

} // verus!
