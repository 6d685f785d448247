//! The game's definitions: objects, their text and appearance, and recipes.
//! They are read from a data file elsewhere and handed in as plain values.
use vstd::prelude::*;
use crate::action::{get_use_fn_table, spec_item_use_fn, ItemUseFn};
use crate::buildings::{get_building_fn_table, spec_building_use_fn, BuildingUseFn};
use self::map::{entry_lookup, DataMap};

pub mod map;

verus! {

/// Player-visible text of an object.
#[derive(Clone, Debug)]
pub struct ObjectText {
    /// Player-visible name.
    pub name: String,
    /// Long description.
    pub description: String,
}

/// How an object is drawn.
#[derive(Clone, Debug)]
pub struct AppearanceDefiniton {
    pub glyph: String,
    pub glyph_n: Option<String>,
    pub glyph_s: Option<String>,
    pub glyph_e: Option<String>,
    pub glyph_w: Option<String>,
    pub texture: Option<String>,
    pub color: String,
}

/// The definition of an actor, building or item.
#[derive(Clone, Debug)]
pub struct ObjectDescriptor {
    /// Internal name, used for table lookups.
    pub name: String,
    /// The object's value when scored.
    pub score_value: Option<i64>,
    /// The object's maximum durability.
    pub hp: Option<i64>,
    /// Name of the object's function when used as an item.
    pub on_use: Option<String>,
    /// That function, once bound.
    pub on_use_fn: Option<ItemUseFn>,
    /// Name of the object's function when used as a building.
    pub on_interact: Option<String>,
    /// That function, once bound.
    pub on_interact_fn: Option<BuildingUseFn>,
    pub text: ObjectText,
    pub appearance: AppearanceDefiniton,
}

/// Two definitions are the same object when their internal names agree.
impl PartialEq for ObjectDescriptor {
    fn eq(&self, other: &Self) -> (r: bool) {
        self.name == other.name
    }
}

impl vstd::std_specs::cmp::PartialEqSpecImpl for ObjectDescriptor {
    open spec fn obeys_eq_spec() -> bool {
        true
    }

    open spec fn eq_spec(&self, other: &ObjectDescriptor) -> bool {
        self.name@ == other.name@
    }
}

/// A crafting recipe: `ingredient_counts[i]` units of each
/// `ingredients[i]` make `product_count` units of `product`.
#[derive(Clone, Debug, PartialEq, Eq)]
pub struct RecipeDefiniton {
    pub ingredients: Vec<String>,
    pub ingredient_counts: Vec<i64>,
    pub product: String,
    pub product_count: i64,
    pub name: String,
}

/// The name under which a use is looked up: the one given, or `default`.
pub open spec fn use_name(name: Option<String>) -> Seq<char> {
    match name {
        Some(s) => s@,
        None => "default"@,
    }
}

/// `d` with its item use bound by name.
pub open spec fn bound_item(d: ObjectDescriptor) -> ObjectDescriptor {
    ObjectDescriptor { on_use_fn: spec_item_use_fn(use_name(d.on_use)), ..d }
}

/// `d` with its building use bound by name.
pub open spec fn bound_building(d: ObjectDescriptor) -> ObjectDescriptor {
    ObjectDescriptor { on_interact_fn: spec_building_use_fn(use_name(d.on_interact)), ..d }
}

/// The game's definitions, by internal name.
#[derive(Debug)]
pub struct Data {
    pub actors: DataMap<ObjectDescriptor>,
    pub buildings: DataMap<ObjectDescriptor>,
    pub items: DataMap<ObjectDescriptor>,
    pub recipes: DataMap<RecipeDefiniton>,
}

/// Looks `name` up in a table of bound functions.
fn lookup_fn<F: Copy>(table: &Vec<(String, F)>, name: &Option<String>) -> (r: Option<F>)
    ensures
        r == entry_lookup(table@, use_name(*name)),
{
    let key: String = match name {
        Some(s) => s.clone(),
        None => {
            let d = "default".to_owned();
            d
        },
    };
    let mut i: usize = table.len();
    assert(table@.take(i as int) =~= table@);
    while i > 0
        invariant
            i <= table@.len(),
            key@ == use_name(*name),
            entry_lookup(table@, key@) == entry_lookup(table@.take(i as int), key@),
        decreases i,
    {
        assert(table@.take(i as int).drop_last() =~= table@.take(i - 1));
        if table[i - 1].0 == key {
            return Some(table[i - 1].1);
        }
        i = i - 1;
    }
    None
}

impl Data {
    /// A set of definitions with no entries.
    pub fn new() -> (r: Data)
        ensures
            r.actors.entries().len() == 0,
            r.buildings.entries().len() == 0,
            r.items.entries().len() == 0,
            r.recipes.entries().len() == 0,
    {
        Data { actors: DataMap::new(), buildings: DataMap::new(), items: DataMap::new(), recipes: DataMap::new() }
    }

    /// Binds each item's and each building's use function to the name the
    /// data gives for it (`default` when none); a name with no function
    /// binds nothing.
    pub fn bind_functions(&mut self)
        ensures
            final(self).actors == old(self).actors,
            final(self).recipes == old(self).recipes,
            final(self).items.entries().len() == old(self).items.entries().len(),
            forall|i: int|
                0 <= i < old(self).items.entries().len() ==> #[trigger] final(self).items.entries()[i]
                    == (old(self).items.entries()[i].0, bound_item(old(self).items.entries()[i].1)),
            final(self).buildings.entries().len() == old(self).buildings.entries().len(),
            forall|i: int|
                0 <= i < old(self).buildings.entries().len() ==> #[trigger] final(self).buildings.entries()[i] == (
                    old(self).buildings.entries()[i].0,
                    bound_building(old(self).buildings.entries()[i].1),
                ),
    {
        let functions = get_use_fn_table();
        let n = self.items.len();
        let mut i: usize = 0;
        while i < n
            invariant
                n == old(self).items.entries().len(),
                i <= n,
                self.actors == old(self).actors,
                self.recipes == old(self).recipes,
                self.buildings == old(self).buildings,
                forall|name: Seq<char>| entry_lookup(functions@, name) == spec_item_use_fn(name),
                self.items.entries().len() == n,
                forall|j: int|
                    0 <= j < i ==> #[trigger] self.items.entries()[j] == (
                        old(self).items.entries()[j].0,
                        bound_item(old(self).items.entries()[j].1),
                    ),
                forall|j: int|
                    i <= j < n ==> #[trigger] self.items.entries()[j] == old(self).items.entries()[j],
            decreases n - i,
        {
            let itemdef = self.items.value_at_mut(i);
            let f = lookup_fn(&functions, &itemdef.on_use);
            itemdef.on_use_fn = f;
            i = i + 1;
        }
        let building_functions = get_building_fn_table();
        let m = self.buildings.len();
        let mut k: usize = 0;
        while k < m
            invariant
                m == old(self).buildings.entries().len(),
                k <= m,
                self.actors == old(self).actors,
                self.recipes == old(self).recipes,
                self.items.entries().len() == old(self).items.entries().len(),
                forall|j: int|
                    0 <= j < old(self).items.entries().len() ==> #[trigger] self.items.entries()[j]
                        == (old(self).items.entries()[j].0, bound_item(old(self).items.entries()[j].1)),
                forall|name: Seq<char>|
                    entry_lookup(building_functions@, name) == spec_building_use_fn(name),
                self.buildings.entries().len() == m,
                forall|j: int|
                    0 <= j < k ==> #[trigger] self.buildings.entries()[j] == (
                        old(self).buildings.entries()[j].0,
                        bound_building(old(self).buildings.entries()[j].1),
                    ),
                forall|j: int|
                    k <= j < m ==> #[trigger] self.buildings.entries()[j] == old(self).buildings.entries()[j],
            decreases m - k,
        {
            let buildingdef = self.buildings.value_at_mut(k);
            let f = lookup_fn(&building_functions, &buildingdef.on_interact);
            buildingdef.on_interact_fn = f;
            k = k + 1;
        }
    }
}

} // verus!
