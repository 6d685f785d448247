//! The entries of the crafting menu: each recipe with its line of text.
use vstd::prelude::*;
use crate::static_data::{Data, RecipeDefiniton};

verus! {

/// The character of the decimal digit `d`.
pub open spec fn digit_char(d: nat) -> char {
    if d == 0 {
        '0'
    } else if d == 1 {
        '1'
    } else if d == 2 {
        '2'
    } else if d == 3 {
        '3'
    } else if d == 4 {
        '4'
    } else if d == 5 {
        '5'
    } else if d == 6 {
        '6'
    } else if d == 7 {
        '7'
    } else if d == 8 {
        '8'
    } else {
        '9'
    }
}

/// The decimal digits of `n`, most significant first.
pub open spec fn digits(n: nat) -> Seq<char>
    decreases n,
{
    if n < 10 {
        seq![digit_char(n)]
    } else {
        digits(n / 10).push(digit_char(n % 10))
    }
}

/// `n` in decimal, with a minus sign when it is negative.
pub open spec fn decimal(n: int) -> Seq<char> {
    if n < 0 {
        seq!['-'] + digits((-n) as nat)
    } else {
        digits(n as nat)
    }
}

/// The text of one digit.
fn digit_str(d: u64) -> (s: &'static str)
    requires
        d < 10,
    ensures
        s@ == seq![digit_char(d as nat)],
{
    proof {
        reveal_strlit("0");
        reveal_strlit("1");
        reveal_strlit("2");
        reveal_strlit("3");
        reveal_strlit("4");
        reveal_strlit("5");
        reveal_strlit("6");
        reveal_strlit("7");
        reveal_strlit("8");
        reveal_strlit("9");
    }
    if d == 0 {
        "0"
    } else if d == 1 {
        "1"
    } else if d == 2 {
        "2"
    } else if d == 3 {
        "3"
    } else if d == 4 {
        "4"
    } else if d == 5 {
        "5"
    } else if d == 6 {
        "6"
    } else if d == 7 {
        "7"
    } else if d == 8 {
        "8"
    } else {
        "9"
    }
}

/// Appends the decimal digits of `m`.
fn push_digits(s: &mut String, m: u64)
    ensures
        final(s)@ == old(s)@ + digits(m as nat),
    decreases m,
{
    if m >= 10 {
        push_digits(s, m / 10);
    }
    s.append(digit_str(m % 10));
    proof {
        if m >= 10 {
            assert(old(s)@ + digits((m / 10) as nat) + seq![digit_char((m % 10) as nat)] =~= old(s)@ + digits(
                m as nat,
            ));
        } else {
            assert(old(s)@ + seq![digit_char(m as nat)] =~= old(s)@ + digits(m as nat));
        }
    }
}

/// `n` written in decimal.
pub fn format_decimal(n: i64) -> (s: String)
    ensures
        s@ == decimal(n as int),
{
    let mut s = String::new();
    if n < 0 {
        proof {
            reveal_strlit("-");
        }
        s.append("-");
        let magnitude: u64 = ((-(n + 1)) as u64) + 1;
        push_digits(&mut s, magnitude);
    } else {
        push_digits(&mut s, n as u64);
    }
    s
}

/// The text of ingredient `i` of `def`: its name and how many are used.
pub open spec fn ingredient_text(def: RecipeDefiniton, data: Data, i: int) -> Seq<char> {
    data.items.spec_get(def.ingredients@[i]@)->Some_0.text.name@ + " x "@ + decimal(def.ingredient_counts@[i] as int)
}

/// The texts of the first `n` ingredients of `def`, each after a space.
pub open spec fn ingredients_text(def: RecipeDefiniton, data: Data, n: nat) -> Seq<char>
    decreases n,
{
    if n == 0 {
        Seq::empty()
    } else {
        ingredients_text(def, data, (n - 1) as nat) + " "@ + ingredient_text(def, data, n - 1)
    }
}

/// The menu text of `def`: the product's name and description on a line,
/// then each ingredient.
pub open spec fn entry_text(def: RecipeDefiniton, data: Data) -> Seq<char> {
    let product = data.items.spec_get(def.product@)->Some_0;
    product.text.name@ + ": "@ + product.text.description@ + "\n"@ + ingredients_text(
        def,
        data,
        def.ingredients@.len(),
    )
}

/// The product and every ingredient of `def` are defined items, and every
/// ingredient has a count.
pub open spec fn recipe_resolves(def: RecipeDefiniton, data: Data) -> bool {
    &&& data.items.spec_contains(def.product@)
    &&& def.ingredients@.len() <= def.ingredient_counts@.len()
    &&& forall|i: int| 0 <= i < def.ingredients@.len() ==> data.items.spec_contains(#[trigger] def.ingredients@[i]@)
}

/// A recipe as the crafting menu offers it.
pub struct CraftingMenuEntry {
    pub definition: &'static RecipeDefiniton,
    pub text: String,
}

impl CraftingMenuEntry {
    pub fn new(definition: &'static RecipeDefiniton, data: &Data) -> (r: CraftingMenuEntry)
        requires
            recipe_resolves(*definition, *data),
        ensures
            r.definition == definition,
            r.text@ == entry_text(*definition, *data),
    {
        let product = data.items.get(definition.product.as_str()).unwrap();
        let mut text = String::new();
        text.append(product.text.name.as_str());
        text.append(": ");
        text.append(product.text.description.as_str());
        text.append("\n");
        let mut i: usize = 0;
        while i < definition.ingredients.len()
            invariant
                i <= definition.ingredients@.len(),
                recipe_resolves(*definition, *data),
                text@ == data.items.spec_get(definition.product@)->Some_0.text.name@ + ": "@
                    + data.items.spec_get(definition.product@)->Some_0.text.description@ + "\n"@
                    + ingredients_text(*definition, *data, i as nat),
            decreases definition.ingredients@.len() - i,
        {
            let ingredient = data.items.get(definition.ingredients[i].as_str()).unwrap();
            let ghost before = text@;
            text.append(" ");
            text.append(ingredient.text.name.as_str());
            text.append(" x ");
            let count = format_decimal(definition.ingredient_counts[i]);
            text.append(count.as_str());
            proof {
                assert(text@ =~= before + " "@ + ingredient_text(*definition, *data, i as int));
            }
            i = i + 1;
        }
        CraftingMenuEntry { definition, text }
    }
}

/// Every recipe resolves against the items of `data`.
pub open spec fn recipes_resolve(data: Data) -> bool {
    forall|i: int|
        0 <= i < data.recipes.entries().len() ==> recipe_resolves(#[trigger] data.recipes.entries()[i].1, data)
}

/// A menu entry for each recipe, in the order of the recipe table.
pub fn get_all_recipes(data: &'static Data) -> (r: Vec<CraftingMenuEntry>)
    requires
        recipes_resolve(*data),
    ensures
        r@.len() == data.recipes.entries().len(),
        forall|i: int|
            0 <= i < r@.len() ==> *(#[trigger] r@[i]).definition == data.recipes.entries()[i].1 && r@[i].text@
                == entry_text(data.recipes.entries()[i].1, *data),
{
    let recipes = data.recipes.iter();
    let mut entries: Vec<CraftingMenuEntry> = Vec::new();
    let mut i: usize = 0;
    while i < recipes.len()
        invariant
            i <= recipes@.len(),
            recipes@ == data.recipes.entries(),
            recipes_resolve(*data),
            entries@.len() == i,
            forall|j: int|
                0 <= j < i ==> *(#[trigger] entries@[j]).definition == data.recipes.entries()[j].1
                    && entries@[j].text@ == entry_text(data.recipes.entries()[j].1, *data),
        decreases recipes@.len() - i,
    {
        let entry = CraftingMenuEntry::new(&recipes[i].1, data);
        entries.push(entry);
        i = i + 1;
    }
    entries
}

} // verus!
