//! Recipes, and the table that holds them by name in alphabetical order.

use vstd::prelude::*;
use crate::ordered::map_clone;
use crate::ordered::map_entries;
use crate::ordered::set_clone;
use crate::ordered::set_items;
use crate::ordered::TargetSet;
use crate::ordered::VarMap;
use crate::text::compare_text;
use crate::text::lemma_compare_flip;
use crate::text::lemma_compare_same;
use crate::text::lemma_precedes_transitive;
use crate::text::precedes;
use crate::text::Order;

verus! {

/// A task as a file declares it.
#[derive(Debug, PartialEq, Eq)]
pub struct Recipe {
    /// A short description of the recipe.
    pub help: Option<String>,
    /// The working directory, relative to the root directory. It may refer
    /// to variables.
    pub dir: Option<String>,
    /// The commands to run, in order, as they were written.
    pub commands: Vec<String>,
    /// Variables that hold for this recipe only.
    pub vars: VarMap,
    /// The recipes that have to run first.
    pub requires: TargetSet,
}

/// A [`Recipe`] as a specification value.
pub ghost struct RecipeView {
    pub help: Option<Seq<char>>,
    pub dir: Option<Seq<char>>,
    pub commands: Seq<Seq<char>>,
    pub vars: Seq<(Seq<char>, Seq<char>)>,
    pub requires: Seq<Seq<char>>,
}

impl View for Recipe {
    type V = RecipeView;

    open spec fn view(&self) -> RecipeView {
        RecipeView {
            help: self.help.deep_view(),
            dir: self.dir.deep_view(),
            commands: self.commands.deep_view(),
            vars: map_entries(self.vars),
            requires: set_items(self.requires),
        }
    }
}

impl DeepView for Recipe {
    type V = RecipeView;

    open spec fn deep_view(&self) -> RecipeView {
        self@
    }
}

/// A copy of a list of strings.
pub fn copy_strings(list: &Vec<String>) -> (r: Vec<String>)
    ensures
        r.deep_view() == list.deep_view(),
{
    let mut out: Vec<String> = Vec::new();
    let mut i: usize = 0;
    while i < list.len()
        invariant
            i <= list.len(),
            out.len() == i,
            forall|j: int| 0 <= j < i ==> out[j]@ == list[j]@,
        decreases list.len() - i,
    {
        out.push(list[i].clone());
        i += 1;
    }
    out
}

/// A copy of an optional string.
pub fn copy_option(s: &Option<String>) -> (r: Option<String>)
    ensures
        r.deep_view() == s.deep_view(),
{
    match s {
        Some(x) => Some(x.clone()),
        None => None,
    }
}

impl Recipe {
    /// A copy of the recipe.
    pub fn duplicate(&self) -> (r: Recipe)
        ensures
            r@ == self@,
    {
        Recipe {
            help: copy_option(&self.help),
            dir: copy_option(&self.dir),
            commands: copy_strings(&self.commands),
            vars: map_clone(&self.vars),
            requires: set_clone(&self.requires),
        }
    }
}

impl Clone for Recipe {
    fn clone(&self) -> (r: Recipe)
        ensures
            r@ == self@,
    {
        self.duplicate()
    }
}

/// The recipe stored under `name` in a list of named recipes, if any.
pub open spec fn find(entries: Seq<(Seq<char>, RecipeView)>, name: Seq<char>) -> Option<RecipeView>
    decreases entries.len(),
{
    if entries.len() == 0 {
        None
    } else if entries[0].0 == name {
        Some(entries[0].1)
    } else {
        find(entries.drop_first(), name)
    }
}

/// The list after `recipe` is stored under `name`: in the place of an entry
/// of that name, or else before the first entry whose name sorts after it.
pub open spec fn put(entries: Seq<(Seq<char>, RecipeView)>, name: Seq<char>, recipe: RecipeView) -> Seq<
    (Seq<char>, RecipeView),
>
    decreases entries.len(),
{
    if entries.len() == 0 {
        seq![(name, recipe)]
    } else if entries[0].0 == name {
        seq![(name, recipe)] + entries.drop_first()
    } else if precedes(name, entries[0].0) {
        seq![(name, recipe)] + entries
    } else {
        seq![entries[0]] + put(entries.drop_first(), name, recipe)
    }
}

/// Whether the names of a list stand in strictly ascending order.
pub open spec fn sorted(entries: Seq<(Seq<char>, RecipeView)>) -> bool {
    forall|i: int, j: int|
        0 <= i < j < entries.len() ==> precedes(#[trigger] entries[i].0, #[trigger] entries[j].0)
}

/// After a recipe is stored, its name gives it back, and every other name
/// gives what it gave before.
pub proof fn lemma_find_put(
    entries: Seq<(Seq<char>, RecipeView)>,
    name: Seq<char>,
    recipe: RecipeView,
    other: Seq<char>,
)
    ensures
        find(put(entries, name, recipe), other) == if other == name {
            Some(recipe)
        } else {
            find(entries, other)
        },
    decreases entries.len(),
{
    reveal_with_fuel(find, 2);
    let after = put(entries, name, recipe);
    if entries.len() == 0 {
        assert(after.drop_first() =~= Seq::empty());
    } else if entries[0].0 == name {
        assert(after.drop_first() =~= entries.drop_first());
    } else if precedes(name, entries[0].0) {
        assert(after.drop_first() =~= entries);
    } else {
        lemma_find_put(entries.drop_first(), name, recipe, other);
        assert(after.drop_first() =~= put(entries.drop_first(), name, recipe));
    }
}

/// What `find` gives is an entry of the list.
pub proof fn lemma_find_is_entry(entries: Seq<(Seq<char>, RecipeView)>, name: Seq<char>)
    ensures
        match find(entries, name) {
            Some(r) => exists|i: int| 0 <= i < entries.len() && entries[i] == (name, r),
            None => forall|i: int| 0 <= i < entries.len() ==> entries[i].0 != name,
        },
    decreases entries.len(),
{
    if entries.len() > 0 {
        if entries[0].0 == name {
            assert(entries[0] == (name, entries[0].1));
        } else {
            let rest = entries.drop_first();
            lemma_find_is_entry(rest, name);
            match find(rest, name) {
                Some(r) => {
                    let i = choose|i: int| 0 <= i < rest.len() && rest[i] == (name, r);
                    assert(entries[i + 1] == (name, r));
                },
                None => {
                    assert forall|i: int| 0 <= i < entries.len() implies entries[i].0 != name by {
                        if i > 0 {
                            assert(rest[i - 1].0 != name);
                        }
                    }
                },
            }
        }
    }
}

/// Where `put` places an entry, told by position: `p` is the first position
/// whose name does not sort before `name`.
pub proof fn lemma_put_at(
    entries: Seq<(Seq<char>, RecipeView)>,
    name: Seq<char>,
    recipe: RecipeView,
    p: int,
)
    requires
        0 <= p <= entries.len(),
        forall|j: int| 0 <= j < p ==> precedes(#[trigger] entries[j].0, name),
        p < entries.len() ==> !precedes(entries[p].0, name),
    ensures
        p < entries.len() && entries[p].0 == name ==> put(entries, name, recipe)
            == entries.update(p, (name, recipe)),
        !(p < entries.len() && entries[p].0 == name) ==> put(entries, name, recipe)
            == entries.insert(p, (name, recipe)),
    decreases entries.len(),
{
    if entries.len() == 0 {
        assert(entries.insert(0, (name, recipe)) =~= seq![(name, recipe)]);
    } else if p == 0 {
        lemma_compare_same(entries[0].0, name);
        lemma_compare_flip(entries[0].0, name);
        if entries[0].0 == name {
            assert(entries.update(0, (name, recipe)) =~= seq![(name, recipe)]
                + entries.drop_first());
        } else {
            assert(precedes(name, entries[0].0));
            assert(entries.insert(0, (name, recipe)) =~= seq![(name, recipe)] + entries);
        }
    } else {
        assert(precedes(entries[0].0, name));
        lemma_compare_same(entries[0].0, name);
        lemma_compare_flip(entries[0].0, name);
        let rest = entries.drop_first();
        assert forall|j: int| 0 <= j < p - 1 implies precedes(#[trigger] rest[j].0, name) by {
            assert(rest[j] == entries[j + 1]);
        }
        lemma_put_at(rest, name, recipe, p - 1);
        if p < entries.len() && entries[p].0 == name {
            assert(seq![entries[0]] + rest.update(p - 1, (name, recipe)) =~= entries.update(
                p,
                (name, recipe),
            ));
        } else {
            assert(seq![entries[0]] + rest.insert(p - 1, (name, recipe)) =~= entries.insert(
                p,
                (name, recipe),
            ));
        }
    }
}

/// Storing a recipe keeps a sorted list sorted.
pub proof fn lemma_put_sorted(
    entries: Seq<(Seq<char>, RecipeView)>,
    name: Seq<char>,
    recipe: RecipeView,
)
    requires
        sorted(entries),
    ensures
        sorted(put(entries, name, recipe)),
    decreases entries.len(),
{
    let after = put(entries, name, recipe);
    if entries.len() == 0 {
    } else if entries[0].0 == name {
        assert forall|i: int, j: int| 0 <= i < j < after.len() implies precedes(
            #[trigger] after[i].0,
            #[trigger] after[j].0,
        ) by {
            assert(after[j] == entries[j]);
            if i > 0 {
                assert(after[i] == entries[i]);
            } else {
                assert(precedes(entries[0].0, entries[j].0));
            }
        }
    } else if precedes(name, entries[0].0) {
        assert forall|i: int, j: int| 0 <= i < j < after.len() implies precedes(
            #[trigger] after[i].0,
            #[trigger] after[j].0,
        ) by {
            assert(after[j] == entries[j - 1]);
            if i > 0 {
                assert(after[i] == entries[i - 1]);
            } else if j > 1 {
                assert(precedes(entries[0].0, entries[j - 1].0));
                lemma_precedes_transitive(name, entries[0].0, entries[j - 1].0);
            }
        }
    } else {
        let rest = entries.drop_first();
        assert(sorted(rest)) by {
            assert forall|i: int, j: int| 0 <= i < j < rest.len() implies precedes(
                #[trigger] rest[i].0,
                #[trigger] rest[j].0,
            ) by {
                assert(rest[i] == entries[i + 1] && rest[j] == entries[j + 1]);
            }
        }
        lemma_put_sorted(rest, name, recipe);
        let tail = put(rest, name, recipe);
        lemma_compare_same(entries[0].0, name);
        lemma_compare_flip(entries[0].0, name);
        lemma_compare_flip(name, entries[0].0);
        assert(precedes(entries[0].0, name));
        assert forall|i: int, j: int| 0 <= i < j < after.len() implies precedes(
            #[trigger] after[i].0,
            #[trigger] after[j].0,
        ) by {
            assert(after[j] == tail[j - 1]);
            if i > 0 {
                assert(after[i] == tail[i - 1]);
            } else {
                lemma_put_keeps_names(rest, name, recipe, j - 1);
                if tail[j - 1].0 != name {
                    let k = choose|k: int| 0 <= k < rest.len() && rest[k].0 == tail[j - 1].0;
                    assert(rest[k] == entries[k + 1]);
                    assert(precedes(entries[0].0, entries[k + 1].0));
                }
            }
        }
    }
}

/// Every name in a list after `put` is the stored name or a name that was
/// there before.
proof fn lemma_put_keeps_names(
    entries: Seq<(Seq<char>, RecipeView)>,
    name: Seq<char>,
    recipe: RecipeView,
    i: int,
)
    requires
        0 <= i < put(entries, name, recipe).len(),
    ensures
        put(entries, name, recipe)[i].0 == name || exists|k: int|
            0 <= k < entries.len() && entries[k].0 == put(entries, name, recipe)[i].0,
    decreases entries.len(),
{
    let after = put(entries, name, recipe);
    if entries.len() == 0 {
    } else if entries[0].0 == name {
        if i > 0 {
            assert(after[i] == entries[i]);
        }
    } else if precedes(name, entries[0].0) {
        if i > 0 {
            assert(after[i] == entries[i - 1]);
        }
    } else {
        if i == 0 {
            assert(after[0] == entries[0]);
        } else {
            let rest = entries.drop_first();
            lemma_put_keeps_names(rest, name, recipe, i - 1);
            assert(after[i] == put(rest, name, recipe)[i - 1]);
            if after[i].0 != name {
                let k = choose|k: int| 0 <= k < rest.len() && rest[k].0 == after[i].0;
                assert(entries[k + 1] == rest[k]);
            }
        }
    }
}

/// The recipes of a file or of a run, by name. The names stand in
/// alphabetical order, each of them once.
#[derive(Debug, PartialEq, Eq)]
pub struct RecipeMap {
    entries: Vec<(String, Recipe)>,
}

impl View for RecipeMap {
    type V = Seq<(Seq<char>, RecipeView)>;

    closed spec fn view(&self) -> Seq<(Seq<char>, RecipeView)> {
        self.entries.deep_view()
    }
}

impl DeepView for RecipeMap {
    type V = Seq<(Seq<char>, RecipeView)>;

    open spec fn deep_view(&self) -> Seq<(Seq<char>, RecipeView)> {
        self@
    }
}

impl RecipeMap {
    #[verifier::type_invariant]
    spec fn inv(self) -> bool {
        sorted(self.entries.deep_view())
    }

    /// A table without recipes.
    pub fn new() -> (r: RecipeMap)
        ensures
            r@ == Seq::<(Seq<char>, RecipeView)>::empty(),
    {
        let entries: Vec<(String, Recipe)> = Vec::new();
        RecipeMap { entries }
    }

    /// The number of recipes.
    pub fn len(&self) -> (n: usize)
        ensures
            n == self@.len(),
    {
        self.entries.len()
    }

    /// The name at a position of the alphabetical order.
    pub fn name_at(&self, index: usize) -> (name: &String)
        requires
            index < self@.len(),
        ensures
            name@ == self@[index as int].0,
            sorted(self@),
    {
        proof {
            use_type_invariant(self);
        }
        &self.entries[index].0
    }

    /// The recipe at a position of the alphabetical order.
    pub fn recipe_at(&self, index: usize) -> (recipe: &Recipe)
        requires
            index < self@.len(),
        ensures
            recipe@ == self@[index as int].1,
    {
        &self.entries[index].1
    }

    /// The first position whose name does not sort before `name`.
    fn slot(&self, name: &str) -> (r: (usize, bool))
        ensures
            r.0 <= self@.len(),
            forall|j: int| 0 <= j < r.0 ==> precedes(#[trigger] self@[j].0, name@),
            r.0 < self@.len() ==> !precedes(self@[r.0 as int].0, name@),
            r.1 == (r.0 < self@.len() && self@[r.0 as int].0 == name@),
    {
        let mut p: usize = 0;
        while p < self.entries.len()
            invariant
                p <= self.entries.len(),
                forall|j: int| 0 <= j < p ==> precedes(#[trigger] self@[j].0, name@),
            decreases self.entries.len() - p,
        {
            let order = compare_text(self.entries[p].0.as_str(), name);
            proof {
                lemma_compare_same(self@[p as int].0, name@);
            }
            match order {
                Order::Before => {
                    p += 1;
                },
                Order::Same => {
                    return (p, true);
                },
                Order::After => {
                    return (p, false);
                },
            }
        }
        (p, false)
    }

    /// Looks a recipe up by name.
    pub fn get(&self, name: &str) -> (r: Option<&Recipe>)
        ensures
            r.deep_view() == find(self@, name@),
    {
        let (p, found) = self.slot(name);
        proof {
            use_type_invariant(self);
            lemma_find_sorted(self@, name@, p as int);
        }
        if found {
            Some(&self.entries[p].1)
        } else {
            None
        }
    }

    /// Whether a recipe of that name is in the table.
    pub fn contains_key(&self, name: &str) -> (r: bool)
        ensures
            r == find(self@, name@).is_some(),
    {
        self.get(name).is_some()
    }

    /// Stores a recipe under a name, in the place of the one that had the
    /// name before if there was one.
    pub fn insert(&mut self, name: String, recipe: Recipe)
        ensures
            final(self)@ == put(old(self)@, name@, recipe@),
    {
        let (p, found) = self.slot(name.as_str());
        proof {
            use_type_invariant(&*self);
            lemma_put_at(self@, name@, recipe@, p as int);
            lemma_put_sorted(self@, name@, recipe@);
        }
        let ghost before = self@;
        let mut taken = RecipeMap::new();
        std::mem::swap(self, &mut taken);
        let mut entries = taken.entries;
        if found {
            entries.set(p, (name, recipe));
            assert(entries.deep_view() =~= before.update(p as int, (name@, recipe@)));
        } else {
            entries.insert(p, (name, recipe));
            assert(entries.deep_view() =~= before.insert(p as int, (name@, recipe@)));
        }
        *self = RecipeMap { entries };
    }

    /// Stores a recipe under a name unless the name is taken, and says
    /// whether it stored it.
    pub fn insert_if_absent(&mut self, name: String, recipe: Recipe) -> (stored: bool)
        ensures
            stored == find(old(self)@, name@).is_none(),
            final(self)@ == if stored {
                put(old(self)@, name@, recipe@)
            } else {
                old(self)@
            },
    {
        if self.contains_key(name.as_str()) {
            false
        } else {
            self.insert(name, recipe);
            true
        }
    }
}

/// In a sorted list, a name is found at the first position whose name does
/// not sort before it, or nowhere.
proof fn lemma_find_sorted(entries: Seq<(Seq<char>, RecipeView)>, name: Seq<char>, p: int)
    requires
        sorted(entries),
        0 <= p <= entries.len(),
        forall|j: int| 0 <= j < p ==> precedes(#[trigger] entries[j].0, name),
        p < entries.len() ==> !precedes(entries[p].0, name),
    ensures
        find(entries, name) == if p < entries.len() && entries[p].0 == name {
            Some(entries[p].1)
        } else {
            None
        },
{
    lemma_find_is_entry(entries, name);
    match find(entries, name) {
        Some(r) => {
            let i = choose|i: int| 0 <= i < entries.len() && entries[i] == (name, r);
            lemma_compare_same(name, name);
            if i < p {
                assert(precedes(entries[i].0, name));
            } else if i > p {
                assert(precedes(entries[p].0, entries[i].0));
            }
        },
        None => {},
    }
}

} // verus!
