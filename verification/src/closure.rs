//! The recipes that have to run for a set of targets, in an order in which
//! they can run.
//!
//! For each target its requirements are resolved first, each with its own,
//! and then the target itself is added. A recipe is added once, where it is
//! first met. A recipe that requires itself, directly or through others,
//! cannot be ordered: it is reported instead of followed.

use vstd::prelude::*;
use crate::error::Error;
use crate::error::ErrorView;
use crate::resolve::Mold;
use crate::ordered::set_at;
use crate::ordered::set_clone;
use crate::ordered::set_contains;
use crate::ordered::set_insert;
use crate::ordered::set_items;
use crate::ordered::set_len;
use crate::ordered::set_new;
use crate::ordered::lemma_with_item_set;
use crate::ordered::with_item;
use crate::ordered::TargetSet;
use crate::recipe::find;
use crate::recipe::lemma_find_is_entry;
use crate::recipe::RecipeView;
use crate::text::owned;

verus! {

/// The names under which a list holds recipes.
pub open spec fn names(rs: Seq<(Seq<char>, RecipeView)>) -> Set<Seq<char>> {
    rs.map_values(|e: (Seq<char>, RecipeView)| e.0).to_set()
}

/// How many recipes are not on the path that is being followed.
pub open spec fn unvisited(rs: Seq<(Seq<char>, RecipeView)>, path: Set<Seq<char>>) -> nat {
    names(rs).difference(path).len()
}

/// `acc` with the items of `more` added in order.
pub open spec fn merge(acc: Seq<Seq<char>>, more: Seq<Seq<char>>) -> Seq<Seq<char>>
    decreases more.len(),
{
    if more.len() == 0 {
        acc
    } else {
        with_item(merge(acc, more.drop_last()), more.last())
    }
}

/// Following a recipe that is not on the path leaves fewer recipes off the
/// path.
pub proof fn lemma_unvisited_decreases(
    rs: Seq<(Seq<char>, RecipeView)>,
    path: Set<Seq<char>>,
    name: Seq<char>,
)
    requires
        find(rs, name) is Some,
        !path.contains(name),
    ensures
        unvisited(rs, path.insert(name)) < unvisited(rs, path),
{
    broadcast use vstd::seq_lib::group_seq_properties;

    let keys = rs.map_values(|e: (Seq<char>, RecipeView)| e.0);
    vstd::seq_lib::seq_to_set_is_finite(keys);
    lemma_find_is_entry(rs, name);
    let r = find(rs, name)->0;
    let i = choose|i: int| 0 <= i < rs.len() && rs[i] == (name, r);
    assert(keys[i] == name);
    let off = names(rs).difference(path);
    assert(names(rs).difference(path.insert(name)) =~= off.remove(name));
}

/// The recipes that a name requires, each with all that it requires, in an
/// order in which they can run. `path` holds the names that are being
/// followed.
pub open spec fn deps_spec(rs: Seq<(Seq<char>, RecipeView)>, name: Seq<char>, path: Set<Seq<char>>) -> Result<
    Seq<Seq<char>>,
    ErrorView,
>
    decreases unvisited(rs, path), 0nat, 0nat,
{
    match find(rs, name) {
        None => Err(ErrorView::UnknownRecipe(name)),
        Some(recipe) => if path.contains(name) {
            Err(ErrorView::Cycle(name))
        } else {
            proof {
                lemma_unvisited_decreases(rs, path, name);
            }
            closure_spec(rs, recipe.requires, path.insert(name))
        },
    }
}

/// The recipes that have to run for a list of targets, in an order in which
/// they can run: for each target what it requires, then the target.
pub open spec fn closure_spec(
    rs: Seq<(Seq<char>, RecipeView)>,
    targets: Seq<Seq<char>>,
    path: Set<Seq<char>>,
) -> Result<Seq<Seq<char>>, ErrorView>
    decreases unvisited(rs, path), 1nat, targets.len(),
{
    if targets.len() == 0 {
        Ok(Seq::empty())
    } else {
        match closure_spec(rs, targets.drop_last(), path) {
            Err(e) => Err(e),
            Ok(acc) => match deps_spec(rs, targets.last(), path) {
                Err(e) => Err(e),
                Ok(d) => Ok(with_item(merge(acc, d), targets.last())),
            },
        }
    }
}

/// Once a prefix of the targets fails, all of them fail in the same way.
pub proof fn lemma_closure_error_sticks(
    rs: Seq<(Seq<char>, RecipeView)>,
    targets: Seq<Seq<char>>,
    path: Set<Seq<char>>,
    i: int,
)
    requires
        0 <= i <= targets.len(),
        closure_spec(rs, targets.take(i), path) is Err,
    ensures
        closure_spec(rs, targets, path) == closure_spec(rs, targets.take(i), path),
    decreases targets.len() - i,
{
    if i == targets.len() {
        assert(targets.take(i) =~= targets);
    } else {
        assert(targets.take(i + 1).drop_last() =~= targets.take(i));
        lemma_closure_error_sticks(rs, targets, path, i + 1);
    }
}

/// Adds the items of `more` to `acc`, in order.
pub fn extend(acc: &mut TargetSet, more: &TargetSet)
    ensures
        set_items(*final(acc)) == merge(set_items(*old(acc)), set_items(*more)),
{
    let ghost start = set_items(*acc);
    let ghost all = set_items(*more);
    let n = set_len(more);
    let mut i: usize = 0;
    while i < n
        invariant
            i <= n,
            n == all.len(),
            all == set_items(*more),
            set_items(*acc) == merge(start, all.take(i as int)),
        decreases n - i,
    {
        proof {
            assert(all.take(i + 1).drop_last() =~= all.take(i as int));
        }
        match set_at(more, i) {
            Some(name) => {
                set_insert(acc, name.clone());
            },
            None => {},
        }
        i += 1;
    }
    assert(all.take(n as int) =~= all);
}

impl Mold {
    /// Finds all that a set of targets needs: for each target the recipes it
    /// requires, each after what it requires itself, and then the target.
    /// Every name is in the result once, at the place where it was first
    /// due. It fails on the first name that no recipe has, and on the first
    /// recipe that is met again while its own requirements are followed.
    pub fn find_all_dependencies(&self, targets: &TargetSet) -> (r: Result<TargetSet, Error>)
        ensures
            match r {
                Ok(out) => closure_spec(self@.recipes, set_items(*targets), Set::empty()) == Ok::<
                    Seq<Seq<char>>,
                    ErrorView,
                >(set_items(out)),
                Err(e) => closure_spec(self@.recipes, set_items(*targets), Set::empty()) == Err::<
                    Seq<Seq<char>>,
                    ErrorView,
                >(e@),
            },
    {
        let path = set_new();
        assert(set_items(path).to_set() =~= Set::empty());
        self.closure(targets, &path)
    }

    /// [`Mold::find_all_dependencies`] below the names on `path`.
    fn closure(&self, targets: &TargetSet, path: &TargetSet) -> (r: Result<TargetSet, Error>)
        ensures
            match r {
                Ok(out) => closure_spec(
                    self@.recipes,
                    set_items(*targets),
                    set_items(*path).to_set(),
                ) == Ok::<Seq<Seq<char>>, ErrorView>(set_items(out)),
                Err(e) => closure_spec(
                    self@.recipes,
                    set_items(*targets),
                    set_items(*path).to_set(),
                ) == Err::<Seq<Seq<char>>, ErrorView>(e@),
            },
        decreases unvisited(self@.recipes, set_items(*path).to_set()), 1nat,
    {
        let ghost rs = self@.recipes;
        let ghost all = set_items(*targets);
        let ghost on_path = set_items(*path).to_set();
        let mut out = set_new();
        let n = set_len(targets);
        let mut i: usize = 0;
        while i < n
            invariant
                i <= n,
                n == all.len(),
                all == set_items(*targets),
                rs == self@.recipes,
                on_path == set_items(*path).to_set(),
                closure_spec(rs, all.take(i as int), on_path) == Ok::<Seq<Seq<char>>, ErrorView>(
                    set_items(out),
                ),
            decreases n - i,
        {
            proof {
                assert(all.take(i + 1).drop_last() =~= all.take(i as int));
            }
            match set_at(targets, i) {
                Some(name) => {
                    match self.find_dependencies(name.as_str(), path) {
                        Ok(d) => {
                            extend(&mut out, &d);
                            set_insert(&mut out, name.clone());
                        },
                        Err(e) => {
                            proof {
                                lemma_closure_error_sticks(rs, all, on_path, i + 1);
                            }
                            return Err(e);
                        },
                    }
                },
                None => {},
            }
            i += 1;
        }
        assert(all.take(n as int) =~= all);
        Ok(out)
    }

    /// Finds all that one recipe requires, below the names on `path`.
    fn find_dependencies(&self, name: &str, path: &TargetSet) -> (r: Result<TargetSet, Error>)
        ensures
            match r {
                Ok(out) => deps_spec(self@.recipes, name@, set_items(*path).to_set()) == Ok::<
                    Seq<Seq<char>>,
                    ErrorView,
                >(set_items(out)),
                Err(e) => deps_spec(self@.recipes, name@, set_items(*path).to_set()) == Err::<
                    Seq<Seq<char>>,
                    ErrorView,
                >(e@),
            },
        decreases unvisited(self@.recipes, set_items(*path).to_set()), 0nat,
    {
        let recipe = match self.recipe(name) {
            Ok(recipe) => recipe,
            Err(e) => {
                return Err(e);
            },
        };
        if set_contains(path, name) {
            return Err(Error::Cycle(owned(name)));
        }
        let mut inner = set_clone(path);
        set_insert(&mut inner, owned(name));
        proof {
            lemma_unvisited_decreases(self@.recipes, set_items(*path).to_set(), name@);
            lemma_with_item_set(set_items(*path), name@);
        }
        self.closure(&recipe.requires, &inner)
    }
}

/// What a name requires, as the table says; nothing where the table does
/// not have the name.
pub open spec fn requires_of(rs: Seq<(Seq<char>, RecipeView)>, name: Seq<char>) -> Seq<Seq<char>> {
    match find(rs, name) {
        Some(recipe) => recipe.requires,
        None => Seq::empty(),
    }
}

/// Whether `q` stands in `out` at a position before `i`.
pub open spec fn comes_before(out: Seq<Seq<char>>, q: Seq<char>, i: int) -> bool {
    exists|j: int| 0 <= j < i && j < out.len() && out[j] == q
}

/// Whether every name in `out` stands after all that it requires.
pub open spec fn in_order(rs: Seq<(Seq<char>, RecipeView)>, out: Seq<Seq<char>>) -> bool {
    forall|i: int, k: int|
        0 <= i < out.len() && 0 <= k < requires_of(rs, out[i]).len() ==> #[trigger] comes_before(
            out,
            requires_of(rs, out[i])[k],
            i,
        )
}

/// A list in order stays in order when a name is added of which it holds all
/// that the name requires.
proof fn lemma_with_item_in_order(
    rs: Seq<(Seq<char>, RecipeView)>,
    out: Seq<Seq<char>>,
    name: Seq<char>,
)
    requires
        in_order(rs, out),
        forall|k: int| 0 <= k < requires_of(rs, name).len() ==> out.contains(
            #[trigger] requires_of(rs, name)[k],
        ),
    ensures
        in_order(rs, with_item(out, name)),
{
    let after = with_item(out, name);
    if !out.contains(name) {
        assert forall|i: int, k: int|
            0 <= i < after.len() && 0 <= k < requires_of(rs, after[i]).len() implies #[trigger] comes_before(
            after,
            requires_of(rs, after[i])[k],
            i,
        ) by {
            let q = requires_of(rs, after[i])[k];
            if i < out.len() {
                assert(comes_before(out, requires_of(rs, out[i])[k], i));
                let j = choose|j: int| 0 <= j < i && j < out.len() && out[j] == q;
                assert(after[j] == q);
            } else {
                let j = choose|j: int| 0 <= j < out.len() && out[j] == q;
                assert(after[j] == q);
            }
        }
    }
}

/// A merged list holds what both lists hold.
proof fn lemma_merge_contains(acc: Seq<Seq<char>>, more: Seq<Seq<char>>)
    ensures
        forall|x: Seq<char>| acc.contains(x) ==> merge(acc, more).contains(x),
        forall|x: Seq<char>| more.contains(x) ==> merge(acc, more).contains(x),
    decreases more.len(),
{
    if more.len() > 0 {
        let front = more.drop_last();
        lemma_merge_contains(acc, front);
        lemma_with_item_set(merge(acc, front), more.last());
        assert forall|x: Seq<char>| more.contains(x) implies merge(acc, more).contains(x) by {
            let i = choose|i: int| 0 <= i < more.len() && more[i] == x;
            if i < more.len() - 1 {
                assert(front[i] == x);
                assert(front.contains(x));
            }
        }
    }
}

/// Two lists in order merge into a list in order.
proof fn lemma_merge_in_order(
    rs: Seq<(Seq<char>, RecipeView)>,
    acc: Seq<Seq<char>>,
    more: Seq<Seq<char>>,
)
    requires
        in_order(rs, acc),
        in_order(rs, more),
    ensures
        in_order(rs, merge(acc, more)),
    decreases more.len(),
{
    if more.len() > 0 {
        let front = more.drop_last();
        let last = more.last();
        assert(in_order(rs, front)) by {
            assert forall|i: int, k: int|
                0 <= i < front.len() && 0 <= k < requires_of(rs, front[i]).len() implies #[trigger] comes_before(
                front,
                requires_of(rs, front[i])[k],
                i,
            ) by {
                assert(comes_before(more, requires_of(rs, more[i])[k], i));
                let q = requires_of(rs, more[i])[k];
                let j = choose|j: int| 0 <= j < i && j < more.len() && more[j] == q;
                assert(front[j] == q);
            }
        }
        lemma_merge_in_order(rs, acc, front);
        lemma_merge_contains(acc, front);
        assert forall|k: int| 0 <= k < requires_of(rs, last).len() implies merge(
            acc,
            front,
        ).contains(#[trigger] requires_of(rs, last)[k]) by {
            let q = requires_of(rs, last)[k];
            assert(comes_before(more, requires_of(rs, more[more.len() - 1])[k], more.len() - 1));
            let j = choose|j: int| 0 <= j < more.len() - 1 && j < more.len() && more[j] == q;
            assert(front[j] == q);
            assert(front.contains(q));
        }
        lemma_with_item_in_order(rs, merge(acc, front), last);
    }
}

/// What a name's requirements resolve to is in order and holds all that the
/// name requires.
proof fn lemma_deps_in_order(rs: Seq<(Seq<char>, RecipeView)>, name: Seq<char>, path: Set<Seq<char>>)
    requires
        deps_spec(rs, name, path) is Ok,
    ensures
        in_order(rs, deps_spec(rs, name, path)->Ok_0),
        forall|k: int|
            0 <= k < requires_of(rs, name).len() ==> deps_spec(rs, name, path)->Ok_0.contains(
                #[trigger] requires_of(rs, name)[k],
            ),
    decreases unvisited(rs, path), 0nat, 0nat,
{
    let recipe = find(rs, name)->0;
    lemma_unvisited_decreases(rs, path, name);
    lemma_closure_in_order(rs, recipe.requires, path.insert(name));
}

/// What a list of targets resolves to is in order and holds every target.
proof fn lemma_closure_in_order(
    rs: Seq<(Seq<char>, RecipeView)>,
    targets: Seq<Seq<char>>,
    path: Set<Seq<char>>,
)
    requires
        closure_spec(rs, targets, path) is Ok,
    ensures
        in_order(rs, closure_spec(rs, targets, path)->Ok_0),
        forall|k: int|
            0 <= k < targets.len() ==> closure_spec(rs, targets, path)->Ok_0.contains(
                #[trigger] targets[k],
            ),
    decreases unvisited(rs, path), 1nat, targets.len(),
{
    if targets.len() > 0 {
        let front = targets.drop_last();
        let last = targets.last();
        let acc = closure_spec(rs, front, path)->Ok_0;
        let d = deps_spec(rs, last, path)->Ok_0;
        lemma_closure_in_order(rs, front, path);
        lemma_deps_in_order(rs, last, path);
        lemma_merge_in_order(rs, acc, d);
        lemma_merge_contains(acc, d);
        lemma_with_item_in_order(rs, merge(acc, d), last);
        lemma_with_item_set(merge(acc, d), last);
        let out = with_item(merge(acc, d), last);
        assert forall|k: int| 0 <= k < targets.len() implies out.contains(#[trigger] targets[k]) by {
            if k < targets.len() - 1 {
                assert(front[k] == targets[k]);
            }
        }
    }
}

/// In what a set of targets resolves to, every target is present, and every
/// name stands after all the names that its recipe requires: run in this
/// order, no recipe runs before one that it needs.
pub proof fn lemma_requirements_come_first(
    rs: Seq<(Seq<char>, RecipeView)>,
    targets: Seq<Seq<char>>,
)
    requires
        closure_spec(rs, targets, Set::empty()) is Ok,
    ensures
        in_order(rs, closure_spec(rs, targets, Set::empty())->Ok_0),
        forall|k: int|
            0 <= k < targets.len() ==> closure_spec(rs, targets, Set::empty())->Ok_0.contains(
                #[trigger] targets[k],
            ),
{
    lemma_closure_in_order(rs, targets, Set::empty());
}

/// Adding an item keeps a list free of repetitions.
proof fn lemma_with_item_distinct(items: Seq<Seq<char>>, item: Seq<char>)
    requires
        items.no_duplicates(),
    ensures
        with_item(items, item).no_duplicates(),
{
}

/// Merging into a list without repetitions gives a list without
/// repetitions.
proof fn lemma_merge_distinct(acc: Seq<Seq<char>>, more: Seq<Seq<char>>)
    requires
        acc.no_duplicates(),
    ensures
        merge(acc, more).no_duplicates(),
    decreases more.len(),
{
    if more.len() > 0 {
        lemma_merge_distinct(acc, more.drop_last());
        lemma_with_item_distinct(merge(acc, more.drop_last()), more.last());
    }
}

/// What a set of targets resolves to names every recipe once.
pub proof fn lemma_closure_distinct(
    rs: Seq<(Seq<char>, RecipeView)>,
    targets: Seq<Seq<char>>,
    path: Set<Seq<char>>,
)
    requires
        closure_spec(rs, targets, path) is Ok,
    ensures
        closure_spec(rs, targets, path)->Ok_0.no_duplicates(),
    decreases targets.len(),
{
    if targets.len() > 0 {
        let acc = closure_spec(rs, targets.drop_last(), path)->Ok_0;
        let d = deps_spec(rs, targets.last(), path)->Ok_0;
        lemma_closure_distinct(rs, targets.drop_last(), path);
        lemma_merge_distinct(acc, d);
        lemma_with_item_distinct(merge(acc, d), targets.last());
    }
}

/// A merged list holds nothing but what the two lists hold.
proof fn lemma_merge_origin(acc: Seq<Seq<char>>, more: Seq<Seq<char>>)
    ensures
        forall|x: Seq<char>| merge(acc, more).contains(x) ==> acc.contains(x) || more.contains(x),
    decreases more.len(),
{
    if more.len() > 0 {
        let front = more.drop_last();
        lemma_merge_origin(acc, front);
        lemma_with_item_set(merge(acc, front), more.last());
        assert forall|x: Seq<char>| merge(acc, more).contains(x) implies acc.contains(x)
            || more.contains(x) by {
            if x == more.last() {
                assert(more[more.len() - 1] == x);
            } else if front.contains(x) {
                let i = choose|i: int| 0 <= i < front.len() && front[i] == x;
                assert(more[i] == x);
            }
        }
    }
}

/// Every name in what a list of targets resolves to has a recipe.
pub proof fn lemma_closure_known(
    rs: Seq<(Seq<char>, RecipeView)>,
    targets: Seq<Seq<char>>,
    path: Set<Seq<char>>,
)
    requires
        closure_spec(rs, targets, path) is Ok,
    ensures
        forall|x: Seq<char>|
            closure_spec(rs, targets, path)->Ok_0.contains(x) ==> find(rs, x) is Some,
    decreases unvisited(rs, path), 1nat, targets.len(),
{
    if targets.len() > 0 {
        let front = targets.drop_last();
        let last = targets.last();
        let acc = closure_spec(rs, front, path)->Ok_0;
        let d = deps_spec(rs, last, path)->Ok_0;
        lemma_closure_known(rs, front, path);
        lemma_unvisited_decreases(rs, path, last);
        lemma_closure_known(rs, find(rs, last)->0.requires, path.insert(last));
        lemma_merge_origin(acc, d);
        lemma_with_item_set(merge(acc, d), last);
        let out = with_item(merge(acc, d), last);
        assert forall|x: Seq<char>| out.contains(x) implies find(rs, x) is Some by {
            if x != last {
                assert(merge(acc, d).contains(x));
                assert(acc.contains(x) || d.contains(x));
            }
        }
    }
}

} // verus!
