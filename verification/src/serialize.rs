//! Compiled files written back as statements.
//!
//! A compiled file is written as its version, its imports, its variables,
//! its `dir` and its recipes; a recipe as its `help`, its `dir`, its
//! variables, its requirements and its commands. What is written holds no
//! `if`, and compiles back to the recipes and variables it was written from.

use vstd::prelude::*;
use crate::compiler::compile_recipe_spec;
use crate::compiler::compile_spec;
use crate::compiler::compile_statements_spec;
use crate::compiler::draft_spec;
use crate::compiler::empty_draft;
use crate::compiler::empty_recipe;
use crate::compiler::file_step;
use crate::compiler::is_flat;
use crate::compiler::lemma_flatten_flat;
use crate::compiler::recipe_spec;
use crate::compiler::recipe_step;
use crate::compiler::Draft;
use crate::compiler::IncludeView;
use crate::compiler::Moldfile;
use crate::compiler::MoldfileView;
use crate::error::ErrorView;
use crate::lang::Context;
use crate::lang::Statement;
use crate::lang::StatementView;
use crate::ordered::map_at;
use crate::ordered::map_entries;
use crate::ordered::map_len;
use crate::ordered::set_at;
use crate::ordered::set_items;
use crate::ordered::set_len;
use crate::ordered::with_entry;
use crate::ordered::VarMap;
use crate::ordered::with_item;
use crate::recipe::lemma_put_at;
use crate::recipe::put;
use crate::recipe::sorted;
use crate::recipe::Recipe;
use crate::recipe::RecipeView;
use crate::remote::addressable;
use crate::remote::lemma_address_round_trip;
use crate::remote::parse_spec;
use crate::remote::render_spec;
use crate::render::printable;
use crate::token::TokenView;
use crate::unparse::all_writable;
use crate::unparse::lemma_all_writable;
use crate::unparse::lemma_parse_round_trip;
use crate::unparse::render;
use crate::unparse::source_text;
use crate::unparse::writable;

verus! {

/// The statement that sets one variable.
pub open spec fn var_statement(entry: (Seq<char>, Seq<char>)) -> StatementView {
    StatementView::Var(entry.0, entry.1)
}

/// The statements of an optional `help`.
pub open spec fn help_part(help: Option<Seq<char>>) -> Seq<StatementView> {
    match help {
        Some(text) => seq![StatementView::Help(text)],
        None => Seq::empty(),
    }
}

/// The statements of an optional `dir`.
pub open spec fn dir_part(dir: Option<Seq<char>>) -> Seq<StatementView> {
    match dir {
        Some(path) => seq![StatementView::Dir(path)],
        None => Seq::empty(),
    }
}

/// One `var` statement for each variable, in order.
pub open spec fn vars_part(vars: Seq<(Seq<char>, Seq<char>)>) -> Seq<StatementView> {
    Seq::new(vars.len(), |i: int| var_statement(vars[i]))
}

/// One `require` statement for each name, in order.
pub open spec fn requires_part(names: Seq<Seq<char>>) -> Seq<StatementView> {
    Seq::new(names.len(), |i: int| StatementView::Require(names[i]))
}

/// One `run` statement for each command, in order.
pub open spec fn runs_part(commands: Seq<Seq<char>>) -> Seq<StatementView> {
    Seq::new(commands.len(), |i: int| StatementView::Run(commands[i]))
}

/// The body that a recipe is written as.
pub open spec fn recipe_statements(r: RecipeView) -> Seq<StatementView> {
    help_part(r.help) + dir_part(r.dir) + vars_part(r.vars) + requires_part(r.requires)
        + runs_part(r.commands)
}

/// The statement that an import is written as.
pub open spec fn import_statement(import: IncludeView) -> StatementView {
    StatementView::Import(render_spec(import.remote), Some(import.prefix))
}

/// One `import` statement for each import, in order.
pub open spec fn imports_part(includes: Seq<IncludeView>) -> Seq<StatementView> {
    Seq::new(includes.len(), |i: int| import_statement(includes[i]))
}

/// The statement that a named recipe is written as.
pub open spec fn recipe_statement(entry: (Seq<char>, RecipeView)) -> StatementView {
    StatementView::Recipe(entry.0, recipe_statements(entry.1))
}

/// One `recipe` statement for each recipe, in order.
pub open spec fn recipes_part(recipes: Seq<(Seq<char>, RecipeView)>) -> Seq<StatementView> {
    Seq::new(recipes.len(), |i: int| recipe_statement(recipes[i]))
}

/// The statements that a compiled file is written as.
pub open spec fn file_statements(m: MoldfileView) -> Seq<StatementView> {
    seq![StatementView::Version(m.version)] + imports_part(m.includes) + vars_part(m.vars)
        + dir_part(m.dir) + recipes_part(m.recipes)
}

/// Whether no key occurs twice, as in every map.
pub open spec fn distinct_keys(entries: Seq<(Seq<char>, Seq<char>)>) -> bool {
    forall|i: int, j: int|
        0 <= i < j < entries.len() ==> (#[trigger] entries[i]).0 != (#[trigger] entries[j]).0
}

/// Whether a recipe is one that a map and a set can hold: no variable and
/// no requirement occurs twice.
pub open spec fn valid_recipe(r: RecipeView) -> bool {
    distinct_keys(r.vars) && r.requires.no_duplicates()
}

/// Whether a compiled file is one that its collections can hold: no variable
/// occurs twice, and the recipes stand in alphabetical order.
pub open spec fn valid_file(m: MoldfileView) -> bool {
    &&& distinct_keys(m.vars)
    &&& sorted(m.recipes)
    &&& forall|i: int| 0 <= i < m.recipes.len() ==> valid_recipe((#[trigger] m.recipes[i]).1)
}

/// An import as it comes back: its address is read again.
pub open spec fn reread(import: IncludeView) -> IncludeView {
    IncludeView { remote: parse_spec(render_spec(import.remote)), prefix: import.prefix }
}

/// A recipe after more statements of its body.
pub open spec fn recipe_from(r: RecipeView, stmts: Seq<StatementView>) -> Result<
    RecipeView,
    ErrorView,
>
    decreases stmts.len(),
{
    if stmts.len() == 0 {
        Ok(r)
    } else {
        match recipe_from(r, stmts.drop_last()) {
            Ok(x) => recipe_step(x, stmts.last()),
            Err(e) => Err(e),
        }
    }
}

/// A file after more of its statements.
pub open spec fn draft_from(d: Draft, stmts: Seq<StatementView>, envs: Set<Seq<char>>) -> Result<
    Draft,
    ErrorView,
>
    decreases stmts.len(),
{
    if stmts.len() == 0 {
        Ok(d)
    } else {
        match draft_from(d, stmts.drop_last(), envs) {
            Ok(x) => file_step(x, stmts.last(), envs),
            Err(e) => Err(e),
        }
    }
}

proof fn lemma_recipe_from_start(stmts: Seq<StatementView>)
    ensures
        recipe_spec(stmts) == recipe_from(empty_recipe(), stmts),
    decreases stmts.len(),
{
    if stmts.len() > 0 {
        lemma_recipe_from_start(stmts.drop_last());
    }
}

proof fn lemma_draft_from_start(stmts: Seq<StatementView>, envs: Set<Seq<char>>)
    ensures
        draft_spec(stmts, envs) == draft_from(empty_draft(), stmts, envs),
    decreases stmts.len(),
{
    if stmts.len() > 0 {
        lemma_draft_from_start(stmts.drop_last(), envs);
    }
}

proof fn lemma_recipe_from_concat(r: RecipeView, a: Seq<StatementView>, b: Seq<StatementView>)
    ensures
        recipe_from(r, a + b) == match recipe_from(r, a) {
            Ok(x) => recipe_from(x, b),
            Err(e) => Err(e),
        },
    decreases b.len(),
{
    if b.len() > 0 {
        assert((a + b).drop_last() =~= a + b.drop_last());
        lemma_recipe_from_concat(r, a, b.drop_last());
    }
}

proof fn lemma_draft_from_concat(
    d: Draft,
    a: Seq<StatementView>,
    b: Seq<StatementView>,
    envs: Set<Seq<char>>,
)
    ensures
        draft_from(d, a + b, envs) == match draft_from(d, a, envs) {
            Ok(x) => draft_from(x, b, envs),
            Err(e) => Err(e),
        },
    decreases b.len(),
{
    if b.len() > 0 {
        assert((a + b).drop_last() =~= a + b.drop_last());
        lemma_draft_from_concat(d, a, b.drop_last(), envs);
    }
}

/// Setting a key that a list of pairs does not have adds it at the end.
proof fn lemma_with_entry_new(entries: Seq<(Seq<char>, Seq<char>)>, key: Seq<char>, value: Seq<char>)
    requires
        forall|i: int| 0 <= i < entries.len() ==> (#[trigger] entries[i]).0 != key,
    ensures
        with_entry(entries, key, value) == entries.push((key, value)),
    decreases entries.len(),
{
    if entries.len() > 0 {
        let rest = entries.drop_first();
        lemma_with_entry_new(rest, key, value);
    }
}

/// The variables that a run of `var` statements leaves.
pub open spec fn set_all(base: Seq<(Seq<char>, Seq<char>)>, vars: Seq<(Seq<char>, Seq<char>)>) -> Seq<
    (Seq<char>, Seq<char>),
>
    decreases vars.len(),
{
    if vars.len() == 0 {
        base
    } else {
        with_entry(set_all(base, vars.drop_last()), vars.last().0, vars.last().1)
    }
}

/// The names that a run of `require` statements leaves.
pub open spec fn add_all(base: Seq<Seq<char>>, names: Seq<Seq<char>>) -> Seq<Seq<char>>
    decreases names.len(),
{
    if names.len() == 0 {
        base
    } else {
        with_item(add_all(base, names.drop_last()), names.last())
    }
}

/// The recipes that a run of `recipe` statements leaves.
pub open spec fn put_all(base: Seq<(Seq<char>, RecipeView)>, recipes: Seq<(Seq<char>, RecipeView)>) -> Seq<
    (Seq<char>, RecipeView),
>
    decreases recipes.len(),
{
    if recipes.len() == 0 {
        base
    } else {
        put(put_all(base, recipes.drop_last()), recipes.last().0, recipes.last().1)
    }
}

/// Variables with distinct names, set one after the other on nothing, give
/// the list of them.
proof fn lemma_set_all_distinct(vars: Seq<(Seq<char>, Seq<char>)>)
    requires
        distinct_keys(vars),
    ensures
        set_all(Seq::empty(), vars) == vars,
    decreases vars.len(),
{
    if vars.len() > 0 {
        let front = vars.drop_last();
        lemma_set_all_distinct(front);
        lemma_with_entry_new(front, vars.last().0, vars.last().1);
    }
}

/// Names without repetition, added one after the other to nothing, give the
/// list of them.
proof fn lemma_add_all_distinct(names: Seq<Seq<char>>)
    requires
        names.no_duplicates(),
    ensures
        add_all(Seq::empty(), names) == names,
    decreases names.len(),
{
    if names.len() > 0 {
        let front = names.drop_last();
        lemma_add_all_distinct(front);
    }
}

/// Recipes in alphabetical order, stored one after the other in nothing,
/// give the list of them.
proof fn lemma_put_all_sorted(recipes: Seq<(Seq<char>, RecipeView)>)
    requires
        sorted(recipes),
    ensures
        put_all(Seq::empty(), recipes) == recipes,
    decreases recipes.len(),
{
    if recipes.len() > 0 {
        let front = recipes.drop_last();
        let last = recipes.last();
        lemma_put_all_sorted(front);
        lemma_put_at(front, last.0, last.1, front.len() as int);
    }
}

proof fn lemma_vars_in_recipe(r: RecipeView, vars: Seq<(Seq<char>, Seq<char>)>)
    ensures
        recipe_from(r, vars_part(vars)) == Ok::<RecipeView, ErrorView>(
            RecipeView {
                help: r.help,
                dir: r.dir,
                commands: r.commands,
                vars: set_all(r.vars, vars),
                requires: r.requires,
            },
        ),
    decreases vars.len(),
{
    if vars.len() > 0 {
        assert(vars_part(vars).drop_last() =~= vars_part(vars.drop_last()));
        lemma_vars_in_recipe(r, vars.drop_last());
    }
}

proof fn lemma_requires_in_recipe(r: RecipeView, names: Seq<Seq<char>>)
    ensures
        recipe_from(r, requires_part(names)) == Ok::<RecipeView, ErrorView>(
            RecipeView {
                help: r.help,
                dir: r.dir,
                commands: r.commands,
                vars: r.vars,
                requires: add_all(r.requires, names),
            },
        ),
    decreases names.len(),
{
    if names.len() > 0 {
        assert(requires_part(names).drop_last() =~= requires_part(names.drop_last()));
        lemma_requires_in_recipe(r, names.drop_last());
    }
}

proof fn lemma_runs_in_recipe(r: RecipeView, commands: Seq<Seq<char>>)
    ensures
        recipe_from(r, runs_part(commands)) == Ok::<RecipeView, ErrorView>(
            RecipeView {
                help: r.help,
                dir: r.dir,
                commands: r.commands + commands,
                vars: r.vars,
                requires: r.requires,
            },
        ),
    decreases commands.len(),
{
    if commands.len() > 0 {
        assert(runs_part(commands).drop_last() =~= runs_part(commands.drop_last()));
        lemma_runs_in_recipe(r, commands.drop_last());
        assert((r.commands + commands.drop_last()).push(commands.last()) =~= r.commands
            + commands);
    }
}

/// What a recipe is written as holds no `if`.
pub proof fn lemma_recipe_statements_flat(r: RecipeView)
    ensures
        is_flat(recipe_statements(r)),
{
}

/// A recipe that is written as a body compiles back to itself.
pub proof fn lemma_recipe_round_trip(r: RecipeView, envs: Set<Seq<char>>)
    requires
        valid_recipe(r),
    ensures
        compile_recipe_spec(recipe_statements(r), envs) == Ok::<RecipeView, ErrorView>(r),
{
    let a = help_part(r.help);
    let b = dir_part(r.dir);
    let c = vars_part(r.vars);
    let d = requires_part(r.requires);
    let e = runs_part(r.commands);
    let body = recipe_statements(r);
    lemma_recipe_statements_flat(r);
    lemma_flatten_flat(body, envs);
    lemma_recipe_from_start(body);
    let r0 = empty_recipe();
    lemma_recipe_from_concat(r0, a + b + c + d, e);
    lemma_recipe_from_concat(r0, a + b + c, d);
    lemma_recipe_from_concat(r0, a + b, c);
    lemma_recipe_from_concat(r0, a, b);
    reveal_with_fuel(recipe_from, 2);
    let r2 = RecipeView {
        help: r.help,
        dir: r.dir,
        commands: Seq::empty(),
        vars: Seq::empty(),
        requires: Seq::empty(),
    };
    lemma_vars_in_recipe(r2, r.vars);
    lemma_set_all_distinct(r.vars);
    let r3 = RecipeView {
        help: r.help,
        dir: r.dir,
        commands: Seq::empty(),
        vars: r.vars,
        requires: Seq::empty(),
    };
    lemma_requires_in_recipe(r3, r.requires);
    lemma_add_all_distinct(r.requires);
    let r4 = RecipeView {
        help: r.help,
        dir: r.dir,
        commands: Seq::empty(),
        vars: r.vars,
        requires: r.requires,
    };
    lemma_runs_in_recipe(r4, r.commands);
}

proof fn lemma_imports_in_file(d: Draft, includes: Seq<IncludeView>, envs: Set<Seq<char>>)
    ensures
        draft_from(d, imports_part(includes), envs) == Ok::<Draft, ErrorView>(
            Draft {
                version: d.version,
                includes: d.includes + Seq::new(includes.len(), |i: int| reread(includes[i])),
                recipes: d.recipes,
                vars: d.vars,
                dir: d.dir,
            },
        ),
    decreases includes.len(),
{
    let back = Seq::new(includes.len(), |i: int| reread(includes[i]));
    if includes.len() > 0 {
        let front = includes.drop_last();
        assert(imports_part(includes).drop_last() =~= imports_part(front));
        lemma_imports_in_file(d, front, envs);
        let back_front = Seq::new(front.len(), |i: int| reread(front[i]));
        assert((d.includes + back_front).push(reread(includes.last())) =~= d.includes + back);
    }
}

proof fn lemma_vars_in_file(d: Draft, vars: Seq<(Seq<char>, Seq<char>)>, envs: Set<Seq<char>>)
    ensures
        draft_from(d, vars_part(vars), envs) == Ok::<Draft, ErrorView>(
            Draft {
                version: d.version,
                includes: d.includes,
                recipes: d.recipes,
                vars: set_all(d.vars, vars),
                dir: d.dir,
            },
        ),
    decreases vars.len(),
{
    if vars.len() > 0 {
        assert(vars_part(vars).drop_last() =~= vars_part(vars.drop_last()));
        lemma_vars_in_file(d, vars.drop_last(), envs);
    }
}

proof fn lemma_recipes_in_file(
    d: Draft,
    recipes: Seq<(Seq<char>, RecipeView)>,
    envs: Set<Seq<char>>,
)
    requires
        forall|i: int| 0 <= i < recipes.len() ==> valid_recipe((#[trigger] recipes[i]).1),
    ensures
        draft_from(d, recipes_part(recipes), envs) == Ok::<Draft, ErrorView>(
            Draft {
                version: d.version,
                includes: d.includes,
                recipes: put_all(d.recipes, recipes),
                vars: d.vars,
                dir: d.dir,
            },
        ),
    decreases recipes.len(),
{
    if recipes.len() > 0 {
        let front = recipes.drop_last();
        assert(recipes_part(recipes).drop_last() =~= recipes_part(front));
        lemma_recipes_in_file(d, front, envs);
        lemma_recipe_round_trip(recipes.last().1, envs);
    }
}

/// What a compiled file is written as holds no `if`.
pub proof fn lemma_file_statements_flat(m: MoldfileView)
    ensures
        is_flat(file_statements(m)),
{
}

/// A compiled file that is written as statements compiles back to the same
/// version, variables, `dir` and recipes, whatever environments are active.
/// Its imports come back with their addresses read again.
pub proof fn lemma_file_round_trip(m: MoldfileView, envs: Set<Seq<char>>)
    requires
        valid_file(m),
    ensures
        compile_statements_spec(file_statements(m), envs) == Ok::<MoldfileView, ErrorView>(
            MoldfileView {
                version: m.version,
                includes: Seq::new(m.includes.len(), |i: int| reread(m.includes[i])),
                recipes: m.recipes,
                vars: m.vars,
                dir: m.dir,
            },
        ),
{
    let a = seq![StatementView::Version(m.version)];
    let b = imports_part(m.includes);
    let c = vars_part(m.vars);
    let d = dir_part(m.dir);
    let e = recipes_part(m.recipes);
    let all = file_statements(m);
    lemma_file_statements_flat(m);
    lemma_flatten_flat(all, envs);
    lemma_draft_from_start(all, envs);
    let d0 = empty_draft();
    lemma_draft_from_concat(d0, a + b + c + d, e, envs);
    lemma_draft_from_concat(d0, a + b + c, d, envs);
    lemma_draft_from_concat(d0, a + b, c, envs);
    lemma_draft_from_concat(d0, a, b, envs);
    reveal_with_fuel(draft_from, 2);
    let d1 = Draft {
        version: Some(m.version),
        includes: Seq::empty(),
        recipes: Seq::empty(),
        vars: Seq::empty(),
        dir: None,
    };
    lemma_imports_in_file(d1, m.includes, envs);
    let back = Seq::new(m.includes.len(), |i: int| reread(m.includes[i]));
    let d2 = Draft {
        version: Some(m.version),
        includes: back,
        recipes: Seq::empty(),
        vars: Seq::empty(),
        dir: None,
    };
    lemma_vars_in_file(d2, m.vars, envs);
    lemma_set_all_distinct(m.vars);
    let d4 = Draft {
        version: Some(m.version),
        includes: back,
        recipes: Seq::empty(),
        vars: m.vars,
        dir: m.dir,
    };
    lemma_recipes_in_file(d4, m.recipes, envs);
    lemma_put_all_sorted(m.recipes);
}

/// One `var` statement for each variable of a map.
fn vars_to_statements(vars: &VarMap, out: &mut Vec<Statement>)
    ensures
        final(out).deep_view() == old(out).deep_view() + vars_part(map_entries(*vars)),
{
    let ghost start = out.deep_view();
    let ghost all = map_entries(*vars);
    let n = map_len(vars);
    let mut i: usize = 0;
    while i < n
        invariant
            i <= n,
            n == all.len(),
            all == map_entries(*vars),
            out.deep_view() == start + vars_part(all).take(i as int),
        decreases n - i,
    {
        let ghost before = out.deep_view();
        match map_at(vars, i) {
            Some((name, value)) => {
                let s = Statement::Var(name.clone(), value.clone());
                out.push(s);
                assert(out.deep_view() =~= before.push(s@));
            },
            None => {},
        }
        i += 1;
    }
}

impl Recipe {
    /// Writes the recipe as the body of a `recipe` statement.
    pub fn to_statements(&self) -> (r: Vec<Statement>)
        ensures
            r.deep_view() == recipe_statements(self@),
    {
        let mut out: Vec<Statement> = Vec::new();
        match &self.help {
            Some(text) => {
                let s = Statement::Help(text.clone());
                out.push(s);
            },
            None => {},
        }
        match &self.dir {
            Some(path) => {
                let s = Statement::Dir(path.clone());
                out.push(s);
            },
            None => {},
        }
        vars_to_statements(&self.vars, &mut out);
        let ghost three = out.deep_view();
        let ghost names = set_items(self.requires);
        let n = set_len(&self.requires);
        let mut i: usize = 0;
        while i < n
            invariant
                i <= n,
                n == names.len(),
                names == set_items(self.requires),
                out.deep_view() == three + requires_part(names).take(i as int),
            decreases n - i,
        {
            let ghost before = out.deep_view();
            match set_at(&self.requires, i) {
                Some(name) => {
                    let s = Statement::Require(name.clone());
                    out.push(s);
                    assert(out.deep_view() =~= before.push(s@));
                },
                None => {},
            }
            i += 1;
        }
        let ghost four = out.deep_view();
        let ghost commands = self.commands.deep_view();
        let mut j: usize = 0;
        while j < self.commands.len()
            invariant
                j <= self.commands.len(),
                commands == self.commands.deep_view(),
                out.deep_view() == four + runs_part(commands).take(j as int),
            decreases self.commands.len() - j,
        {
            let ghost before = out.deep_view();
            let s = Statement::Run(self.commands[j].clone());
            out.push(s);
            assert(out.deep_view() =~= before.push(s@));
            j += 1;
        }
        out
    }
}

impl Moldfile {
    /// Writes the file as a list of top-level statements.
    pub fn to_statements(&self) -> (r: Vec<Statement>)
        ensures
            r.deep_view() == file_statements(self@),
    {
        let mut out: Vec<Statement> = Vec::new();
        let first = Statement::Version(self.version.clone());
        out.push(first);
        assert(out.deep_view() =~= seq![first@]);
        let ghost one = out.deep_view();
        let ghost includes = self.includes.deep_view();
        let mut i: usize = 0;
        while i < self.includes.len()
            invariant
                i <= self.includes.len(),
                includes == self.includes.deep_view(),
                out.deep_view() == one + imports_part(includes).take(i as int),
            decreases self.includes.len() - i,
        {
            let ghost before = out.deep_view();
            let s = Statement::Import(
                self.includes[i].remote.to_string(),
                Some(self.includes[i].prefix.clone()),
            );
            out.push(s);
            assert(out.deep_view() =~= before.push(s@));
            i += 1;
        }
        assert(imports_part(includes).take(i as int) =~= imports_part(includes));
        vars_to_statements(&self.vars, &mut out);
        match &self.dir {
            Some(path) => {
                let s = Statement::Dir(path.clone());
                out.push(s);
            },
            None => {},
        }
        let ghost four = out.deep_view();
        let ghost recipes = self.recipes@;
        let n = self.recipes.len();
        let mut j: usize = 0;
        while j < n
            invariant
                j <= n,
                n == recipes.len(),
                recipes == self.recipes@,
                out.deep_view() == four + recipes_part(recipes).take(j as int),
            decreases n - j,
        {
            let ghost before = out.deep_view();
            let s = Statement::Recipe(
                self.recipes.name_at(j).clone(),
                self.recipes.recipe_at(j).to_statements(),
            );
            proof {
                s.lemma_body_view();
            }
            out.push(s);
            assert(out.deep_view() =~= before.push(s@));
            j += 1;
        }
        out
    }
}

/// Whether the names of the variables of a list can be written as names.
pub open spec fn keys_printable(vars: Seq<(Seq<char>, Seq<char>)>) -> bool {
    forall|i: int| 0 <= i < vars.len() ==> printable(TokenView::Name((#[trigger] vars[i]).0))
}

/// Whether the names of the variables and of the recipes of a compiled file
/// can be written as names: each is a word of the language and no keyword.
pub open spec fn names_printable(m: MoldfileView) -> bool {
    &&& keys_printable(m.vars)
    &&& forall|i: int|
        0 <= i < m.recipes.len() ==> printable(TokenView::Name((#[trigger] m.recipes[i]).0))
            && keys_printable(m.recipes[i].1.vars)
}

proof fn lemma_recipe_statements_writable(r: RecipeView)
    requires
        keys_printable(r.vars),
    ensures
        all_writable(recipe_statements(r), Context::Recipe),
{
    let all = recipe_statements(r);
    lemma_all_writable(all, Context::Recipe);
}

proof fn lemma_file_statements_writable(m: MoldfileView)
    requires
        names_printable(m),
    ensures
        all_writable(file_statements(m), Context::File),
{
    let a = seq![StatementView::Version(m.version)];
    let b = imports_part(m.includes);
    let c = vars_part(m.vars);
    let d = dir_part(m.dir);
    let all = file_statements(m);
    assert forall|i: int| 0 <= i < all.len() implies writable(#[trigger] all[i], Context::File) by {
        let k = i - a.len() - b.len() - c.len() - d.len();
        if k >= 0 {
            lemma_recipe_statements_writable(m.recipes[k].1);
        }
    }
    lemma_all_writable(all, Context::File);
}

/// The text that a compiled file is written as.
pub open spec fn source_of(m: MoldfileView) -> Seq<char> {
    source_text(file_statements(m))
}

/// A compiled file that is written as text compiles back to the same
/// version, variables, `dir` and recipes, whatever environments are active:
/// compiling, writing and compiling again changes no recipe and no variable.
/// Its imports come back with their addresses read again.
pub proof fn lemma_source_round_trip(m: MoldfileView, envs: Set<Seq<char>>)
    requires
        valid_file(m),
        names_printable(m),
    ensures
        compile_spec(source_of(m), envs) == Ok::<MoldfileView, ErrorView>(
            MoldfileView {
                version: m.version,
                includes: Seq::new(m.includes.len(), |i: int| reread(m.includes[i])),
                recipes: m.recipes,
                vars: m.vars,
                dir: m.dir,
            },
        ),
{
    lemma_file_statements_writable(m);
    lemma_parse_round_trip(file_statements(m));
    lemma_file_round_trip(m, envs);
}

impl Moldfile {
    /// Writes the file as the text of a configuration file.
    pub fn to_source(&self) -> (r: String)
        ensures
            r@ == source_of(self@),
    {
        let stmts = self.to_statements();
        render(&stmts)
    }
}

/// A compiled file whose imports can all be named by addresses compiles
/// back, from the text it is written as, to itself.
pub proof fn lemma_source_round_trip_whole(m: MoldfileView, envs: Set<Seq<char>>)
    requires
        valid_file(m),
        names_printable(m),
        forall|i: int| 0 <= i < m.includes.len() ==> addressable((#[trigger] m.includes[i]).remote),
    ensures
        compile_spec(source_of(m), envs) == Ok::<MoldfileView, ErrorView>(m),
{
    lemma_source_round_trip(m, envs);
    let back = Seq::new(m.includes.len(), |i: int| reread(m.includes[i]));
    assert forall|i: int| 0 <= i < m.includes.len() implies back[i] == m.includes[i] by {
        lemma_address_round_trip(m.includes[i].remote);
    }
    assert(back =~= m.includes);
}

} // verus!
