//! From statements to a compiled file: the conditionals are resolved against
//! the active environments, and what is left is folded into recipes,
//! variables and imports.

use vstd::prelude::*;
use crate::error::Construct;
use crate::error::Error;
use crate::error::ErrorView;
use crate::lang::parse;
use crate::lang::parse_spec;
use crate::lang::Statement;
use crate::lang::StatementView;
use crate::ordered::map_entries;
use crate::ordered::map_insert;
use crate::ordered::map_new;
use crate::ordered::set_insert;
use crate::ordered::set_items;
use crate::ordered::set_new;
use crate::ordered::with_entry;
use crate::ordered::with_item;
use crate::ordered::EnvSet;
use crate::ordered::VarMap;
use crate::recipe::put;
use crate::recipe::Recipe;
use crate::recipe::RecipeMap;
use crate::recipe::RecipeView;
use crate::remote::Remote;
use crate::remote::RemoteView;

verus! {

/// An import of a compiled file: where to find the other file, and the
/// prefix that its recipes get.
#[derive(Debug, PartialEq, Eq)]
pub struct Include {
    /// The file to include.
    pub remote: Remote,
    /// The prefix for the names of its recipes; empty where none was given.
    pub prefix: String,
}

/// An [`Include`] as a specification value.
pub ghost struct IncludeView {
    pub remote: RemoteView,
    pub prefix: Seq<char>,
}

impl View for Include {
    type V = IncludeView;

    open spec fn view(&self) -> IncludeView {
        IncludeView { remote: self.remote@, prefix: self.prefix@ }
    }
}

impl DeepView for Include {
    type V = IncludeView;

    open spec fn deep_view(&self) -> IncludeView {
        self@
    }
}

/// The imports of a file, in the order of the source.
pub type IncludeVec = Vec<Include>;

/// One compiled file.
#[derive(Debug, PartialEq, Eq)]
pub struct Moldfile {
    /// The versions of the tool that may read the file.
    pub version: String,
    /// The files it imports, in order.
    pub includes: IncludeVec,
    /// Its recipes.
    pub recipes: RecipeMap,
    /// Its variables.
    pub vars: VarMap,
    /// Its working directory, relative to the root directory.
    pub dir: Option<String>,
}

/// A [`Moldfile`] as a specification value.
pub ghost struct MoldfileView {
    pub version: Seq<char>,
    pub includes: Seq<IncludeView>,
    pub recipes: Seq<(Seq<char>, RecipeView)>,
    pub vars: Seq<(Seq<char>, Seq<char>)>,
    pub dir: Option<Seq<char>>,
}

impl View for Moldfile {
    type V = MoldfileView;

    open spec fn view(&self) -> MoldfileView {
        MoldfileView {
            version: self.version@,
            includes: self.includes.deep_view(),
            recipes: self.recipes@,
            vars: map_entries(self.vars),
            dir: self.dir.deep_view(),
        }
    }
}

/// A file while its statements are folded: as a compiled file, but the
/// version may still be missing.
pub ghost struct Draft {
    pub version: Option<Seq<char>>,
    pub includes: Seq<IncludeView>,
    pub recipes: Seq<(Seq<char>, RecipeView)>,
    pub vars: Seq<(Seq<char>, Seq<char>)>,
    pub dir: Option<Seq<char>>,
}

/// What one statement leaves when its conditionals are resolved: an `if`
/// whose condition holds leaves its flattened body, one whose condition does
/// not hold leaves nothing, any other statement leaves itself.
pub open spec fn flatten_one(s: StatementView, envs: Set<Seq<char>>) -> Seq<StatementView>
    decreases s, 1nat,
{
    match s {
        StatementView::If(cond, body) => if cond.holds(envs) {
            flatten_spec(body, envs)
        } else {
            Seq::empty()
        },
        other => seq![other],
    }
}

/// A list of statements with its conditionals resolved, in the order of the
/// source.
pub open spec fn flatten_spec(stmts: Seq<StatementView>, envs: Set<Seq<char>>) -> Seq<StatementView>
    decreases stmts, 0nat,
{
    if stmts.len() == 0 {
        Seq::empty()
    } else {
        flatten_spec(stmts.drop_last(), envs) + flatten_one(stmts.last(), envs)
    }
}

/// Whether a list of statements holds no `if`.
pub open spec fn is_flat(stmts: Seq<StatementView>) -> bool {
    forall|i: int| 0 <= i < stmts.len() ==> !(#[trigger] stmts[i] is If)
}

/// A recipe without anything in it.
pub open spec fn empty_recipe() -> RecipeView {
    RecipeView {
        help: None,
        dir: None,
        commands: Seq::empty(),
        vars: Seq::empty(),
        requires: Seq::empty(),
    }
}

/// A recipe after one more statement of its body.
pub open spec fn recipe_step(r: RecipeView, s: StatementView) -> Result<RecipeView, ErrorView> {
    match s {
        StatementView::Help(text) => if r.help is Some {
            Err(ErrorView::DuplicateHelp)
        } else {
            Ok(
                RecipeView {
                    help: Some(text),
                    dir: r.dir,
                    commands: r.commands,
                    vars: r.vars,
                    requires: r.requires,
                },
            )
        },
        StatementView::Dir(path) => if r.dir is Some {
            Err(ErrorView::DuplicateDir)
        } else {
            Ok(
                RecipeView {
                    help: r.help,
                    dir: Some(path),
                    commands: r.commands,
                    vars: r.vars,
                    requires: r.requires,
                },
            )
        },
        StatementView::Var(name, value) => Ok(
            RecipeView {
                help: r.help,
                dir: r.dir,
                commands: r.commands,
                vars: with_entry(r.vars, name, value),
                requires: r.requires,
            },
        ),
        StatementView::Run(command) => Ok(
            RecipeView {
                help: r.help,
                dir: r.dir,
                commands: r.commands.push(command),
                vars: r.vars,
                requires: r.requires,
            },
        ),
        StatementView::Require(name) => Ok(
            RecipeView {
                help: r.help,
                dir: r.dir,
                commands: r.commands,
                vars: r.vars,
                requires: with_item(r.requires, name),
            },
        ),
        StatementView::If(_, _) => Err(ErrorView::Misplaced(Construct::If)),
        StatementView::Version(_) => Err(ErrorView::Misplaced(Construct::Version)),
        StatementView::Import(_, _) => Err(ErrorView::Misplaced(Construct::Import)),
        StatementView::Recipe(_, _) => Err(ErrorView::Misplaced(Construct::Recipe)),
    }
}

/// The recipe that a flat body makes: its statements taken in order, up to
/// the first that fails.
pub open spec fn recipe_spec(stmts: Seq<StatementView>) -> Result<RecipeView, ErrorView>
    decreases stmts.len(),
{
    if stmts.len() == 0 {
        Ok(empty_recipe())
    } else {
        match recipe_spec(stmts.drop_last()) {
            Ok(r) => recipe_step(r, stmts.last()),
            Err(e) => Err(e),
        }
    }
}

/// The recipe that a body makes under the active environments.
pub open spec fn compile_recipe_spec(body: Seq<StatementView>, envs: Set<Seq<char>>) -> Result<
    RecipeView,
    ErrorView,
> {
    recipe_spec(flatten_spec(body, envs))
}

/// A file without anything in it.
pub open spec fn empty_draft() -> Draft {
    Draft {
        version: None,
        includes: Seq::empty(),
        recipes: Seq::empty(),
        vars: Seq::empty(),
        dir: None,
    }
}

/// The prefix of an import: empty where none is given.
pub open spec fn prefix_or_empty(prefix: Option<Seq<char>>) -> Seq<char> {
    match prefix {
        Some(p) => p,
        None => Seq::empty(),
    }
}

/// A file after one more of its statements.
pub open spec fn file_step(d: Draft, s: StatementView, envs: Set<Seq<char>>) -> Result<
    Draft,
    ErrorView,
> {
    match s {
        StatementView::Version(v) => if d.version is Some {
            Err(ErrorView::DuplicateVersion(v))
        } else {
            Ok(
                Draft {
                    version: Some(v),
                    includes: d.includes,
                    recipes: d.recipes,
                    vars: d.vars,
                    dir: d.dir,
                },
            )
        },
        StatementView::Help(_) => Ok(d),
        StatementView::Import(url, prefix) => Ok(
            Draft {
                version: d.version,
                includes: d.includes.push(
                    IncludeView {
                        remote: crate::remote::parse_spec(url),
                        prefix: prefix_or_empty(prefix),
                    },
                ),
                recipes: d.recipes,
                vars: d.vars,
                dir: d.dir,
            },
        ),
        StatementView::Var(name, value) => Ok(
            Draft {
                version: d.version,
                includes: d.includes,
                recipes: d.recipes,
                vars: with_entry(d.vars, name, value),
                dir: d.dir,
            },
        ),
        StatementView::Recipe(name, body) => match compile_recipe_spec(body, envs) {
            Ok(r) => Ok(
                Draft {
                    version: d.version,
                    includes: d.includes,
                    recipes: put(d.recipes, name, r),
                    vars: d.vars,
                    dir: d.dir,
                },
            ),
            Err(e) => Err(e),
        },
        StatementView::Dir(path) => Ok(
            Draft {
                version: d.version,
                includes: d.includes,
                recipes: d.recipes,
                vars: d.vars,
                dir: Some(path),
            },
        ),
        StatementView::Require(_) => Err(ErrorView::Misplaced(Construct::Require)),
        StatementView::Run(_) => Err(ErrorView::Misplaced(Construct::Run)),
        StatementView::If(_, _) => Err(ErrorView::Misplaced(Construct::If)),
    }
}

/// The file that a flat list of top-level statements makes. Whether it has a
/// version is not looked at here.
pub open spec fn draft_spec(stmts: Seq<StatementView>, envs: Set<Seq<char>>) -> Result<
    Draft,
    ErrorView,
>
    decreases stmts.len(),
{
    if stmts.len() == 0 {
        Ok(empty_draft())
    } else {
        match draft_spec(stmts.drop_last(), envs) {
            Ok(d) => file_step(d, stmts.last(), envs),
            Err(e) => Err(e),
        }
    }
}

/// The compiled file that a flat list of top-level statements makes.
pub open spec fn moldfile_spec(stmts: Seq<StatementView>, envs: Set<Seq<char>>) -> Result<
    MoldfileView,
    ErrorView,
> {
    match draft_spec(stmts, envs) {
        Err(e) => Err(e),
        Ok(d) => match d.version {
            None => Err(ErrorView::MissingVersion),
            Some(version) => Ok(
                MoldfileView {
                    version,
                    includes: d.includes,
                    recipes: d.recipes,
                    vars: d.vars,
                    dir: d.dir,
                },
            ),
        },
    }
}

/// The compiled file that a list of top-level statements makes under the
/// active environments.
pub open spec fn compile_statements_spec(stmts: Seq<StatementView>, envs: Set<Seq<char>>) -> Result<
    MoldfileView,
    ErrorView,
> {
    moldfile_spec(flatten_spec(stmts, envs), envs)
}

/// The compiled file that a configuration text makes under the active
/// environments.
pub open spec fn compile_spec(code: Seq<char>, envs: Set<Seq<char>>) -> Result<
    MoldfileView,
    ErrorView,
> {
    match parse_spec(code) {
        Ok(stmts) => compile_statements_spec(stmts, envs),
        Err(e) => Err(e),
    }
}

/// Once a prefix of a body fails, the body fails in the same way.
pub proof fn lemma_recipe_error_sticks(stmts: Seq<StatementView>, i: int)
    requires
        0 <= i <= stmts.len(),
        recipe_spec(stmts.take(i)) is Err,
    ensures
        recipe_spec(stmts) == recipe_spec(stmts.take(i)),
    decreases stmts.len() - i,
{
    if i == stmts.len() {
        assert(stmts.take(i) =~= stmts);
    } else {
        assert(stmts.take(i + 1).drop_last() =~= stmts.take(i));
        lemma_recipe_error_sticks(stmts, i + 1);
    }
}

/// Once a prefix of a file fails, the file fails in the same way.
pub proof fn lemma_draft_error_sticks(stmts: Seq<StatementView>, envs: Set<Seq<char>>, i: int)
    requires
        0 <= i <= stmts.len(),
        draft_spec(stmts.take(i), envs) is Err,
    ensures
        draft_spec(stmts, envs) == draft_spec(stmts.take(i), envs),
    decreases stmts.len() - i,
{
    if i == stmts.len() {
        assert(stmts.take(i) =~= stmts);
    } else {
        assert(stmts.take(i + 1).drop_last() =~= stmts.take(i));
        lemma_draft_error_sticks(stmts, envs, i + 1);
    }
}

/// Flattening a list that holds no `if` gives the list back.
pub proof fn lemma_flatten_flat(stmts: Seq<StatementView>, envs: Set<Seq<char>>)
    requires
        is_flat(stmts),
    ensures
        flatten_spec(stmts, envs) == stmts,
    decreases stmts.len(),
{
    if stmts.len() > 0 {
        let front = stmts.drop_last();
        lemma_flatten_flat(front, envs);
        assert(flatten_one(stmts.last(), envs) == seq![stmts.last()]);
    }
}

/// What flattening gives holds no `if`.
pub proof fn lemma_flatten_is_flat(stmts: Seq<StatementView>, envs: Set<Seq<char>>)
    ensures
        is_flat(flatten_spec(stmts, envs)),
    decreases stmts, 0nat,
{
    if stmts.len() > 0 {
        let front = flatten_spec(stmts.drop_last(), envs);
        let back = flatten_one(stmts.last(), envs);
        lemma_flatten_is_flat(stmts.drop_last(), envs);
        match stmts.last() {
            StatementView::If(cond, body) => {
                if cond.holds(envs) {
                    lemma_flatten_is_flat(body, envs);
                }
            },
            _ => {},
        }
        assert(is_flat(back));
        assert forall|i: int| 0 <= i < (front + back).len() implies !(#[trigger] (front + back)[i]
            is If) by {
            if i < front.len() {
                assert((front + back)[i] == front[i]);
            } else {
                assert((front + back)[i] == back[i - front.len()]);
            }
        }
    }
}

/// Flattening twice gives what flattening once gives.
pub proof fn lemma_flatten_idempotent(stmts: Seq<StatementView>, envs: Set<Seq<char>>)
    ensures
        flatten_spec(flatten_spec(stmts, envs), envs) == flatten_spec(stmts, envs),
{
    lemma_flatten_is_flat(stmts, envs);
    lemma_flatten_flat(flatten_spec(stmts, envs), envs);
}

/// Resolves the conditionals of a list of statements.
fn flatten_list(body: &Vec<Statement>, envs: &EnvSet) -> (out: Vec<Statement>)
    ensures
        out.deep_view() == flatten_spec(body.deep_view(), set_items(*envs).to_set()),
    decreases body,
{
    let ghost active = set_items(*envs).to_set();
    let ghost all = body.deep_view();
    let mut out: Vec<Statement> = Vec::new();
    let mut i: usize = 0;
    assert(out.deep_view() =~= Seq::empty());
    assert(all.take(0) =~= Seq::empty());
    while i < body.len()
        invariant
            i <= body.len(),
            all == body.deep_view(),
            active == set_items(*envs).to_set(),
            out.deep_view() == flatten_spec(all.take(i as int), active),
        decreases body.len() - i,
    {
        let ghost done = out.deep_view();
        proof {
            assert(all.take(i + 1).drop_last() =~= all.take(i as int));
            assert(all.take(i + 1).last() == body[i as int]@);
            body[i as int].lemma_body_view();
            assert(decreases_to!(body => body[i as int]));
        }
        let ghost piece = flatten_one(body[i as int]@, active);
        assert(flatten_spec(all.take(i + 1), active) == done + piece);
        match &body[i] {
            Statement::If(cond, inner) => {
                if cond.apply(envs) {
                    proof {
                        assert(decreases_to!(body[i as int] => body[i as int]->If_1));
                    }
                    let mut sub = flatten_list(inner, envs);
                    let ghost added = sub.deep_view();
                    assert(added == piece);
                    out.append(&mut sub);
                    assert(out.deep_view() =~= done + added);
                } else {
                    assert(piece == Seq::<StatementView>::empty());
                    assert(done + Seq::<StatementView>::empty() =~= done);
                }
            },
            other => {
                let copy = other.duplicate();
                assert(piece == seq![copy@]);
                out.push(copy);
                assert(out.deep_view() =~= done + seq![copy@]);
            },
        }
        i += 1;
    }
    assert(all.take(i as int) =~= all);
    out
}

/// Resolves the conditionals of a list of statements against the active
/// environments: an `if` whose condition holds gives way to its flattened
/// body, one whose condition does not hold is dropped with its body, and
/// every other statement stays. This cannot fail.
pub fn flatten(body: Vec<Statement>, envs: &EnvSet) -> (r: Result<Vec<Statement>, Error>)
    ensures
        r matches Ok(out) && out.deep_view() == flatten_spec(
            body.deep_view(),
            set_items(*envs).to_set(),
        ),
{
    Ok(flatten_list(&body, envs))
}

/// Folds a flat body into a recipe.
pub fn fold_recipe(flat: &Vec<Statement>) -> (r: Result<Recipe, Error>)
    ensures
        match r {
            Ok(recipe) => recipe_spec(flat.deep_view()) == Ok::<RecipeView, ErrorView>(recipe@),
            Err(e) => recipe_spec(flat.deep_view()) == Err::<RecipeView, ErrorView>(e@),
        },
{
    let ghost all = flat.deep_view();
    let mut recipe = Recipe {
        help: None,
        dir: None,
        commands: Vec::new(),
        vars: map_new(),
        requires: set_new(),
    };
    let mut i: usize = 0;
    assert(recipe.commands.deep_view() =~= Seq::empty());
    while i < flat.len()
        invariant
            i <= flat.len(),
            all == flat.deep_view(),
            recipe_spec(all.take(i as int)) == Ok::<RecipeView, ErrorView>(recipe@),
        decreases flat.len() - i,
    {
        let ghost before = recipe@;
        proof {
            assert(all.take(i + 1).drop_last() =~= all.take(i as int));
            if recipe_step(before, flat[i as int]@) is Err {
                lemma_recipe_error_sticks(all, i + 1);
            }
        }
        match &flat[i] {
            Statement::Help(text) => {
                if recipe.help.is_some() {
                    return Err(Error::DuplicateHelp);
                }
                recipe.help = Some(text.clone());
            },
            Statement::Dir(path) => {
                if recipe.dir.is_some() {
                    return Err(Error::DuplicateDir);
                }
                recipe.dir = Some(path.clone());
            },
            Statement::Var(name, value) => {
                map_insert(&mut recipe.vars, name.clone(), value.clone());
            },
            Statement::Run(command) => {
                let ghost old_commands = recipe.commands.deep_view();
                recipe.commands.push(command.clone());
                assert(recipe.commands.deep_view() =~= old_commands.push(command@));
            },
            Statement::Require(name) => {
                set_insert(&mut recipe.requires, name.clone());
            },
            Statement::If(_, _) => {
                return Err(Error::Misplaced(Construct::If));
            },
            Statement::Version(_) => {
                return Err(Error::Misplaced(Construct::Version));
            },
            Statement::Import(_, _) => {
                return Err(Error::Misplaced(Construct::Import));
            },
            Statement::Recipe(_, _) => {
                return Err(Error::Misplaced(Construct::Recipe));
            },
        }
        i += 1;
    }
    assert(all.take(i as int) =~= all);
    Ok(recipe)
}

/// Compiles the body of a recipe under the active environments: the
/// conditionals are resolved, then `help` and `dir` are taken, each at most
/// once, the variables are set, and the commands and the requirements are
/// collected in order.
pub fn compile_recipe(body: Vec<Statement>, envs: &EnvSet) -> (r: Result<Recipe, Error>)
    ensures
        match r {
            Ok(recipe) => compile_recipe_spec(body.deep_view(), set_items(*envs).to_set()) == Ok::<
                RecipeView,
                ErrorView,
            >(recipe@),
            Err(e) => compile_recipe_spec(body.deep_view(), set_items(*envs).to_set()) == Err::<
                RecipeView,
                ErrorView,
            >(e@),
        },
{
    let flat = flatten_list(&body, envs);
    fold_recipe(&flat)
}

/// A file while it is compiled.
struct Building {
    version: Option<String>,
    includes: Vec<Include>,
    recipes: RecipeMap,
    vars: VarMap,
    dir: Option<String>,
}

impl Building {
    spec fn draft(self) -> Draft {
        Draft {
            version: self.version.deep_view(),
            includes: self.includes.deep_view(),
            recipes: self.recipes@,
            vars: map_entries(self.vars),
            dir: self.dir.deep_view(),
        }
    }
}

/// Folds a flat list of top-level statements into a compiled file.
pub fn fold_file(flat: &Vec<Statement>, envs: &EnvSet) -> (r: Result<Moldfile, Error>)
    ensures
        match r {
            Ok(file) => moldfile_spec(flat.deep_view(), set_items(*envs).to_set()) == Ok::<
                MoldfileView,
                ErrorView,
            >(file@),
            Err(e) => moldfile_spec(flat.deep_view(), set_items(*envs).to_set()) == Err::<
                MoldfileView,
                ErrorView,
            >(e@),
        },
{
    let ghost all = flat.deep_view();
    let ghost active = set_items(*envs).to_set();
    let mut b = Building {
        version: None,
        includes: Vec::new(),
        recipes: RecipeMap::new(),
        vars: map_new(),
        dir: None,
    };
    let mut i: usize = 0;
    assert(b.includes.deep_view() =~= Seq::empty());
    while i < flat.len()
        invariant
            i <= flat.len(),
            all == flat.deep_view(),
            active == set_items(*envs).to_set(),
            draft_spec(all.take(i as int), active) == Ok::<Draft, ErrorView>(b.draft()),
        decreases flat.len() - i,
    {
        let ghost before = b.draft();
        proof {
            assert(all.take(i + 1).drop_last() =~= all.take(i as int));
            if file_step(before, flat[i as int]@, active) is Err {
                lemma_draft_error_sticks(all, active, i + 1);
            }
            flat[i as int].lemma_body_view();
        }
        match &flat[i] {
            Statement::Version(v) => {
                if b.version.is_some() {
                    return Err(Error::DuplicateVersion(v.clone()));
                }
                b.version = Some(v.clone());
            },
            Statement::Help(_) => {},
            Statement::Import(url, prefix) => {
                let ghost old_includes = b.includes.deep_view();
                let import = Include {
                    remote: Remote::parse(url.as_str()),
                    prefix: match prefix {
                        Some(p) => p.clone(),
                        None => String::new(),
                    },
                };
                b.includes.push(import);
                assert(b.includes.deep_view() =~= old_includes.push(import@));
            },
            Statement::Var(name, value) => {
                map_insert(&mut b.vars, name.clone(), value.clone());
            },
            Statement::Recipe(name, body) => {
                let flat_body = flatten_list(body, envs);
                match fold_recipe(&flat_body) {
                    Ok(recipe) => {
                        b.recipes.insert(name.clone(), recipe);
                    },
                    Err(e) => {
                        return Err(e);
                    },
                }
            },
            Statement::Dir(path) => {
                b.dir = Some(path.clone());
            },
            Statement::Require(_) => {
                return Err(Error::Misplaced(Construct::Require));
            },
            Statement::Run(_) => {
                return Err(Error::Misplaced(Construct::Run));
            },
            Statement::If(_, _) => {
                return Err(Error::Misplaced(Construct::If));
            },
        }
        i += 1;
    }
    assert(all.take(i as int) =~= all);
    match b.version {
        None => Err(Error::MissingVersion),
        Some(version) => Ok(
            Moldfile { version, includes: b.includes, recipes: b.recipes, vars: b.vars, dir: b.dir },
        ),
    }
}

/// Compiles a list of top-level statements under the active environments.
/// It fails on the first statement that cannot stand where it stands, on a
/// second `version`, and at the end if there was no `version`.
pub fn compile_statements(stmts: Vec<Statement>, envs: &EnvSet) -> (r: Result<Moldfile, Error>)
    ensures
        match r {
            Ok(file) => compile_statements_spec(stmts.deep_view(), set_items(*envs).to_set())
                == Ok::<MoldfileView, ErrorView>(file@),
            Err(e) => compile_statements_spec(stmts.deep_view(), set_items(*envs).to_set())
                == Err::<MoldfileView, ErrorView>(e@),
        },
{
    let flat = flatten_list(&stmts, envs);
    fold_file(&flat, envs)
}

/// Compiles a configuration text under the active environments.
pub fn compile(code: &str, envs: &EnvSet) -> (r: Result<Moldfile, Error>)
    ensures
        match r {
            Ok(file) => compile_spec(code@, set_items(*envs).to_set()) == Ok::<
                MoldfileView,
                ErrorView,
            >(file@),
            Err(e) => compile_spec(code@, set_items(*envs).to_set()) == Err::<
                MoldfileView,
                ErrorView,
            >(e@),
        },
{
    match parse(code) {
        Ok(stmts) => compile_statements(stmts, envs),
        Err(e) => Err(e),
    }
}

} // verus!
