//! The state of one run: the recipes and variables of the root file and of
//! everything it imports, merged into one namespace.
//!
//! Files are read by the caller; what is done with them is decided here. The
//! caller hands the text of the root file to [`Mold::enter`] and then asks
//! [`Mold::advance`] what is next, until it says [`Step::Done`]. For every
//! [`Step::Load`] the caller brings the named file and hands its text to
//! `enter`. A file's recipes are merged when the file is entered, its
//! imports are loaded next, in order and each with all that it imports, and
//! only then are the file's own variables and its `dir` applied.

use vstd::prelude::*;
use crate::compiler::compile;
use crate::compiler::compile_spec;
use crate::compiler::Include;
use crate::compiler::IncludeView;
use crate::error::Error;
use crate::error::ErrorView;
use crate::ordered::lemma_lookup_with_entry;
use crate::ordered::lookup;
use crate::ordered::map_at;
use crate::ordered::map_clone;
use crate::ordered::map_entries;
use crate::ordered::map_get;
use crate::ordered::map_insert;
use crate::ordered::map_len;
use crate::ordered::map_new;
use crate::ordered::set_at;
use crate::ordered::set_insert;
use crate::ordered::set_items;
use crate::ordered::set_len;
use crate::ordered::set_new;
use crate::ordered::with_entry;
use crate::ordered::with_item;
use crate::ordered::EnvSet;
use crate::ordered::SourceMap;
use crate::ordered::VarMap;
use crate::recipe::copy_option;
use crate::recipe::copy_strings;
use crate::recipe::find;
use crate::recipe::lemma_find_put;
use crate::recipe::put;
use crate::recipe::Recipe;
use crate::recipe::RecipeMap;
use crate::recipe::RecipeView;
use crate::remote::folder_name_spec;
use crate::remote::join_path;
use crate::remote::path_join;
use crate::remote::Remote;
use crate::remote::RemoteView;
use crate::shell::expand;
use crate::shell::shell_expand;
use crate::text::joined;
use crate::text::same_text;
use crate::text::owned;
use crate::version::check_version;
use crate::version::semver_matches;
use crate::version::verdict_spec;

verus! {

/// A file that was entered and whose imports are not all loaded yet.
#[derive(Debug)]
pub struct Frame {
    /// The prefix under which the file's recipes were merged.
    pub prefix: String,
    /// The file's imports.
    pub includes: Vec<Include>,
    /// How many of the imports have been asked for.
    pub next: usize,
    /// The file's own variables, to be applied after its imports.
    pub vars: VarMap,
    /// The file's own `dir`, to be applied after its imports.
    pub dir: Option<String>,
}

/// A [`Frame`] as a specification value.
pub ghost struct FrameView {
    pub prefix: Seq<char>,
    pub includes: Seq<IncludeView>,
    pub next: nat,
    pub vars: Seq<(Seq<char>, Seq<char>)>,
    pub dir: Option<Seq<char>>,
}

impl View for Frame {
    type V = FrameView;

    open spec fn view(&self) -> FrameView {
        FrameView {
            prefix: self.prefix@,
            includes: self.includes.deep_view(),
            next: self.next as nat,
            vars: map_entries(self.vars),
            dir: self.dir.deep_view(),
        }
    }
}

impl DeepView for Frame {
    type V = FrameView;

    open spec fn deep_view(&self) -> FrameView {
        self@
    }
}

/// The whole state of a run.
#[derive(Debug)]
pub struct Mold {
    /// The environments that are active.
    pub envs: EnvSet,
    /// All recipes, under their prefixed names.
    pub recipes: RecipeMap,
    /// For each recipe, the directory of the file that declared it.
    pub sources: SourceMap,
    /// The variables of the files.
    pub vars: VarMap,
    /// The repositories that were imported from, each address and ref once.
    pub remotes: Vec<Remote>,
    /// The directory of the root file.
    pub root_dir: String,
    /// The directory that holds the clones.
    pub mold_dir: String,
    /// The working directory for recipes that name none.
    pub work_dir: Option<String>,
    /// The environment of the host, as it was when the run began.
    pub host: VarMap,
    /// The version of the running tool.
    pub version: String,
    /// The files that are entered and not finished, the innermost last.
    pub pending: Vec<Frame>,
    /// The prefix for the recipes of the file that is entered next.
    pub prefix: String,
}

/// A [`Mold`] as a specification value.
pub ghost struct MoldView {
    pub envs: Seq<Seq<char>>,
    pub recipes: Seq<(Seq<char>, RecipeView)>,
    pub sources: Seq<(Seq<char>, Seq<char>)>,
    pub vars: Seq<(Seq<char>, Seq<char>)>,
    pub remotes: Seq<RemoteView>,
    pub root_dir: Seq<char>,
    pub mold_dir: Seq<char>,
    pub work_dir: Option<Seq<char>>,
    pub host: Seq<(Seq<char>, Seq<char>)>,
    pub version: Seq<char>,
    pub pending: Seq<FrameView>,
    pub prefix: Seq<char>,
}

impl View for Mold {
    type V = MoldView;

    open spec fn view(&self) -> MoldView {
        MoldView {
            envs: set_items(self.envs),
            recipes: self.recipes@,
            sources: map_entries(self.sources),
            vars: map_entries(self.vars),
            remotes: self.remotes.deep_view(),
            root_dir: self.root_dir@,
            mold_dir: self.mold_dir@,
            work_dir: self.work_dir.deep_view(),
            host: map_entries(self.host),
            version: self.version@,
            pending: self.pending.deep_view(),
            prefix: self.prefix@,
        }
    }
}

/// What the caller has to bring next.
#[derive(Debug)]
pub struct Request {
    /// The import to load.
    pub remote: Remote,
    /// The directory that holds, or is to hold, the clone of its repository.
    pub path: String,
    /// Whether this run has asked for the same repository and ref before, so
    /// that the clone is there already.
    pub known: bool,
}

/// A [`Request`] as a specification value.
pub ghost struct RequestView {
    pub remote: RemoteView,
    pub path: Seq<char>,
    pub known: bool,
}

impl View for Request {
    type V = RequestView;

    open spec fn view(&self) -> RequestView {
        RequestView { remote: self.remote@, path: self.path@, known: self.known }
    }
}

/// What [`Mold::advance`] answers.
#[derive(Debug)]
pub enum Step {
    /// A file has to be brought and entered.
    Load(Request),
    /// Everything is merged.
    Done,
}

/// A [`Step`] as a specification value.
pub ghost enum StepView {
    Load(RequestView),
    Done,
}

impl View for Step {
    type V = StepView;

    open spec fn view(&self) -> StepView {
        match self {
            Step::Load(r) => StepView::Load(r@),
            Step::Done => StepView::Done,
        }
    }
}

/// The names of a list with a prefix before each: the items of the set that
/// collects them in order.
pub open spec fn prefixed(names: Seq<Seq<char>>, prefix: Seq<char>) -> Seq<Seq<char>>
    decreases names.len(),
{
    if names.len() == 0 {
        Seq::empty()
    } else {
        with_item(prefixed(names.drop_last(), prefix), prefix + names.last())
    }
}

/// A recipe as it is merged under a prefix: what it requires gets the prefix
/// too.
pub open spec fn adopt_spec(r: RecipeView, prefix: Seq<char>) -> RecipeView {
    RecipeView {
        help: r.help,
        dir: r.dir,
        commands: r.commands,
        vars: r.vars,
        requires: prefixed(r.requires, prefix),
    }
}

/// The recipes after those of a file are merged under a prefix. A name that
/// is taken keeps the recipe it has.
pub open spec fn merge_recipes(
    recipes: Seq<(Seq<char>, RecipeView)>,
    incoming: Seq<(Seq<char>, RecipeView)>,
    prefix: Seq<char>,
) -> Seq<(Seq<char>, RecipeView)>
    decreases incoming.len(),
{
    if incoming.len() == 0 {
        recipes
    } else {
        let before = merge_recipes(recipes, incoming.drop_last(), prefix);
        let key = prefix + incoming.last().0;
        if find(before, key) is Some {
            before
        } else {
            put(before, key, adopt_spec(incoming.last().1, prefix))
        }
    }
}

/// The sources after the recipes of a file in `dir` are merged under a
/// prefix. A name that has a source keeps it.
pub open spec fn merge_sources(
    sources: Seq<(Seq<char>, Seq<char>)>,
    incoming: Seq<(Seq<char>, RecipeView)>,
    prefix: Seq<char>,
    dir: Seq<char>,
) -> Seq<(Seq<char>, Seq<char>)>
    decreases incoming.len(),
{
    if incoming.len() == 0 {
        sources
    } else {
        let before = merge_sources(sources, incoming.drop_last(), prefix, dir);
        let key = prefix + incoming.last().0;
        if lookup(before, key) is Some {
            before
        } else {
            with_entry(before, key, dir)
        }
    }
}

/// The state after the text of a file, found in `dir`, is entered: the file
/// is compiled under the active environments, its version requirement is
/// checked, its recipes are merged under the prefix that is due, and the
/// file is put on top of the pending ones.
pub open spec fn enter_spec(m: MoldView, code: Seq<char>, dir: Seq<char>) -> Result<
    MoldView,
    ErrorView,
> {
    match compile_spec(code, m.envs.to_set()) {
        Err(e) => Err(e),
        Ok(file) => match verdict_spec(semver_matches(file.version, m.version)) {
            Err(e) => Err(e),
            Ok(()) => Ok(
                MoldView {
                    envs: m.envs,
                    recipes: merge_recipes(m.recipes, file.recipes, m.prefix),
                    sources: merge_sources(m.sources, file.recipes, m.prefix, dir),
                    vars: m.vars,
                    remotes: m.remotes,
                    root_dir: m.root_dir,
                    mold_dir: m.mold_dir,
                    work_dir: m.work_dir,
                    host: m.host,
                    version: m.version,
                    pending: m.pending.push(
                        FrameView {
                            prefix: m.prefix,
                            includes: file.includes,
                            next: 0,
                            vars: file.vars,
                            dir: file.dir,
                        },
                    ),
                    prefix: m.prefix,
                },
            ),
        },
    }
}

/// The variables after those of a file are applied in order: each value is
/// expanded against the variables as they stand, then set.
pub open spec fn apply_vars(
    vars: Seq<(Seq<char>, Seq<char>)>,
    own: Seq<(Seq<char>, Seq<char>)>,
    host: Seq<(Seq<char>, Seq<char>)>,
) -> Seq<(Seq<char>, Seq<char>)>
    decreases own.len(),
{
    if own.len() == 0 {
        vars
    } else {
        let before = apply_vars(vars, own.drop_last(), host);
        with_entry(before, own.last().0, shell_expand(own.last().1, before, host))
    }
}

/// Whether a repository and ref are among the remotes.
pub open spec fn knows(remotes: Seq<RemoteView>, url: Seq<char>, ref_: Seq<char>) -> bool {
    exists|i: int| 0 <= i < remotes.len() && remotes[i].url == url && remotes[i].ref_ == ref_
}

/// The remotes after one more import: a repository and ref that are there
/// stay as they are, others are added at the end.
pub open spec fn with_remote(remotes: Seq<RemoteView>, r: RemoteView) -> Seq<RemoteView> {
    if knows(remotes, r.url, r.ref_) {
        remotes
    } else {
        remotes.push(r)
    }
}

/// The state after the innermost pending file is finished: its variables
/// are applied, then its `dir`, if it has one, becomes the working directory.
pub open spec fn close_spec(m: MoldView) -> MoldView
    recommends
        m.pending.len() > 0,
{
    let top = m.pending.last();
    let vars = apply_vars(m.vars, top.vars, m.host);
    MoldView {
        envs: m.envs,
        recipes: m.recipes,
        sources: m.sources,
        vars,
        remotes: m.remotes,
        root_dir: m.root_dir,
        mold_dir: m.mold_dir,
        work_dir: match top.dir {
            Some(rel) => Some(path_join(m.root_dir, shell_expand(rel, vars, m.host))),
            None => m.work_dir,
        },
        host: m.host,
        version: m.version,
        pending: m.pending.drop_last(),
        prefix: m.prefix,
    }
}

/// The state after the next import of the innermost pending file is asked
/// for, with the request.
pub open spec fn load_spec(m: MoldView) -> (MoldView, StepView)
    recommends
        m.pending.len() > 0,
        m.pending.last().next < m.pending.last().includes.len(),
{
    let top = m.pending.last();
    let import = top.includes[top.next as int];
    (
        MoldView {
            envs: m.envs,
            recipes: m.recipes,
            sources: m.sources,
            vars: m.vars,
            remotes: with_remote(m.remotes, import.remote),
            root_dir: m.root_dir,
            mold_dir: m.mold_dir,
            work_dir: m.work_dir,
            host: m.host,
            version: m.version,
            pending: m.pending.drop_last().push(
                FrameView {
                    prefix: top.prefix,
                    includes: top.includes,
                    next: top.next + 1,
                    vars: top.vars,
                    dir: top.dir,
                },
            ),
            prefix: top.prefix + import.prefix,
        },
        StepView::Load(
            RequestView {
                remote: import.remote,
                path: path_join(
                    m.mold_dir,
                    folder_name_spec(import.remote.url, import.remote.ref_),
                ),
                known: knows(m.remotes, import.remote.url, import.remote.ref_),
            },
        ),
    )
}

/// What is next, and the state after it is decided: pending files that have
/// no import left are finished, the innermost first, until one has an import
/// to load or none is pending.
pub open spec fn advance_spec(m: MoldView) -> (MoldView, StepView)
    decreases m.pending.len(),
{
    if m.pending.len() == 0 {
        (m, StepView::Done)
    } else if m.pending.last().next < m.pending.last().includes.len() {
        load_spec(m)
    } else {
        advance_spec(close_spec(m))
    }
}

/// The environments of a list, as the set that collects them in order.
pub open spec fn collected(names: Seq<Seq<char>>) -> Seq<Seq<char>>
    decreases names.len(),
{
    if names.len() == 0 {
        Seq::empty()
    } else {
        with_item(collected(names.drop_last()), names.last())
    }
}

/// The state in which a run begins.
pub open spec fn new_spec(
    envs: Seq<Seq<char>>,
    root_dir: Seq<char>,
    mold_dir: Seq<char>,
    host: Seq<(Seq<char>, Seq<char>)>,
    version: Seq<char>,
) -> MoldView {
    MoldView {
        envs: collected(envs),
        recipes: Seq::empty(),
        sources: Seq::empty(),
        vars: with_entry(
            with_entry(Seq::empty(), "MOLD_ROOT"@, root_dir),
            "MOLD_DIR"@,
            mold_dir,
        ),
        remotes: Seq::empty(),
        root_dir,
        mold_dir,
        work_dir: None,
        host,
        version,
        pending: Seq::empty(),
        prefix: Seq::empty(),
    }
}

/// A recipe as it is merged under a prefix.
pub fn adopt(recipe: &Recipe, prefix: &str) -> (r: Recipe)
    ensures
        r@ == adopt_spec(recipe@, prefix@),
{
    let ghost names = set_items(recipe.requires);
    let mut needs = set_new();
    let n = set_len(&recipe.requires);
    let mut i: usize = 0;
    while i < n
        invariant
            i <= n,
            n == names.len(),
            names == set_items(recipe.requires),
            set_items(needs) == prefixed(names.take(i as int), prefix@),
        decreases n - i,
    {
        proof {
            assert(names.take(i + 1).drop_last() =~= names.take(i as int));
        }
        match set_at(&recipe.requires, i) {
            Some(name) => {
                set_insert(&mut needs, joined(prefix, name.as_str()));
            },
            None => {},
        }
        i += 1;
    }
    assert(names.take(n as int) =~= names);
    Recipe {
        help: copy_option(&recipe.help),
        dir: copy_option(&recipe.dir),
        commands: copy_strings(&recipe.commands),
        vars: map_clone(&recipe.vars),
        requires: needs,
    }
}

impl Mold {
    /// The state in which a run begins: nothing is merged, and the variables
    /// `MOLD_ROOT` and `MOLD_DIR` name the two directories.
    pub fn new(envs: Vec<String>, root_dir: String, mold_dir: String, host: VarMap, version: String) -> (r:
        Mold)
        ensures
            r@ == new_spec(envs.deep_view(), root_dir@, mold_dir@, map_entries(host), version@),
    {
        let ghost names = envs.deep_view();
        let mut active = set_new();
        let mut i: usize = 0;
        while i < envs.len()
            invariant
                i <= envs.len(),
                names == envs.deep_view(),
                set_items(active) == collected(names.take(i as int)),
            decreases envs.len() - i,
        {
            proof {
                assert(names.take(i + 1).drop_last() =~= names.take(i as int));
            }
            set_insert(&mut active, envs[i].clone());
            i += 1;
        }
        assert(names.take(i as int) =~= names);
        let mut vars = map_new();
        map_insert(&mut vars, owned("MOLD_ROOT"), root_dir.clone());
        map_insert(&mut vars, owned("MOLD_DIR"), mold_dir.clone());
        let remotes: Vec<Remote> = Vec::new();
        let pending: Vec<Frame> = Vec::new();
        assert(remotes.deep_view() =~= Seq::empty());
        assert(pending.deep_view() =~= Seq::empty());
        Mold {
            envs: active,
            recipes: RecipeMap::new(),
            sources: map_new(),
            vars,
            remotes,
            root_dir,
            mold_dir,
            work_dir: None,
            host,
            version,
            pending,
            prefix: String::new(),
        }
    }

    /// Merges the recipes of a compiled file under the prefix that is due,
    /// and records `dir` as the source of each that is new.
    fn merge(&mut self, incoming: &RecipeMap, dir: &str)
        ensures
            final(self)@.recipes == merge_recipes(old(self)@.recipes, incoming@, old(self)@.prefix),
            final(self)@.sources == merge_sources(
                old(self)@.sources,
                incoming@,
                old(self)@.prefix,
                dir@,
            ),
            final(self)@.envs == old(self)@.envs,
            final(self)@.vars == old(self)@.vars,
            final(self)@.remotes == old(self)@.remotes,
            final(self)@.root_dir == old(self)@.root_dir,
            final(self)@.mold_dir == old(self)@.mold_dir,
            final(self)@.work_dir == old(self)@.work_dir,
            final(self)@.host == old(self)@.host,
            final(self)@.version == old(self)@.version,
            final(self)@.pending == old(self)@.pending,
            final(self)@.prefix == old(self)@.prefix,
    {
        let ghost start = self@;
        let ghost all = incoming@;
        let n = incoming.len();
        let mut i: usize = 0;
        while i < n
            invariant
                i <= n,
                n == all.len(),
                all == incoming@,
                self@.recipes == merge_recipes(start.recipes, all.take(i as int), start.prefix),
                self@.sources == merge_sources(
                    start.sources,
                    all.take(i as int),
                    start.prefix,
                    dir@,
                ),
                self@.envs == start.envs,
                self@.vars == start.vars,
                self@.remotes == start.remotes,
                self@.root_dir == start.root_dir,
                self@.mold_dir == start.mold_dir,
                self@.work_dir == start.work_dir,
                self@.host == start.host,
                self@.version == start.version,
                self@.pending == start.pending,
                self@.prefix == start.prefix,
            decreases n - i,
        {
            proof {
                assert(all.take(i + 1).drop_last() =~= all.take(i as int));
            }
            let name = incoming.name_at(i);
            let recipe = incoming.recipe_at(i);
            let key = joined(self.prefix.as_str(), name.as_str());
            let adopted = adopt(recipe, self.prefix.as_str());
            self.recipes.insert_if_absent(key.clone(), adopted);
            if map_get(&self.sources, key.as_str()).is_none() {
                map_insert(&mut self.sources, key, owned(dir));
            }
            i += 1;
        }
        assert(all.take(n as int) =~= all);
    }

    /// Takes in the text of the file that is due: the root file first, then
    /// the file of each request. On failure nothing has changed.
    pub fn enter(&mut self, code: &str, dir: &str) -> (r: Result<(), Error>)
        ensures
            match r {
                Ok(()) => enter_spec(old(self)@, code@, dir@) == Ok::<MoldView, ErrorView>(
                    final(self)@,
                ),
                Err(e) => enter_spec(old(self)@, code@, dir@) == Err::<MoldView, ErrorView>(e@)
                    && final(self)@ == old(self)@,
            },
    {
        let file = match compile(code, &self.envs) {
            Ok(file) => file,
            Err(e) => {
                return Err(e);
            },
        };
        match check_version(file.version.as_str(), self.version.as_str()) {
            Ok(()) => {},
            Err(e) => {
                return Err(e);
            },
        }
        self.merge(&file.recipes, dir);
        let ghost before = self.pending.deep_view();
        let frame = Frame {
            prefix: self.prefix.clone(),
            includes: file.includes,
            next: 0,
            vars: file.vars,
            dir: file.dir,
        };
        self.pending.push(frame);
        assert(self.pending.deep_view() =~= before.push(frame@));
        Ok(())
    }
}

impl Mold {
    /// Whether a repository and ref are among the remotes.
    fn is_known(&self, url: &str, ref_: &str) -> (r: bool)
        ensures
            r == knows(self@.remotes, url@, ref_@),
    {
        let mut i: usize = 0;
        while i < self.remotes.len()
            invariant
                i <= self.remotes.len(),
                forall|j: int|
                    0 <= j < i ==> !(self@.remotes[j].url == url@ && self@.remotes[j].ref_
                        == ref_@),
            decreases self.remotes.len() - i,
        {
            if same_text(self.remotes[i].url.as_str(), url) && same_text(
                self.remotes[i].ref_.as_str(),
                ref_,
            ) {
                assert(self@.remotes[i as int] == self.remotes[i as int]@);
                return true;
            }
            i += 1;
        }
        false
    }

    /// Finishes the innermost pending file.
    fn close(&mut self)
        requires
            old(self).pending.len() > 0,
        ensures
            final(self)@ == close_spec(old(self)@),
    {
        let ghost start = self@;
        let frame = self.pending.pop().unwrap();
        let ghost own = map_entries(frame.vars);
        let n = map_len(&frame.vars);
        let mut i: usize = 0;
        while i < n
            invariant
                i <= n,
                n == own.len(),
                own == map_entries(frame.vars),
                self@.vars == apply_vars(start.vars, own.take(i as int), start.host),
                self@.envs == start.envs,
                self@.recipes == start.recipes,
                self@.sources == start.sources,
                self@.remotes == start.remotes,
                self@.root_dir == start.root_dir,
                self@.mold_dir == start.mold_dir,
                self@.work_dir == start.work_dir,
                self@.host == start.host,
                self@.version == start.version,
                self@.pending == start.pending.drop_last(),
                self@.prefix == start.prefix,
            decreases n - i,
        {
            proof {
                assert(own.take(i + 1).drop_last() =~= own.take(i as int));
            }
            match map_at(&frame.vars, i) {
                Some((name, value)) => {
                    let expanded = expand(value.as_str(), &self.vars, &self.host);
                    map_insert(&mut self.vars, name.clone(), expanded);
                },
                None => {},
            }
            i += 1;
        }
        assert(own.take(n as int) =~= own);
        match &frame.dir {
            Some(rel) => {
                let expanded = expand(rel.as_str(), &self.vars, &self.host);
                self.work_dir = Some(join_path(self.root_dir.as_str(), expanded.as_str()));
            },
            None => {},
        }
    }

    /// Asks for the next import of the innermost pending file.
    fn load(&mut self) -> (request: Request)
        requires
            old(self).pending.len() > 0,
            old(self)@.pending.last().next < old(self)@.pending.last().includes.len(),
        ensures
            (final(self)@, StepView::Load(request@)) == load_spec(old(self)@),
    {
        let ghost stack = self.pending.deep_view();
        let mut frame = self.pending.pop().unwrap();
        assert(self.pending.deep_view() =~= stack.drop_last());
        let remote = frame.includes[frame.next].remote.duplicate();
        self.prefix = joined(frame.prefix.as_str(), frame.includes[frame.next].prefix.as_str());
        assert(frame.includes.deep_view().len() == frame.includes.len());
        frame.next = frame.next + 1;
        let ghost popped = self.pending.deep_view();
        self.pending.push(frame);
        assert(self.pending.deep_view() =~= popped.push(frame@));
        let known = self.is_known(remote.url.as_str(), remote.ref_.as_str());
        if !known {
            let ghost before = self.remotes.deep_view();
            let copy = remote.duplicate();
            self.remotes.push(copy);
            assert(self.remotes.deep_view() =~= before.push(copy@));
        }
        let path = remote.path(self.mold_dir.as_str());
        Request { remote, path, known }
    }

    /// Says what the caller has to do next. Files without an import left
    /// are finished on the way: their variables are applied, in the order in
    /// which they were declared, and their `dir`.
    pub fn advance(&mut self) -> (step: Step)
        ensures
            (final(self)@, step@) == advance_spec(old(self)@),
    {
        loop
            invariant
                advance_spec(self@) == advance_spec(old(self)@),
            decreases self.pending.len(),
        {
            if self.pending.len() == 0 {
                return Step::Done;
            }
            let last = self.pending.len() - 1;
            if self.pending[last].next < self.pending[last].includes.len() {
                let request = self.load();
                return Step::Load(request);
            }
            let ghost before = self.pending.deep_view();
            self.close();
            assert(self.pending.deep_view() == before.drop_last());
        }
    }

    /// Looks a recipe up by its name.
    pub fn recipe(&self, name: &str) -> (r: Result<&Recipe, Error>)
        ensures
            match r {
                Ok(recipe) => find(self@.recipes, name@) == Some(recipe@),
                Err(e) => find(self@.recipes, name@) is None && e@ == ErrorView::UnknownRecipe(
                    name@,
                ),
            },
    {
        match self.recipes.get(name) {
            Some(recipe) => Ok(recipe),
            None => Err(Error::UnknownRecipe(owned(name))),
        }
    }
}

/// Merging the recipes of a file never touches a name that is taken: the
/// recipe that was there first stays.
pub proof fn lemma_merge_keeps_recipes(
    recipes: Seq<(Seq<char>, RecipeView)>,
    incoming: Seq<(Seq<char>, RecipeView)>,
    prefix: Seq<char>,
    name: Seq<char>,
)
    requires
        find(recipes, name) is Some,
    ensures
        find(merge_recipes(recipes, incoming, prefix), name) == find(recipes, name),
    decreases incoming.len(),
{
    if incoming.len() > 0 {
        let before = merge_recipes(recipes, incoming.drop_last(), prefix);
        lemma_merge_keeps_recipes(recipes, incoming.drop_last(), prefix, name);
        let key = prefix + incoming.last().0;
        if find(before, key) is None {
            lemma_find_put(before, key, adopt_spec(incoming.last().1, prefix), name);
        }
    }
}

/// A recipe that is in the table when a file is entered is still there
/// afterwards, unchanged, whatever the file declares: a recipe that the root
/// file or an importing file declares is never replaced by one that an
/// import brings.
pub proof fn lemma_enter_keeps_recipes(m: MoldView, code: Seq<char>, dir: Seq<char>, name: Seq<char>)
    requires
        find(m.recipes, name) is Some,
        enter_spec(m, code, dir) is Ok,
    ensures
        find(enter_spec(m, code, dir)->Ok_0.recipes, name) == find(m.recipes, name),
{
    let file = compile_spec(code, m.envs.to_set())->Ok_0;
    lemma_merge_keeps_recipes(m.recipes, file.recipes, m.prefix, name);
}

/// Asking for the next import changes no recipe.
pub proof fn lemma_advance_keeps_recipes(m: MoldView)
    ensures
        advance_spec(m).0.recipes == m.recipes,
    decreases m.pending.len(),
{
    if m.pending.len() > 0 && !(m.pending.last().next < m.pending.last().includes.len()) {
        lemma_advance_keeps_recipes(close_spec(m));
    }
}

/// A repository and ref that are among the remotes stay among them.
pub proof fn lemma_advance_keeps_remotes(m: MoldView, url: Seq<char>, ref_: Seq<char>)
    requires
        knows(m.remotes, url, ref_),
    ensures
        knows(advance_spec(m).0.remotes, url, ref_),
    decreases m.pending.len(),
{
    if m.pending.len() > 0 {
        let top = m.pending.last();
        if top.next < top.includes.len() {
            let after = with_remote(m.remotes, top.includes[top.next as int].remote);
            let i = choose|i: int|
                0 <= i < m.remotes.len() && m.remotes[i].url == url && m.remotes[i].ref_ == ref_;
            assert(after[i] == m.remotes[i]);
        } else {
            lemma_advance_keeps_remotes(close_spec(m), url, ref_);
        }
    }
}

/// Once a file of a repository at a ref is asked for, the repository and the
/// ref are among the remotes, so every later request for them in the same
/// run says that they are known and names the same directory: one run makes
/// at most one clone of a repository at a ref.
pub proof fn lemma_request_records_remote(m: MoldView)
    ensures
        advance_spec(m).1 matches StepView::Load(request) ==> {
            &&& knows(advance_spec(m).0.remotes, request.remote.url, request.remote.ref_)
            &&& request.known == knows(m.remotes, request.remote.url, request.remote.ref_)
            &&& request.path == path_join(
                m.mold_dir,
                folder_name_spec(request.remote.url, request.remote.ref_),
            )
        },
        advance_spec(m).0.mold_dir == m.mold_dir,
    decreases m.pending.len(),
{
    if m.pending.len() > 0 {
        let top = m.pending.last();
        if top.next < top.includes.len() {
            let import = top.includes[top.next as int];
            let after = with_remote(m.remotes, import.remote);
            if !knows(m.remotes, import.remote.url, import.remote.ref_) {
                assert(after[m.remotes.len() as int] == import.remote);
            }
        } else {
            lemma_request_records_remote(close_spec(m));
        }
    }
}

/// The paths at which the configuration file of a directory is looked for,
/// in order: the file that is named, or else the default names.
pub open spec fn candidates_spec(dir: Seq<char>, file: Option<Seq<char>>) -> Seq<Seq<char>> {
    match file {
        Some(name) => seq![path_join(dir, name)],
        None => seq![path_join(dir, "moldfile"@), path_join(dir, "Moldfile"@)],
    }
}

impl Mold {
    /// The paths at which the configuration file of a directory is looked
    /// for, in order. The first that is a file is the one to read; if none
    /// is, the directory has no configuration.
    pub fn candidates(dir: &str, file: &Option<String>) -> (r: Vec<String>)
        ensures
            r.deep_view() == candidates_spec(dir@, file.deep_view()),
    {
        let mut out: Vec<String> = Vec::new();
        match file {
            Some(name) => {
                out.push(join_path(dir, name.as_str()));
            },
            None => {
                out.push(join_path(dir, "moldfile"));
                out.push(join_path(dir, "Moldfile"));
            },
        }
        out
    }
}

/// A file's own variables win: after they are applied, each name that the
/// file sets holds what the file's last statement for that name gave it,
/// expanded against the variables as they stood at that statement, whatever
/// the imports had set.
pub proof fn lemma_own_variables_win(
    vars: Seq<(Seq<char>, Seq<char>)>,
    own: Seq<(Seq<char>, Seq<char>)>,
    host: Seq<(Seq<char>, Seq<char>)>,
    i: int,
)
    requires
        0 <= i < own.len(),
        forall|j: int| i < j < own.len() ==> (#[trigger] own[j]).0 != own[i].0,
    ensures
        lookup(apply_vars(vars, own, host), own[i].0) == Some(
            shell_expand(own[i].1, apply_vars(vars, own.take(i), host), host),
        ),
    decreases own.len(),
{
    let front = own.drop_last();
    let before = apply_vars(vars, front, host);
    let last = own.last();
    lemma_lookup_with_entry(before, last.0, shell_expand(last.1, before, host), own[i].0);
    if i < own.len() - 1 {
        lemma_own_variables_win(vars, front, host, i);
        assert(front.take(i) =~= own.take(i));
    }
}

} // verus!
