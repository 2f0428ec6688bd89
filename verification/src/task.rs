//! Tasks: recipes made ready to run.

use vstd::prelude::*;
use crate::error::Error;
use crate::error::ErrorView;
use crate::resolve::Mold;
use crate::resolve::MoldView;
use crate::ordered::lookup;
use crate::ordered::map_at;
use crate::ordered::map_clone;
use crate::ordered::map_entries;
use crate::ordered::map_get;
use crate::ordered::map_insert;
use crate::ordered::map_len;
use crate::ordered::with_entry;
use crate::ordered::VarMap;
use crate::recipe::copy_option;
use crate::recipe::find;
use crate::remote::join_path;
use crate::remote::path_join;
use crate::shell::add_command;
use crate::shell::build_args;
use crate::shell::expand;
use crate::shell::shell_expand;
use crate::shell::shell_split;
use crate::shell::with_command;
use crate::text::owned;

verus! {

/// A recipe made ready to run.
#[derive(Debug)]
pub struct Task {
    /// The name of the recipe.
    pub name: String,
    /// The commands, each as the words to start a process with.
    pub commands: Vec<Vec<String>>,
    /// The directory to run them in, if any is set.
    pub work_dir: Option<String>,
    /// The variables to hand to the processes.
    pub vars: VarMap,
}

/// A [`Task`] as a specification value.
pub ghost struct TaskView {
    pub name: Seq<char>,
    pub commands: Seq<Seq<Seq<char>>>,
    pub work_dir: Option<Seq<char>>,
    pub vars: Seq<(Seq<char>, Seq<char>)>,
}

impl View for Task {
    type V = TaskView;

    open spec fn view(&self) -> TaskView {
        TaskView {
            name: self.name@,
            commands: self.commands.deep_view(),
            work_dir: self.work_dir.deep_view(),
            vars: map_entries(self.vars),
        }
    }
}

/// `base` with every variable of `over` set on top of it, in order.
pub open spec fn overlay(base: Seq<(Seq<char>, Seq<char>)>, over: Seq<(Seq<char>, Seq<char>)>) -> Seq<
    (Seq<char>, Seq<char>),
>
    decreases over.len(),
{
    if over.len() == 0 {
        base
    } else {
        with_entry(overlay(base, over.drop_last()), over.last().0, over.last().1)
    }
}

/// The variables of a task: those of the files, then those of the recipe,
/// then `MOLD_SOURCE` with the directory the recipe comes from.
pub open spec fn task_vars(
    vars: Seq<(Seq<char>, Seq<char>)>,
    local: Seq<(Seq<char>, Seq<char>)>,
    source: Seq<char>,
) -> Seq<(Seq<char>, Seq<char>)> {
    with_entry(overlay(vars, local), "MOLD_SOURCE"@, source)
}

/// The commands of a task: each command line expanded and split, the lines
/// without words left out. The first line that cannot be split fails.
pub open spec fn task_commands(
    lines: Seq<Seq<char>>,
    vars: Seq<(Seq<char>, Seq<char>)>,
    host: Seq<(Seq<char>, Seq<char>)>,
) -> Result<Seq<Seq<Seq<char>>>, ErrorView>
    decreases lines.len(),
{
    if lines.len() == 0 {
        Ok(Seq::empty())
    } else {
        match task_commands(lines.drop_last(), vars, host) {
            Err(e) => Err(e),
            Ok(done) => with_command(done, shell_split(shell_expand(lines.last(), vars, host))),
        }
    }
}

/// Once a prefix of the command lines fails, all of them fail in the same
/// way.
pub proof fn lemma_commands_error_sticks(
    lines: Seq<Seq<char>>,
    vars: Seq<(Seq<char>, Seq<char>)>,
    host: Seq<(Seq<char>, Seq<char>)>,
    i: int,
)
    requires
        0 <= i <= lines.len(),
        task_commands(lines.take(i), vars, host) is Err,
    ensures
        task_commands(lines, vars, host) == task_commands(lines.take(i), vars, host),
    decreases lines.len() - i,
{
    if i == lines.len() {
        assert(lines.take(i) =~= lines);
    } else {
        assert(lines.take(i + 1).drop_last() =~= lines.take(i));
        lemma_commands_error_sticks(lines, vars, host, i + 1);
    }
}

/// The task that a recipe name stands for in a state.
pub open spec fn build_task_spec(m: MoldView, name: Seq<char>) -> Result<TaskView, ErrorView> {
    match find(m.recipes, name) {
        None => Err(ErrorView::UnknownRecipe(name)),
        Some(recipe) => match lookup(m.sources, name) {
            None => Err(ErrorView::UnknownSource(name)),
            Some(source) => {
                let vars = task_vars(m.vars, recipe.vars, source);
                match task_commands(recipe.commands, vars, m.host) {
                    Err(e) => Err(e),
                    Ok(commands) => Ok(
                        TaskView {
                            name,
                            commands,
                            work_dir: match recipe.dir {
                                Some(rel) => Some(
                                    path_join(m.root_dir, shell_expand(rel, vars, m.host)),
                                ),
                                None => m.work_dir,
                            },
                            vars,
                        },
                    ),
                }
            },
        },
    }
}

/// Sets every variable of `over` on top of `base`.
pub fn overlaid(base: &VarMap, over: &VarMap) -> (r: VarMap)
    ensures
        map_entries(r) == overlay(map_entries(*base), map_entries(*over)),
{
    let ghost top = map_entries(*over);
    let mut out = map_clone(base);
    let n = map_len(over);
    let mut i: usize = 0;
    while i < n
        invariant
            i <= n,
            n == top.len(),
            top == map_entries(*over),
            map_entries(out) == overlay(map_entries(*base), top.take(i as int)),
        decreases n - i,
    {
        proof {
            assert(top.take(i + 1).drop_last() =~= top.take(i as int));
        }
        match map_at(over, i) {
            Some((name, value)) => {
                map_insert(&mut out, name.clone(), value.clone());
            },
            None => {},
        }
        i += 1;
    }
    assert(top.take(n as int) =~= top);
    out
}

impl Mold {
    /// Makes the task of a recipe. The recipe has to be known and to have a
    /// recorded source. Its variables are those of the files, overridden by
    /// its own, with `MOLD_SOURCE` added. Each of its command lines is
    /// expanded and split into words; a line that leaves no word is left
    /// out. Its `dir`, expanded, is taken under the root directory; a recipe
    /// without `dir` runs in the working directory of the files.
    pub fn build_task(&self, name: &str) -> (r: Result<Task, Error>)
        ensures
            match r {
                Ok(task) => build_task_spec(self@, name@) == Ok::<TaskView, ErrorView>(task@),
                Err(e) => build_task_spec(self@, name@) == Err::<TaskView, ErrorView>(e@),
            },
    {
        let recipe = match self.recipe(name) {
            Ok(recipe) => recipe,
            Err(e) => {
                return Err(e);
            },
        };
        let source = match map_get(&self.sources, name) {
            Some(source) => source,
            None => {
                return Err(Error::UnknownSource(owned(name)));
            },
        };
        let mut vars = overlaid(&self.vars, &recipe.vars);
        map_insert(&mut vars, owned("MOLD_SOURCE"), source.clone());
        let ghost lines = recipe.commands.deep_view();
        let ghost v = map_entries(vars);
        let ghost h = map_entries(self.host);
        let mut commands: Vec<Vec<String>> = Vec::new();
        let mut i: usize = 0;
        assert(commands.deep_view() =~= Seq::empty());
        while i < recipe.commands.len()
            invariant
                i <= recipe.commands.len(),
                lines == recipe.commands.deep_view(),
                v == map_entries(vars),
                h == map_entries(self.host),
                find(self@.recipes, name@) == Some(recipe@),
                lookup(self@.sources, name@) == Some(source@),
                v == task_vars(self@.vars, recipe@.vars, source@),
                task_commands(lines.take(i as int), v, h) == Ok::<
                    Seq<Seq<Seq<char>>>,
                    ErrorView,
                >(commands.deep_view()),
            decreases recipe.commands.len() - i,
        {
            proof {
                assert(lines.take(i + 1).drop_last() =~= lines.take(i as int));
            }
            let words = build_args(recipe.commands[i].as_str(), &vars, &self.host);
            match add_command(&mut commands, words) {
                Ok(()) => {},
                Err(e) => {
                    proof {
                        lemma_commands_error_sticks(lines, v, h, i + 1);
                    }
                    return Err(e);
                },
            }
            i += 1;
        }
        assert(lines.take(i as int) =~= lines);
        let work_dir = match &recipe.dir {
            Some(rel) => {
                let expanded = expand(rel.as_str(), &vars, &self.host);
                Some(join_path(self.root_dir.as_str(), expanded.as_str()))
            },
            None => copy_option(&self.work_dir),
        };
        Ok(Task { name: owned(name), commands, work_dir, vars })
    }
}

} // verus!
