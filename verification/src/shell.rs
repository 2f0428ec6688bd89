//! Shell-style expansion of variables and splitting of command lines.
//!
//! Both are done by outside crates, `shellexpand` and `shell_words`. What
//! they return is named here, not described: the library states what it
//! hands to them and what it does with what comes back.

use vstd::prelude::*;
use crate::error::Error;
use crate::error::ErrorView;
use crate::ordered::lookup;
use crate::ordered::map_entries;
use crate::ordered::map_get;
use crate::ordered::VarMap;

verus! {

/// `shell_words::ParseError`, declared so that a result can carry it. Nothing
/// is said of what it holds.
#[verifier::external_type_specification]
#[verifier::external_body]
pub struct ExShellParseError(shell_words::ParseError);

/// The text that `shellexpand::env_with_context_no_errors` makes of `text`
/// when every variable `$NAME` or `${NAME}` in it is looked up first in
/// `vars`, then in `host`, and stands for the empty string if neither has it.
pub uninterp spec fn shell_expand(
    text: Seq<char>,
    vars: Seq<(Seq<char>, Seq<char>)>,
    host: Seq<(Seq<char>, Seq<char>)>,
) -> Seq<char>;

/// The words that `shell_words::split` makes of a command line, or `None`
/// where it reports a quote that is not closed.
pub uninterp spec fn shell_split(line: Seq<char>) -> Option<Seq<Seq<char>>>;

/// The value of a variable: what the recipe or the files say, else what the
/// host's environment says, else nothing.
pub open spec fn resolve_spec(
    vars: Seq<(Seq<char>, Seq<char>)>,
    host: Seq<(Seq<char>, Seq<char>)>,
    name: Seq<char>,
) -> Seq<char> {
    match lookup(vars, name) {
        Some(value) => value,
        None => match lookup(host, name) {
            Some(value) => value,
            None => Seq::empty(),
        },
    }
}

/// Looks a variable up for an expansion.
pub fn resolve(vars: &VarMap, host: &VarMap, name: &str) -> (value: String)
    ensures
        value@ == resolve_spec(map_entries(*vars), map_entries(*host), name@),
{
    match map_get(vars, name) {
        Some(value) => value.clone(),
        None => match map_get(host, name) {
            Some(value) => value.clone(),
            None => String::new(),
        },
    }
}

/// Expands the variables of a text with
/// `shellexpand::env_with_context_no_errors`, which asks [`resolve`] for each
/// of them. The result depends on the text and the two maps alone.
#[verifier::external_body]
pub(crate) fn expand(text: &str, vars: &VarMap, host: &VarMap) -> (r: String)
    ensures
        r@ == shell_expand(text@, map_entries(*vars), map_entries(*host)),
{
    shellexpand::env_with_context_no_errors(text, |name| Some(resolve(vars, host, name))).into_owned()
}

/// Splits a command line into words with `shell_words::split`. The result
/// depends on the line alone.
#[verifier::external_body]
pub(crate) fn split(line: &str) -> (r: Result<Vec<String>, shell_words::ParseError>)
    ensures
        match r {
            Ok(words) => shell_split(line@) == Some(words.deep_view()),
            Err(_) => shell_split(line@) is None,
        },
{
    shell_words::split(line)
}

/// The commands of a task after one more command line was split: a line
/// without words adds nothing, a line that could not be split fails.
pub open spec fn with_command(commands: Seq<Seq<Seq<char>>>, words: Option<Seq<Seq<char>>>) -> Result<
    Seq<Seq<Seq<char>>>,
    ErrorView,
> {
    match words {
        None => Err(ErrorView::UnclosedQuote),
        Some(w) => if w.len() == 0 {
            Ok(commands)
        } else {
            Ok(commands.push(w))
        },
    }
}

/// Adds the words of a command line to the commands of a task.
pub fn add_command(commands: &mut Vec<Vec<String>>, words: Option<Vec<String>>) -> (r: Result<
    (),
    Error,
>)
    ensures
        match r {
            Ok(()) => with_command(old(commands).deep_view(), words.deep_view()) == Ok::<
                Seq<Seq<Seq<char>>>,
                ErrorView,
            >(final(commands).deep_view()),
            Err(e) => with_command(old(commands).deep_view(), words.deep_view()) == Err::<
                Seq<Seq<Seq<char>>>,
                ErrorView,
            >(e@) && final(commands).deep_view() == old(commands).deep_view(),
        },
{
    match words {
        None => Err(Error::UnclosedQuote),
        Some(w) => {
            if w.len() > 0 {
                let ghost before = commands.deep_view();
                let ghost added = w.deep_view();
                commands.push(w);
                assert(commands.deep_view() =~= before.push(added));
            }
            Ok(())
        },
    }
}

/// Expands a command line and splits it into words.
pub fn build_args(command: &str, vars: &VarMap, host: &VarMap) -> (r: Option<Vec<String>>)
    ensures
        r.deep_view() == shell_split(
            shell_expand(command@, map_entries(*vars), map_entries(*host)),
        ),
{
    let expanded = expand(command, vars, host);
    match split(expanded.as_str()) {
        Ok(words) => Some(words),
        Err(_) => None,
    }
}

} // verus!
