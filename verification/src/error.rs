//! The ways in which compiling, resolving and building can fail.

use vstd::prelude::*;
use crate::text::joined;
use crate::text::owned;

verus! {

/// A statement of the configuration language, named by its keyword.
#[derive(Clone, Copy, Debug, PartialEq, Eq, Structural)]
pub enum Construct {
    Version,
    Import,
    Var,
    If,
    Recipe,
    Help,
    Run,
    Require,
    Dir,
}

/// A token that a statement needs at some point.
#[derive(Clone, Copy, Debug, PartialEq, Eq, Structural)]
pub enum Wanted {
    /// A double-quoted string.
    Text,
    /// A bare name.
    Name,
    /// The `=` sign.
    Equals,
    /// The `{` that opens a body.
    OpenBrace,
    /// The `}` that closes a body.
    CloseBrace,
}

/// A failure of the library. Nothing is ever recovered from: each of them
/// ends the operation that met it.
#[derive(Clone, Debug, PartialEq, Eq)]
pub enum Error {
    /// A string literal was still open at the end of the source.
    UnterminatedString,
    /// An expression had a token where a name, a wildcard or `(` was due.
    ExpectedOperand,
    /// An expression ended where an operand was due.
    UnexpectedEnd,
    /// A `(` in an expression was not closed.
    ExpectedCloseParen,
    /// Tokens were left over after a complete expression.
    TrailingTokens,
    /// A statement lacked a token it needs.
    Missing(Wanted, Construct),
    /// A token at the top level of a file starts no statement.
    UnexpectedToken,
    /// A second `version` statement, with the requirement it gave.
    DuplicateVersion(String),
    /// A file without a `version` statement.
    MissingVersion,
    /// A second `help` statement in one recipe.
    DuplicateHelp,
    /// A second `dir` statement in one recipe.
    DuplicateDir,
    /// A statement in a place where the language does not allow it.
    Misplaced(Construct),
    /// A version or a version requirement that cannot be read.
    InvalidVersion,
    /// A file asks for a version that the running tool does not satisfy.
    IncompatibleVersion,
    /// A recipe that is asked for or required, but declared nowhere.
    UnknownRecipe(String),
    /// A recipe without a recorded source directory.
    UnknownSource(String),
    /// A recipe that requires itself, directly or through others.
    Cycle(String),
    /// A command whose quoting is left open.
    UnclosedQuote,
}

/// What an [`Error`] says, with strings as character sequences.
pub ghost enum ErrorView {
    UnterminatedString,
    ExpectedOperand,
    UnexpectedEnd,
    ExpectedCloseParen,
    TrailingTokens,
    Missing(Wanted, Construct),
    UnexpectedToken,
    DuplicateVersion(Seq<char>),
    MissingVersion,
    DuplicateHelp,
    DuplicateDir,
    Misplaced(Construct),
    InvalidVersion,
    IncompatibleVersion,
    UnknownRecipe(Seq<char>),
    UnknownSource(Seq<char>),
    Cycle(Seq<char>),
    UnclosedQuote,
}

impl View for Error {
    type V = ErrorView;

    open spec fn view(&self) -> ErrorView {
        match self {
            Error::UnterminatedString => ErrorView::UnterminatedString,
            Error::ExpectedOperand => ErrorView::ExpectedOperand,
            Error::UnexpectedEnd => ErrorView::UnexpectedEnd,
            Error::ExpectedCloseParen => ErrorView::ExpectedCloseParen,
            Error::TrailingTokens => ErrorView::TrailingTokens,
            Error::Missing(w, c) => ErrorView::Missing(*w, *c),
            Error::UnexpectedToken => ErrorView::UnexpectedToken,
            Error::DuplicateVersion(s) => ErrorView::DuplicateVersion(s@),
            Error::MissingVersion => ErrorView::MissingVersion,
            Error::DuplicateHelp => ErrorView::DuplicateHelp,
            Error::DuplicateDir => ErrorView::DuplicateDir,
            Error::Misplaced(c) => ErrorView::Misplaced(*c),
            Error::InvalidVersion => ErrorView::InvalidVersion,
            Error::IncompatibleVersion => ErrorView::IncompatibleVersion,
            Error::UnknownRecipe(s) => ErrorView::UnknownRecipe(s@),
            Error::UnknownSource(s) => ErrorView::UnknownSource(s@),
            Error::Cycle(s) => ErrorView::Cycle(s@),
            Error::UnclosedQuote => ErrorView::UnclosedQuote,
        }
    }
}

/// The keyword of a statement.
pub open spec fn keyword_of(c: Construct) -> Seq<char> {
    match c {
        Construct::Version => "version"@,
        Construct::Import => "import"@,
        Construct::Var => "var"@,
        Construct::If => "if"@,
        Construct::Recipe => "recipe"@,
        Construct::Help => "help"@,
        Construct::Run => "run"@,
        Construct::Require => "require"@,
        Construct::Dir => "dir"@,
    }
}

/// A token that is wanted, in words.
pub open spec fn wanted_text(w: Wanted) -> Seq<char> {
    match w {
        Wanted::Text => "a string"@,
        Wanted::Name => "a name"@,
        Wanted::Equals => "`=`"@,
        Wanted::OpenBrace => "`{`"@,
        Wanted::CloseBrace => "`}`"@,
    }
}

/// What an error says to a reader.
pub open spec fn message_spec(e: ErrorView) -> Seq<char> {
    match e {
        ErrorView::UnterminatedString => "Unterminated string"@,
        ErrorView::ExpectedOperand => "Parse error; expected name or open parenthesis"@,
        ErrorView::UnexpectedEnd => "Parse error; unexpected end of expression"@,
        ErrorView::ExpectedCloseParen => "Parse error; expected close parenthesis"@,
        ErrorView::TrailingTokens => "Parse error; unexpected tokens after expression"@,
        ErrorView::Missing(w, c) => "Expected "@ + wanted_text(w) + " in `"@ + keyword_of(c)
            + "` statement"@,
        ErrorView::UnexpectedToken => "Unexpected token at the top level of the file"@,
        ErrorView::DuplicateVersion(v) => "Duplicate version specified: "@ + v,
        ErrorView::MissingVersion => "File version must be specified"@,
        ErrorView::DuplicateHelp => "Duplicate help specified in recipe"@,
        ErrorView::DuplicateDir => "Duplicate dir specified in recipe"@,
        ErrorView::Misplaced(c) => "`"@ + keyword_of(c) + "` statement is not allowed here"@,
        ErrorView::InvalidVersion => "Invalid version or version requirement"@,
        ErrorView::IncompatibleVersion => "Incompatible versions: the file requires a version that the current version does not satisfy"@,
        ErrorView::UnknownRecipe(name) => "Couldn't locate recipe '"@ + name + "'"@,
        ErrorView::UnknownSource(name) => "Couldn't locate source for recipe '"@ + name + "'"@,
        ErrorView::Cycle(name) => "Recipe '"@ + name + "' requires itself"@,
        ErrorView::UnclosedQuote => "Missing closing quote"@,
    }
}

impl Construct {
    /// The keyword of the statement.
    pub fn keyword(&self) -> (r: &'static str)
        ensures
            r@ == keyword_of(*self),
    {
        match self {
            Construct::Version => "version",
            Construct::Import => "import",
            Construct::Var => "var",
            Construct::If => "if",
            Construct::Recipe => "recipe",
            Construct::Help => "help",
            Construct::Run => "run",
            Construct::Require => "require",
            Construct::Dir => "dir",
        }
    }
}

impl Wanted {
    /// The token in words.
    pub fn text(&self) -> (r: &'static str)
        ensures
            r@ == wanted_text(*self),
    {
        match self {
            Wanted::Text => "a string",
            Wanted::Name => "a name",
            Wanted::Equals => "`=`",
            Wanted::OpenBrace => "`{`",
            Wanted::CloseBrace => "`}`",
        }
    }
}

impl Error {
    /// What the error says to a reader.
    pub fn message(&self) -> (r: String)
        ensures
            r@ == message_spec(self@),
    {
        match self {
            Error::UnterminatedString => owned("Unterminated string"),
            Error::ExpectedOperand => owned("Parse error; expected name or open parenthesis"),
            Error::UnexpectedEnd => owned("Parse error; unexpected end of expression"),
            Error::ExpectedCloseParen => owned("Parse error; expected close parenthesis"),
            Error::TrailingTokens => owned("Parse error; unexpected tokens after expression"),
            Error::Missing(w, c) => {
                let a = joined("Expected ", w.text());
                let b = joined(a.as_str(), " in `");
                let d = joined(b.as_str(), c.keyword());
                joined(d.as_str(), "` statement")
            },
            Error::UnexpectedToken => owned("Unexpected token at the top level of the file"),
            Error::DuplicateVersion(v) => joined("Duplicate version specified: ", v.as_str()),
            Error::MissingVersion => owned("File version must be specified"),
            Error::DuplicateHelp => owned("Duplicate help specified in recipe"),
            Error::DuplicateDir => owned("Duplicate dir specified in recipe"),
            Error::Misplaced(c) => {
                let a = joined("`", c.keyword());
                joined(a.as_str(), "` statement is not allowed here")
            },
            Error::InvalidVersion => owned("Invalid version or version requirement"),
            Error::IncompatibleVersion => owned(
                "Incompatible versions: the file requires a version that the current version does not satisfy",
            ),
            Error::UnknownRecipe(name) => {
                let a = joined("Couldn't locate recipe '", name.as_str());
                joined(a.as_str(), "'")
            },
            Error::UnknownSource(name) => {
                let a = joined("Couldn't locate source for recipe '", name.as_str());
                joined(a.as_str(), "'")
            },
            Error::Cycle(name) => {
                let a = joined("Recipe '", name.as_str());
                joined(a.as_str(), "' requires itself")
            },
            Error::UnclosedQuote => owned("Missing closing quote"),
        }
    }
}

} // verus!
