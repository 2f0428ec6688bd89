//! The statements of the configuration language, and the parser that reads
//! them from tokens.
//!
//! ```text
//! file     := statement*
//! version  := 'version' STRING
//! import   := 'import' STRING ('as' (NAME | STRING))?
//! var      := 'var' NAME '=' STRING
//! help     := 'help' STRING
//! dir      := 'dir' STRING
//! run      := 'run' STRING
//! require  := 'require' (NAME | STRING)
//! if       := 'if' or_expr '{' statement* '}'
//! recipe   := 'recipe' NAME '{' statement* '}'
//! ```
//!
//! At the top of a file, and in an `if` there, a statement is one of
//! `version`, `import`, `var`, `help`, `dir`, `if` and `recipe`. In the body
//! of a recipe, and in an `if` there, it is one of `var`, `help`, `dir`, `if`,
//! `run` and `require`.

use vstd::prelude::*;
pub use crate::compiler::compile;
pub use crate::compiler::compile_recipe;
pub use crate::compiler::flatten;
use crate::error::Construct;
use crate::error::Error;
use crate::error::ErrorView;
use crate::error::Wanted;
use crate::expr::parse_expr;
use crate::expr::parse_or_spec;
pub use crate::expr::Expr;
use crate::expr::ExprView;
use crate::lexer::lex;
use crate::lexer::tokens_spec;
use crate::token::Token;
use crate::token::TokenView;

verus! {

/// One statement of a configuration file.
#[derive(Debug, PartialEq, Eq)]
pub enum Statement {
    /// The working directory of a recipe or of a file.
    Dir(String),
    /// A short description.
    Help(String),
    /// Statements that count only where the condition holds.
    If(Expr, Vec<Statement>),
    /// Another file to include, with the prefix for what it declares.
    Import(String, Option<String>),
    /// A recipe: its name and its body.
    Recipe(String, Vec<Statement>),
    /// The name of a recipe that has to run first.
    Require(String),
    /// A shell command.
    Run(String),
    /// A variable and its value.
    Var(String, String),
    /// The versions of the tool that may read the file.
    Version(String),
}

/// A [`Statement`] with its strings as character sequences.
pub ghost enum StatementView {
    Dir(Seq<char>),
    Help(Seq<char>),
    If(ExprView, Seq<StatementView>),
    Import(Seq<char>, Option<Seq<char>>),
    Recipe(Seq<char>, Seq<StatementView>),
    Require(Seq<char>),
    Run(Seq<char>),
    Var(Seq<char>, Seq<char>),
    Version(Seq<char>),
}

/// Where a statement stands: at the top of a file or in a recipe.
#[derive(Clone, Copy, Debug, PartialEq, Eq, Structural)]
pub enum Context {
    File,
    Recipe,
}

impl Statement {
    /// The statement as a specification value.
    pub open spec fn model(&self) -> StatementView
        decreases self,
    {
        match self {
            Statement::Dir(s) => StatementView::Dir(s@),
            Statement::Help(s) => StatementView::Help(s@),
            Statement::If(cond, body) => StatementView::If(
                cond@,
                Seq::new(
                    body.len() as nat,
                    |i: int|
                        if 0 <= i < body.len() {
                            body[i].model()
                        } else {
                            arbitrary()
                        },
                ),
            ),
            Statement::Import(url, prefix) => StatementView::Import(url@, prefix.deep_view()),
            Statement::Recipe(name, body) => StatementView::Recipe(
                name@,
                Seq::new(
                    body.len() as nat,
                    |i: int|
                        if 0 <= i < body.len() {
                            body[i].model()
                        } else {
                            arbitrary()
                        },
                ),
            ),
            Statement::Require(s) => StatementView::Require(s@),
            Statement::Run(s) => StatementView::Run(s@),
            Statement::Var(name, value) => StatementView::Var(name@, value@),
            Statement::Version(s) => StatementView::Version(s@),
        }
    }

    /// The view of a statement with a body holds the views of the body's
    /// statements.
    pub proof fn lemma_body_view(self)
        ensures
            self matches Statement::If(cond, body) ==> self@ == StatementView::If(
                cond@,
                body.deep_view(),
            ),
            self matches Statement::Recipe(name, body) ==> self@ == StatementView::Recipe(
                name@,
                body.deep_view(),
            ),
    {
        match self {
            Statement::If(cond, body) => {
                assert(self@->If_1 =~= body.deep_view());
            },
            Statement::Recipe(name, body) => {
                assert(self@->Recipe_1 =~= body.deep_view());
            },
            _ => {},
        }
    }

    /// A copy of the statement.
    pub fn duplicate(&self) -> (r: Statement)
        ensures
            r@ == self@,
        decreases self,
    {
        match self {
            Statement::Dir(s) => Statement::Dir(s.clone()),
            Statement::Help(s) => Statement::Help(s.clone()),
            Statement::If(cond, body) => {
                let copy = duplicate_all(body);
                let r = Statement::If(cond.duplicate(), copy);
                proof {
                    r.lemma_body_view();
                    self.lemma_body_view();
                }
                r
            },
            Statement::Import(url, prefix) => {
                let p = match prefix {
                    Some(p) => Some(p.clone()),
                    None => None,
                };
                Statement::Import(url.clone(), p)
            },
            Statement::Recipe(name, body) => {
                let copy = duplicate_all(body);
                let r = Statement::Recipe(name.clone(), copy);
                proof {
                    r.lemma_body_view();
                    self.lemma_body_view();
                }
                r
            },
            Statement::Require(s) => Statement::Require(s.clone()),
            Statement::Run(s) => Statement::Run(s.clone()),
            Statement::Var(name, value) => Statement::Var(name.clone(), value.clone()),
            Statement::Version(s) => Statement::Version(s.clone()),
        }
    }
}

/// A copy of a list of statements.
pub fn duplicate_all(body: &Vec<Statement>) -> (r: Vec<Statement>)
    ensures
        r.deep_view() == body.deep_view(),
    decreases body,
{
    let mut out: Vec<Statement> = Vec::new();
    let mut i: usize = 0;
    while i < body.len()
        invariant
            i <= body.len(),
            out.len() == i,
            forall|j: int| 0 <= j < i ==> out[j]@ == body[j]@,
        decreases body.len() - i,
    {
        out.push(body[i].duplicate());
        i += 1;
    }
    out
}

impl Clone for Statement {
    fn clone(&self) -> (r: Statement)
        ensures
            r@ == self@,
    {
        self.duplicate()
    }
}

impl View for Statement {
    type V = StatementView;

    open spec fn view(&self) -> StatementView {
        self.model()
    }
}

impl DeepView for Statement {
    type V = StatementView;

    open spec fn deep_view(&self) -> StatementView {
        self.model()
    }
}

/// The statement that a token starts in a context, if it starts one there.
pub open spec fn starts(t: TokenView, ctx: Context) -> Option<Construct> {
    match t {
        TokenView::Version => if ctx is File {
            Some(Construct::Version)
        } else {
            None
        },
        TokenView::Import => if ctx is File {
            Some(Construct::Import)
        } else {
            None
        },
        TokenView::Recipe => if ctx is File {
            Some(Construct::Recipe)
        } else {
            None
        },
        TokenView::Run => if ctx is Recipe {
            Some(Construct::Run)
        } else {
            None
        },
        TokenView::Require => if ctx is Recipe {
            Some(Construct::Require)
        } else {
            None
        },
        TokenView::Var => Some(Construct::Var),
        TokenView::If => Some(Construct::If),
        TokenView::Help => Some(Construct::Help),
        TokenView::Dir => Some(Construct::Dir),
        _ => None,
    }
}

/// The text of the string token at `pos`, if one stands there.
pub open spec fn text_at(ts: Seq<TokenView>, pos: nat) -> Option<Seq<char>> {
    if pos < ts.len() {
        match ts[pos as int] {
            TokenView::Str(s) => Some(s),
            _ => None,
        }
    } else {
        None
    }
}

/// The name at `pos`, if one stands there.
pub open spec fn name_at(ts: Seq<TokenView>, pos: nat) -> Option<Seq<char>> {
    if pos < ts.len() {
        match ts[pos as int] {
            TokenView::Name(s) => Some(s),
            _ => None,
        }
    } else {
        None
    }
}

/// The name or the text of the string at `pos`, if either stands there.
pub open spec fn word_at(ts: Seq<TokenView>, pos: nat) -> Option<Seq<char>> {
    if pos < ts.len() {
        match ts[pos as int] {
            TokenView::Name(s) => Some(s),
            TokenView::Str(s) => Some(s),
            _ => None,
        }
    } else {
        None
    }
}

/// Whether the token `t` stands at `pos`.
pub open spec fn is_at(ts: Seq<TokenView>, pos: nat, t: TokenView) -> bool {
    pos < ts.len() && ts[pos as int] == t
}

/// The number of tokens from `pos` to the end.
pub open spec fn left(ts: Seq<TokenView>, pos: nat) -> nat {
    if pos <= ts.len() {
        (ts.len() - pos) as nat
    } else {
        0
    }
}

/// What the statement whose keyword is at `pos` parses to, with the number
/// of tokens that it takes after the keyword.
pub open spec fn statement_spec(ts: Seq<TokenView>, pos: nat, ctx: Context) -> Result<
    (StatementView, nat),
    ErrorView,
>
    decreases left(ts, pos), 0nat,
{
    if pos >= ts.len() {
        Err(ErrorView::UnexpectedToken)
    } else {
        match starts(ts[pos as int], ctx) {
            None => Err(ErrorView::UnexpectedToken),
            Some(Construct::Version) => match text_at(ts, pos + 1) {
                Some(s) => Ok((StatementView::Version(s), 1)),
                None => Err(ErrorView::Missing(Wanted::Text, Construct::Version)),
            },
            Some(Construct::Help) => match text_at(ts, pos + 1) {
                Some(s) => Ok((StatementView::Help(s), 1)),
                None => Err(ErrorView::Missing(Wanted::Text, Construct::Help)),
            },
            Some(Construct::Dir) => match text_at(ts, pos + 1) {
                Some(s) => Ok((StatementView::Dir(s), 1)),
                None => Err(ErrorView::Missing(Wanted::Text, Construct::Dir)),
            },
            Some(Construct::Run) => match text_at(ts, pos + 1) {
                Some(s) => Ok((StatementView::Run(s), 1)),
                None => Err(ErrorView::Missing(Wanted::Text, Construct::Run)),
            },
            Some(Construct::Require) => match word_at(ts, pos + 1) {
                Some(s) => Ok((StatementView::Require(s), 1)),
                None => Err(ErrorView::Missing(Wanted::Name, Construct::Require)),
            },
            Some(Construct::Import) => match text_at(ts, pos + 1) {
                None => Err(ErrorView::Missing(Wanted::Text, Construct::Import)),
                Some(url) => if is_at(ts, pos + 2, TokenView::As) {
                    match word_at(ts, pos + 3) {
                        Some(p) => Ok((StatementView::Import(url, Some(p)), 3)),
                        None => Err(ErrorView::Missing(Wanted::Name, Construct::Import)),
                    }
                } else {
                    Ok((StatementView::Import(url, None), 1))
                },
            },
            Some(Construct::Var) => match name_at(ts, pos + 1) {
                None => Err(ErrorView::Missing(Wanted::Name, Construct::Var)),
                Some(name) => if !is_at(ts, pos + 2, TokenView::Eq) {
                    Err(ErrorView::Missing(Wanted::Equals, Construct::Var))
                } else {
                    match text_at(ts, pos + 3) {
                        Some(value) => Ok((StatementView::Var(name, value), 3)),
                        None => Err(ErrorView::Missing(Wanted::Text, Construct::Var)),
                    }
                },
            },
            Some(Construct::If) => match parse_or_spec(ts, pos + 1) {
                Err(e) => Err(e),
                Ok((cond, n)) => if !is_at(ts, pos + 1 + n, TokenView::Cul) {
                    Err(ErrorView::Missing(Wanted::OpenBrace, Construct::If))
                } else {
                    match body_spec(ts, pos + 2 + n, ctx, Construct::If) {
                        Ok((body, m)) => Ok((StatementView::If(cond, body), 1 + n + m)),
                        Err(e) => Err(e),
                    }
                },
            },
            Some(Construct::Recipe) => match name_at(ts, pos + 1) {
                None => Err(ErrorView::Missing(Wanted::Name, Construct::Recipe)),
                Some(name) => if !is_at(ts, pos + 2, TokenView::Cul) {
                    Err(ErrorView::Missing(Wanted::OpenBrace, Construct::Recipe))
                } else {
                    match body_spec(ts, pos + 3, Context::Recipe, Construct::Recipe) {
                        Ok((body, m)) => Ok((StatementView::Recipe(name, body), 2 + m)),
                        Err(e) => Err(e),
                    }
                },
            },
        }
    }
}

/// What the body that starts at `pos`, just after its `{`, parses to: its
/// statements, with the number of tokens up to and with its `}`.
pub open spec fn body_spec(ts: Seq<TokenView>, pos: nat, ctx: Context, within: Construct) -> Result<
    (Seq<StatementView>, nat),
    ErrorView,
>
    decreases left(ts, pos), 1nat,
{
    if pos >= ts.len() {
        Err(ErrorView::Missing(Wanted::CloseBrace, within))
    } else if ts[pos as int] is Cur {
        Ok((Seq::empty(), 1))
    } else if starts(ts[pos as int], ctx) is None {
        Err(ErrorView::Missing(Wanted::CloseBrace, within))
    } else {
        match statement_spec(ts, pos, ctx) {
            Ok((s, n)) => glue(seq![s], 1 + n, body_spec(ts, pos + 1 + n, ctx, within)),
            Err(e) => Err(e),
        }
    }
}

/// `done`, which took `count` tokens, in front of what the rest of a body
/// parses to.
pub open spec fn glue(
    done: Seq<StatementView>,
    count: nat,
    rest: Result<(Seq<StatementView>, nat), ErrorView>,
) -> Result<(Seq<StatementView>, nat), ErrorView> {
    match rest {
        Ok((more, m)) => Ok((done + more, count + m)),
        Err(e) => Err(e),
    }
}

/// `done` in front of what the rest of a file parses to.
pub open spec fn chain(done: Seq<StatementView>, rest: Result<Seq<StatementView>, ErrorView>) -> Result<
    Seq<StatementView>,
    ErrorView,
> {
    match rest {
        Ok(more) => Ok(done + more),
        Err(e) => Err(e),
    }
}

/// What the tokens from `pos` to the end parse to as the statements of a
/// file.
pub open spec fn file_spec(ts: Seq<TokenView>, pos: nat) -> Result<Seq<StatementView>, ErrorView>
    decreases left(ts, pos),
{
    if pos >= ts.len() {
        Ok(Seq::empty())
    } else {
        match statement_spec(ts, pos, Context::File) {
            Ok((s, n)) => chain(seq![s], file_spec(ts, pos + 1 + n)),
            Err(e) => Err(e),
        }
    }
}

/// What a configuration text parses to.
pub open spec fn parse_spec(code: Seq<char>) -> Result<Seq<StatementView>, ErrorView> {
    match tokens_spec(code, 0) {
        Some(ts) => file_spec(ts, 0),
        None => Err(ErrorView::UnterminatedString),
    }
}

/// How the result of parsing a statement stands to its specification.
pub open spec fn statement_agrees(
    r: Result<(Statement, usize), Error>,
    spec: Result<(StatementView, nat), ErrorView>,
    pos: usize,
    len: nat,
) -> bool {
    match r {
        Ok((s, next)) => pos < next <= len && spec == Ok::<(StatementView, nat), ErrorView>(
            (s@, (next - pos - 1) as nat),
        ),
        Err(e) => spec == Err::<(StatementView, nat), ErrorView>(e@),
    }
}

/// The text of the string at `pos`, if one stands there.
pub fn use_string(tokens: &Vec<Token>, pos: usize) -> (r: Option<String>)
    ensures
        r.deep_view() == text_at(tokens.deep_view(), pos as nat),
{
    if pos < tokens.len() {
        match &tokens[pos] {
            Token::Str(s) => Some(s.clone()),
            _ => None,
        }
    } else {
        None
    }
}

/// The name at `pos`, if one stands there.
pub fn use_name(tokens: &Vec<Token>, pos: usize) -> (r: Option<String>)
    ensures
        r.deep_view() == name_at(tokens.deep_view(), pos as nat),
{
    if pos < tokens.len() {
        match &tokens[pos] {
            Token::Name(s) => Some(s.clone()),
            _ => None,
        }
    } else {
        None
    }
}

/// The name or the text of the string at `pos`, if either stands there.
pub fn use_word(tokens: &Vec<Token>, pos: usize) -> (r: Option<String>)
    ensures
        r.deep_view() == word_at(tokens.deep_view(), pos as nat),
{
    if pos < tokens.len() {
        match &tokens[pos] {
            Token::Name(s) => Some(s.clone()),
            Token::Str(s) => Some(s.clone()),
            _ => None,
        }
    } else {
        None
    }
}

/// Whether the token at `pos` is `kind`.
pub fn peek_token(tokens: &Vec<Token>, pos: usize, kind: &Token) -> (r: bool)
    ensures
        r == is_at(tokens.deep_view(), pos as nat, kind@),
{
    if pos < tokens.len() {
        tokens[pos].same(kind)
    } else {
        false
    }
}

/// Steps over the token at `pos` if it is `kind`, and says whether it did.
pub fn use_token(tokens: &Vec<Token>, pos: &mut usize, kind: &Token) -> (r: bool)
    ensures
        r == is_at(tokens.deep_view(), *old(pos) as nat, kind@),
        *final(pos) == if r {
            *old(pos) + 1
        } else {
            *old(pos) as int
        },
{
    if peek_token(tokens, *pos, kind) {
        assert(tokens.deep_view().len() == tokens.len());
        *pos = *pos + 1;
        true
    } else {
        false
    }
}

/// The statement that a token starts in a context.
pub fn construct_of(t: &Token, ctx: Context) -> (r: Option<Construct>)
    ensures
        r == starts(t@, ctx),
{
    let top = match ctx {
        Context::File => true,
        Context::Recipe => false,
    };
    match t {
        Token::Version => if top {
            Some(Construct::Version)
        } else {
            None
        },
        Token::Import => if top {
            Some(Construct::Import)
        } else {
            None
        },
        Token::Recipe => if top {
            Some(Construct::Recipe)
        } else {
            None
        },
        Token::Run => if top {
            None
        } else {
            Some(Construct::Run)
        },
        Token::Require => if top {
            None
        } else {
            Some(Construct::Require)
        },
        Token::Var => Some(Construct::Var),
        Token::If => Some(Construct::If),
        Token::Help => Some(Construct::Help),
        Token::Dir => Some(Construct::Dir),
        _ => None,
    }
}

/// Parses the statement whose keyword is at `pos`, and gives it with the
/// position after it.
pub fn parse_stmt(tokens: &Vec<Token>, pos: usize, ctx: Context) -> (r: Result<
    (Statement, usize),
    Error,
>)
    requires
        pos < tokens.len(),
    ensures
        statement_agrees(
            r,
            statement_spec(tokens.deep_view(), pos as nat, ctx),
            pos,
            tokens.len() as nat,
        ),
    decreases tokens.len() - pos, 1nat,
{
    match construct_of(&tokens[pos], ctx) {
        None => Err(Error::UnexpectedToken),
        Some(Construct::Version) => match use_string(tokens, pos + 1) {
            Some(s) => Ok((Statement::Version(s), pos + 2)),
            None => Err(Error::Missing(Wanted::Text, Construct::Version)),
        },
        Some(Construct::Help) => match use_string(tokens, pos + 1) {
            Some(s) => Ok((Statement::Help(s), pos + 2)),
            None => Err(Error::Missing(Wanted::Text, Construct::Help)),
        },
        Some(Construct::Dir) => match use_string(tokens, pos + 1) {
            Some(s) => Ok((Statement::Dir(s), pos + 2)),
            None => Err(Error::Missing(Wanted::Text, Construct::Dir)),
        },
        Some(Construct::Run) => match use_string(tokens, pos + 1) {
            Some(s) => Ok((Statement::Run(s), pos + 2)),
            None => Err(Error::Missing(Wanted::Text, Construct::Run)),
        },
        Some(Construct::Require) => match use_word(tokens, pos + 1) {
            Some(s) => Ok((Statement::Require(s), pos + 2)),
            None => Err(Error::Missing(Wanted::Name, Construct::Require)),
        },
        Some(Construct::Import) => parse_import(tokens, pos),
        Some(Construct::Var) => parse_var(tokens, pos),
        Some(Construct::If) => parse_if(tokens, pos, ctx),
        Some(Construct::Recipe) => parse_recipe(tokens, pos),
    }
}

/// Parses `import STRING`, with `as` and a prefix if they follow.
fn parse_import(tokens: &Vec<Token>, pos: usize) -> (r: Result<(Statement, usize), Error>)
    requires
        pos < tokens.len(),
        tokens[pos as int]@ is Import,
    ensures
        statement_agrees(
            r,
            statement_spec(tokens.deep_view(), pos as nat, Context::File),
            pos,
            tokens.len() as nat,
        ),
{
    match use_string(tokens, pos + 1) {
        None => Err(Error::Missing(Wanted::Text, Construct::Import)),
        Some(url) => {
            let mut next = pos + 2;
            if use_token(tokens, &mut next, &Token::As) {
                match use_word(tokens, next) {
                    Some(p) => Ok((Statement::Import(url, Some(p)), pos + 4)),
                    None => Err(Error::Missing(Wanted::Name, Construct::Import)),
                }
            } else {
                Ok((Statement::Import(url, None), pos + 2))
            }
        },
    }
}

/// Parses `var NAME = STRING`.
fn parse_var(tokens: &Vec<Token>, pos: usize) -> (r: Result<(Statement, usize), Error>)
    requires
        pos < tokens.len(),
        tokens[pos as int]@ is Var,
    ensures
        forall|ctx: Context|
            statement_agrees(
                r,
                #[trigger] statement_spec(tokens.deep_view(), pos as nat, ctx),
                pos,
                tokens.len() as nat,
            ),
{
    match use_name(tokens, pos + 1) {
        None => Err(Error::Missing(Wanted::Name, Construct::Var)),
        Some(name) => {
            let mut next = pos + 2;
            if !use_token(tokens, &mut next, &Token::Eq) {
                Err(Error::Missing(Wanted::Equals, Construct::Var))
            } else {
                match use_string(tokens, next) {
                    Some(value) => Ok((Statement::Var(name, value), pos + 4)),
                    None => Err(Error::Missing(Wanted::Text, Construct::Var)),
                }
            }
        },
    }
}

/// Parses `if`, a test expression and a body.
fn parse_if(tokens: &Vec<Token>, pos: usize, ctx: Context) -> (r: Result<(Statement, usize), Error>)
    requires
        pos < tokens.len(),
        tokens[pos as int]@ is If,
    ensures
        statement_agrees(
            r,
            statement_spec(tokens.deep_view(), pos as nat, ctx),
            pos,
            tokens.len() as nat,
        ),
    decreases tokens.len() - pos, 0nat,
{
    match parse_expr(tokens, pos + 1) {
        Err(e) => Err(e),
        Ok((cond, after)) => {
            let mut next = after;
            if !use_token(tokens, &mut next, &Token::Cul) {
                Err(Error::Missing(Wanted::OpenBrace, Construct::If))
            } else {
                match parse_body(tokens, next, ctx, Construct::If) {
                    Ok((body, end)) => {
                        let s = Statement::If(cond, body);
                        proof {
                            s.lemma_body_view();
                        }
                        Ok((s, end))
                    },
                    Err(e) => Err(e),
                }
            }
        },
    }
}

/// Parses `recipe`, a name and a body.
fn parse_recipe(tokens: &Vec<Token>, pos: usize) -> (r: Result<(Statement, usize), Error>)
    requires
        pos < tokens.len(),
        tokens[pos as int]@ is Recipe,
    ensures
        statement_agrees(
            r,
            statement_spec(tokens.deep_view(), pos as nat, Context::File),
            pos,
            tokens.len() as nat,
        ),
    decreases tokens.len() - pos, 0nat,
{
    match use_name(tokens, pos + 1) {
        None => Err(Error::Missing(Wanted::Name, Construct::Recipe)),
        Some(name) => {
            let mut next = pos + 2;
            if !use_token(tokens, &mut next, &Token::Cul) {
                Err(Error::Missing(Wanted::OpenBrace, Construct::Recipe))
            } else {
                match parse_body(tokens, next, Context::Recipe, Construct::Recipe) {
                    Ok((body, end)) => {
                        let s = Statement::Recipe(name, body);
                        proof {
                            s.lemma_body_view();
                        }
                        Ok((s, end))
                    },
                    Err(e) => Err(e),
                }
            }
        },
    }
}

/// Parses the statements of a body up to its `}`, and gives them with the
/// position after it.
pub fn parse_body(tokens: &Vec<Token>, pos: usize, ctx: Context, within: Construct) -> (r: Result<
    (Vec<Statement>, usize),
    Error,
>)
    requires
        pos <= tokens.len(),
    ensures
        match r {
            Ok((body, next)) => pos < next <= tokens.len() && body_spec(
                tokens.deep_view(),
                pos as nat,
                ctx,
                within,
            ) == Ok::<(Seq<StatementView>, nat), ErrorView>(
                (body.deep_view(), (next - pos) as nat),
            ),
            Err(e) => body_spec(tokens.deep_view(), pos as nat, ctx, within) == Err::<
                (Seq<StatementView>, nat),
                ErrorView,
            >(e@),
        },
    decreases tokens.len() - pos, 2nat,
{
    let ghost ts = tokens.deep_view();
    let mut body: Vec<Statement> = Vec::new();
    let mut i: usize = pos;
    loop
        invariant
            pos <= i <= tokens.len(),
            ts == tokens.deep_view(),
            body_spec(ts, pos as nat, ctx, within) == glue(
                body.deep_view(),
                (i - pos) as nat,
                body_spec(ts, i as nat, ctx, within),
            ),
        decreases tokens.len() - i,
    {
        if i >= tokens.len() {
            return Err(Error::Missing(Wanted::CloseBrace, within));
        }
        match &tokens[i] {
            Token::Cur => {
                return Ok((body, i + 1));
            },
            _ => {},
        }
        if construct_of(&tokens[i], ctx).is_none() {
            return Err(Error::Missing(Wanted::CloseBrace, within));
        }
        match parse_stmt(tokens, i, ctx) {
            Ok((s, next)) => {
                let ghost done = body.deep_view();
                body.push(s);
                i = next;
                proof {
                    assert(body.deep_view() =~= done.push(s@));
                    match body_spec(ts, i as nat, ctx, within) {
                        Ok((more, m)) => {
                            assert(done + (seq![s@] + more) =~= done.push(s@) + more);
                        },
                        Err(_) => {},
                    }
                }
            },
            Err(e) => {
                return Err(e);
            },
        }
    }
}

/// Parses a token sequence as the statements of a file.
pub fn parse_tokens(tokens: &Vec<Token>) -> (r: Result<Vec<Statement>, Error>)
    ensures
        match r {
            Ok(stmts) => file_spec(tokens.deep_view(), 0) == Ok::<Seq<StatementView>, ErrorView>(
                stmts.deep_view(),
            ),
            Err(e) => file_spec(tokens.deep_view(), 0) == Err::<Seq<StatementView>, ErrorView>(e@),
        },
{
    let ghost ts = tokens.deep_view();
    let mut stmts: Vec<Statement> = Vec::new();
    let mut i: usize = 0;
    while i < tokens.len()
        invariant
            i <= tokens.len(),
            ts == tokens.deep_view(),
            file_spec(ts, 0) == chain(stmts.deep_view(), file_spec(ts, i as nat)),
        decreases tokens.len() - i,
    {
        match parse_stmt(tokens, i, Context::File) {
            Ok((s, next)) => {
                let ghost done = stmts.deep_view();
                stmts.push(s);
                i = next;
                proof {
                    assert(stmts.deep_view() =~= done.push(s@));
                    match file_spec(ts, i as nat) {
                        Ok(more) => {
                            assert(done + (seq![s@] + more) =~= done.push(s@) + more);
                        },
                        Err(_) => {},
                    }
                }
            },
            Err(e) => {
                return Err(e);
            },
        }
    }
    Ok(stmts)
}

/// Reads a configuration text: its tokens, then its statements. No statement
/// is returned unless all of the text is well formed.
pub fn parse(code: &str) -> (r: Result<Vec<Statement>, Error>)
    ensures
        match r {
            Ok(stmts) => parse_spec(code@) == Ok::<Seq<StatementView>, ErrorView>(
                stmts.deep_view(),
            ),
            Err(e) => parse_spec(code@) == Err::<Seq<StatementView>, ErrorView>(e@),
        },
{
    match lex(code) {
        Ok(tokens) => parse_tokens(&tokens),
        Err(e) => Err(e),
    }
}

} // verus!
