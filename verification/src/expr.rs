//! Test expressions: boolean formulas over the names of the active
//! environments.
//!
//! ```text
//! or_expr  := and_expr ('|' or_expr)?
//! and_expr := not_expr ('+' and_expr)?
//! not_expr := '~' atom | atom
//! atom     := NAME | '*' | '?' | '(' or_expr ')'
//! ```
//!
//! `~` binds tighter than `+`, and `+` tighter than `|`: `a + b | c` holds
//! where `a` and `b` are active, and where `c` is. The right operand of `+`
//! is a conjunction and that of `|` a disjunction, so chains of either lean
//! to the right. Characters that belong to no token are skipped.

use vstd::prelude::*;
use crate::error::Error;
use crate::error::ErrorView;
use crate::ordered::set_contains;
use crate::ordered::set_items;
use crate::ordered::EnvSet;
use crate::text::chars_of;
use crate::text::string_of;
use crate::token::in_expressions;
use crate::token::is_name_char;
use crate::token::lemma_name_len_bound;
use crate::token::name_char;
use crate::token::name_end;
use crate::token::name_len;
use crate::token::symbol;
use crate::token::symbol_token;
use crate::token::Token;
use crate::token::TokenView;

verus! {

/// A test expression.
#[derive(Debug, PartialEq, Eq)]
pub enum Expr {
    And(Box<Expr>, Box<Expr>),
    Or(Box<Expr>, Box<Expr>),
    Not(Box<Expr>),
    Group(Box<Expr>),
    Atom(String),
    Wild,
}

/// An [`Expr`] with its names as character sequences.
pub ghost enum ExprView {
    And(Box<ExprView>, Box<ExprView>),
    Or(Box<ExprView>, Box<ExprView>),
    Not(Box<ExprView>),
    Group(Box<ExprView>),
    Atom(Seq<char>),
    Wild,
}

impl ExprView {
    /// Whether the expression is true when exactly the environments in
    /// `envs` are active.
    pub open spec fn holds(self, envs: Set<Seq<char>>) -> bool
        decreases self,
    {
        match self {
            ExprView::And(x, y) => x.holds(envs) && y.holds(envs),
            ExprView::Or(x, y) => x.holds(envs) || y.holds(envs),
            ExprView::Not(x) => !x.holds(envs),
            ExprView::Group(x) => x.holds(envs),
            ExprView::Atom(name) => envs.contains(name),
            ExprView::Wild => true,
        }
    }
}

impl Expr {
    /// The expression as a specification value.
    pub open spec fn model(&self) -> ExprView
        decreases self,
    {
        match self {
            Expr::And(x, y) => ExprView::And(Box::new(x.model()), Box::new(y.model())),
            Expr::Or(x, y) => ExprView::Or(Box::new(x.model()), Box::new(y.model())),
            Expr::Not(x) => ExprView::Not(Box::new(x.model())),
            Expr::Group(x) => ExprView::Group(Box::new(x.model())),
            Expr::Atom(name) => ExprView::Atom(name@),
            Expr::Wild => ExprView::Wild,
        }
    }

    /// A copy of the expression.
    pub fn duplicate(&self) -> (r: Expr)
        ensures
            r@ == self@,
        decreases self,
    {
        match self {
            Expr::And(x, y) => Expr::And(Box::new(x.duplicate()), Box::new(y.duplicate())),
            Expr::Or(x, y) => Expr::Or(Box::new(x.duplicate()), Box::new(y.duplicate())),
            Expr::Not(x) => Expr::Not(Box::new(x.duplicate())),
            Expr::Group(x) => Expr::Group(Box::new(x.duplicate())),
            Expr::Atom(name) => Expr::Atom(name.clone()),
            Expr::Wild => Expr::Wild,
        }
    }

    /// Evaluates the expression against the active environments.
    pub fn apply(&self, to: &EnvSet) -> (r: bool)
        ensures
            r == self@.holds(set_items(*to).to_set()),
        decreases self,
    {
        match self {
            Expr::And(x, y) => {
                let a = x.apply(to);
                let b = y.apply(to);
                a && b
            },
            Expr::Or(x, y) => {
                let a = x.apply(to);
                let b = y.apply(to);
                a || b
            },
            Expr::Not(x) => !x.apply(to),
            Expr::Group(x) => x.apply(to),
            Expr::Atom(name) => set_contains(to, name.as_str()),
            Expr::Wild => true,
        }
    }
}

impl Clone for Expr {
    fn clone(&self) -> (r: Expr)
        ensures
            r@ == self@,
    {
        self.duplicate()
    }
}

impl View for Expr {
    type V = ExprView;

    open spec fn view(&self) -> ExprView {
        self.model()
    }
}

impl DeepView for Expr {
    type V = ExprView;

    open spec fn deep_view(&self) -> ExprView {
        self.model()
    }
}

/// The boolean operators mean what they mean in logic, and the wildcard is
/// true whatever is active.
pub proof fn lemma_boolean_semantics(x: ExprView, y: ExprView, envs: Set<Seq<char>>)
    ensures
        ExprView::And(Box::new(x), Box::new(y)).holds(envs) == (x.holds(envs) && y.holds(envs)),
        ExprView::Or(Box::new(x), Box::new(y)).holds(envs) == (x.holds(envs) || y.holds(envs)),
        ExprView::Not(Box::new(x)).holds(envs) == !x.holds(envs),
        ExprView::Group(Box::new(x)).holds(envs) == x.holds(envs),
        ExprView::Wild.holds(envs),
{
}

/// A name is true exactly when it is among the active environments.
pub proof fn lemma_atom_semantics(name: Seq<char>, envs: Set<Seq<char>>)
    ensures
        ExprView::Atom(name).holds(envs) == envs.contains(name),
{
}

/// The tokens of the text of a test expression from position `i` on. Words
/// become names, the operator characters become their tokens, everything else
/// is skipped.
pub open spec fn scan(s: Seq<char>, i: int) -> Seq<TokenView>
    decreases s.len() - i,
{
    if i < 0 || i >= s.len() {
        Seq::empty()
    } else if is_name_char(s[i], false) {
        let n = name_len(s, i, false);
        proof {
            lemma_name_len_bound(s, i, false);
        }
        seq![TokenView::Name(s.subrange(i, i + n))] + scan(s, i + n)
    } else {
        match symbol(s[i]) {
            Some(t) => if in_expressions(t) {
                seq![t] + scan(s, i + 1)
            } else {
                scan(s, i + 1)
            },
            None => scan(s, i + 1),
        }
    }
}

/// What an atom at `pos` parses to, with the number of tokens it takes.
pub open spec fn parse_atom_spec(ts: Seq<TokenView>, pos: nat) -> Result<(ExprView, nat), ErrorView>
    decreases ts.len() - pos, 0nat,
{
    if pos >= ts.len() {
        Err(ErrorView::UnexpectedEnd)
    } else {
        match ts[pos as int] {
            TokenView::Pal => match parse_or_spec(ts, pos + 1) {
                Ok((inner, n)) => if pos + 1 + n < ts.len() && ts[pos + 1 + n as int] is Par {
                    Ok((ExprView::Group(Box::new(inner)), n + 2))
                } else {
                    Err(ErrorView::ExpectedCloseParen)
                },
                Err(e) => Err(e),
            },
            TokenView::Name(name) => Ok((ExprView::Atom(name), 1)),
            TokenView::Wild => Ok((ExprView::Wild, 1)),
            _ => Err(ErrorView::ExpectedOperand),
        }
    }
}

/// What an optionally negated atom at `pos` parses to.
pub open spec fn parse_not_spec(ts: Seq<TokenView>, pos: nat) -> Result<(ExprView, nat), ErrorView>
    decreases ts.len() - pos, 1nat,
{
    if pos < ts.len() && ts[pos as int] is Not {
        match parse_atom_spec(ts, pos + 1) {
            Ok((inner, n)) => Ok((ExprView::Not(Box::new(inner)), n + 1)),
            Err(e) => Err(e),
        }
    } else {
        parse_atom_spec(ts, pos)
    }
}

/// What a conjunction at `pos` parses to: a negation, and after `+` a
/// conjunction again.
pub open spec fn parse_and_spec(ts: Seq<TokenView>, pos: nat) -> Result<(ExprView, nat), ErrorView>
    decreases ts.len() - pos, 2nat,
{
    match parse_not_spec(ts, pos) {
        Ok((lhs, n)) => if pos + n < ts.len() && ts[pos + n as int] is And {
            match parse_and_spec(ts, pos + n + 1) {
                Ok((rhs, m)) => Ok((ExprView::And(Box::new(lhs), Box::new(rhs)), n + 1 + m)),
                Err(e) => Err(e),
            }
        } else {
            Ok((lhs, n))
        },
        Err(e) => Err(e),
    }
}

/// What a whole expression at `pos` parses to: a disjunction, which is a
/// conjunction, and after `|` a disjunction again.
pub open spec fn parse_or_spec(ts: Seq<TokenView>, pos: nat) -> Result<(ExprView, nat), ErrorView>
    decreases ts.len() - pos, 3nat,
{
    match parse_and_spec(ts, pos) {
        Ok((lhs, n)) => if pos + n < ts.len() && ts[pos + n as int] is Or {
            match parse_or_spec(ts, pos + n + 1) {
                Ok((rhs, m)) => Ok((ExprView::Or(Box::new(lhs), Box::new(rhs)), n + 1 + m)),
                Err(e) => Err(e),
            }
        } else {
            Ok((lhs, n))
        },
        Err(e) => Err(e),
    }
}

/// What a token sequence parses to as one expression: it has to be used up.
pub open spec fn parse_spec(ts: Seq<TokenView>) -> Result<ExprView, ErrorView> {
    match parse_or_spec(ts, 0) {
        Ok((e, n)) => if n == ts.len() {
            Ok(e)
        } else {
            Err(ErrorView::TrailingTokens)
        },
        Err(e) => Err(e),
    }
}

/// What the text of a test expression compiles to.
pub open spec fn compile_spec(s: Seq<char>) -> Result<ExprView, ErrorView> {
    parse_spec(scan(s, 0))
}

/// How the result of an executable parsing function, which gives the position
/// after what it parsed, stands to a specification, which gives the number of
/// tokens taken.
pub open spec fn agrees(
    r: Result<(Expr, usize), Error>,
    spec: Result<(ExprView, nat), ErrorView>,
    pos: usize,
    len: nat,
) -> bool {
    match r {
        Ok((e, next)) => pos <= next <= len && spec == Ok::<(ExprView, nat), ErrorView>(
            (e@, (next - pos) as nat),
        ),
        Err(err) => spec == Err::<(ExprView, nat), ErrorView>(err@),
    }
}

/// Splits the text of a test expression into tokens.
pub fn lex(expr: &str) -> (tokens: Vec<Token>)
    ensures
        tokens.deep_view() == scan(expr@, 0),
{
    let chars = chars_of(expr);
    let mut tokens: Vec<Token> = Vec::new();
    let mut i: usize = 0;
    while i < chars.len()
        invariant
            i <= chars.len(),
            tokens.deep_view() + scan(chars@, i as int) == scan(chars@, 0),
        decreases chars.len() - i,
    {
        let c = chars[i];
        if name_char(c, false) {
            let name = lex_name(&chars, i);
            i = name.1;
            tokens.push(name.0);
        } else {
            match symbol_token(c) {
                Some(t) => {
                    if expression_token(&t) {
                        tokens.push(t);
                    }
                },
                None => {},
            }
            i += 1;
        }
    }
    tokens
}

/// Reads the name that starts at `from`, and gives it with the position after
/// it.
pub fn lex_name(chars: &Vec<char>, from: usize) -> (r: (Token, usize))
    requires
        from < chars.len(),
        is_name_char(chars@[from as int], false),
    ensures
        r.1 == from + name_len(chars@, from as int, false),
        from < r.1 <= chars.len(),
        r.0@ == TokenView::Name(chars@.subrange(from as int, r.1 as int)),
{
    let end = name_end(chars, from, false);
    (Token::Name(string_of(chars, from, end)), end)
}

/// Whether a token can occur in a test expression.
fn expression_token(t: &Token) -> (r: bool)
    ensures
        r == in_expressions(t@),
{
    match t {
        Token::And | Token::Or | Token::Not | Token::Pal | Token::Par | Token::Wild => true,
        _ => false,
    }
}

/// Parses an atom: a name, a wildcard, or an expression in parentheses.
pub fn parse_atom(tokens: &Vec<Token>, pos: usize) -> (r: Result<(Expr, usize), Error>)
    requires
        pos <= tokens.len(),
    ensures
        agrees(r, parse_atom_spec(tokens.deep_view(), pos as nat), pos, tokens.len() as nat),
    decreases tokens.len() - pos, 0nat,
{
    if pos >= tokens.len() {
        return Err(Error::UnexpectedEnd);
    }
    match &tokens[pos] {
        Token::Pal => {
            match parse_expr(tokens, pos + 1) {
                Ok((inner, next)) => {
                    if next < tokens.len() && is_par(&tokens[next]) {
                        Ok((Expr::Group(Box::new(inner)), next + 1))
                    } else {
                        Err(Error::ExpectedCloseParen)
                    }
                },
                Err(e) => Err(e),
            }
        },
        Token::Name(name) => Ok((Expr::Atom(name.clone()), pos + 1)),
        Token::Wild => Ok((Expr::Wild, pos + 1)),
        _ => Err(Error::ExpectedOperand),
    }
}

fn is_par(t: &Token) -> (r: bool)
    ensures
        r == (t@ is Par),
{
    match t {
        Token::Par => true,
        _ => false,
    }
}

fn is_not(t: &Token) -> (r: bool)
    ensures
        r == (t@ is Not),
{
    match t {
        Token::Not => true,
        _ => false,
    }
}

fn is_and(t: &Token) -> (r: bool)
    ensures
        r == (t@ is And),
{
    match t {
        Token::And => true,
        _ => false,
    }
}

fn is_or(t: &Token) -> (r: bool)
    ensures
        r == (t@ is Or),
{
    match t {
        Token::Or => true,
        _ => false,
    }
}

/// Parses an atom, negated if `~` stands before it.
pub fn parse_not(tokens: &Vec<Token>, pos: usize) -> (r: Result<(Expr, usize), Error>)
    requires
        pos <= tokens.len(),
    ensures
        agrees(r, parse_not_spec(tokens.deep_view(), pos as nat), pos, tokens.len() as nat),
    decreases tokens.len() - pos, 1nat,
{
    if pos < tokens.len() && is_not(&tokens[pos]) {
        match parse_atom(tokens, pos + 1) {
            Ok((inner, next)) => Ok((Expr::Not(Box::new(inner)), next)),
            Err(e) => Err(e),
        }
    } else {
        parse_atom(tokens, pos)
    }
}

/// Parses a conjunction: a negation, then `+` and a conjunction if there is
/// one.
pub fn parse_and(tokens: &Vec<Token>, pos: usize) -> (r: Result<(Expr, usize), Error>)
    requires
        pos <= tokens.len(),
    ensures
        agrees(r, parse_and_spec(tokens.deep_view(), pos as nat), pos, tokens.len() as nat),
    decreases tokens.len() - pos, 2nat,
{
    match parse_not(tokens, pos) {
        Ok((lhs, next)) => {
            if next < tokens.len() && is_and(&tokens[next]) {
                match parse_and(tokens, next + 1) {
                    Ok((rhs, end)) => Ok((Expr::And(Box::new(lhs), Box::new(rhs)), end)),
                    Err(e) => Err(e),
                }
            } else {
                Ok((lhs, next))
            }
        },
        Err(e) => Err(e),
    }
}

/// Parses a disjunction: a conjunction, then `|` and a disjunction if there
/// is one.
pub fn parse_or(tokens: &Vec<Token>, pos: usize) -> (r: Result<(Expr, usize), Error>)
    requires
        pos <= tokens.len(),
    ensures
        agrees(r, parse_or_spec(tokens.deep_view(), pos as nat), pos, tokens.len() as nat),
    decreases tokens.len() - pos, 3nat,
{
    match parse_and(tokens, pos) {
        Ok((lhs, next)) => {
            if next < tokens.len() && is_or(&tokens[next]) {
                match parse_or(tokens, next + 1) {
                    Ok((rhs, end)) => Ok((Expr::Or(Box::new(lhs), Box::new(rhs)), end)),
                    Err(e) => Err(e),
                }
            } else {
                Ok((lhs, next))
            }
        },
        Err(e) => Err(e),
    }
}

/// Parses an expression that starts at `pos`, and gives it with the position
/// after it.
pub fn parse_expr(tokens: &Vec<Token>, pos: usize) -> (r: Result<(Expr, usize), Error>)
    requires
        pos <= tokens.len(),
    ensures
        agrees(r, parse_or_spec(tokens.deep_view(), pos as nat), pos, tokens.len() as nat),
    decreases tokens.len() - pos, 4nat,
{
    parse_or(tokens, pos)
}

/// Parses a token sequence as one expression.
pub fn parse(tokens: &Vec<Token>) -> (r: Result<Expr, Error>)
    ensures
        match r {
            Ok(e) => parse_spec(tokens.deep_view()) == Ok::<ExprView, ErrorView>(e@),
            Err(err) => parse_spec(tokens.deep_view()) == Err::<ExprView, ErrorView>(err@),
        },
{
    match parse_expr(tokens, 0) {
        Ok((e, next)) => {
            if next == tokens.len() {
                Ok(e)
            } else {
                Err(Error::TrailingTokens)
            }
        },
        Err(e) => Err(e),
    }
}

/// Compiles the text of a test expression. It fails when the text is no
/// expression of the grammar, or when something follows the expression.
pub fn compile(expr: &str) -> (r: Result<Expr, Error>)
    ensures
        match r {
            Ok(e) => compile_spec(expr@) == Ok::<ExprView, ErrorView>(e@),
            Err(err) => compile_spec(expr@) == Err::<ExprView, ErrorView>(err@),
        },
{
    let tokens = lex(expr);
    parse(&tokens)
}

} // verus!
