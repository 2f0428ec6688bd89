//! Statements written as tokens, such that the parser reads them back.

use vstd::prelude::*;
use crate::error::Construct;
use crate::error::ErrorView;
use crate::expr::Expr;
use crate::expr::ExprView;
use crate::lang::body_spec;
use crate::lang::file_spec;
use crate::lang::starts;
use crate::lang::statement_spec;
use crate::lang::parse_spec;
use crate::lang::Context;
use crate::lang::Statement;
use crate::lang::StatementView;
use crate::render::lemma_lex_round_trip;
use crate::render::printable;
use crate::render::render_tokens;
use crate::render::tokens_text;
use crate::token::Token;
use crate::token::TokenView;

verus! {

/// The tokens of a test expression.
pub open spec fn expr_tokens(e: ExprView) -> Seq<TokenView>
    decreases e,
{
    match e {
        ExprView::And(x, y) => expr_tokens(*x) + seq![TokenView::And] + expr_tokens(*y),
        ExprView::Or(x, y) => expr_tokens(*x) + seq![TokenView::Or] + expr_tokens(*y),
        ExprView::Not(x) => seq![TokenView::Not] + expr_tokens(*x),
        ExprView::Group(x) => seq![TokenView::Pal] + expr_tokens(*x) + seq![TokenView::Par],
        ExprView::Atom(name) => seq![TokenView::Name(name)],
        ExprView::Wild => seq![TokenView::Wild],
    }
}

/// The tokens of a statement.
pub open spec fn statement_tokens(s: StatementView) -> Seq<TokenView>
    decreases s, 1nat,
{
    match s {
        StatementView::Version(v) => seq![TokenView::Version, TokenView::Str(v)],
        StatementView::Help(t) => seq![TokenView::Help, TokenView::Str(t)],
        StatementView::Dir(p) => seq![TokenView::Dir, TokenView::Str(p)],
        StatementView::Run(c) => seq![TokenView::Run, TokenView::Str(c)],
        StatementView::Require(n) => seq![TokenView::Require, TokenView::Str(n)],
        StatementView::Import(url, prefix) => match prefix {
            Some(p) => seq![
                TokenView::Import,
                TokenView::Str(url),
                TokenView::As,
                TokenView::Str(p),
            ],
            None => seq![TokenView::Import, TokenView::Str(url)],
        },
        StatementView::Var(name, value) => seq![
            TokenView::Var,
            TokenView::Name(name),
            TokenView::Eq,
            TokenView::Str(value),
        ],
        StatementView::Recipe(name, body) => seq![
            TokenView::Recipe,
            TokenView::Name(name),
            TokenView::Cul,
        ] + list_tokens(body) + seq![TokenView::Cur],
        StatementView::If(cond, body) => seq![TokenView::If] + expr_tokens(cond) + seq![
            TokenView::Cul,
        ] + list_tokens(body) + seq![TokenView::Cur],
    }
}

/// The tokens of a list of statements.
pub open spec fn list_tokens(stmts: Seq<StatementView>) -> Seq<TokenView>
    decreases stmts, 0nat,
{
    if stmts.len() == 0 {
        Seq::empty()
    } else {
        statement_tokens(stmts[0]) + list_tokens(stmts.drop_first())
    }
}

/// Whether a statement without `if` can stand in a context and be written
/// such that it is read back: the names of variables and recipes have to be
/// names that the lexer gives.
pub open spec fn writable(s: StatementView, ctx: Context) -> bool
    decreases s, 1nat,
{
    match s {
        StatementView::Version(_) => ctx is File,
        StatementView::Import(_, _) => ctx is File,
        StatementView::Run(_) => ctx is Recipe,
        StatementView::Require(_) => ctx is Recipe,
        StatementView::Help(_) => true,
        StatementView::Dir(_) => true,
        StatementView::Var(name, _) => printable(TokenView::Name(name)),
        StatementView::Recipe(name, body) => ctx is File && printable(TokenView::Name(name))
            && all_writable(body, Context::Recipe),
        StatementView::If(_, _) => false,
    }
}

/// Whether every statement of a list is [`writable`] in a context.
pub open spec fn all_writable(stmts: Seq<StatementView>, ctx: Context) -> bool
    decreases stmts, 0nat,
{
    if stmts.len() == 0 {
        true
    } else {
        writable(stmts[0], ctx) && all_writable(stmts.drop_first(), ctx)
    }
}

/// Whether the tokens `w` stand in `ts` at position `pos`.
pub open spec fn stands_at(ts: Seq<TokenView>, pos: int, w: Seq<TokenView>) -> bool {
    &&& 0 <= pos
    &&& pos + w.len() <= ts.len()
    &&& forall|k: int| 0 <= k < w.len() ==> ts[pos + k] == #[trigger] w[k]
}

proof fn lemma_stands_split(ts: Seq<TokenView>, pos: int, a: Seq<TokenView>, b: Seq<TokenView>)
    requires
        stands_at(ts, pos, a + b),
    ensures
        stands_at(ts, pos, a),
        stands_at(ts, pos + a.len(), b),
{
    let w = a + b;
    assert forall|k: int| 0 <= k < a.len() implies ts[pos + k] == #[trigger] a[k] by {
        assert(w[k] == a[k]);
    }
    assert forall|k: int| 0 <= k < b.len() implies ts[pos + a.len() + k] == #[trigger] b[k] by {
        assert(w[a.len() + k] == b[k]);
    }
}

/// The tokens of a writable statement begin with the keyword that starts it,
/// and `as` is none of them.
proof fn lemma_first_token(s: StatementView, ctx: Context)
    requires
        writable(s, ctx),
    ensures
        statement_tokens(s).len() >= 2,
        starts(statement_tokens(s)[0], ctx) is Some,
        !(statement_tokens(s)[0] is As),
        !(statement_tokens(s)[0] is Cur),
{
}

/// The tokens of a writable statement are read back as the statement.
pub proof fn lemma_parse_statement(ts: Seq<TokenView>, pos: int, s: StatementView, ctx: Context)
    requires
        writable(s, ctx),
        stands_at(ts, pos, statement_tokens(s)),
        pos + statement_tokens(s).len() == ts.len() || !(ts[pos + statement_tokens(s).len()]
            is As),
    ensures
        statement_spec(ts, pos as nat, ctx) == Ok::<(StatementView, nat), ErrorView>(
            (s, (statement_tokens(s).len() - 1) as nat),
        ),
    decreases s, 1nat,
{
    let w = statement_tokens(s);
    lemma_first_token(s, ctx);
    match s {
        StatementView::Recipe(name, body) => {
            let head = seq![TokenView::Recipe, TokenView::Name(name), TokenView::Cul];
            let inner = list_tokens(body) + seq![TokenView::Cur];
            assert(w =~= head + inner);
            lemma_stands_split(ts, pos, head, inner);
            lemma_parse_body(ts, pos + 3, body, Context::Recipe, Construct::Recipe);
        },
        _ => {},
    }
}

/// The tokens of writable statements, with `}` after them, are read back as
/// a body of those statements.
pub proof fn lemma_parse_body(
    ts: Seq<TokenView>,
    pos: int,
    body: Seq<StatementView>,
    ctx: Context,
    within: Construct,
)
    requires
        all_writable(body, ctx),
        stands_at(ts, pos, list_tokens(body) + seq![TokenView::Cur]),
    ensures
        body_spec(ts, pos as nat, ctx, within) == Ok::<(Seq<StatementView>, nat), ErrorView>(
            (body, (list_tokens(body).len() + 1) as nat),
        ),
    decreases body, 0nat,
{
    let all = list_tokens(body) + seq![TokenView::Cur];
    if body.len() == 0 {
        assert(all[0] == TokenView::Cur);
        assert(body =~= Seq::empty());
    } else {
        let s = body[0];
        let rest = body.drop_first();
        let w = statement_tokens(s);
        let tail = list_tokens(rest) + seq![TokenView::Cur];
        assert(all =~= w + tail);
        lemma_stands_split(ts, pos, w, tail);
        lemma_first_token(s, ctx);
        assert(!(tail[0] is As)) by {
            if rest.len() > 0 {
                reveal_with_fuel(all_writable, 2);
                lemma_first_token(rest[0], ctx);
            }
        }
        lemma_parse_statement(ts, pos, s, ctx);
        lemma_parse_body(ts, pos + w.len(), rest, ctx, within);
        assert(seq![s] + rest =~= body);
    }
}

/// The tokens of writable statements are read back as a file of those
/// statements.
pub proof fn lemma_parse_file(ts: Seq<TokenView>, pos: int, stmts: Seq<StatementView>)
    requires
        all_writable(stmts, Context::File),
        stands_at(ts, pos, list_tokens(stmts)),
        pos + list_tokens(stmts).len() == ts.len(),
    ensures
        file_spec(ts, pos as nat) == Ok::<Seq<StatementView>, ErrorView>(stmts),
    decreases stmts,
{
    if stmts.len() == 0 {
        assert(stmts =~= Seq::empty());
    } else {
        let s = stmts[0];
        let rest = stmts.drop_first();
        let w = statement_tokens(s);
        let tail = list_tokens(rest);
        lemma_stands_split(ts, pos, w, tail);
        lemma_first_token(s, Context::File);
        if rest.len() > 0 {
            reveal_with_fuel(all_writable, 2);
            lemma_first_token(rest[0], Context::File);
            assert(tail[0] == statement_tokens(rest[0])[0]);
        }
        lemma_parse_statement(ts, pos, s, Context::File);
        lemma_parse_file(ts, pos + w.len(), rest);
        assert(seq![s] + rest =~= stmts);
    }
}

/// Every token of writable statements is one that the lexer gives.
pub proof fn lemma_tokens_printable(stmts: Seq<StatementView>, ctx: Context)
    requires
        all_writable(stmts, ctx),
    ensures
        forall|k: int| 0 <= k < list_tokens(stmts).len() ==> printable(
            #[trigger] list_tokens(stmts)[k],
        ),
    decreases stmts, 0nat,
{
    if stmts.len() > 0 {
        let s = stmts[0];
        let rest = stmts.drop_first();
        let w = statement_tokens(s);
        let tail = list_tokens(rest);
        lemma_tokens_printable(rest, ctx);
        lemma_statement_printable(s, ctx);
        assert forall|k: int| 0 <= k < list_tokens(stmts).len() implies printable(
            #[trigger] list_tokens(stmts)[k],
        ) by {
            if k < w.len() {
                assert(list_tokens(stmts)[k] == w[k]);
            } else {
                assert(list_tokens(stmts)[k] == tail[k - w.len()]);
            }
        }
    }
}

proof fn lemma_statement_printable(s: StatementView, ctx: Context)
    requires
        writable(s, ctx),
    ensures
        forall|k: int| 0 <= k < statement_tokens(s).len() ==> printable(
            #[trigger] statement_tokens(s)[k],
        ),
    decreases s, 1nat,
{
    match s {
        StatementView::Recipe(name, body) => {
            let head = seq![TokenView::Recipe, TokenView::Name(name), TokenView::Cul];
            let inner = list_tokens(body);
            let w = statement_tokens(s);
            lemma_tokens_printable(body, Context::Recipe);
            assert forall|k: int| 0 <= k < w.len() implies printable(#[trigger] w[k]) by {
                if k < 3 {
                    assert(w[k] == head[k]);
                } else if k < 3 + inner.len() {
                    assert(w[k] == inner[k - 3]);
                } else {
                    assert(w[k] == TokenView::Cur);
                }
            }
        },
        _ => {},
    }
}

/// The text that a list of statements is written as.
pub open spec fn source_text(stmts: Seq<StatementView>) -> Seq<char> {
    tokens_text(list_tokens(stmts))
}

/// Statements without `if`, written as text, are read back as they were.
pub proof fn lemma_parse_round_trip(stmts: Seq<StatementView>)
    requires
        all_writable(stmts, Context::File),
    ensures
        parse_spec(source_text(stmts)) == Ok::<Seq<StatementView>, ErrorView>(stmts),
{
    let ts = list_tokens(stmts);
    lemma_tokens_printable(stmts, Context::File);
    lemma_lex_round_trip(ts);
    lemma_parse_file(ts, 0, stmts);
}

/// A list whose statements are all writable is writable.
pub proof fn lemma_all_writable(stmts: Seq<StatementView>, ctx: Context)
    requires
        forall|i: int| 0 <= i < stmts.len() ==> writable(#[trigger] stmts[i], ctx),
    ensures
        all_writable(stmts, ctx),
    decreases stmts.len(),
{
    if stmts.len() > 0 {
        let rest = stmts.drop_first();
        lemma_all_writable(rest, ctx);
    }
}

impl Expr {
    /// Appends the tokens of the expression.
    pub fn tokens_into(&self, out: &mut Vec<Token>)
        ensures
            final(out).deep_view() == old(out).deep_view() + expr_tokens(self@),
        decreases self,
    {
        match self {
            Expr::And(x, y) => {
                x.tokens_into(out);
                let ghost one = out.deep_view();
                out.push(Token::And);
                assert(out.deep_view() =~= one.push(TokenView::And));
                y.tokens_into(out);
            },
            Expr::Or(x, y) => {
                x.tokens_into(out);
                let ghost one = out.deep_view();
                out.push(Token::Or);
                assert(out.deep_view() =~= one.push(TokenView::Or));
                y.tokens_into(out);
            },
            Expr::Not(x) => {
                out.push(Token::Not);
                x.tokens_into(out);
            },
            Expr::Group(x) => {
                out.push(Token::Pal);
                x.tokens_into(out);
                let ghost two = out.deep_view();
                out.push(Token::Par);
                assert(out.deep_view() =~= two.push(TokenView::Par));
            },
            Expr::Atom(name) => {
                let t = Token::Name(name.clone());
                out.push(t);
            },
            Expr::Wild => {
                out.push(Token::Wild);
            },
        }
    }
}

/// Appends a keyword and a string.
fn push_pair(out: &mut Vec<Token>, keyword: Token, text: &String)
    ensures
        final(out).deep_view() == old(out).deep_view() + seq![keyword@, TokenView::Str(text@)],
{
    let t = Token::Str(text.clone());
    out.push(keyword);
    out.push(t);
}

/// Appends the tokens of a list of statements.
pub fn list_tokens_into(stmts: &Vec<Statement>, out: &mut Vec<Token>)
    ensures
        final(out).deep_view() == old(out).deep_view() + list_tokens(stmts.deep_view()),
    decreases stmts, 0nat,
{
    let ghost start = out.deep_view();
    let ghost all = stmts.deep_view();
    let mut i: usize = 0;
    assert(all.skip(0) =~= all);
    while i < stmts.len()
        invariant
            i <= stmts.len(),
            all == stmts.deep_view(),
            out.deep_view() + list_tokens(all.skip(i as int)) == start + list_tokens(all),
        decreases stmts.len() - i,
    {
        let ghost rest = all.skip(i as int);
        proof {
            assert(rest.drop_first() =~= all.skip(i + 1));
        }
        stmts[i].tokens_into(out);
        i += 1;
    }
}

impl Statement {
    /// Appends the tokens of the statement.
    pub fn tokens_into(&self, out: &mut Vec<Token>)
        ensures
            final(out).deep_view() == old(out).deep_view() + statement_tokens(self@),
        decreases self, 1nat,
    {
        proof {
            self.lemma_body_view();
        }
        match self {
            Statement::Version(v) => push_pair(out, Token::Version, v),
            Statement::Help(t) => push_pair(out, Token::Help, t),
            Statement::Dir(p) => push_pair(out, Token::Dir, p),
            Statement::Run(c) => push_pair(out, Token::Run, c),
            Statement::Require(n) => push_pair(out, Token::Require, n),
            Statement::Import(url, prefix) => {
                push_pair(out, Token::Import, url);
                match prefix {
                    Some(p) => {
                        push_pair(out, Token::As, p);
                    },
                    None => {},
                }
            },
            Statement::Var(name, value) => {
                let n = Token::Name(name.clone());
                out.push(Token::Var);
                out.push(n);
                push_pair(out, Token::Eq, value);
            },
            Statement::Recipe(name, body) => {
                let n = Token::Name(name.clone());
                out.push(Token::Recipe);
                out.push(n);
                out.push(Token::Cul);
                list_tokens_into(body, out);
                let ghost four = out.deep_view();
                out.push(Token::Cur);
                assert(out.deep_view() =~= four.push(TokenView::Cur));
            },
            Statement::If(cond, body) => {
                out.push(Token::If);
                cond.tokens_into(out);
                let ghost two = out.deep_view();
                out.push(Token::Cul);
                let ghost three = out.deep_view();
                assert(three =~= two.push(TokenView::Cul));
                list_tokens_into(body, out);
                let ghost four = out.deep_view();
                out.push(Token::Cur);
                assert(out.deep_view() =~= four.push(TokenView::Cur));
            },
        }
    }
}

/// Writes statements as tokens.
pub fn unparse(stmts: &Vec<Statement>) -> (r: Vec<Token>)
    ensures
        r.deep_view() == list_tokens(stmts.deep_view()),
{
    let mut out: Vec<Token> = Vec::new();
    list_tokens_into(stmts, &mut out);
    out
}

/// Writes statements as the text of a configuration file.
pub fn render(stmts: &Vec<Statement>) -> (r: String)
    ensures
        r@ == source_text(stmts.deep_view()),
{
    let tokens = unparse(stmts);
    render_tokens(&tokens)
}

} // verus!
