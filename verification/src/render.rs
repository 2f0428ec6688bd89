//! Tokens written as text, such that the lexer reads them back.
//!
//! A word is written as it is, a string between quotes with `"`, `\`, line
//! feed, carriage return and tab escaped, a punctuation token as its
//! character. One space follows every token.

use vstd::prelude::*;
use crate::lexer::before;
use crate::lexer::body_len;
use crate::lexer::escape;
use crate::lexer::keyword;
use crate::lexer::tokens_spec;
use crate::lexer::unescaped;
use crate::lexer::word_token;
use crate::text::chars_of;
use crate::text::push_char;
use crate::token::is_name_char;
use crate::token::name_len;
use crate::token::symbol;
use crate::token::Token;
use crate::token::TokenView;

verus! {

/// What a character of a string is written as.
pub open spec fn escape_piece(c: char) -> Seq<char> {
    if c == '"' {
        seq!['\\', '"']
    } else if c == '\\' {
        seq!['\\', '\\']
    } else if c == '\n' {
        seq!['\\', 'n']
    } else if c == '\r' {
        seq!['\\', 'r']
    } else if c == '\t' {
        seq!['\\', 't']
    } else {
        seq![c]
    }
}

/// What the text of a string is written as between its quotes.
pub open spec fn escaped(s: Seq<char>) -> Seq<char>
    decreases s.len(),
{
    if s.len() == 0 {
        Seq::empty()
    } else {
        escape_piece(s[0]) + escaped(s.drop_first())
    }
}

/// Whether `w` stands in `s` at position `j`.
pub open spec fn holds_at(s: Seq<char>, j: int, w: Seq<char>) -> bool {
    &&& 0 <= j
    &&& j + w.len() <= s.len()
    &&& forall|k: int| 0 <= k < w.len() ==> s[j + k] == #[trigger] w[k]
}

/// Whether a word is made of name characters only, and of one at least.
pub open spec fn is_word(w: Seq<char>) -> bool {
    w.len() > 0 && forall|k: int| 0 <= k < w.len() ==> is_name_char(#[trigger] w[k], true)
}

/// Resolving the escapes of what a text is written as gives the text.
pub proof fn lemma_unescape_escaped(x: Seq<char>)
    ensures
        unescaped(escaped(x)) == x,
    decreases x.len(),
{
    if x.len() > 0 {
        let c = x[0];
        let rest = escaped(x.drop_first());
        let raw = escaped(x);
        lemma_unescape_escaped(x.drop_first());
        if c == '"' || c == '\\' || c == '\n' || c == '\r' || c == '\t' {
            assert(escape_piece(c).len() == 2);
            assert(raw.skip(2) =~= rest);
        } else {
            assert(raw.drop_first() =~= rest);
        }
    }
}

/// Where a written text stands in `s` with a quote after it, a string body
/// that starts there ends on that quote.
pub proof fn lemma_body_len_escaped(s: Seq<char>, j: int, x: Seq<char>)
    requires
        holds_at(s, j, escaped(x)),
        j + escaped(x).len() < s.len(),
        s[j + escaped(x).len()] == '"',
    ensures
        body_len(s, j) == Some(escaped(x).len()),
    decreases x.len(),
{
    if x.len() > 0 {
        let c = x[0];
        let piece = escape_piece(c);
        let rest = escaped(x.drop_first());
        let raw = escaped(x);
        assert(raw[0] == piece[0]);
        assert(holds_at(s, j + piece.len(), rest)) by {
            assert forall|k: int| 0 <= k < rest.len() implies s[j + piece.len() + k]
                == #[trigger] rest[k] by {
                assert(s[j + (piece.len() + k)] == raw[piece.len() + k]);
            }
        }
        lemma_body_len_escaped(s, j + piece.len(), x.drop_first());
        if piece.len() == 2 {
            assert(s[j] == '\\');
        }
    }
}

/// A word that stands in `s` with no name character after it is a whole
/// name there.
pub proof fn lemma_name_len_word(s: Seq<char>, i: int, w: Seq<char>)
    requires
        holds_at(s, i, w),
        forall|k: int| 0 <= k < w.len() ==> is_name_char(#[trigger] w[k], true),
        i + w.len() == s.len() || !is_name_char(s[i + w.len()], true),
    ensures
        name_len(s, i, true) == w.len(),
    decreases w.len(),
{
    if w.len() > 0 {
        let rest = w.drop_first();
        assert(s[i + 0] == w[0]);
        lemma_name_len_word(s, i + 1, rest);
    }
}

/// The text of a token.
pub open spec fn token_text(t: TokenView) -> Seq<char> {
    match t {
        TokenView::And => seq!['+'],
        TokenView::As => "as"@,
        TokenView::Cul => seq!['{'],
        TokenView::Cur => seq!['}'],
        TokenView::Dir => "dir"@,
        TokenView::Eq => seq!['='],
        TokenView::Help => "help"@,
        TokenView::If => "if"@,
        TokenView::Import => "import"@,
        TokenView::Not => seq!['~'],
        TokenView::Or => seq!['|'],
        TokenView::Pal => seq!['('],
        TokenView::Par => seq![')'],
        TokenView::Recipe => "recipe"@,
        TokenView::Require => "require"@,
        TokenView::Run => "run"@,
        TokenView::Sql => seq!['['],
        TokenView::Sqr => seq![']'],
        TokenView::Var => "var"@,
        TokenView::Version => "version"@,
        TokenView::Wild => seq!['*'],
        TokenView::Name(name) => name,
        TokenView::Str(text) => seq!['"'] + escaped(text) + seq!['"'],
    }
}

/// Whether a token is one that the lexer can give: a name is a word and no
/// keyword.
pub open spec fn printable(t: TokenView) -> bool {
    match t {
        TokenView::Name(name) => is_word(name) && keyword(name) is None,
        _ => true,
    }
}

/// Whether a token is a keyword.
pub open spec fn is_keyword(t: TokenView) -> bool {
    t is As || t is Dir || t is Help || t is If || t is Import || t is Recipe || t is Require || t
        is Run || t is Var || t is Version
}

/// The text of a list of tokens: each token with a space after it.
pub open spec fn tokens_text(ts: Seq<TokenView>) -> Seq<char>
    decreases ts.len(),
{
    if ts.len() == 0 {
        Seq::empty()
    } else {
        token_text(ts[0]) + seq![' '] + tokens_text(ts.drop_first())
    }
}

/// The text of a keyword is a word that the lexer reads as that keyword.
pub proof fn lemma_keyword_text(t: TokenView)
    requires
        is_keyword(t),
    ensures
        is_word(token_text(t)),
        word_token(token_text(t)) == t,
{
    reveal_strlit("as");
    reveal_strlit("dir");
    reveal_strlit("help");
    reveal_strlit("if");
    reveal_strlit("import");
    reveal_strlit("recipe");
    reveal_strlit("require");
    reveal_strlit("run");
    reveal_strlit("var");
    reveal_strlit("version");
    let w = token_text(t);
    assert("as"@[0] == 'a' && "dir"@[0] == 'd' && "help"@[0] == 'h' && "if"@[0] == 'i');
    assert("import"@[0] == 'i' && "recipe"@[0] == 'r' && "require"@[0] == 'r');
    assert("run"@[0] == 'r' && "var"@[0] == 'v' && "version"@[0] == 'v');
    assert("import"@.len() == 6 && "recipe"@.len() == 6 && "require"@.len() == 7
        && "version"@.len() == 7);
    assert forall|k: int| 0 <= k < w.len() implies is_name_char(#[trigger] w[k], true) by {
        assert(k == 0 || k == 1 || k == 2 || k == 3 || k == 4 || k == 5 || k == 6);
    }
}

/// Where the text of a token stands in `s` with a space after it, the lexer
/// reads that token there and goes on after the space.
pub proof fn lemma_lex_one(s: Seq<char>, i: int, t: TokenView)
    requires
        holds_at(s, i, token_text(t) + seq![' ']),
        printable(t),
    ensures
        tokens_spec(s, i) == before(seq![t], tokens_spec(s, i + token_text(t).len() + 1)),
{
    let w = token_text(t);
    let full = w + seq![' '];
    let n = w.len() as int;
    assert(full[n] == ' ');
    assert(s[i + n] == ' ');
    assert(!is_name_char(' ', true));
    assert(symbol(' ') is None);
    assert(tokens_spec(s, i + n) == tokens_spec(s, i + n + 1));
    assert(holds_at(s, i, w)) by {
        assert forall|k: int| 0 <= k < w.len() implies s[i + k] == #[trigger] w[k] by {
            assert(full[k] == w[k]);
        }
    }
    match t {
        TokenView::Name(name) => {
            lemma_name_len_word(s, i, w);
            assert(s[i + 0] == w[0]);
            assert(s.subrange(i, i + n) =~= w);
        },
        TokenView::Str(text) => {
            let e = escaped(text);
            let m = e.len() as int;
            assert(w[0] == '"');
            assert(s[i + 0] == w[0]);
            assert(holds_at(s, i + 1, e)) by {
                assert forall|k: int| 0 <= k < e.len() implies s[i + 1 + k] == #[trigger] e[k] by {
                    assert(w[k + 1] == e[k]);
                    assert(s[i + (k + 1)] == w[k + 1]);
                }
            }
            assert(w[m + 1] == '"');
            assert(s[i + (m + 1)] == w[m + 1]);
            lemma_body_len_escaped(s, i + 1, text);
            lemma_unescape_escaped(text);
            assert(s.subrange(i + 1, i + 1 + m) =~= e);
            assert(n == m + 2);
        },
        _ => {
            if is_keyword(t) {
                lemma_keyword_text(t);
                lemma_name_len_word(s, i, w);
                assert(s[i + 0] == w[0]);
                assert(s.subrange(i, i + n) =~= w);
            } else {
                assert(n == 1);
                assert(s[i + 0] == w[0]);
                assert(symbol(w[0]) == Some(t));
                assert(!is_name_char(w[0], true));
            }
        },
    }
}

/// The lexer reads the text of printable tokens back as those tokens,
/// whatever text stands before it.
pub proof fn lemma_lex_tokens_text(prefix: Seq<char>, ts: Seq<TokenView>)
    requires
        forall|k: int| 0 <= k < ts.len() ==> printable(#[trigger] ts[k]),
    ensures
        tokens_spec(prefix + tokens_text(ts), prefix.len() as int) == Some(ts),
    decreases ts.len(),
{
    let s = prefix + tokens_text(ts);
    let i = prefix.len() as int;
    if ts.len() > 0 {
        let t = ts[0];
        let rest = ts.drop_first();
        let head = token_text(t) + seq![' '];
        lemma_lex_one(s, i, t);
        lemma_lex_tokens_text(prefix + head, rest);
        assert((prefix + head) + tokens_text(rest) =~= s);
    }
}

/// The text of a list of tokens is read back as the list.
pub proof fn lemma_lex_round_trip(ts: Seq<TokenView>)
    requires
        forall|k: int| 0 <= k < ts.len() ==> printable(#[trigger] ts[k]),
    ensures
        tokens_spec(tokens_text(ts), 0) == Some(ts),
{
    lemma_lex_tokens_text(Seq::empty(), ts);
}

/// Appends what a text is written as between quotes.
fn push_escaped(out: &mut String, text: &str)
    ensures
        final(out)@ == old(out)@ + escaped(text@),
{
    let ghost start = out@;
    let chars = chars_of(text);
    let mut i: usize = 0;
    assert(chars@.skip(0) =~= chars@);
    while i < chars.len()
        invariant
            i <= chars.len(),
            chars@ == text@,
            out@ + escaped(chars@.skip(i as int)) == start + escaped(text@),
        decreases chars.len() - i,
    {
        let ghost rest = chars@.skip(i as int);
        assert(rest.drop_first() =~= chars@.skip(i + 1));
        let c = chars[i];
        if c == '"' {
            push_char(out, '\\');
            push_char(out, '"');
        } else if c == '\\' {
            push_char(out, '\\');
            push_char(out, '\\');
        } else if c == '\n' {
            push_char(out, '\\');
            push_char(out, 'n');
        } else if c == '\r' {
            push_char(out, '\\');
            push_char(out, 'r');
        } else if c == '\t' {
            push_char(out, '\\');
            push_char(out, 't');
        } else {
            push_char(out, c);
        }
        i += 1;
    }
}

/// Appends the text of a token.
fn push_token(out: &mut String, t: &Token)
    ensures
        final(out)@ == old(out)@ + token_text(t@),
{
    match t {
        Token::And => {
            push_char(out, '+');
        },
        Token::As => {
            out.append("as");
        },
        Token::Cul => {
            push_char(out, '{');
        },
        Token::Cur => {
            push_char(out, '}');
        },
        Token::Dir => {
            out.append("dir");
        },
        Token::Eq => {
            push_char(out, '=');
        },
        Token::Help => {
            out.append("help");
        },
        Token::If => {
            out.append("if");
        },
        Token::Import => {
            out.append("import");
        },
        Token::Not => {
            push_char(out, '~');
        },
        Token::Or => {
            push_char(out, '|');
        },
        Token::Pal => {
            push_char(out, '(');
        },
        Token::Par => {
            push_char(out, ')');
        },
        Token::Recipe => {
            out.append("recipe");
        },
        Token::Require => {
            out.append("require");
        },
        Token::Run => {
            out.append("run");
        },
        Token::Sql => {
            push_char(out, '[');
        },
        Token::Sqr => {
            push_char(out, ']');
        },
        Token::Var => {
            out.append("var");
        },
        Token::Version => {
            out.append("version");
        },
        Token::Wild => {
            push_char(out, '*');
        },
        Token::Name(name) => {
            out.append(name.as_str());
        },
        Token::Str(text) => {
            push_char(out, '"');
            push_escaped(out, text.as_str());
            push_char(out, '"');
        },
    }
}

/// Writes tokens as text, each with a space after it.
pub fn render_tokens(tokens: &Vec<Token>) -> (r: String)
    ensures
        r@ == tokens_text(tokens.deep_view()),
{
    let ghost all = tokens.deep_view();
    let mut out = String::new();
    let mut i: usize = 0;
    assert(all.skip(0) =~= all);
    while i < tokens.len()
        invariant
            i <= tokens.len(),
            all == tokens.deep_view(),
            out@ + tokens_text(all.skip(i as int)) == tokens_text(all),
        decreases tokens.len() - i,
    {
        let ghost rest = all.skip(i as int);
        assert(rest.drop_first() =~= all.skip(i + 1));
        push_token(&mut out, &tokens[i]);
        push_char(&mut out, ' ');
        i += 1;
    }
    out
}

} // verus!
