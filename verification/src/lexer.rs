//! The lexer of the configuration language.
//!
//! A word (letters, digits, `_`, `-`, `/`, `:`) is a keyword or a name. A `"`
//! opens a string that runs to the next `"` that no backslash stands before;
//! in it `\n`, `\r` and `\t` stand for a line feed, a carriage return and a
//! tab, and a backslash before any other character stands for that character.
//! The punctuation characters are tokens of their own, `$` is short for
//! `run`, and every other character separates tokens and is skipped.

use vstd::prelude::*;
use crate::error::Error;
use crate::error::ErrorView;
use crate::text::chars_of;
use crate::text::push_char;
use crate::text::same_text;
use crate::text::string_of;
use crate::token::is_name_char;
use crate::token::lemma_name_len_bound;
use crate::token::name_char;
use crate::token::name_end;
use crate::token::name_len;
use crate::token::symbol;
use crate::token::symbol_token;
use crate::token::Token;
use crate::token::TokenView;

verus! {

/// The keyword that a word is, if it is one.
pub open spec fn keyword(word: Seq<char>) -> Option<TokenView> {
    if word == "as"@ {
        Some(TokenView::As)
    } else if word == "dir"@ {
        Some(TokenView::Dir)
    } else if word == "help"@ {
        Some(TokenView::Help)
    } else if word == "if"@ {
        Some(TokenView::If)
    } else if word == "import"@ {
        Some(TokenView::Import)
    } else if word == "recipe"@ {
        Some(TokenView::Recipe)
    } else if word == "require"@ {
        Some(TokenView::Require)
    } else if word == "run"@ {
        Some(TokenView::Run)
    } else if word == "var"@ {
        Some(TokenView::Var)
    } else if word == "version"@ {
        Some(TokenView::Version)
    } else {
        None
    }
}

/// The token that a word is: its keyword, or else a name.
pub open spec fn word_token(word: Seq<char>) -> TokenView {
    match keyword(word) {
        Some(t) => t,
        None => TokenView::Name(word),
    }
}

/// The character that stands behind a backslash.
pub open spec fn escape(c: char) -> char {
    if c == 'n' {
        '\n'
    } else if c == 'r' {
        '\r'
    } else if c == 't' {
        '\t'
    } else {
        c
    }
}

/// The text of a string body with its escapes resolved. A backslash that
/// nothing follows stands for itself.
pub open spec fn unescaped(raw: Seq<char>) -> Seq<char>
    decreases raw.len(),
{
    if raw.len() == 0 {
        Seq::empty()
    } else if raw[0] == '\\' && raw.len() >= 2 {
        seq![escape(raw[1])] + unescaped(raw.skip(2))
    } else {
        seq![raw[0]] + unescaped(raw.drop_first())
    }
}

/// The length of the string body that starts at `i`, just after the opening
/// quote: the number of characters before the closing quote. `None` when the
/// text ends before the string does.
pub open spec fn body_len(s: Seq<char>, i: int) -> Option<nat>
    decreases s.len() - i,
{
    if i < 0 || i >= s.len() {
        None
    } else if s[i] == '"' {
        Some(0)
    } else if s[i] == '\\' {
        if i + 1 >= s.len() {
            None
        } else {
            match body_len(s, i + 2) {
                Some(n) => Some(n + 2),
                None => None,
            }
        }
    } else {
        match body_len(s, i + 1) {
            Some(n) => Some(n + 1),
            None => None,
        }
    }
}

/// A string body ends on a quote inside the text.
pub proof fn lemma_body_len_bound(s: Seq<char>, i: int)
    requires
        body_len(s, i) is Some,
    ensures
        0 <= i,
        i + body_len(s, i)->0 < s.len(),
        s[i + body_len(s, i)->0] == '"',
    decreases s.len() - i,
{
    if s[i] == '\\' {
        lemma_body_len_bound(s, i + 2);
    } else if s[i] != '"' {
        lemma_body_len_bound(s, i + 1);
    }
}

/// `tokens` in front of what a rest of the text gives.
pub open spec fn before(tokens: Seq<TokenView>, rest: Option<Seq<TokenView>>) -> Option<
    Seq<TokenView>,
> {
    match rest {
        Some(r) => Some(tokens + r),
        None => None,
    }
}

/// The tokens of a configuration text from position `i` on, or `None` when a
/// string is left open.
pub open spec fn tokens_spec(s: Seq<char>, i: int) -> Option<Seq<TokenView>>
    decreases s.len() - i,
{
    if i < 0 || i >= s.len() {
        Some(Seq::empty())
    } else if is_name_char(s[i], true) {
        let n = name_len(s, i, true);
        proof {
            lemma_name_len_bound(s, i, true);
        }
        before(seq![word_token(s.subrange(i, i + n))], tokens_spec(s, i + n))
    } else if s[i] == '"' {
        match body_len(s, i + 1) {
            Some(n) => {
                proof {
                    lemma_body_len_bound(s, i + 1);
                }
                before(
                    seq![TokenView::Str(unescaped(s.subrange(i + 1, i + 1 + n)))],
                    tokens_spec(s, i + n + 2),
                )
            },
            None => None,
        }
    } else {
        match symbol(s[i]) {
            Some(t) => before(seq![t], tokens_spec(s, i + 1)),
            None => tokens_spec(s, i + 1),
        }
    }
}

/// Exec form of [`escape`].
pub fn escape_char(c: char) -> (r: char)
    ensures
        r == escape(c),
{
    if c == 'n' {
        '\n'
    } else if c == 'r' {
        '\r'
    } else if c == 't' {
        '\t'
    } else {
        c
    }
}

/// Resolves the escapes in `chars[from..to]`.
pub fn unescape_range(chars: &Vec<char>, from: usize, to: usize) -> (r: String)
    requires
        from <= to <= chars.len(),
    ensures
        r@ == unescaped(chars@.subrange(from as int, to as int)),
{
    let ghost raw = chars@.subrange(from as int, to as int);
    let mut out = String::new();
    let mut i: usize = from;
    assert(raw.skip(0) =~= raw);
    while i < to
        invariant
            from <= i <= to <= chars.len(),
            raw == chars@.subrange(from as int, to as int),
            unescaped(raw) == out@ + unescaped(raw.skip(i - from)),
        decreases to - i,
    {
        let ghost rest = raw.skip(i - from);
        if chars[i] == '\\' && i + 1 < to {
            assert(rest.skip(2) =~= raw.skip(i + 2 - from));
            push_char(&mut out, escape_char(chars[i + 1]));
            i += 2;
        } else {
            assert(rest.drop_first() =~= raw.skip(i + 1 - from));
            push_char(&mut out, chars[i]);
            i += 1;
        }
    }
    out
}

/// Resolves the escapes of a string body.
pub fn unescape(source: &str) -> (r: String)
    ensures
        r@ == unescaped(source@),
{
    let chars = chars_of(source);
    assert(chars@.subrange(0, chars.len() as int) =~= chars@);
    unescape_range(&chars, 0, chars.len())
}

/// Finds the end of the string body that starts at `from`: the position of
/// its closing quote, or `None` if the text ends first.
pub fn body_end(chars: &Vec<char>, from: usize) -> (r: Option<usize>)
    requires
        from <= chars.len(),
    ensures
        match r {
            Some(end) => from <= end < chars.len() && body_len(chars@, from as int) == Some(
                (end - from) as nat,
            ),
            None => body_len(chars@, from as int) is None,
        },
{
    let mut i: usize = from;
    while i < chars.len()
        invariant
            from <= i <= chars.len(),
            body_len(chars@, from as int) == match body_len(chars@, i as int) {
                Some(n) => Some((n + (i - from)) as nat),
                None => None,
            },
        decreases chars.len() - i,
    {
        if chars[i] == '"' {
            return Some(i);
        }
        if chars[i] == '\\' {
            if i + 1 >= chars.len() {
                return None;
            }
            i += 2;
        } else {
            i += 1;
        }
    }
    None
}

/// Reads the string whose opening quote is at `from - 1`, and gives its token
/// with the position after its closing quote.
pub fn lex_string(chars: &Vec<char>, from: usize) -> (r: Result<(Token, usize), Error>)
    requires
        from <= chars.len(),
    ensures
        match r {
            Ok((t, next)) => {
                &&& body_len(chars@, from as int) matches Some(n)
                &&& next == from + n + 1
                &&& next <= chars.len()
                &&& t@ == TokenView::Str(unescaped(chars@.subrange(from as int, from + n)))
            },
            Err(e) => body_len(chars@, from as int) is None && e@ == ErrorView::UnterminatedString,
        },
{
    match body_end(chars, from) {
        Some(end) => Ok((Token::Str(unescape_range(chars, from, end)), end + 1)),
        None => Err(Error::UnterminatedString),
    }
}

/// The token of a word.
pub fn word(name: String) -> (t: Token)
    ensures
        t@ == word_token(name@),
{
    if same_text(name.as_str(), "as") {
        Token::As
    } else if same_text(name.as_str(), "dir") {
        Token::Dir
    } else if same_text(name.as_str(), "help") {
        Token::Help
    } else if same_text(name.as_str(), "if") {
        Token::If
    } else if same_text(name.as_str(), "import") {
        Token::Import
    } else if same_text(name.as_str(), "recipe") {
        Token::Recipe
    } else if same_text(name.as_str(), "require") {
        Token::Require
    } else if same_text(name.as_str(), "run") {
        Token::Run
    } else if same_text(name.as_str(), "var") {
        Token::Var
    } else if same_text(name.as_str(), "version") {
        Token::Version
    } else {
        Token::Name(name)
    }
}

/// Reads the word that starts at `from`, and gives its token with the
/// position after it.
pub fn lex_name(chars: &Vec<char>, from: usize) -> (r: (Token, usize))
    requires
        from < chars.len(),
        is_name_char(chars@[from as int], true),
    ensures
        r.1 == from + name_len(chars@, from as int, true),
        from < r.1 <= chars.len(),
        r.0@ == word_token(chars@.subrange(from as int, r.1 as int)),
{
    let end = name_end(chars, from, true);
    (word(string_of(chars, from, end)), end)
}

/// Splits a configuration text into tokens. The only failure is a string
/// that is left open.
pub fn lex(code: &str) -> (r: Result<Vec<Token>, Error>)
    ensures
        match r {
            Ok(tokens) => tokens_spec(code@, 0) == Some(tokens.deep_view()),
            Err(e) => tokens_spec(code@, 0) is None && e@ == ErrorView::UnterminatedString,
        },
{
    let chars = chars_of(code);
    let mut tokens: Vec<Token> = Vec::new();
    let mut i: usize = 0;
    while i < chars.len()
        invariant
            i <= chars.len(),
            chars@ == code@,
            tokens_spec(chars@, 0) == before(tokens.deep_view(), tokens_spec(chars@, i as int)),
        decreases chars.len() - i,
    {
        let c = chars[i];
        if name_char(c, true) {
            let name = lex_name(&chars, i);
            i = name.1;
            tokens.push(name.0);
        } else if c == '"' {
            match lex_string(&chars, i + 1) {
                Ok((t, next)) => {
                    i = next;
                    tokens.push(t);
                },
                Err(e) => {
                    return Err(e);
                },
            }
        } else {
            match symbol_token(c) {
                Some(t) => {
                    tokens.push(t);
                },
                None => {},
            }
            i += 1;
        }
    }
    Ok(tokens)
}

} // verus!
