//! The tokens of the configuration language and of its test expressions.

use vstd::prelude::*;

verus! {

/// One token. The boolean operators and the names also make up the test
/// expressions; the rest belongs to statements.
#[derive(Clone, Debug, PartialEq, Eq)]
pub enum Token {
    /// `+`
    And,
    /// `as`
    As,
    /// `{`
    Cul,
    /// `}`
    Cur,
    /// `dir`
    Dir,
    /// `=`
    Eq,
    /// `help`
    Help,
    /// `if`
    If,
    /// `import`
    Import,
    /// `~`
    Not,
    /// `|`
    Or,
    /// `(`
    Pal,
    /// `)`
    Par,
    /// `recipe`
    Recipe,
    /// `require`
    Require,
    /// `run`, or its shorthand `$`
    Run,
    /// `[`
    Sql,
    /// `]`
    Sqr,
    /// `var`
    Var,
    /// `version`
    Version,
    /// `*` or `?`
    Wild,
    /// A bare word.
    Name(String),
    /// A double-quoted string, with its escapes resolved.
    Str(String),
}

/// A [`Token`] with its text as a character sequence.
pub ghost enum TokenView {
    And,
    As,
    Cul,
    Cur,
    Dir,
    Eq,
    Help,
    If,
    Import,
    Not,
    Or,
    Pal,
    Par,
    Recipe,
    Require,
    Run,
    Sql,
    Sqr,
    Var,
    Version,
    Wild,
    Name(Seq<char>),
    Str(Seq<char>),
}

impl View for Token {
    type V = TokenView;

    open spec fn view(&self) -> TokenView {
        match self {
            Token::And => TokenView::And,
            Token::As => TokenView::As,
            Token::Cul => TokenView::Cul,
            Token::Cur => TokenView::Cur,
            Token::Dir => TokenView::Dir,
            Token::Eq => TokenView::Eq,
            Token::Help => TokenView::Help,
            Token::If => TokenView::If,
            Token::Import => TokenView::Import,
            Token::Not => TokenView::Not,
            Token::Or => TokenView::Or,
            Token::Pal => TokenView::Pal,
            Token::Par => TokenView::Par,
            Token::Recipe => TokenView::Recipe,
            Token::Require => TokenView::Require,
            Token::Run => TokenView::Run,
            Token::Sql => TokenView::Sql,
            Token::Sqr => TokenView::Sqr,
            Token::Var => TokenView::Var,
            Token::Version => TokenView::Version,
            Token::Wild => TokenView::Wild,
            Token::Name(s) => TokenView::Name(s@),
            Token::Str(s) => TokenView::Str(s@),
        }
    }
}

impl DeepView for Token {
    type V = TokenView;

    open spec fn deep_view(&self) -> TokenView {
        self@
    }
}

/// The token that a punctuation character stands for, if it is one.
pub open spec fn symbol(c: char) -> Option<TokenView> {
    if c == '+' {
        Some(TokenView::And)
    } else if c == '|' {
        Some(TokenView::Or)
    } else if c == '~' {
        Some(TokenView::Not)
    } else if c == '(' {
        Some(TokenView::Pal)
    } else if c == ')' {
        Some(TokenView::Par)
    } else if c == '*' || c == '?' {
        Some(TokenView::Wild)
    } else if c == '{' {
        Some(TokenView::Cul)
    } else if c == '}' {
        Some(TokenView::Cur)
    } else if c == '[' {
        Some(TokenView::Sql)
    } else if c == ']' {
        Some(TokenView::Sqr)
    } else if c == '=' {
        Some(TokenView::Eq)
    } else if c == '$' {
        Some(TokenView::Run)
    } else {
        None
    }
}

/// Whether a punctuation token can occur in a test expression.
pub open spec fn in_expressions(t: TokenView) -> bool {
    t is And || t is Or || t is Not || t is Pal || t is Par || t is Wild
}

/// A letter, a digit, `_` or `-`: what a word of a test expression is made of.
pub open spec fn is_word_char(c: char) -> bool {
    ('a' <= c && c <= 'z') || ('A' <= c && c <= 'Z') || ('0' <= c && c <= '9') || c == '_' || c
        == '-'
}

/// What a name is made of. In a test expression (`wide` false) these are the
/// word characters; in a configuration file (`wide` true) also `/` and `:`,
/// so that a name can be a path or carry a namespace.
pub open spec fn is_name_char(c: char, wide: bool) -> bool {
    is_word_char(c) || (wide && (c == '/' || c == ':'))
}

/// The number of name characters of `s` from `i` on, up to the first
/// character that is none.
pub open spec fn name_len(s: Seq<char>, i: int, wide: bool) -> nat
    decreases s.len() - i,
{
    if 0 <= i < s.len() && is_name_char(s[i], wide) {
        1 + name_len(s, i + 1, wide)
    } else {
        0
    }
}

/// A name never passes the end of the text.
pub proof fn lemma_name_len_bound(s: Seq<char>, i: int, wide: bool)
    requires
        0 <= i <= s.len(),
    ensures
        i + name_len(s, i, wide) <= s.len(),
    decreases s.len() - i,
{
    if i < s.len() && is_name_char(s[i], wide) {
        lemma_name_len_bound(s, i + 1, wide);
    }
}

/// Exec form of [`symbol`].
pub fn symbol_token(c: char) -> (r: Option<Token>)
    ensures
        match r {
            Some(t) => symbol(c) == Some(t@),
            None => symbol(c) is None,
        },
{
    if c == '+' {
        Some(Token::And)
    } else if c == '|' {
        Some(Token::Or)
    } else if c == '~' {
        Some(Token::Not)
    } else if c == '(' {
        Some(Token::Pal)
    } else if c == ')' {
        Some(Token::Par)
    } else if c == '*' || c == '?' {
        Some(Token::Wild)
    } else if c == '{' {
        Some(Token::Cul)
    } else if c == '}' {
        Some(Token::Cur)
    } else if c == '[' {
        Some(Token::Sql)
    } else if c == ']' {
        Some(Token::Sqr)
    } else if c == '=' {
        Some(Token::Eq)
    } else if c == '$' {
        Some(Token::Run)
    } else {
        None
    }
}

/// Exec form of [`is_name_char`].
pub fn name_char(c: char, wide: bool) -> (r: bool)
    ensures
        r == is_name_char(c, wide),
{
    (c >= 'a' && c <= 'z') || (c >= 'A' && c <= 'Z') || (c >= '0' && c <= '9') || c == '_' || c
        == '-' || (wide && (c == '/' || c == ':'))
}

/// The position just past the name that starts at `from`.
pub fn name_end(chars: &Vec<char>, from: usize, wide: bool) -> (end: usize)
    requires
        from <= chars.len(),
    ensures
        end == from + name_len(chars@, from as int, wide),
        from <= end <= chars.len(),
{
    let mut end: usize = from;
    while end < chars.len() && name_char(chars[end], wide)
        invariant
            from <= end <= chars.len(),
            name_len(chars@, from as int, wide) == (end - from) + name_len(
                chars@,
                end as int,
                wide,
            ),
        decreases chars.len() - end,
    {
        end += 1;
    }
    end
}

impl Token {
    /// Whether two tokens are the same, text and all.
    pub fn same(&self, other: &Token) -> (r: bool)
        ensures
            r == (self@ == other@),
    {
        match (self, other) {
            (Token::And, Token::And) => true,
            (Token::As, Token::As) => true,
            (Token::Cul, Token::Cul) => true,
            (Token::Cur, Token::Cur) => true,
            (Token::Dir, Token::Dir) => true,
            (Token::Eq, Token::Eq) => true,
            (Token::Help, Token::Help) => true,
            (Token::If, Token::If) => true,
            (Token::Import, Token::Import) => true,
            (Token::Not, Token::Not) => true,
            (Token::Or, Token::Or) => true,
            (Token::Pal, Token::Pal) => true,
            (Token::Par, Token::Par) => true,
            (Token::Recipe, Token::Recipe) => true,
            (Token::Require, Token::Require) => true,
            (Token::Run, Token::Run) => true,
            (Token::Sql, Token::Sql) => true,
            (Token::Sqr, Token::Sqr) => true,
            (Token::Var, Token::Var) => true,
            (Token::Version, Token::Version) => true,
            (Token::Wild, Token::Wild) => true,
            (Token::Name(a), Token::Name(b)) => *a == *b,
            (Token::Str(a), Token::Str(b)) => *a == *b,
            _ => false,
        }
    }
}

} // verus!
