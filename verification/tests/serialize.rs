use indexmap::IndexSet;
use mold::compiler::compile;
use mold::compiler::compile_statements;
use mold::compiler::fold_file;
use mold::compiler::fold_recipe;
use mold::expr::Expr;
use mold::error::Construct;
use mold::error::Error;
use mold::error::Wanted;
use mold::lang::parse;
use mold::lang::Statement;
use mold::lexer::lex;
use mold::lexer::unescape;
use mold::render::render_tokens;
use mold::resolve::Mold;
use mold::token::Token;
use mold::unparse::render;
use mold::unparse::unparse;

fn none() -> IndexSet<String> {
    IndexSet::new()
}

const SOURCE: &str = "version \"1.0\"\n\
    import \"example.com/repo.git#v2/sub.yaml\" as pre\n\
    var GREETING = \"say \\\"hi\\\"\\n\\ttwice \\\\ done\"\n\
    var path/to:x = \"$HOME\"\n\
    dir \"top\"\n\
    recipe zeta { help \"last\" run \"echo $GREETING\" run \"ls\" }\n\
    recipe alpha { dir \"sub\" var K = \"v\" require \"zeta\" require \"pre/build\" run \"make\" }\n";

#[test]
fn compiling_the_written_text_gives_the_same_recipes_and_variables() {
    let first = compile(SOURCE, &none()).unwrap();
    let text = first.to_source();
    let second = compile(&text, &none()).unwrap();
    assert_eq!(second.version, first.version);
    assert_eq!(second.vars, first.vars);
    assert_eq!(
        second.vars.iter().collect::<Vec<_>>(),
        first.vars.iter().collect::<Vec<_>>()
    );
    assert_eq!(second.recipes, first.recipes);
    assert_eq!(second.dir, first.dir);
    assert_eq!(second.includes, first.includes);
    assert_eq!(second, first);
    assert_eq!(second.to_source(), text);
}

#[test]
fn compiling_the_written_statements_gives_the_same_file() {
    let first = compile(SOURCE, &none()).unwrap();
    let second = compile_statements(first.to_statements(), &none()).unwrap();
    assert_eq!(second, first);
}

#[test]
fn to_statements_writes_version_imports_variables_dir_and_recipes() {
    let file = compile(
        "recipe b { run \"2\" } var X = \"1\" import \"u#r\" version \"3\" recipe a { require b help \"h\" }",
        &none(),
    )
    .unwrap();
    assert_eq!(
        file.to_statements(),
        vec![
            Statement::Version("3".to_string()),
            Statement::Import("u#r".to_string(), Some("".to_string())),
            Statement::Var("X".to_string(), "1".to_string()),
            Statement::Recipe(
                "a".to_string(),
                vec![Statement::Help("h".to_string()), Statement::Require("b".to_string())]
            ),
            Statement::Recipe("b".to_string(), vec![Statement::Run("2".to_string())]),
        ]
    );
}

#[test]
fn rendered_statements_parse_back() {
    let stmts = parse(SOURCE).unwrap();
    let text = render(&stmts);
    assert_eq!(parse(&text).unwrap(), stmts);
    let with_if = parse("if (a | ~b) + * { var X = \"1\" if c { help \"h\" } }").unwrap();
    assert_eq!(parse(&render(&with_if)).unwrap(), with_if);
}

#[test]
fn render_writes_each_token_with_a_space() {
    let stmts = vec![
        Statement::Version("1".to_string()),
        Statement::Recipe("r".to_string(), vec![Statement::Run("a \"b\"\n".to_string())]),
    ];
    assert_eq!(render(&stmts), "version \"1\" recipe r { run \"a \\\"b\\\"\\n\" } ");
    assert_eq!(
        unparse(&stmts),
        vec![
            Token::Version,
            Token::Str("1".to_string()),
            Token::Recipe,
            Token::Name("r".to_string()),
            Token::Cul,
            Token::Run,
            Token::Str("a \"b\"\n".to_string()),
            Token::Cur,
        ]
    );
}

#[test]
fn rendered_tokens_lex_back() {
    let tokens = vec![
        Token::And,
        Token::As,
        Token::Cul,
        Token::Cur,
        Token::Dir,
        Token::Eq,
        Token::Help,
        Token::If,
        Token::Import,
        Token::Not,
        Token::Or,
        Token::Pal,
        Token::Par,
        Token::Recipe,
        Token::Require,
        Token::Run,
        Token::Sql,
        Token::Sqr,
        Token::Var,
        Token::Version,
        Token::Wild,
        Token::Name("a-b_c/d:9".to_string()),
        Token::Str("\\ \" \n \r \t n é".to_string()),
        Token::Str(String::new()),
    ];
    let text = render_tokens(&tokens);
    assert_eq!(lex(&text).unwrap(), tokens);
}

#[test]
fn unescape_resolves_known_escapes_and_passes_others() {
    assert_eq!(unescape("a\\nb\\rc\\td"), "a\nb\rc\td");
    assert_eq!(unescape("\\q\\\"\\\\"), "q\"\\");
    assert_eq!(unescape("end\\"), "end\\");
    assert_eq!(unescape(""), "");
}

#[test]
fn messages_name_what_went_wrong() {
    assert_eq!(Error::UnterminatedString.message(), "Unterminated string");
    assert_eq!(
        Error::Missing(Wanted::Equals, Construct::Var).message(),
        "Expected `=` in `var` statement"
    );
    assert_eq!(
        Error::Missing(Wanted::CloseBrace, Construct::Recipe).message(),
        "Expected `}` in `recipe` statement"
    );
    assert_eq!(Error::Misplaced(Construct::Run).message(), "`run` statement is not allowed here");
    assert_eq!(Error::DuplicateVersion("2".to_string()).message(), "Duplicate version specified: 2");
    assert_eq!(Error::MissingVersion.message(), "File version must be specified");
    assert_eq!(Error::UnknownRecipe("x".to_string()).message(), "Couldn't locate recipe 'x'");
    assert_eq!(
        Error::UnknownSource("x".to_string()).message(),
        "Couldn't locate source for recipe 'x'"
    );
    assert_eq!(Error::Cycle("x".to_string()).message(), "Recipe 'x' requires itself");
    assert_eq!(Error::ExpectedOperand.message(), "Parse error; expected name or open parenthesis");
}

#[test]
fn misplaced_statements_are_reported_when_compiling_statements() {
    let top = |s: Statement| compile_statements(vec![Statement::Version("1".to_string()), s], &none());
    assert_eq!(top(Statement::Run("x".to_string())).unwrap_err(), Error::Misplaced(Construct::Run));
    assert_eq!(
        top(Statement::Require("x".to_string())).unwrap_err(),
        Error::Misplaced(Construct::Require)
    );
    let inside = |s: Statement| top(Statement::Recipe("r".to_string(), vec![s]));
    assert_eq!(
        inside(Statement::Version("2".to_string())).unwrap_err(),
        Error::Misplaced(Construct::Version)
    );
    assert_eq!(
        inside(Statement::Import("u".to_string(), None)).unwrap_err(),
        Error::Misplaced(Construct::Import)
    );
    assert_eq!(
        inside(Statement::Recipe("q".to_string(), vec![])).unwrap_err(),
        Error::Misplaced(Construct::Recipe)
    );
}

#[test]
fn candidates_name_the_file_or_the_defaults() {
    assert_eq!(Mold::candidates("/repo", &Some("sub/file".to_string())), vec!["/repo/sub/file".to_string()]);
    assert_eq!(
        Mold::candidates("/repo", &None),
        vec!["/repo/moldfile".to_string(), "/repo/Moldfile".to_string()]
    );
}

#[test]
fn a_conditional_that_is_left_is_misplaced() {
    let left = || Statement::If(Expr::Wild, vec![]);
    assert_eq!(fold_recipe(&vec![left()]).unwrap_err(), Error::Misplaced(Construct::If));
    assert_eq!(fold_file(&vec![left()], &none()).unwrap_err(), Error::Misplaced(Construct::If));
    assert!(fold_recipe(&vec![]).unwrap().commands.is_empty());
}
