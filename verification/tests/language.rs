use indexmap::IndexSet;
use mold::compiler::compile;
use mold::compiler::flatten;
use mold::error::Construct;
use mold::error::Error;
use mold::error::Wanted;
use mold::expr::Expr;
use mold::lang::parse;
use mold::lang::Statement;
use mold::lexer::lex;
use mold::remote::Remote;
use mold::token::Token;

fn envs(names: &[&str]) -> IndexSet<String> {
    names.iter().map(|s| s.to_string()).collect()
}

#[test]
fn expr_compile_binds_and_tighter_than_or() {
    let atom = |name: &str| Box::new(Expr::Atom(name.to_string()));
    assert_eq!(
        mold::expr::compile("a + b | c").unwrap(),
        Expr::Or(Box::new(Expr::And(atom("a"), atom("b"))), atom("c"))
    );
    assert_eq!(
        mold::expr::compile("a | b + c").unwrap(),
        Expr::Or(atom("a"), Box::new(Expr::And(atom("b"), atom("c"))))
    );
    assert_eq!(
        mold::expr::compile("a + b + c").unwrap(),
        Expr::And(atom("a"), Box::new(Expr::And(atom("b"), atom("c"))))
    );
    assert_eq!(
        mold::expr::compile("a | b | c").unwrap(),
        Expr::Or(atom("a"), Box::new(Expr::Or(atom("b"), atom("c"))))
    );
    assert_eq!(
        mold::expr::compile("~a + (b | c)").unwrap(),
        Expr::And(
            Box::new(Expr::Not(atom("a"))),
            Box::new(Expr::Group(Box::new(Expr::Or(atom("b"), atom("c")))))
        )
    );
}

#[test]
fn expr_and_before_or_decides_the_value() {
    let e = mold::expr::compile("a + b | c").unwrap();
    for (active, expected) in [
        (vec![], false),
        (vec!["a"], false),
        (vec!["b"], false),
        (vec!["c"], true),
        (vec!["a", "b"], true),
        (vec!["a", "c"], true),
        (vec!["b", "c"], true),
        (vec!["a", "b", "c"], true),
    ] {
        assert_eq!(e.apply(&envs(&active)), expected, "active: {:?}", active);
    }
    let f = mold::expr::compile("a | b + c").unwrap();
    assert!(f.apply(&envs(&["a"])));
    assert!(!f.apply(&envs(&["b"])));
    assert!(f.apply(&envs(&["b", "c"])));
}

#[test]
fn expr_apply_follows_boolean_semantics() {
    let active = envs(&["linux", "unix"]);
    assert!(mold::expr::compile("linux").unwrap().apply(&active));
    assert!(!mold::expr::compile("windows").unwrap().apply(&active));
    assert!(mold::expr::compile("~windows").unwrap().apply(&active));
    assert!(mold::expr::compile("linux + unix").unwrap().apply(&active));
    assert!(!mold::expr::compile("linux + windows").unwrap().apply(&active));
    assert!(mold::expr::compile("windows | unix").unwrap().apply(&active));
    assert!(mold::expr::compile("(windows | unix) + ~mac").unwrap().apply(&active));
    assert!(mold::expr::compile("*").unwrap().apply(&envs(&[])));
    assert!(mold::expr::compile("?").unwrap().apply(&envs(&[])));
}

#[test]
fn expr_compile_reports_each_failure() {
    assert_eq!(mold::expr::compile(""), Err(Error::UnexpectedEnd));
    assert_eq!(mold::expr::compile("a +"), Err(Error::UnexpectedEnd));
    assert_eq!(mold::expr::compile("+ a"), Err(Error::ExpectedOperand));
    assert_eq!(mold::expr::compile("(a"), Err(Error::ExpectedCloseParen));
    assert_eq!(mold::expr::compile("a b"), Err(Error::TrailingTokens));
    assert_eq!(mold::expr::compile("a )"), Err(Error::TrailingTokens));
}

#[test]
fn expr_lexer_skips_unknown_characters() {
    let e = mold::expr::compile("a.b , ! c").unwrap_err();
    assert_eq!(e, Error::TrailingTokens);
    let e = mold::expr::compile("!!linux##").unwrap();
    assert_eq!(e, Expr::Atom("linux".to_string()));
}

#[test]
fn lexer_reads_keywords_names_strings_and_punctuation() {
    let tokens = lex("recipe build-all { run \"a\\tb\\\"c\\q\" } $ = [ ] path/to:x").unwrap();
    assert_eq!(
        tokens,
        vec![
            Token::Recipe,
            Token::Name("build-all".to_string()),
            Token::Cul,
            Token::Run,
            Token::Str("a\tb\"cq".to_string()),
            Token::Cur,
            Token::Run,
            Token::Eq,
            Token::Sql,
            Token::Sqr,
            Token::Name("path/to:x".to_string()),
        ]
    );
}

#[test]
fn unterminated_string_is_a_lex_error() {
    assert_eq!(lex("version \"1.0"), Err(Error::UnterminatedString));
    assert_eq!(lex("version \"1.0\\"), Err(Error::UnterminatedString));
    assert_eq!(parse("version \"1.0\" recipe a { run \"x }"), Err(Error::UnterminatedString));
    assert!(compile("version \"1.0\" help \"oops", &envs(&[])).is_err());
}

#[test]
fn parse_reads_every_statement() {
    let stmts = parse(
        "version \"1.0\"\nimport \"a.git\" as pre\nimport \"b.git\"\nvar X = \"1\"\nhelp \"h\"\n\
         if linux { var Y = \"2\" }\nrecipe r { help \"rh\" dir \"d\" require \"q\" require z run \"c\" $ \"d\" }",
    )
    .unwrap();
    assert_eq!(
        stmts,
        vec![
            Statement::Version("1.0".to_string()),
            Statement::Import("a.git".to_string(), Some("pre".to_string())),
            Statement::Import("b.git".to_string(), None),
            Statement::Var("X".to_string(), "1".to_string()),
            Statement::Help("h".to_string()),
            Statement::If(
                Expr::Atom("linux".to_string()),
                vec![Statement::Var("Y".to_string(), "2".to_string())]
            ),
            Statement::Recipe(
                "r".to_string(),
                vec![
                    Statement::Help("rh".to_string()),
                    Statement::Dir("d".to_string()),
                    Statement::Require("q".to_string()),
                    Statement::Require("z".to_string()),
                    Statement::Run("c".to_string()),
                    Statement::Run("d".to_string()),
                ]
            ),
        ]
    );
}

#[test]
fn parse_names_the_missing_token_and_the_construct() {
    assert_eq!(parse("version"), Err(Error::Missing(Wanted::Text, Construct::Version)));
    assert_eq!(parse("import as x"), Err(Error::Missing(Wanted::Text, Construct::Import)));
    assert_eq!(parse("import \"u\" as"), Err(Error::Missing(Wanted::Name, Construct::Import)));
    assert_eq!(parse("var = \"1\""), Err(Error::Missing(Wanted::Name, Construct::Var)));
    assert_eq!(parse("var X \"1\""), Err(Error::Missing(Wanted::Equals, Construct::Var)));
    assert_eq!(parse("var X ="), Err(Error::Missing(Wanted::Text, Construct::Var)));
    assert_eq!(parse("recipe { }"), Err(Error::Missing(Wanted::Name, Construct::Recipe)));
    assert_eq!(parse("recipe r run"), Err(Error::Missing(Wanted::OpenBrace, Construct::Recipe)));
    assert_eq!(parse("recipe r { run \"x\""), Err(Error::Missing(Wanted::CloseBrace, Construct::Recipe)));
    assert_eq!(parse("recipe r { version \"1\" }"), Err(Error::Missing(Wanted::CloseBrace, Construct::Recipe)));
    assert_eq!(parse("if a var"), Err(Error::Missing(Wanted::OpenBrace, Construct::If)));
    assert_eq!(parse("if a { var X = \"1\""), Err(Error::Missing(Wanted::CloseBrace, Construct::If)));
    assert_eq!(parse("if { }"), Err(Error::ExpectedOperand));
    assert_eq!(parse("run \"x\""), Err(Error::UnexpectedToken));
    assert_eq!(parse("}"), Err(Error::UnexpectedToken));
    assert_eq!(parse("recipe r { run }"), Err(Error::Missing(Wanted::Text, Construct::Run)));
    assert_eq!(parse("recipe r { require }"), Err(Error::Missing(Wanted::Name, Construct::Require)));
    assert_eq!(parse("recipe r { dir }"), Err(Error::Missing(Wanted::Text, Construct::Dir)));
    assert_eq!(parse("help"), Err(Error::Missing(Wanted::Text, Construct::Help)));
}

#[test]
fn flatten_keeps_true_branches_in_order() {
    let stmts = parse(
        "var A = \"1\" if linux { var B = \"2\" if ~linux { var C = \"3\" } if * { var D = \"4\" } } if windows { var E = \"5\" } var F = \"6\"",
    )
    .unwrap();
    let flat = flatten(stmts, &envs(&["linux"])).unwrap();
    assert_eq!(
        flat,
        vec![
            Statement::Var("A".to_string(), "1".to_string()),
            Statement::Var("B".to_string(), "2".to_string()),
            Statement::Var("D".to_string(), "4".to_string()),
            Statement::Var("F".to_string(), "6".to_string()),
        ]
    );
}

#[test]
fn flatten_returns_a_flat_list_unchanged() {
    let stmts = parse("version \"1\" var A = \"1\" recipe r { run \"x\" }").unwrap();
    let copy = stmts.clone();
    assert_eq!(flatten(stmts, &envs(&["linux"])).unwrap(), copy);
}

#[test]
fn conditional_variables_follow_the_active_environment() {
    let file = compile(
        "version \"1.0\" if linux { var X = \"1\" } if windows { var X = \"2\" }",
        &envs(&["linux"]),
    )
    .unwrap();
    assert_eq!(file.vars["X"], "1");
    assert_eq!(file.vars.len(), 1);
}

#[test]
fn import_with_ref_file_and_prefix() {
    let file = compile("version \"1\" import \"example.com/repo.git#v2/sub.yaml\" as pre", &envs(&[])).unwrap();
    assert_eq!(file.includes.len(), 1);
    assert_eq!(
        file.includes[0].remote,
        Remote {
            url: "example.com/repo.git".to_string(),
            ref_: "v2".to_string(),
            file: Some("sub.yaml".to_string())
        }
    );
    assert_eq!(file.includes[0].prefix, "pre");
}

#[test]
fn compile_requires_exactly_one_version() {
    assert_eq!(compile("var X = \"1\"", &envs(&[])).unwrap_err(), Error::MissingVersion);
    assert_eq!(
        compile("version \"1\" version \"2\"", &envs(&[])).unwrap_err(),
        Error::DuplicateVersion("2".to_string())
    );
    assert!(compile("version \"1\" if never { version \"2\" }", &envs(&[])).is_ok());
}

#[test]
fn compile_recipe_rejects_second_help_and_dir() {
    assert_eq!(
        compile("version \"1\" recipe r { help \"a\" help \"b\" }", &envs(&[])).unwrap_err(),
        Error::DuplicateHelp
    );
    assert_eq!(
        compile("version \"1\" recipe r { dir \"a\" dir \"b\" }", &envs(&[])).unwrap_err(),
        Error::DuplicateDir
    );
}

#[test]
fn compile_collects_recipes_in_alphabetical_order() {
    let file = compile(
        "version \"1\" recipe zeta { run \"z\" } recipe alpha { run \"a\" require \"zeta\" var K = \"v\" } recipe mid { } recipe alpha { run \"again\" }",
        &envs(&[]),
    )
    .unwrap();
    assert_eq!(file.recipes.len(), 3);
    assert_eq!(file.recipes.name_at(0), "alpha");
    assert_eq!(file.recipes.name_at(1), "mid");
    assert_eq!(file.recipes.name_at(2), "zeta");
    let alpha = file.recipes.get("alpha").unwrap();
    assert_eq!(alpha.commands, vec!["again".to_string()]);
    assert!(alpha.requires.is_empty());
    assert!(file.recipes.get("beta").is_none());
}
