use indexmap::IndexMap;
use std::hash::Hash;
use std::hash::Hasher;
use indexmap::IndexSet;
use mold::error::Error;
use mold::resolve::Mold;
use mold::resolve::Step;
use mold::remote::Remote;
use mold::util::hash_string;
use mold::util::hash_url_ref;
use mold::util::hex16;

fn host(pairs: &[(&str, &str)]) -> IndexMap<String, String> {
    pairs.iter().map(|(k, v)| (k.to_string(), v.to_string())).collect()
}

fn targets(names: &[&str]) -> IndexSet<String> {
    names.iter().map(|s| s.to_string()).collect()
}

fn names(set: &IndexSet<String>) -> Vec<&str> {
    set.iter().map(|s| s.as_str()).collect()
}

fn fresh(envs: &[&str], host_vars: &[(&str, &str)]) -> Mold {
    Mold::new(
        envs.iter().map(|s| s.to_string()).collect(),
        "/work".to_string(),
        "/work/.mold".to_string(),
        host(host_vars),
        "1.2.3".to_string(),
    )
}

fn opened(code: &str) -> Mold {
    let mut mold = fresh(&["linux"], &[]);
    mold.enter(code, "/work").unwrap();
    assert!(matches!(mold.advance(), Step::Done));
    mold
}

#[test]
fn single_recipe_runs_alone() {
    let mold = opened("version \"1.0\" recipe greet { run \"echo hi\" }");
    let all = mold.find_all_dependencies(&targets(&["greet"])).unwrap();
    assert_eq!(names(&all), vec!["greet"]);
    let task = mold.build_task("greet").unwrap();
    assert_eq!(task.name, "greet");
    assert_eq!(task.commands, vec![vec!["echo".to_string(), "hi".to_string()]]);
    assert_eq!(task.work_dir, None);
}

#[test]
fn requirement_runs_first() {
    let mold = opened(
        "version \"1.0\" recipe a { require \"b\" run \"echo a\" } recipe b { run \"echo b\" }",
    );
    let all = mold.find_all_dependencies(&targets(&["a"])).unwrap();
    assert_eq!(names(&all), vec!["b", "a"]);
}

#[test]
fn closure_handles_diamonds_and_keeps_first_position() {
    let mold = opened(
        "version \"1\" recipe top { require left require right } recipe left { require base } \
         recipe right { require base require left } recipe base { } recipe other { require base }",
    );
    let all = mold.find_all_dependencies(&targets(&["top", "other", "base"])).unwrap();
    assert_eq!(names(&all), vec!["base", "left", "right", "top", "other"]);
    for (i, name) in all.iter().enumerate() {
        for need in &mold.recipes.get(name).unwrap().requires {
            assert!(all.get_index_of(need).unwrap() < i);
        }
    }
}

#[test]
fn closure_reports_unknown_names_and_cycles() {
    let mold = opened(
        "version \"1\" recipe a { require b } recipe b { require a } recipe c { require missing } recipe d { require d }",
    );
    assert_eq!(
        mold.find_all_dependencies(&targets(&["nothing"])).unwrap_err(),
        Error::UnknownRecipe("nothing".to_string())
    );
    assert_eq!(
        mold.find_all_dependencies(&targets(&["c"])).unwrap_err(),
        Error::UnknownRecipe("missing".to_string())
    );
    assert_eq!(mold.find_all_dependencies(&targets(&["a"])).unwrap_err(), Error::Cycle("a".to_string()));
    assert_eq!(mold.find_all_dependencies(&targets(&["d"])).unwrap_err(), Error::Cycle("d".to_string()));
    assert!(mold.find_all_dependencies(&targets(&[])).unwrap().is_empty());
}

#[test]
fn new_sets_the_directory_variables() {
    let mold = fresh(&["linux", "unix", "linux"], &[]);
    assert_eq!(names(&mold.envs), vec!["linux", "unix"]);
    assert_eq!(mold.vars["MOLD_ROOT"], "/work");
    assert_eq!(mold.vars["MOLD_DIR"], "/work/.mold");
    assert_eq!(mold.vars.len(), 2);
    assert!(mold.recipes.len() == 0 && mold.remotes.is_empty() && mold.pending.is_empty());
}

#[test]
fn enter_checks_the_version_requirement() {
    let mut mold = fresh(&[], &[]);
    assert_eq!(mold.enter("version \"2.0\" recipe a { }", "/work").unwrap_err(), Error::IncompatibleVersion);
    assert_eq!(mold.recipes.len(), 0);
    assert_eq!(mold.enter("version \"not a version\"", "/work").unwrap_err(), Error::InvalidVersion);
    assert_eq!(mold.enter("recipe a { }", "/work").unwrap_err(), Error::MissingVersion);
    assert!(mold.pending.is_empty());
    mold.enter("version \">=1.2, <2\" recipe a { }", "/work").unwrap();
    assert_eq!(mold.recipes.len(), 1);
}

#[test]
fn imports_are_merged_under_their_prefix_before_own_variables() {
    let mut mold = fresh(&["linux"], &[("HOME", "/home/me")]);
    mold.enter(
        "version \"1\" import \"example.com/repo.git#v2/sub.yaml\" as pre \
         var A = \"root\" var B = \"$A-$SHARED\" dir \"$B/x\" \
         recipe build { run \"root build\" require test } recipe test { }",
        "/work",
    )
    .unwrap();
    let request = match mold.advance() {
        Step::Load(request) => request,
        Step::Done => panic!("an import is due"),
    };
    assert_eq!(
        request.remote,
        Remote {
            url: "example.com/repo.git".to_string(),
            ref_: "v2".to_string(),
            file: Some("sub.yaml".to_string())
        }
    );
    assert!(!request.known);
    assert_eq!(request.path, format!("/work/.mold/{}", request.remote.folder_name()));
    mold.enter(
        "version \"1\" var A = \"imported\" var SHARED = \"s\" dir \"theirs\" \
         recipe build { run \"their build\" require lint } recipe lint { }",
        "/work/.mold/repo",
    )
    .unwrap();
    assert!(matches!(mold.advance(), Step::Done));
    assert_eq!(mold.recipes.len(), 4);
    assert_eq!(mold.recipes.name_at(0), "build");
    assert_eq!(mold.recipes.name_at(1), "prebuild");
    assert_eq!(mold.recipes.name_at(2), "prelint");
    assert_eq!(mold.recipes.name_at(3), "test");
    assert_eq!(mold.recipes.get("build").unwrap().commands, vec!["root build".to_string()]);
    assert_eq!(names(&mold.recipes.get("prebuild").unwrap().requires), vec!["prelint"]);
    assert_eq!(mold.sources["build"], "/work");
    assert_eq!(mold.sources["prebuild"], "/work/.mold/repo");
    assert_eq!(mold.vars["A"], "root");
    assert_eq!(mold.vars["SHARED"], "s");
    assert_eq!(mold.vars["B"], "root-s");
    assert_eq!(mold.work_dir, Some("/work/root-s/x".to_string()));
    assert_eq!(mold.remotes.len(), 1);
}

#[test]
fn a_local_recipe_is_never_replaced_by_an_import() {
    let mut mold = fresh(&[], &[]);
    mold.enter("version \"1\" import \"a.git\" import \"b.git\" recipe x { run \"mine\" }", "/work").unwrap();
    assert!(matches!(mold.advance(), Step::Load(_)));
    mold.enter("version \"1\" recipe x { run \"a\" } recipe y { run \"a\" }", "/a").unwrap();
    assert!(matches!(mold.advance(), Step::Load(_)));
    mold.enter("version \"1\" recipe x { run \"b\" } recipe y { run \"b\" }", "/b").unwrap();
    assert!(matches!(mold.advance(), Step::Done));
    assert_eq!(mold.recipes.get("x").unwrap().commands, vec!["mine".to_string()]);
    assert_eq!(mold.recipes.get("y").unwrap().commands, vec!["a".to_string()]);
    assert_eq!(mold.sources["x"], "/work");
    assert_eq!(mold.sources["y"], "/a");
}

#[test]
fn nested_imports_compose_their_prefixes() {
    let mut mold = fresh(&[], &[]);
    mold.enter("version \"1\" import \"a.git\" as a_ import \"c.git\" as c_", "/work").unwrap();
    assert!(matches!(mold.advance(), Step::Load(_)));
    mold.enter("version \"1\" import \"b.git\" as b_ recipe one { require two }", "/a").unwrap();
    assert!(matches!(mold.advance(), Step::Load(_)));
    mold.enter("version \"1\" recipe deep { }", "/b").unwrap();
    assert!(matches!(mold.advance(), Step::Load(_)));
    mold.enter("version \"1\" recipe flat { }", "/c").unwrap();
    assert!(matches!(mold.advance(), Step::Done));
    assert_eq!(mold.recipes.len(), 3);
    assert_eq!(mold.recipes.name_at(0), "a_b_deep");
    assert_eq!(mold.recipes.name_at(1), "a_one");
    assert_eq!(mold.recipes.name_at(2), "c_flat");
    assert_eq!(names(&mold.recipes.get("a_one").unwrap().requires), vec!["a_two"]);
}

#[test]
fn one_repository_and_ref_is_cloned_once() {
    let mut mold = fresh(&[], &[]);
    mold.enter("version \"1\" import \"h.com/r.git#v1/one\" as a import \"h.com/r.git#v1/two\" as b import \"h.com/r.git#v2\"", "/work")
        .unwrap();
    let first = match mold.advance() {
        Step::Load(r) => r,
        Step::Done => panic!(),
    };
    mold.enter("version \"1\"", "/x").unwrap();
    let second = match mold.advance() {
        Step::Load(r) => r,
        Step::Done => panic!(),
    };
    mold.enter("version \"1\"", "/x").unwrap();
    let third = match mold.advance() {
        Step::Load(r) => r,
        Step::Done => panic!(),
    };
    assert!(!first.known && second.known && !third.known);
    assert_eq!(first.path, second.path);
    assert_ne!(first.path, third.path);
    assert_eq!(second.remote.file, Some("two".to_string()));
    assert_eq!(mold.remotes.len(), 2);
}

#[test]
fn build_task_layers_variables_and_expands_commands() {
    let mut mold = fresh(&[], &[("HOSTVAR", "from host"), ("G", "host loses")]);
    mold.enter(
        "version \"1\" var G = \"global\" var L = \"global\" \
         recipe r { var L = \"local\" dir \"sub/$L\" run \"echo $G ${L} '$HOSTVAR' $NOPE.\" run \"  \" run \"$EMPTY\" run \"ls \\\"$MOLD_SOURCE\\\"\" } \
         recipe bad { run \"echo 'open\" } recipe plain { }",
        "/src/dir",
    )
    .unwrap();
    assert!(matches!(mold.advance(), Step::Done));
    let task = mold.build_task("r").unwrap();
    assert_eq!(
        task.commands,
        vec![
            vec!["echo", "global", "local", "from host", "."].iter().map(|s| s.to_string()).collect::<Vec<_>>(),
            vec!["ls".to_string(), "/src/dir".to_string()],
        ]
    );
    assert_eq!(task.vars["L"], "local");
    assert_eq!(task.vars["G"], "global");
    assert_eq!(task.vars["MOLD_SOURCE"], "/src/dir");
    assert_eq!(task.vars["MOLD_ROOT"], "/work");
    assert_eq!(task.work_dir, Some("/work/sub/local".to_string()));
    assert_eq!(mold.build_task("bad").unwrap_err(), Error::UnclosedQuote);
    assert_eq!(mold.build_task("nope").unwrap_err(), Error::UnknownRecipe("nope".to_string()));
    let plain = mold.build_task("plain").unwrap();
    assert!(plain.commands.is_empty());
    assert_eq!(plain.work_dir, None);
    mold.sources.shift_remove("plain");
    assert_eq!(mold.build_task("plain").unwrap_err(), Error::UnknownSource("plain".to_string()));
}

#[test]
fn remote_parse_reads_every_shape() {
    let r = |url: &str, ref_: &str, file: Option<&str>| Remote {
        url: url.to_string(),
        ref_: ref_.to_string(),
        file: file.map(|f| f.to_string()),
    };
    assert_eq!(Remote::parse("https://foo.com/mold.git"), r("https://foo.com/mold.git", "master", None));
    assert_eq!(Remote::parse("https://foo.com/mold.git#dev"), r("https://foo.com/mold.git", "dev", None));
    assert_eq!(
        Remote::parse("https://foo.com/mold.git#dev/dev.yaml"),
        r("https://foo.com/mold.git", "dev", Some("dev.yaml"))
    );
    assert_eq!(
        Remote::parse("https://foo.com/mold.git#/dev.yaml"),
        r("https://foo.com/mold.git", "master", Some("dev.yaml"))
    );
    assert_eq!(Remote::parse("u##v//a/b"), r("u", "v", Some("a/b")));
    assert_eq!(Remote::parse("u#"), r("u", "master", None));
    assert_eq!(Remote::parse(""), r("", "master", None));
    assert_eq!(Remote::from_str("a#b").unwrap(), r("a", "b", None));
    assert_eq!("a#b/c".parse::<Remote>().unwrap(), r("a", "b", Some("c")));
}

#[test]
fn remote_to_string_writes_an_address() {
    let one = Remote { url: "u".to_string(), ref_: "r".to_string(), file: None };
    let two = Remote { url: "u".to_string(), ref_: "r".to_string(), file: Some("f/g".to_string()) };
    assert_eq!(one.to_string(), "u#r");
    assert_eq!(two.to_string(), "u#r/f/g");
    assert_eq!(Remote::parse(&two.to_string()), two);
}

#[test]
fn folder_name_depends_on_address_and_ref_only() {
    let a = Remote::parse("github.com/org/tools.git#v1/a.mold");
    let b = Remote::parse("github.com/org/tools.git#v1/b.mold");
    let c = Remote::parse("github.com/org/tools.git#v2/a.mold");
    assert_eq!(a.folder_name(), b.folder_name());
    assert_ne!(a.folder_name(), c.folder_name());
    let hash = hash_url_ref("github.com/org/tools.git", "v1");
    assert_eq!(a.folder_name(), format!("tools.git-v1-{}", hash));
    assert_eq!(a.path("/cache"), format!("/cache/tools.git-v1-{}", hash));
    let odd = Remote { url: "".to_string(), ref_: "m".to_string(), file: None };
    assert_eq!(odd.folder_name(), format!("unknown-m-{}", hash_url_ref("", "m")));
    let mail = Remote { url: "mailto:x".to_string(), ref_: "m".to_string(), file: None };
    assert_eq!(mail.folder_name(), format!("unknown-m-{}", hash_url_ref("mailto:x", "m")));
}

#[test]
fn digests_are_sixteen_hex_digits() {
    assert_eq!(hex16(0), "0000000000000000");
    assert_eq!(hex16(0x1234_abcd), "000000001234abcd");
    assert_eq!(hex16(u64::MAX), "ffffffffffffffff");
    assert_eq!(hex16(0xfedc_ba98_7654_3210), "fedcba9876543210");
    let d = hash_string("hello");
    assert_eq!(d.len(), 16);
    assert!(d.chars().all(|c| c.is_ascii_digit() || ('a'..='f').contains(&c)));
    assert_eq!(d, hash_string("hello"));
    assert_ne!(d, hash_string("hellp"));
    assert_eq!(hash_url_ref("u", "r"), hash_string("u@r"));
    let mut h = std::collections::hash_map::DefaultHasher::new();
    "hello".hash(&mut h);
    assert_eq!(d, format!("{:016x}", h.finish()));
}
