use indexmap::IndexMap;
use indexmap::IndexSet;
use mold::recipe::Recipe;
use mold::recipe::RecipeMap;
use mold::text::chars_of;
use mold::text::compare_text;
use mold::text::joined;
use mold::text::same_text;
use mold::text::string_of;
use mold::text::Order;

fn recipe(command: &str) -> Recipe {
    Recipe {
        help: None,
        dir: None,
        commands: vec![command.to_string()],
        vars: IndexMap::new(),
        requires: IndexSet::new(),
    }
}

#[test]
fn compare_text_orders_by_code_point() {
    assert_eq!(compare_text("", ""), Order::Same);
    assert_eq!(compare_text("", "a"), Order::Before);
    assert_eq!(compare_text("a", ""), Order::After);
    assert_eq!(compare_text("abc", "abd"), Order::Before);
    assert_eq!(compare_text("abc", "ab"), Order::After);
    assert_eq!(compare_text("Zeta", "alpha"), Order::Before);
    assert_eq!(compare_text("é", "z"), Order::After);
    assert_eq!(compare_text("same", "same"), Order::Same);
    for (a, b) in [("a", "b"), ("é", "z"), ("ab", "abc"), ("", "x"), ("x", "x")] {
        let expected = match a.cmp(b) {
            std::cmp::Ordering::Less => Order::Before,
            std::cmp::Ordering::Equal => Order::Same,
            std::cmp::Ordering::Greater => Order::After,
        };
        assert_eq!(compare_text(a, b), expected);
    }
}

#[test]
fn text_helpers_keep_every_character() {
    assert_eq!(chars_of("aé\n"), vec!['a', 'é', '\n']);
    assert_eq!(string_of(&vec!['a', 'b', 'c', 'd'], 1, 3), "bc");
    assert_eq!(string_of(&vec!['a'], 1, 1), "");
    assert_eq!(joined("ab", "cd"), "abcd");
    assert!(same_text("x", "x") && !same_text("x", "y"));
}

#[test]
fn recipe_table_keeps_names_sorted_and_unique() {
    let mut table = RecipeMap::new();
    assert_eq!(table.len(), 0);
    assert!(table.get("a").is_none());
    table.insert("m".to_string(), recipe("m1"));
    table.insert("z".to_string(), recipe("z1"));
    table.insert("a".to_string(), recipe("a1"));
    table.insert("m".to_string(), recipe("m2"));
    assert_eq!(table.len(), 3);
    assert_eq!((table.name_at(0).as_str(), table.name_at(1).as_str(), table.name_at(2).as_str()), ("a", "m", "z"));
    assert_eq!(table.get("m").unwrap().commands, vec!["m2".to_string()]);
    assert_eq!(table.recipe_at(2).commands, vec!["z1".to_string()]);
    assert!(table.contains_key("z") && !table.contains_key("y"));
    assert!(!table.insert_if_absent("a".to_string(), recipe("a2")));
    assert!(table.insert_if_absent("b".to_string(), recipe("b1")));
    assert_eq!(table.get("a").unwrap().commands, vec!["a1".to_string()]);
    assert_eq!(table.name_at(1), "b");
    assert_eq!(table.len(), 4);
}

#[test]
fn copies_are_equal_to_what_they_copy() {
    let mut r = recipe("x");
    r.help = Some("h".to_string());
    r.vars.insert("K".to_string(), "v".to_string());
    r.requires.insert("other".to_string());
    let copy = r.clone();
    assert_eq!(copy, r);
    assert_eq!(copy.to_statements().len(), 4);
}
