use quocktail::command::{decimal_text, parse_key_some_val, select, title_of, Color, Shortfall};

#[test]
fn query_with_value() {
    assert_eq!(parse_key_some_val("base=vodka"), ("base".to_string(), Some("vodka".to_string())));
}

#[test]
fn query_with_key_alone() {
    assert_eq!(parse_key_some_val("garnish"), ("garnish".to_string(), None));
    assert_eq!(parse_key_some_val(""), (String::new(), None));
}

#[test]
fn query_splits_at_the_first_equals_sign() {
    assert_eq!(parse_key_some_val("note=a=b"), ("note".to_string(), Some("a=b".to_string())));
    assert_eq!(parse_key_some_val("=x"), (String::new(), Some("x".to_string())));
    assert_eq!(parse_key_some_val("k="), ("k".to_string(), Some(String::new())));
    assert_eq!(parse_key_some_val("="), (String::new(), Some(String::new())));
    assert_eq!(parse_key_some_val("=="), (String::new(), Some("=".to_string())));
}

#[test]
fn query_may_hold_any_character() {
    assert_eq!(
        parse_key_some_val("likör=crème de cassis"),
        ("likör".to_string(), Some("crème de cassis".to_string()))
    );
}

#[test]
fn title_is_the_file_name_in_title_case() {
    assert_eq!(title_of("moscow_mule.md"), Some("Moscow Mule".to_string()));
    assert_eq!(title_of("mojito.md"), Some("Mojito".to_string()));
    assert_eq!(title_of("whiskey-sour.md"), Some("Whiskey Sour".to_string()));
}

#[test]
fn title_needs_the_markdown_ending() {
    assert_eq!(title_of("notes.txt"), None);
    assert_eq!(title_of("mojito.MD"), None);
    assert_eq!(title_of("mojito.md.bak"), None);
    assert_eq!(title_of("mojitomd"), None);
    assert_eq!(title_of("md"), None);
    assert_eq!(title_of(""), None);
    assert_eq!(title_of(".md"), Some(String::new()));
}

#[test]
fn color_always_and_never_do_not_ask() {
    assert!(Color::Always.supports_color_on(true));
    assert!(Color::Always.supports_color_on(false));
    assert!(!Color::Never.supports_color_on(true));
    assert!(!Color::Never.supports_color_on(false));
}

#[test]
fn color_auto_goes_by_the_stream() {
    assert!(Color::Auto.supports_color_on(true));
    assert!(!Color::Auto.supports_color_on(false));
}

#[test]
fn without_a_count_all_are_kept() {
    let picked = select(vec![1, 2, 3], None);
    assert_eq!(picked.recipes, vec![1, 2, 3]);
    assert_eq!(picked.shortfall, None);
    let nothing = select(Vec::<u8>::new(), None);
    assert!(nothing.recipes.is_empty());
    assert_eq!(nothing.shortfall, None);
}

#[test]
fn a_count_below_the_number_draws_distinct_items() {
    let items: Vec<u32> = (0..50).collect();
    for round in 0..20 {
        let picked = select(items.clone(), Some(7));
        assert_eq!(picked.shortfall, None, "round {}", round);
        assert_eq!(picked.recipes.len(), 7);
        let mut seen = picked.recipes.clone();
        seen.sort();
        seen.dedup();
        assert_eq!(seen.len(), 7);
        assert!(seen.iter().all(|x| *x < 50));
    }
}

#[test]
fn a_count_of_zero_draws_nothing() {
    let picked = select(vec![1, 2, 3], Some(0));
    assert!(picked.recipes.is_empty());
    assert_eq!(picked.shortfall, None);
    let nothing = select(Vec::<u8>::new(), Some(0));
    assert!(nothing.recipes.is_empty());
    assert_eq!(nothing.shortfall, None);
}

#[test]
fn a_count_equal_to_the_number_keeps_all() {
    let picked = select(vec![4, 5, 6], Some(3));
    assert_eq!(picked.recipes, vec![4, 5, 6]);
    assert_eq!(picked.shortfall, None);
}

#[test]
fn a_count_above_the_number_keeps_all_and_notes_it() {
    let picked = select(vec![4, 5], Some(5));
    assert_eq!(picked.recipes, vec![4, 5]);
    assert_eq!(picked.shortfall, Some(Shortfall { found: 2, wanted: 5 }));
    let nothing = select(Vec::<u8>::new(), Some(usize::MAX));
    assert!(nothing.recipes.is_empty());
    assert_eq!(nothing.shortfall, Some(Shortfall { found: 0, wanted: usize::MAX }));
}

#[test]
fn shortfall_note_names_both_numbers() {
    assert_eq!(
        Shortfall { found: 2, wanted: 5 }.message(),
        "Found only 2 matching recipes, which is less than 5"
    );
    assert_eq!(
        Shortfall { found: 0, wanted: 1200 }.message(),
        "Found only 0 matching recipes, which is less than 1200"
    );
}

#[test]
fn numbers_are_written_in_decimal() {
    assert_eq!(decimal_text(0), "0");
    assert_eq!(decimal_text(7), "7");
    assert_eq!(decimal_text(10), "10");
    assert_eq!(decimal_text(109), "109");
    assert_eq!(decimal_text(1234567890), "1234567890");
    assert_eq!(decimal_text(usize::MAX), usize::MAX.to_string());
}
