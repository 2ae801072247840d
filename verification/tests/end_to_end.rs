use quocktail::filters::Filters;
use quocktail::recipe::Recipe;

const MOJITO: &str = "---\nbase: vodka\ngarnish:\n  - mint\n  - lime\n---\nShake well.\n";

fn query(key: &str, value: Option<&str>) -> Filters {
    Filters::new(vec![(key.to_string(), value.map(|v| v.to_string()))])
}

fn none() -> Filters {
    Filters::new(Vec::new())
}

#[test]
fn key_only_query_includes() {
    let recipe = Recipe::filtered_new(MOJITO, "Mojito".to_string(), &query("garnish", None), &none());
    let recipe = recipe.expect("kept");
    assert_eq!(recipe.name(), "Mojito");
    assert_eq!(recipe.instructions(), "Shake well.");
    assert_eq!(recipe.ingredients().len(), 2);
    assert_eq!(recipe.ingredients().key(0), "base");
    assert_eq!(recipe.ingredients().key(1), "garnish");
}

#[test]
fn list_element_query_includes() {
    assert!(Recipe::filtered_new(MOJITO, "Mojito".to_string(), &query("garnish", Some("lime")), &none()).is_some());
}

#[test]
fn scalar_mismatch_drops() {
    assert!(Recipe::filtered_new(MOJITO, "Mojito".to_string(), &query("base", Some("gin")), &none()).is_none());
}

#[test]
fn exclusion_by_value_drops() {
    assert!(Recipe::filtered_new(MOJITO, "Mojito".to_string(), &none(), &query("base", Some("vodka"))).is_none());
}

#[test]
fn key_only_exclusion_drops() {
    assert!(Recipe::filtered_new(MOJITO, "Mojito".to_string(), &none(), &query("garnish", None)).is_none());
}

#[test]
fn scalar_attribute_block_is_no_recipe() {
    let text = "---\njust a scalar\n---\nShake well.\n";
    assert!(Recipe::filtered_new(text, "X".to_string(), &none(), &none()).is_none());
    assert!(Recipe::filtered_new(text, "X".to_string(), &query("base", None), &query("base", None)).is_none());
}
