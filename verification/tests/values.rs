use quocktail::ingredients::Ingredients;
use quocktail::value::Value;
use quocktail::yaml::Node;

fn text(s: &str) -> Node {
    Node::String(s.to_string())
}

fn scalar(s: &str) -> Value {
    Value::Scalar(s.to_string())
}

#[test]
fn string_is_scalar() {
    assert_eq!(Value::from_node(&text("vodka")), scalar("vodka"));
}

#[test]
fn sequence_is_list_in_order() {
    let node = Node::Array(vec![text("mint"), Node::Integer(2), text("lime"), Node::Null]);
    assert_eq!(
        Value::from_node(&node),
        Value::List(vec![scalar("mint"), Value::Opaque, scalar("lime"), Value::Null])
    );
}

#[test]
fn nested_sequence_is_nested_list() {
    let node = Node::Array(vec![Node::Array(vec![text("a")]), Node::Array(vec![])]);
    assert_eq!(
        Value::from_node(&node),
        Value::List(vec![Value::List(vec![scalar("a")]), Value::List(vec![])])
    );
}

#[test]
fn mapping_with_or_is_group() {
    let node = Node::Hash(vec![(text("or"), Node::Array(vec![text("gin"), text("vodka")]))]);
    assert_eq!(
        Value::from_node(&node),
        Value::OrGroup(vec!["gin".to_string(), "vodka".to_string()])
    );
}

#[test]
fn group_keeps_strings_only() {
    let node = Node::Hash(vec![(
        text("or"),
        Node::Array(vec![text("gin"), Node::Integer(7), Node::Null, text("rum")]),
    )]);
    assert_eq!(
        Value::from_node(&node),
        Value::OrGroup(vec!["gin".to_string(), "rum".to_string()])
    );
}

#[test]
fn group_ignores_other_keys() {
    let node = Node::Hash(vec![
        (text("note"), text("either")),
        (text("or"), Node::Array(vec![text("gin")])),
    ]);
    assert_eq!(Value::from_node(&node), Value::OrGroup(vec!["gin".to_string()]));
}

#[test]
fn mapping_without_or_is_opaque() {
    let node = Node::Hash(vec![(text("and"), Node::Array(vec![text("gin")]))]);
    assert_eq!(Value::from_node(&node), Value::Opaque);
    assert_eq!(Value::from_node(&Node::Hash(vec![])), Value::Opaque);
}

#[test]
fn or_without_sequence_is_opaque() {
    let node = Node::Hash(vec![(text("or"), text("gin"))]);
    assert_eq!(Value::from_node(&node), Value::Opaque);
}

#[test]
fn or_key_is_case_sensitive() {
    let node = Node::Hash(vec![(text("OR"), Node::Array(vec![text("gin")]))]);
    assert_eq!(Value::from_node(&node), Value::Opaque);
}

#[test]
fn null_is_null() {
    assert_eq!(Value::from_node(&Node::Null), Value::Null);
}

#[test]
fn other_nodes_are_opaque() {
    assert_eq!(Value::from_node(&Node::Integer(3)), Value::Opaque);
    assert_eq!(Value::from_node(&Node::Real("1.5".to_string())), Value::Opaque);
    assert_eq!(Value::from_node(&Node::Boolean(true)), Value::Opaque);
    assert_eq!(Value::from_node(&Node::Alias(1)), Value::Opaque);
    assert_eq!(Value::from_node(&Node::BadValue), Value::Opaque);
}

#[test]
fn shape_inspection() {
    let s = scalar("gin");
    assert_eq!(s.as_scalar(), Some(&"gin".to_string()));
    assert_eq!(s.as_list(), None);
    assert_eq!(s.as_or_group(), None);
    assert!(!s.is_null());
    let l = Value::List(vec![scalar("a")]);
    assert_eq!(l.as_list(), Some(&vec![scalar("a")]));
    assert_eq!(l.as_scalar(), None);
    let g = Value::OrGroup(vec!["a".to_string()]);
    assert_eq!(g.as_or_group(), Some(&vec!["a".to_string()]));
    assert_eq!(g.as_list(), None);
    assert!(Value::Null.is_null());
    assert!(!Value::Opaque.is_null());
    assert_eq!(Value::Opaque.as_scalar(), None);
}

#[test]
fn attributes_need_a_mapping() {
    assert!(Ingredients::from_node(&text("just a scalar")).is_none());
    assert!(Ingredients::from_node(&Node::Array(vec![text("a")])).is_none());
    assert!(Ingredients::from_node(&Node::Null).is_none());
    let empty = Ingredients::from_node(&Node::Hash(vec![])).expect("a mapping");
    assert_eq!(empty.len(), 0);
}

#[test]
fn attributes_keep_source_order() {
    let node = Node::Hash(vec![
        (text("base"), text("vodka")),
        (text("garnish"), Node::Array(vec![text("mint")])),
        (text("glass"), Node::Null),
    ]);
    let made = Ingredients::from_node(&node).expect("a mapping");
    assert_eq!(made.len(), 3);
    assert_eq!(made.key(0), "base");
    assert_eq!(made.value(0), &scalar("vodka"));
    assert_eq!(made.key(1), "garnish");
    assert_eq!(made.value(1), &Value::List(vec![scalar("mint")]));
    assert_eq!(made.key(2), "glass");
    assert_eq!(made.value(2), &Value::Null);
    assert_eq!(made.get(&"garnish".to_string()), Some(&Value::List(vec![scalar("mint")])));
    assert_eq!(made.get(&"Base".to_string()), None);
    assert_eq!(made.get(&"ice".to_string()), None);
}

#[test]
fn entries_without_string_key_give_no_attribute() {
    let node = Node::Hash(vec![
        (Node::Integer(1), text("one")),
        (text("base"), text("gin")),
        (Node::Null, text("nothing")),
    ]);
    let made = Ingredients::from_node(&node).expect("a mapping");
    assert_eq!(made.len(), 1);
    assert_eq!(made.key(0), "base");
}

#[test]
fn repeated_key_takes_last_value_in_first_place() {
    let node = Node::Hash(vec![
        (text("base"), text("gin")),
        (text("glass"), text("coupe")),
        (text("base"), text("rum")),
    ]);
    let made = Ingredients::from_node(&node).expect("a mapping");
    assert_eq!(made.len(), 2);
    assert_eq!(made.key(0), "base");
    assert_eq!(made.value(0), &scalar("rum"));
    assert_eq!(made.key(1), "glass");
}

#[test]
fn last_document_counts() {
    assert!(Ingredients::from_documents(&vec![]).is_none());
    let first = Node::Hash(vec![(text("a"), text("1"))]);
    let second = Node::Hash(vec![(text("b"), text("2"))]);
    let made = Ingredients::from_documents(&vec![first, second]).expect("a mapping");
    assert_eq!(made.len(), 1);
    assert_eq!(made.key(0), "b");
    let mapping = Node::Hash(vec![(text("a"), text("1"))]);
    assert!(Ingredients::from_documents(&vec![mapping, text("scalar")]).is_none());
}

#[test]
fn attribute_block_is_read_as_yaml() {
    let made = Ingredients::new("base: vodka\ngarnish:\n  - mint\n  - lime\nglass:\nice: 3\nspirit:\n  or:\n    - gin\n    - rum\n")
        .expect("a mapping");
    assert_eq!(made.len(), 5);
    assert_eq!(made.key(0), "base");
    assert_eq!(made.value(0), &scalar("vodka"));
    assert_eq!(made.value(1), &Value::List(vec![scalar("mint"), scalar("lime")]));
    assert_eq!(made.value(2), &Value::Null);
    assert_eq!(made.value(3), &Value::Opaque);
    assert_eq!(made.key(4), "spirit");
    assert_eq!(made.value(4), &Value::OrGroup(vec!["gin".to_string(), "rum".to_string()]));
}

#[test]
fn attribute_block_must_be_a_mapping() {
    assert!(Ingredients::new("just a scalar").is_none());
    assert!(Ingredients::new("- a\n- b\n").is_none());
    assert!(Ingredients::new("").is_none());
    assert!(Ingredients::new("a: [b").is_none());
}

#[test]
fn attribute_block_with_two_documents() {
    let made = Ingredients::new("a: x\n---\nb: y\n").expect("a mapping");
    assert_eq!(made.len(), 1);
    assert_eq!(made.key(0), "b");
}
