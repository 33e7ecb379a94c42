use interactive_parse::get_title_str;
use interactive_parse::schema::{Metadata, SchemaObject};
use interactive_parse::text::{get_description, get_element_name};

fn described(d: &str) -> SchemaObject {
    SchemaObject {
        metadata: Some(Metadata { title: None, description: Some(d.to_string()) }),
        instance_type: None,
        reference: None,
        array: None,
        object: None,
        subschemas: None,
        enum_values: None,
    }
}

#[test]
fn title_is_bracketed() {
    assert_eq!(get_title_str(&Some("Point".to_string())), "<Point> ");
    assert_eq!(get_title_str(&None), "");
}

#[test]
fn short_description_is_kept() {
    assert_eq!(get_description(&described("an integer")), ": an integer");
}

#[test]
fn long_description_is_cut_at_sixty_bytes() {
    let long = "x".repeat(70);
    let expected = format!(": {}...", "x".repeat(60));
    assert_eq!(get_description(&described(&long)), expected);
    let wide = "é".repeat(40);
    assert_eq!(get_description(&described(&wide)), format!(": {}...", "é".repeat(30)));
    let exact = "é".repeat(30);
    assert_eq!(get_description(&described(&exact)), format!(": {exact}"));
}

#[test]
fn description_cut_ends_on_character_boundary() {
    let odd = format!("a{}", "é".repeat(40));
    assert_eq!(
        get_description(&described(&odd)),
        format!(": a{}...", "é".repeat(29))
    );
}

#[test]
fn missing_description_is_empty() {
    let mut s = described("d");
    s.metadata = None;
    assert_eq!(get_description(&s), "");
}

#[test]
fn element_names_follow_array_form() {
    assert_eq!(get_element_name(&"items".to_string(), 12, false), "items[12]");
    assert_eq!(get_element_name(&"pair".to_string(), 0, true), "pair.0");
}
