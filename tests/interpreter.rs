use interactive_parse::error::SchemaError;
use interactive_parse::prompt::{Answer, Prompt, PromptKind};
use interactive_parse::schema::{
    ArrayItems, ArrayValidation, InstanceType, Metadata, RootSchema, Schema, SchemaObject,
    SubschemaValidation, TypeSpec,
};
use interactive_parse::session::{run, Session, Step};
use interactive_parse::value::Value;

fn bare() -> SchemaObject {
    SchemaObject {
        metadata: None,
        instance_type: None,
        reference: None,
        array: None,
        object: None,
        subschemas: None,
        enum_values: None,
    }
}

fn node(t: InstanceType) -> SchemaObject {
    let mut s = bare();
    s.instance_type = Some(TypeSpec::Single(t));
    s
}

fn object(props: Vec<(&str, SchemaObject)>) -> SchemaObject {
    let mut s = node(InstanceType::Object);
    s.object = Some(
        props
            .into_iter()
            .map(|(n, p)| (n.to_string(), Schema::Object(p)))
            .collect(),
    );
    s
}

fn int_array(min: Option<u32>, max: Option<u32>) -> SchemaObject {
    let mut s = node(InstanceType::Array);
    s.array = Some(ArrayValidation {
        items: Some(ArrayItems::Uniform(Box::new(Schema::Object(node(InstanceType::Integer))))),
        min_items: min,
        max_items: max,
    });
    s
}

fn reference(name: &str) -> SchemaObject {
    let mut s = bare();
    s.reference = Some(format!("#/definitions/{name}"));
    s
}

fn root(schema: SchemaObject) -> RootSchema {
    RootSchema { definitions: Vec::new(), schema }
}

fn step(root: &RootSchema, answers: Vec<Answer>) -> Step {
    run(root, &answers)
}

fn int_value(n: i64) -> Value {
    Value::Integer(n)
}

#[test]
fn string_scalar_is_built() {
    let r = root(node(InstanceType::String));
    assert_eq!(
        step(&r, vec![Answer::Text("hello".to_string())]),
        Step::Done(Value::String("hello".to_string()))
    );
}

#[test]
fn integer_prompt_shows_description() {
    let mut s = node(InstanceType::Integer);
    s.metadata = Some(Metadata { title: None, description: Some("count of items".to_string()) });
    let r = root(s);
    assert_eq!(
        step(&r, vec![]),
        Step::Ask {
            prompt: Prompt {
                kind: PromptKind::Integer,
                message: String::new(),
                help: "int: count of items".to_string(),
            },
            erase: 0,
            depth: 0,
        }
    );
}

#[test]
fn number_and_bool_scalars() {
    let r = root(node(InstanceType::Number));
    assert_eq!(
        step(&r, vec![Answer::Number("2.5".to_string())]),
        Step::Done(Value::Number("2.5".to_string()))
    );
    let r = root(node(InstanceType::Boolean));
    assert_eq!(step(&r, vec![Answer::Bool(true)]), Step::Done(Value::Bool(true)));
}

#[test]
fn object_without_skips_keeps_property_order() {
    let r = root(object(vec![
        ("b", node(InstanceType::Integer)),
        ("a", node(InstanceType::String)),
    ]));
    assert_eq!(
        step(&r, vec![Answer::Integer(1), Answer::Text("x".to_string())]),
        Step::Done(Value::Object(vec![
            ("b".to_string(), int_value(1)),
            ("a".to_string(), Value::String("x".to_string())),
        ]))
    );
}

#[test]
fn array_min_one_max_three_stops_on_decline() {
    let r = root(int_array(Some(1), Some(3)));
    let answers = vec![
        Answer::Integer(10),
        Answer::Confirm(true),
        Answer::Integer(20),
        Answer::Confirm(false),
    ];
    assert_eq!(
        step(&r, answers),
        Step::Done(Value::Array(vec![int_value(10), int_value(20)]))
    );
}

#[test]
fn array_stops_at_max_without_asking() {
    let r = root(int_array(Some(1), Some(3)));
    let answers = vec![
        Answer::Integer(1),
        Answer::Confirm(true),
        Answer::Integer(2),
        Answer::Confirm(true),
        Answer::Integer(3),
        Answer::Confirm(false),
    ];
    assert_eq!(
        step(&r, answers),
        Step::Done(Value::Array(vec![int_value(1), int_value(2), int_value(3)]))
    );
}

#[test]
fn array_element_names_and_gate_prompt() {
    let mut s = int_array(None, None);
    s.metadata = Some(Metadata { title: Some("Nums".to_string()), description: None });
    let r = root(s);
    match step(&r, vec![]) {
        Step::Ask { prompt, .. } => {
            assert_eq!(prompt.kind, PromptKind::Confirm);
            assert_eq!(prompt.message, "Add element?");
            assert_eq!(prompt.help, "<Nums> ");
        }
        other => panic!("unexpected {other:?}"),
    }
    match step(&r, vec![Answer::Confirm(true), Answer::Integer(4), Answer::Confirm(true)]) {
        Step::Ask { prompt, depth, .. } => {
            assert_eq!(prompt.message, "[1]");
            assert_eq!(depth, 3);
        }
        other => panic!("unexpected {other:?}"),
    }
}

#[test]
fn positional_array_uses_dotted_names() {
    let mut s = node(InstanceType::Array);
    s.array = Some(ArrayValidation {
        items: Some(ArrayItems::Positional(vec![
            Schema::Object(node(InstanceType::String)),
            Schema::Object(node(InstanceType::Integer)),
        ])),
        min_items: Some(2),
        max_items: Some(2),
    });
    let r = root(object(vec![("pair", s)]));
    match step(&r, vec![Answer::Text("k".to_string())]) {
        Step::Ask { prompt, .. } => {
            assert_eq!(prompt.message, "pair.1");
            assert_eq!(prompt.kind, PromptKind::Integer);
        }
        other => panic!("unexpected {other:?}"),
    }
    assert_eq!(
        step(&r, vec![Answer::Text("k".to_string()), Answer::Integer(7)]),
        Step::Done(Value::Object(vec![(
            "pair".to_string(),
            Value::Array(vec![Value::String("k".to_string()), int_value(7)])
        )]))
    );
}

#[test]
fn skip_then_redo_gives_same_value() {
    let r = root(object(vec![
        ("a", node(InstanceType::Integer)),
        ("b", node(InstanceType::Integer)),
    ]));
    let plain = step(&r, vec![Answer::Integer(1), Answer::Integer(2)]);
    let redone = step(
        &r,
        vec![Answer::Integer(1), Answer::Skip, Answer::Integer(1), Answer::Integer(2)],
    );
    assert_eq!(plain, redone);
    assert_eq!(
        plain,
        Step::Done(Value::Object(vec![
            ("a".to_string(), int_value(1)),
            ("b".to_string(), int_value(2)),
        ]))
    );
}

#[test]
fn depth_counts_commits_and_rewind_erases() {
    let r = root(object(vec![
        ("a", node(InstanceType::Integer)),
        ("b", node(InstanceType::Integer)),
        ("c", node(InstanceType::Integer)),
    ]));
    match step(&r, vec![Answer::Integer(1), Answer::Integer(2)]) {
        Step::Ask { prompt, erase, depth } => {
            assert_eq!(prompt.message, "c");
            assert_eq!(erase, 0);
            assert_eq!(depth, 2);
        }
        other => panic!("unexpected {other:?}"),
    }
    match step(&r, vec![Answer::Integer(1), Answer::Integer(2), Answer::Skip]) {
        Step::Ask { prompt, erase, depth } => {
            assert_eq!(prompt.message, "b");
            assert_eq!(erase, 2);
            assert_eq!(depth, 1);
        }
        other => panic!("unexpected {other:?}"),
    }
}

#[test]
fn skipping_first_prompt_aborts() {
    let r = root(node(InstanceType::String));
    assert_eq!(step(&r, vec![Answer::Skip]), Step::Failed(SchemaError::Aborted));
}

fn one_of(variants: Vec<SchemaObject>) -> SchemaObject {
    let mut s = bare();
    s.subschemas = Some(SubschemaValidation {
        one_of: Some(variants.into_iter().map(Schema::Object).collect()),
        all_of: None,
        any_of: None,
    });
    s
}

fn literal(name: &str) -> SchemaObject {
    let mut s = node(InstanceType::String);
    s.enum_values = Some(vec![Value::String(name.to_string())]);
    s
}

#[test]
fn one_of_choice_yields_that_variant() {
    let r = root(one_of(vec![
        object(vec![("x", node(InstanceType::Integer))]),
        object(vec![("y", node(InstanceType::String))]),
    ]));
    match step(&r, vec![]) {
        Step::Ask { prompt, .. } => {
            assert_eq!(
                prompt.kind,
                PromptKind::Select(vec!["x".to_string(), "y".to_string()])
            );
            assert_eq!(prompt.message, "Select one:");
        }
        other => panic!("unexpected {other:?}"),
    }
    assert_eq!(
        step(&r, vec![Answer::Choice(1), Answer::Text("v".to_string())]),
        Step::Done(Value::Object(vec![("y".to_string(), Value::String("v".to_string()))]))
    );
}

#[test]
fn one_of_literal_variant_returns_literal() {
    let r = root(one_of(vec![literal("Unit"), literal("Unit2")]));
    assert_eq!(
        step(&r, vec![Answer::Choice(1)]),
        Step::Done(Value::String("Unit2".to_string()))
    );
}

#[test]
fn one_of_choice_out_of_range_is_mismatch() {
    let r = root(one_of(vec![literal("Unit")]));
    assert_eq!(
        step(&r, vec![Answer::Choice(3)]),
        Step::Failed(SchemaError::AnswerMismatch)
    );
}

#[test]
fn all_of_two_scalars_gives_pair() {
    let mut s = bare();
    s.subschemas = Some(SubschemaValidation {
        one_of: None,
        all_of: Some(vec![
            Schema::Object(node(InstanceType::String)),
            Schema::Object(node(InstanceType::Integer)),
        ]),
        any_of: None,
    });
    let r = root(s);
    assert_eq!(
        step(&r, vec![Answer::Text("a".to_string()), Answer::Integer(3)]),
        Step::Done(Value::Array(vec![Value::String("a".to_string()), int_value(3)]))
    );
}

#[test]
fn all_of_single_part_is_unwrapped() {
    let mut s = bare();
    s.subschemas = Some(SubschemaValidation {
        one_of: None,
        all_of: Some(vec![Schema::Object(node(InstanceType::Integer))]),
        any_of: None,
    });
    let r = root(s);
    assert_eq!(step(&r, vec![Answer::Integer(9)]), Step::Done(int_value(9)));
}

#[test]
fn any_of_is_optional_first_non_null() {
    let mut s = bare();
    s.subschemas = Some(SubschemaValidation {
        one_of: None,
        all_of: None,
        any_of: Some(vec![
            Schema::Object(node(InstanceType::Null)),
            Schema::Object(node(InstanceType::Integer)),
        ]),
    });
    let r = root(s);
    assert_eq!(step(&r, vec![Answer::Confirm(false)]), Step::Done(Value::Null));
    assert_eq!(
        step(&r, vec![Answer::Confirm(true), Answer::Integer(5)]),
        Step::Done(int_value(5))
    );
}

#[test]
fn optional_kind_asks_first() {
    let mut s = bare();
    s.instance_type = Some(TypeSpec::Union(vec![InstanceType::Integer, InstanceType::Null]));
    let r = root(object(vec![("n", s)]));
    match step(&r, vec![]) {
        Step::Ask { prompt, .. } => {
            assert_eq!(prompt.message, "Add optional value?");
            assert_eq!(prompt.help, "n");
        }
        other => panic!("unexpected {other:?}"),
    }
    assert_eq!(
        step(&r, vec![Answer::Confirm(false)]),
        Step::Done(Value::Object(vec![("n".to_string(), Value::Null)]))
    );
    assert_eq!(
        step(&r, vec![Answer::Confirm(true), Answer::Integer(8)]),
        Step::Done(Value::Object(vec![("n".to_string(), int_value(8))]))
    );
}

#[test]
fn reference_is_resolved_keeping_inherited_title() {
    let mut opt = bare();
    opt.instance_type = Some(TypeSpec::Union(vec![InstanceType::Null, InstanceType::Boolean]));
    let r = RootSchema {
        definitions: vec![("Flag".to_string(), Schema::Object(opt))],
        schema: reference("Flag"),
    };
    match step(&r, vec![]) {
        Step::Ask { prompt, .. } => assert_eq!(prompt.help, ""),
        other => panic!("unexpected {other:?}"),
    }
    assert_eq!(
        step(&r, vec![Answer::Confirm(true), Answer::Bool(false)]),
        Step::Done(Value::Bool(false))
    );
}

#[test]
fn reference_cycle_is_rejected() {
    let r = RootSchema {
        definitions: vec![
            ("A".to_string(), Schema::Object(reference("B"))),
            ("B".to_string(), Schema::Object(reference("A"))),
        ],
        schema: reference("A"),
    };
    assert_eq!(
        step(&r, vec![]),
        Step::Failed(SchemaError::ReferenceCycle("A".to_string()))
    );
}

#[test]
fn unresolved_reference_is_reported() {
    let r = root(reference("Missing"));
    assert_eq!(
        step(&r, vec![]),
        Step::Failed(SchemaError::UnresolvedReference("#/definitions/Missing".to_string()))
    );
    let mut s = bare();
    s.reference = Some("elsewhere/Thing".to_string());
    assert_eq!(
        step(&root(s), vec![]),
        Step::Failed(SchemaError::UnresolvedReference("elsewhere/Thing".to_string()))
    );
}

#[test]
fn boolean_schema_is_rejected() {
    let mut s = node(InstanceType::Object);
    s.object = Some(vec![("p".to_string(), Schema::Bool(true))]);
    assert_eq!(step(&root(s), vec![]), Step::Failed(SchemaError::SchemaIsBool));
}

#[test]
fn node_without_kind_is_malformed() {
    assert_eq!(
        step(&root(bare()), vec![]),
        Step::Failed(SchemaError::MalformedComposition)
    );
}

#[test]
fn answer_of_wrong_form_is_mismatch() {
    let r = root(node(InstanceType::Integer));
    assert_eq!(
        step(&r, vec![Answer::Text("x".to_string())]),
        Step::Failed(SchemaError::AnswerMismatch)
    );
}

#[test]
fn array_without_items_is_missing_validation() {
    let r = root(node(InstanceType::Array));
    assert_eq!(step(&r, vec![]), Step::Failed(SchemaError::MissingValidation));
}

#[test]
fn union_of_only_null_is_unimplemented() {
    let mut s = bare();
    s.instance_type = Some(TypeSpec::Union(vec![InstanceType::Null]));
    assert_eq!(step(&root(s), vec![]), Step::Failed(SchemaError::Unimplemented));
}

#[test]
fn session_replays_answers() {
    let r = root(object(vec![
        ("a", node(InstanceType::Integer)),
        ("b", node(InstanceType::String)),
    ]));
    let mut session = Session::new();
    match session.current(&r) {
        Step::Ask { prompt, depth, .. } => {
            assert_eq!(prompt.message, "a");
            assert_eq!(depth, 0);
        }
        other => panic!("unexpected {other:?}"),
    }
    match session.respond(&r, Answer::Integer(4)) {
        Step::Ask { prompt, .. } => assert_eq!(prompt.message, "b"),
        other => panic!("unexpected {other:?}"),
    }
    match session.respond(&r, Answer::Skip) {
        Step::Ask { prompt, erase, depth } => {
            assert_eq!(prompt.message, "a");
            assert_eq!(erase, 2);
            assert_eq!(depth, 0);
        }
        other => panic!("unexpected {other:?}"),
    }
    session.respond(&r, Answer::Integer(5));
    assert_eq!(
        session.respond(&r, Answer::Text("z".to_string())),
        Step::Done(Value::Object(vec![
            ("a".to_string(), int_value(5)),
            ("b".to_string(), Value::String("z".to_string())),
        ]))
    );
    assert_eq!(session.answers.len(), 4);
}

#[test]
fn reference_takes_title_declared_by_definition() {
    let mut opt = bare();
    opt.instance_type = Some(TypeSpec::Union(vec![InstanceType::Null, InstanceType::Boolean]));
    opt.metadata = Some(Metadata { title: Some("Flag".to_string()), description: None });
    let r = RootSchema {
        definitions: vec![("F".to_string(), Schema::Object(opt))],
        schema: reference("F"),
    };
    match step(&r, vec![]) {
        Step::Ask { prompt, .. } => assert_eq!(prompt.help, "<Flag> "),
        other => panic!("unexpected {other:?}"),
    }
}

#[test]
fn untitled_metadata_keeps_inherited_title() {
    let mut item = node(InstanceType::Integer);
    item.metadata = Some(Metadata { title: None, description: Some("d".to_string()) });
    let mut s = bare();
    s.metadata = Some(Metadata { title: Some("Outer".to_string()), description: None });
    s.subschemas = Some(SubschemaValidation {
        one_of: None,
        all_of: None,
        any_of: Some(vec![Schema::Object(node(InstanceType::Null)), Schema::Object(item)]),
    });
    match step(&root(s), vec![]) {
        Step::Ask { prompt, .. } => assert_eq!(prompt.help, "<Outer> "),
        other => panic!("unexpected {other:?}"),
    }
}

fn literal_of(v: Value) -> SchemaObject {
    let mut s = bare();
    s.enum_values = Some(vec![v]);
    s
}

#[test]
fn one_of_non_string_literals_are_labelled_and_returned() {
    let r = root(one_of(vec![
        literal_of(Value::Integer(7)),
        literal_of(Value::Integer(-5)),
        literal_of(Value::Bool(true)),
        literal_of(Value::Null),
        literal_of(Value::Array(vec![Value::Integer(1), Value::String("a\"b".to_string())])),
        literal_of(Value::Object(vec![("k".to_string(), Value::Number("2.5".to_string()))])),
    ]));
    match step(&r, vec![]) {
        Step::Ask { prompt, .. } => assert_eq!(
            prompt.kind,
            PromptKind::Select(vec![
                "7".to_string(),
                "-5".to_string(),
                "true".to_string(),
                "null".to_string(),
                "[1,\"a\\\"b\"]".to_string(),
                "{\"k\":2.5}".to_string(),
            ])
        ),
        other => panic!("unexpected {other:?}"),
    }
    assert_eq!(step(&r, vec![Answer::Choice(0)]), Step::Done(Value::Integer(7)));
    assert_eq!(step(&r, vec![Answer::Choice(3)]), Step::Done(Value::Null));
    assert_eq!(
        step(&r, vec![Answer::Choice(4)]),
        Step::Done(Value::Array(vec![Value::Integer(1), Value::String("a\"b".to_string())]))
    );
}

#[test]
fn one_of_variant_without_object_or_literal_is_malformed() {
    let r = root(one_of(vec![literal("Unit"), node(InstanceType::Integer)]));
    assert_eq!(step(&r, vec![]), Step::Failed(SchemaError::MalformedComposition));
}
