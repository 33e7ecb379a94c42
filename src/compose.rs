use vstd::prelude::*;
use vstd::string::StringExecFns;

use crate::builder::{ask, at_rest, confirm_prompt, frame_ok, no_skip, parse_schema, structural, update_title, Cursor, Outcome};
use crate::error::SchemaError;
use crate::literal::{copy_value, get_literal_label};
use crate::model::{
    first_variant_from, labels_from, m_all_of, m_frame, m_subschema, models, outcome_model, KindModel,
    ValueModel,
};
use crate::path::path_ok;
use crate::prompt::{Answer, Prompt, PromptKind};
use crate::schema::{InstanceType, Schema, SchemaObject, TypeSpec};
use crate::shape::{composition_ok, fits_composition, fits_schema, fits_variant, is_first_non_null, is_null_typed, label_of, node_ok, ref_measure};
use crate::text::{concat, description_text, get_title_str};
use crate::value::Value;

verus! {

broadcast use vstd::std_specs::vec::axiom_vec_index_decreases, vstd::std_specs::vec::axiom_vec_decreases_to_view;

fn variant_label(var: &Schema) -> (r: Result<String, SchemaError>)
    ensures
        match r {
            Ok(l) => label_of(*var) == Some(l@),
            Err(e) => label_of(*var) is None && e == (if var is Bool {
                SchemaError::SchemaIsBool
            } else {
                SchemaError::MalformedComposition
            }),
        },
{
    match var {
        Schema::Bool(_) => Err(SchemaError::SchemaIsBool),
        Schema::Object(o) => match &o.object {
            Some(props) => if props.len() > 0 {
                Ok(props[0].0.clone())
            } else {
                Err(SchemaError::MalformedComposition)
            },
            None => match &o.enum_values {
                Some(ev) => if ev.len() > 0 {
                    Ok(get_literal_label(&ev[0]))
                } else {
                    Err(SchemaError::MalformedComposition)
                },
                None => Err(SchemaError::MalformedComposition),
            },
        },
    }
}

/// For a `oneOf` node, the answer at `pos` chose a variant and `v` has the
/// shape of that variant alone.
pub open spec fn chosen_variant_fits(
    defs: Seq<(String, Schema)>,
    path: Seq<usize>,
    answers: Seq<Answer>,
    pos: int,
    v: Value,
    s: SchemaObject,
) -> bool {
    match s.subschemas {
        Some(sub) => match sub.one_of {
            Some(vs) => {
                &&& 0 <= pos < answers.len()
                &&& answers[pos] is Choice
                &&& (answers[pos]->Choice_0 as int) < vs@.len()
                &&& fits_variant(defs, path, v, vs@[answers[pos]->Choice_0 as int])
            },
            None => true,
        },
        None => true,
    }
}

/// The index of the first `anyOf` variant that is not of kind `Null`.
fn first_non_null_variant(vs: &Vec<Schema>) -> (r: Result<usize, SchemaError>)
    ensures
        match r {
            Ok(j) => is_first_non_null(vs@, j as int),
            Err(e) => (e is SchemaIsBool || e is MalformedComposition) && forall|j: int|
                !is_first_non_null(vs@, j),
        },
        match r {
            Ok(j) => first_variant_from(vs@, 0) == Ok::<int, SchemaError>(j as int),
            Err(e) => first_variant_from(vs@, 0) == Err::<int, SchemaError>(e),
        },
{
    let mut j: usize = 0;
    while j < vs.len()
        invariant
            j <= vs@.len(),
            first_variant_from(vs@, 0) == first_variant_from(vs@, j as int),
            forall|m: int| 0 <= m < j ==> vs@[m] is Object && is_null_typed(#[trigger] vs@[m]->Object_0),
        decreases vs.len() - j,
    {
        match &vs[j] {
            Schema::Bool(_) => {
                return Err(SchemaError::SchemaIsBool);
            },
            Schema::Object(o) => {
                let null_typed = match &o.instance_type {
                    Some(TypeSpec::Single(t)) => *t == InstanceType::Null,
                    _ => false,
                };
                if !null_typed {
                    proof {
                        assert(is_first_non_null(vs@, j as int));
                    }
                    return Ok(j);
                }
            },
        }
        j = j + 1;
    }
    Err(SchemaError::MalformedComposition)
}

/// Resolves the composition of `schema`: a choice among `oneOf` variants,
/// the sequence of `allOf` parts, or the optional first non-null `anyOf`
/// variant.
pub(crate) fn get_subschema(
    defs: &Vec<(String, Schema)>,
    answers: &Vec<Answer>,
    cur: &mut Cursor,
    path: &Vec<usize>,
    title: &Option<String>,
    name: &String,
    schema: &SchemaObject,
    description: &String,
) -> (r: Outcome)
    requires
        at_rest(*old(cur), answers@),
        path_ok(path@, defs@.len() as int),
        description@ == description_text(*schema),
    ensures
        frame_ok(answers@, *old(cur), *final(cur), r),
        (outcome_model(r), *final(cur)) == m_subschema(defs@, answers@, path@, *title, name@, *schema, *old(cur)),
        r is Committed ==> fits_composition(defs@, path@, r->Committed_0, *schema),
        structural(r) ==> !composition_ok(defs@, path@, *schema),
        r is Committed ==> chosen_variant_fits(
            defs@,
            path@,
            answers@,
            old(cur).pos as int,
            r->Committed_0,
            *schema,
        ),
    decreases answers@.len() - old(cur).pos, ref_measure(defs@.len() as int, path@), *schema, 1int,
{
    let sub = match &schema.subschemas {
        Some(sub) => sub,
        None => {
            return Outcome::Failed(SchemaError::MalformedComposition);
        },
    };
    match &sub.one_of {
        Some(vs) => {
            let mut options: Vec<String> = Vec::new();
            let mut j: usize = 0;
            proof {
                assert(options@.map_values(|o: String| o@) =~= Seq::<Seq<char>>::empty());
            }
            while j < vs.len()
                invariant
                    *cur == *old(cur),
                    at_rest(*old(cur), answers@),
                    schema.subschemas == Some(*sub),
                    sub.one_of == Some(*vs),
                    j <= vs@.len(),
                    options@.len() == j,
                    forall|m: int| 0 <= m < j ==> label_of(vs@[m]) == Some(#[trigger] options@[m]@),
                    labels_from(vs@, 0, Seq::empty()) == labels_from(
                        vs@,
                        j as int,
                        options@.map_values(|o: String| o@),
                    ),
                decreases vs.len() - j,
            {
                match variant_label(&vs[j]) {
                    Ok(l) => {
                        let ghost prev = options@;
                        options.push(l);
                        proof {
                            assert(options@.map_values(|o: String| o@) =~= prev.map_values(|o: String| o@).push(
                                options@[j as int]@,
                            ));
                        }
                    },
                    Err(e) => {
                        proof {
                            assert(label_of(vs@[j as int]) is None);
                            assert(schema.subschemas->Some_0.one_of->Some_0@ == vs@);
                        }
                        return Outcome::Failed(e);
                    },
                }
                j = j + 1;
            }
            let n_options = options.len();
            let title_str = get_title_str(title);
            let help = concat(concat(title_str.as_str(), name.as_str()).as_str(), description.as_str());
            let prompt = Prompt {
                kind: PromptKind::Select(options),
                message: String::from_str("Select one:"),
                help,
            };
            match ask(answers, cur, prompt) {
                Ok(i) => match &answers[i] {
                    Answer::Choice(k) => {
                        let k = *k;
                        if k >= n_options {
                            return Outcome::Failed(SchemaError::AnswerMismatch);
                        }
                        match &vs[k] {
                            Schema::Bool(_) => Outcome::Failed(SchemaError::SchemaIsBool),
                            Schema::Object(o) => {
                                if o.object.is_some() {
                                    let inner_title = update_title(title, o);
                                    let r = parse_schema(defs, answers, cur, path, &inner_title, name, o);
                                    proof {
                                        if r is Committed {
                                            assert(fits_variant(defs@, path@, r->Committed_0, vs@[k as int]));
                                        }
                                    }
                                    r
                                } else {
                                    match &o.enum_values {
                                        Some(ev) => if ev.len() > 0 {
                                            let v = copy_value(&ev[0]);
                                            proof {
                                                assert(fits_variant(defs@, path@, v, vs@[k as int]));
                                            }
                                            Outcome::Committed(v)
                                        } else {
                                            Outcome::Failed(SchemaError::MalformedComposition)
                                        },
                                        None => Outcome::Failed(SchemaError::MalformedComposition),
                                    }
                                }
                            },
                        }
                    },
                    _ => Outcome::Failed(SchemaError::AnswerMismatch),
                },
                Err(o) => o,
            }
        },
        None => match &sub.all_of {
            Some(vs) => {
                let mut values: Vec<Value> = Vec::new();
                let mut j: usize = 0;
                proof {
                    assert(models(values@) =~= Seq::<ValueModel>::empty());
                }
                while j < vs.len()
                    invariant
                        schema.subschemas == Some(*sub),
                        sub.one_of is None,
                        sub.all_of == Some(*vs),
                        at_rest(*cur, answers@),
                        path_ok(path@, defs@.len() as int),
                        j <= vs@.len(),
                        values@.len() == j,
                        old(cur).pos <= cur.pos,
                        old(cur).depth <= cur.depth,
                        no_skip(answers@, old(cur).pos as int, cur.pos as int) ==> cur.depth == old(cur).depth
                            + (cur.pos - old(cur).pos),
                        forall|m: int| 0 <= m < j ==> fits_schema(defs@, path@, #[trigger] values@[m], vs@[m]),
                        m_all_of(defs@, answers@, path@, *title, name@, *schema, 0, Seq::empty(), *old(cur))
                            == m_all_of(defs@, answers@, path@, *title, name@, *schema, j as int, models(values@), *cur),
                    decreases vs.len() - j,
                {
                    proof {
                        assert(schema.subschemas->Some_0.all_of->Some_0@ == vs@);
                    }
                    match &vs[j] {
                        Schema::Bool(_) => {
                            proof {
                                assert(!node_ok(defs@, path@, vs@[j as int]));
                                assert(schema.subschemas->Some_0.all_of->Some_0@ == vs@);
                            }
                            return Outcome::Failed(SchemaError::SchemaIsBool);
                        },
                        Schema::Object(o) => {
                            let inner_title = update_title(title, o);
                            proof {
                                assert(decreases_to!(*schema => schema.subschemas));
                                assert(decreases_to!(schema.subschemas => schema.subschemas->Some_0));
                                assert(decreases_to!(*sub => sub.all_of));
                                assert(decreases_to!(sub.all_of => sub.all_of->Some_0));
                                assert(decreases_to!(*vs => vs@));
                                assert(decreases_to!(vs@ => vs@[j as int]));
                                assert(decreases_to!(vs@[j as int] => *o));
                            }
                            match parse_schema(defs, answers, cur, path, &inner_title, name, o) {
                                Outcome::Committed(v) => {
                                    let ghost prev = values@;
                                    values.push(v);
                                    proof {
                                        assert(models(values@) =~= models(prev).push(
                                            crate::model::value_model(values@[j as int]),
                                        ));
                                    }
                                    proof {
                                        assert forall|m: int| 0 <= m < j + 1 implies fits_schema(
                                            defs@,
                                            path@,
                                            #[trigger] values@[m],
                                            vs@[m],
                                        ) by {
                                            if m < j {
                                                assert(values@[m] == prev[m]);
                                            }
                                        }
                                    }
                                },
                                other => {
                                    return other;
                                },
                            }
                        },
                    }
                    j = j + 1;
                }
                let ghost vals = values@;
                proof {
                    assert(schema.subschemas->Some_0.all_of->Some_0@ == vs@);
                    crate::model::lemma_array_model(values);
                }
                if values.len() == 1 {
                    proof {
                        assert(fits_schema(defs@, path@, vals[0], vs@[0]));
                    }
                    let v = values.pop().unwrap();
                    proof {
                        assert(v == vals[0]);
                        assert(schema.subschemas->Some_0.all_of->Some_0@ == vs@);
                    }
                    Outcome::Committed(v)
                } else {
                    let v = Value::Array(values);
                    proof {
                        assert(v->Array_0@ == vals);
                        assert(schema.subschemas->Some_0.all_of->Some_0@ == vs@);
                        assert forall|i: int| 0 <= i < vs@.len() implies fits_schema(
                            defs@,
                            path@,
                            #[trigger] v->Array_0@[i],
                            vs@[i],
                        ) by {
                            assert(fits_schema(defs@, path@, vals[i], vs@[i]));
                        }
                    }
                    Outcome::Committed(v)
                }
            },
            None => match &sub.any_of {
                Some(vs) => match first_non_null_variant(vs) {
                    Ok(j) => match &vs[j] {
                        Schema::Bool(_) => Outcome::Failed(SchemaError::SchemaIsBool),
                        Schema::Object(o) => {
                            let inner_title = update_title(title, o);
                            let title_str = get_title_str(&inner_title);
                            let prompt = confirm_prompt(
                                "Add optional value?",
                                concat(title_str.as_str(), name.as_str()),
                            );
                            match ask(answers, cur, prompt) {
                                Ok(i) => match &answers[i] {
                                    Answer::Confirm(yes) => {
                                        if *yes {
                                            let r = parse_schema(defs, answers, cur, path, &inner_title, name, o);
                                            proof {
                                                if r is Committed {
                                                    assert(is_first_non_null(vs@, j as int));
                                                    assert(fits_composition(defs@, path@, r->Committed_0, *schema));
                                                }
                                            }
                                            r
                                        } else {
                                            Outcome::Committed(Value::Null)
                                        }
                                    },
                                    _ => Outcome::Failed(SchemaError::AnswerMismatch),
                                },
                                Err(o) => o,
                            }
                        },
                    },
                    Err(e) => Outcome::Failed(e),
                },
                None => Outcome::Failed(SchemaError::MalformedComposition),
            },
        },
    }
}

} // verus!
