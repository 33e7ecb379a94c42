use vstd::prelude::*;

use crate::builder::{ask, at_rest, confirm_prompt, frame_ok, no_skip, parse_schema, rewind_to, structural, Cursor, Outcome};
use crate::error::SchemaError;
use crate::model::{
    array_help, field_models, latest_below_from, lemma_array_model, lemma_object_model, m_array, m_array_loop,
    m_element, m_object, m_object_loop, min_items_of, models, outcome_model, rewound,
};
use crate::path::path_ok;
use crate::prompt::Answer;
use crate::schema::{ArrayItems, InstanceType, Schema, SchemaObject};
use crate::shape::{fits_kind, fits_schema, kind_ok, max_len, min_len, node_ok, ref_measure};
use crate::text::{concat, description_text, get_element_name, get_title_str};
use crate::value::Value;

verus! {

broadcast use vstd::std_specs::vec::axiom_vec_index_decreases, vstd::std_specs::vec::axiom_vec_decreases_to_view;

/// The index of the latest checkpoint that lies below `d`.
fn latest_below(checkpoints: &Vec<usize>, d: usize) -> (r: Option<usize>)
    ensures
        match r {
            Some(j) => j < checkpoints@.len() && checkpoints@[j as int] < d && forall|m: int|
                j < m < checkpoints@.len() ==> checkpoints@[m] >= d,
            None => forall|m: int| 0 <= m < checkpoints@.len() ==> checkpoints@[m] >= d,
        },
        match r {
            Some(j) => latest_below_from(checkpoints@, d, checkpoints@.len() as int) == Some(j as int),
            None => latest_below_from(checkpoints@, d, checkpoints@.len() as int) is None,
        },
{
    let mut j: usize = checkpoints.len();
    while j > 0
        invariant
            j <= checkpoints@.len(),
            latest_below_from(checkpoints@, d, checkpoints@.len() as int) == latest_below_from(checkpoints@, d, j as int),
            forall|m: int| j <= m < checkpoints@.len() ==> checkpoints@[m] >= d,
        decreases j,
    {
        if checkpoints[j - 1] < d {
            return Some(j - 1);
        }
        j = j - 1;
    }
    None
}

/// Whether `v` may stand at index `i` of an array built for `a`.
pub open spec fn element_ok(
    defs: Seq<(String, Schema)>,
    path: Seq<usize>,
    a: crate::schema::ArrayValidation,
    v: Value,
    i: int,
) -> bool {
    match a.items {
        Some(ArrayItems::Uniform(item)) => fits_schema(defs, path, v, *item),
        Some(ArrayItems::Positional(items)) => 0 <= i < items@.len() && fits_schema(defs, path, v, items@[i]),
        None => false,
    }
}

proof fn lemma_array_fits(
    defs: Seq<(String, Schema)>,
    path: Seq<usize>,
    s: SchemaObject,
    a: crate::schema::ArrayValidation,
    v: Vec<Value>,
)
    requires
        s.array == Some(a),
        a.items is Some,
        min_len(a) <= v@.len(),
        max_len(a) matches Some(h) ==> v@.len() <= h,
        forall|m: int| 0 <= m < v@.len() ==> element_ok(defs, path, a, #[trigger] v@[m], m),
    ensures
        fits_kind(defs, path, Value::Array(v), s, InstanceType::Array),
{
    match a.items {
        Some(ArrayItems::Uniform(item)) => {
            assert forall|i: int| 0 <= i < v@.len() implies fits_schema(defs, path, #[trigger] v@[i], *item) by {
                assert(element_ok(defs, path, a, v@[i], i));
            }
        },
        Some(ArrayItems::Positional(items)) => {
            assert forall|i: int| 0 <= i < v@.len() implies fits_schema(defs, path, #[trigger] v@[i], items@[i]) by {
                assert(element_ok(defs, path, a, v@[i], i));
            }
        },
        None => {},
    }
}

proof fn lemma_object_fits(defs: Seq<(String, Schema)>, path: Seq<usize>, s: SchemaObject, fields: Vec<(String, Value)>)
    requires
        s.object is Some,
        fields@.len() == s.object->Some_0@.len(),
        forall|m: int|
            0 <= m < fields@.len() ==> (#[trigger] fields@[m]).0@ == s.object->Some_0@[m].0@ && fits_schema(
                defs,
                path,
                fields@[m].1,
                s.object->Some_0@[m].1,
            ),
    ensures
        fits_kind(defs, path, Value::Object(fields), s, InstanceType::Object),
{
}

/// One element of an array: from index `min` on, first asks whether to add
/// it; `None` when the user declines.
fn array_element(
    defs: &Vec<(String, Schema)>,
    answers: &Vec<Answer>,
    cur: &mut Cursor,
    path: &Vec<usize>,
    schema: &SchemaObject,
    index: usize,
    min: usize,
    title: &Option<String>,
    name: &String,
    help: &String,
) -> (r: Option<Outcome>)
    requires
        at_rest(*old(cur), answers@),
        path_ok(path@, defs@.len() as int),
        schema.array is Some,
        schema.array->Some_0.items is Some,
        schema.array->Some_0.items->Some_0 matches ArrayItems::Positional(v) ==> index < v@.len(),
        min as int == min_items_of(*schema),
        help@ == array_help(*title, name@, *schema),
    ensures
        (match r {
            None => None,
            Some(o) => Some(outcome_model(o)),
        }, *final(cur)) == m_element(defs@, answers@, path@, *title, name@, *schema, index as int, *old(cur)),
        match r {
            None => {
                &&& index >= min
                &&& final(cur).pos == old(cur).pos + 1
                &&& final(cur).depth == old(cur).depth + 1
                &&& !(answers@[old(cur).pos as int] is Skip)
                &&& at_rest(*final(cur), answers@)
            },
            Some(o) => {
                &&& frame_ok(answers@, *old(cur), *final(cur), o)
                &&& (o is Committed ==> element_ok(defs@, path@, schema.array->Some_0, o->Committed_0, index as int))
                &&& (o is Committed && index >= min ==> final(cur).pos > old(cur).pos)
                &&& (structural(o) ==> !kind_ok(defs@, path@, *schema, InstanceType::Array))
            },
        },
    decreases answers@.len() - old(cur).pos, ref_measure(defs@.len() as int, path@), *schema, 0int,
{
    let info = match &schema.array {
        Some(a) => a,
        None => {
            return Some(Outcome::Failed(SchemaError::MissingValidation));
        },
    };
    if index >= min {
        let prompt = confirm_prompt("Add element?", help.clone());
        match ask(answers, cur, prompt) {
            Ok(i) => match &answers[i] {
                Answer::Confirm(yes) => {
                    if !*yes {
                        return None;
                    }
                },
                _ => {
                    return Some(Outcome::Failed(SchemaError::AnswerMismatch));
                },
            },
            Err(o) => {
                return Some(o);
            },
        }
    }
    match &info.items {
        Some(ArrayItems::Uniform(item)) => match &**item {
            Schema::Bool(_) => Some(Outcome::Failed(SchemaError::SchemaIsBool)),
            Schema::Object(o) => {
                let element_name = get_element_name(name, index, false);
                Some(parse_schema(defs, answers, cur, path, title, &element_name, o))
            },
        },
        Some(ArrayItems::Positional(items)) => match &items[index] {
            Schema::Bool(_) => Some(Outcome::Failed(SchemaError::SchemaIsBool)),
            Schema::Object(o) => {
                let element_name = get_element_name(name, index, true);
                Some(parse_schema(defs, answers, cur, path, title, &element_name, o))
            },
        },
        None => Some(Outcome::Failed(SchemaError::MissingValidation)),
    }
}

/// Builds an array: elements up to `min_items` unconditionally, then one
/// more for each confirmation, never more than `max_items` or than there are
/// positional element schemas. Each element is an undo frame of its own.
pub(crate) fn get_array(
    defs: &Vec<(String, Schema)>,
    answers: &Vec<Answer>,
    cur: &mut Cursor,
    path: &Vec<usize>,
    schema: &SchemaObject,
    title: &Option<String>,
    name: &String,
    description: &String,
) -> (r: Outcome)
    requires
        at_rest(*old(cur), answers@),
        path_ok(path@, defs@.len() as int),
        description@ == description_text(*schema),
    ensures
        frame_ok(answers@, *old(cur), *final(cur), r),
        (outcome_model(r), *final(cur)) == m_array(defs@, answers@, path@, *title, name@, *schema, *old(cur)),
        r is Rewind ==> r->Rewind_0 <= old(cur).depth,
        r is Committed ==> fits_kind(defs@, path@, r->Committed_0, *schema, InstanceType::Array),
        structural(r) ==> !kind_ok(defs@, path@, *schema, InstanceType::Array),
    decreases answers@.len() - old(cur).pos, ref_measure(defs@.len() as int, path@), *schema, 1int,
{
    let info = match &schema.array {
        Some(a) => a,
        None => {
            return Outcome::Failed(SchemaError::MissingValidation);
        },
    };
    let by_items: Option<usize> = match &info.items {
        Some(ArrayItems::Positional(items)) => Some(items.len()),
        Some(ArrayItems::Uniform(_)) => None,
        None => {
            return Outcome::Failed(SchemaError::MissingValidation);
        },
    };
    let limit: Option<usize> = match (info.max_items, by_items) {
        (Some(m), Some(k)) => Some(if (m as usize) < k { m as usize } else { k }),
        (Some(m), None) => Some(m as usize),
        (None, Some(k)) => Some(k),
        (None, None) => None,
    };
    let min: usize = match info.min_items {
        Some(m) => m as usize,
        None => 0,
    };
    let title_str = get_title_str(title);
    let help = concat(concat(title_str.as_str(), name.as_str()).as_str(), description.as_str());
    let ghost a = *info;
    let mut acc: Vec<Value> = Vec::new();
    let mut checkpoints: Vec<usize> = Vec::new();
    proof {
        assert(models(acc@) =~= Seq::<crate::model::ValueModel>::empty());
        assert(checkpoints@ =~= Seq::<usize>::empty());
    }
    loop
        invariant
            schema.array == Some(a),
            a.items is Some,
            limit == (match max_len(a) { Some(h) => Some(h as usize), None => None::<usize> }),
            max_len(a) matches Some(h) ==> h <= usize::MAX,
            min as int == (match a.min_items { Some(m) => m as int, None => 0int }),
            at_rest(*cur, answers@),
            path_ok(path@, defs@.len() as int),
            acc@.len() == checkpoints@.len(),
            old(cur).pos <= cur.pos,
            old(cur).depth <= cur.depth,
            acc@.len() == 0 ==> cur.depth == old(cur).depth,
            acc@.len() > 0 ==> checkpoints@[0] == old(cur).depth,
            forall|m: int| 0 <= m < checkpoints@.len() ==> checkpoints@[m] <= cur.depth,
            forall|m1: int, m2: int|
                0 <= m1 <= m2 < checkpoints@.len() ==> checkpoints@[m1] <= checkpoints@[m2],
            limit matches Some(h) ==> acc@.len() <= h,
            forall|m: int| 0 <= m < acc@.len() ==> element_ok(defs@, path@, a, #[trigger] acc@[m], m),
            no_skip(answers@, old(cur).pos as int, cur.pos as int) ==> cur.depth == old(cur).depth + (
            cur.pos - old(cur).pos),
            help@ == array_help(*title, name@, *schema),
            m_array_loop(defs@, answers@, path@, *title, name@, *schema, models(acc@), checkpoints@, *cur)
                == m_array(defs@, answers@, path@, *title, name@, *schema, *old(cur)),
        decreases answers@.len() - cur.pos, if acc@.len() <= min { min - acc@.len() } else { 0 },
    {
        let i = acc.len();
        proof {
            lemma_array_model(acc);
        }
        match limit {
            Some(h) => {
                if i == h {
                    proof {
                        lemma_array_fits(defs@, path@, *schema, a, acc);
                    }
                    return Outcome::Committed(Value::Array(acc));
                }
            },
            None => {},
        }
        let checkpoint = cur.depth;
        let ghost start = *cur;
        match array_element(defs, answers, cur, path, schema, i, min, title, name, &help) {
            None => {
                proof {
                    lemma_array_fits(defs@, path@, *schema, a, acc);
                }
                return Outcome::Committed(Value::Array(acc));
            },
            Some(Outcome::Committed(v)) => {
                let ghost prev = acc@;
                acc.push(v);
                checkpoints.push(checkpoint);
                proof {
                    assert(models(acc@) =~= models(prev).push(crate::model::value_model(acc@[prev.len() as int])));
                }
                proof {
                }
            },
            Some(Outcome::Rewind(d)) => {
                if checkpoint < d {
                    rewind_to(answers, cur, checkpoint, d);
                } else {
                    match latest_below(&checkpoints, d) {
                        Some(j) => {
                            let cp = checkpoints[j];
                            rewind_to(answers, cur, cp, d);
                            let ghost prev = acc@;
                            let ghost prev_cps = checkpoints@;
                            acc.truncate(j);
                            checkpoints.truncate(j);
                            proof {
                                assert(models(acc@) =~= models(prev).subrange(0, j as int));
                                assert(checkpoints@ =~= prev_cps.subrange(0, j as int));
                            }
                            proof {
                                assert forall|m: int| 0 <= m < acc@.len() implies element_ok(
                                    defs@,
                                    path@,
                                    a,
                                    #[trigger] acc@[m],
                                    m,
                                ) by {
                                    assert(acc@[m] == prev[m]);
                                }
                            }
                        },
                        None => {
                            return Outcome::Rewind(d);
                        },
                    }
                }
            },
            Some(other) => {
                return other;
            },
        }
    }
}

/// Builds an object: one value per declared property, in declaration order.
/// Each property is an undo frame of its own.
pub(crate) fn get_object(
    defs: &Vec<(String, Schema)>,
    answers: &Vec<Answer>,
    cur: &mut Cursor,
    path: &Vec<usize>,
    schema: &SchemaObject,
    title: &Option<String>,
) -> (r: Outcome)
    requires
        at_rest(*old(cur), answers@),
        path_ok(path@, defs@.len() as int),
    ensures
        frame_ok(answers@, *old(cur), *final(cur), r),
        r is Rewind ==> r->Rewind_0 <= old(cur).depth,
        r is Committed ==> fits_kind(defs@, path@, r->Committed_0, *schema, InstanceType::Object),
        (outcome_model(r), *final(cur)) == m_object(defs@, answers@, path@, *title, *schema, *old(cur)),
        structural(r) ==> !kind_ok(defs@, path@, *schema, InstanceType::Object),
    decreases answers@.len() - old(cur).pos, ref_measure(defs@.len() as int, path@), *schema, 1int,
{
    let props = match &schema.object {
        Some(p) => p,
        None => {
            return Outcome::Failed(SchemaError::MissingValidation);
        },
    };
    let mut fields: Vec<(String, Value)> = Vec::new();
    let mut checkpoints: Vec<usize> = Vec::new();
    proof {
        assert(field_models(fields@) =~= Seq::<(Seq<char>, crate::model::ValueModel)>::empty());
        assert(checkpoints@ =~= Seq::<usize>::empty());
    }
    loop
        invariant
            schema.object == Some(*props),
            at_rest(*cur, answers@),
            path_ok(path@, defs@.len() as int),
            fields@.len() == checkpoints@.len(),
            fields@.len() <= props@.len(),
            old(cur).pos <= cur.pos,
            old(cur).depth <= cur.depth,
            fields@.len() == 0 ==> cur.depth == old(cur).depth,
            fields@.len() > 0 ==> checkpoints@[0] == old(cur).depth,
            forall|m: int| 0 <= m < checkpoints@.len() ==> checkpoints@[m] <= cur.depth,
            forall|m1: int, m2: int|
                0 <= m1 <= m2 < checkpoints@.len() ==> checkpoints@[m1] <= checkpoints@[m2],
            forall|m: int| 0 <= m < fields@.len() ==> (#[trigger] fields@[m]).0@ == props@[m].0@ && fits_schema(defs@, path@, fields@[m].1, props@[m].1),
            no_skip(answers@, old(cur).pos as int, cur.pos as int) ==> cur.depth == old(cur).depth + (
            cur.pos - old(cur).pos),
            m_object_loop(defs@, answers@, path@, *title, *schema, field_models(fields@), checkpoints@, *cur)
                == m_object(defs@, answers@, path@, *title, *schema, *old(cur)),
        decreases answers@.len() - cur.pos, props@.len() - fields@.len(),
    {
        let k = fields.len();
        proof {
            lemma_object_model(fields);
        }
        if k == props.len() {
            proof {
                assert(schema.object->Some_0@ == props@);
                lemma_object_fits(defs@, path@, *schema, fields);
            }
            let v = Value::Object(fields);
            return Outcome::Committed(v);
        }
        let checkpoint = cur.depth;
        let r = match &props[k].1 {
            Schema::Bool(_) => {
                proof {
                    assert(schema.object->Some_0@ == props@);
                    assert(!node_ok(defs@, path@, schema.object->Some_0@[k as int].1));
                }
                return Outcome::Failed(SchemaError::SchemaIsBool);
            },
            Schema::Object(o) => {
                proof {
                    assert(decreases_to!(*schema => schema.object));
                    assert(decreases_to!(schema.object => schema.object->Some_0));
                    assert(decreases_to!(*props => props@));
                    assert(decreases_to!(props@ => props@[k as int]));
                    assert(decreases_to!(props@[k as int] => props@[k as int].1));
                    assert(decreases_to!(props@[k as int].1 => *o));
                }
                parse_schema(defs, answers, cur, path, title, &props[k].0, o)
            },
        };
        match r {
            Outcome::Committed(v) => {
                let ghost prev = fields@;
                fields.push((props[k].0.clone(), v));
                checkpoints.push(checkpoint);
                proof {
                    assert(field_models(fields@) =~= field_models(prev).push(
                        (props@[k as int].0@, crate::model::value_model(fields@[k as int].1)),
                    ));
                    assert forall|m: int| 0 <= m < fields@.len() implies (#[trigger] fields@[m]).0@ == props@[m].0@ && fits_schema(defs@, path@, fields@[m].1, props@[m].1) by {
                        if m < k {
                            assert(fields@[m] == prev[m]);
                        }
                    }
                }
            },
            Outcome::Rewind(d) => {
                match latest_below(&checkpoints, d) {
                    Some(j) => {
                        let cp = checkpoints[j];
                        rewind_to(answers, cur, cp, d);
                        let ghost prev = fields@;
                        let ghost prev_cps = checkpoints@;
                        fields.truncate(j);
                        checkpoints.truncate(j);
                        proof {
                            assert(field_models(fields@) =~= field_models(prev).subrange(0, j as int));
                            assert(checkpoints@ =~= prev_cps.subrange(0, j as int));
                            assert forall|m: int| 0 <= m < fields@.len() implies (#[trigger] fields@[m]).0@ == props@[m].0@ && fits_schema(defs@, path@, fields@[m].1, props@[m].1) by {
                                assert(fields@[m] == prev[m]);
                            }
                        }
                    },
                    None => {
                        return Outcome::Rewind(d);
                    },
                }
            },
            other => {
                return other;
            },
        }
    }
}

} // verus!
