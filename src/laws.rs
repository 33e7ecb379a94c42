use vstd::prelude::*;

use crate::schema::{InstanceType, Schema, SchemaObject, TypeSpec};
use crate::shape::{fits, fits_composition, fits_kind, fits_variant, is_def_index, lemma_def_index_unique, max_len, min_len, ref_name};
use crate::builder::Cursor;
use crate::model::{
    can_retry, commit, m_array_loop, m_element, m_element_value, m_frame, m_inner, min_items_of, read,
    rewound, ResultModel, ValueModel,
};
use crate::prompt::Answer;
use crate::value::Value;

verus! {

/// The names of a list of declared properties, in declaration order.
pub open spec fn property_names(props: Seq<(String, Schema)>) -> Seq<Seq<char>> {
    props.map_values(|p: (String, Schema)| p.0@)
}

/// The names of the fields of an object value, in order.
pub open spec fn field_names(fields: Seq<(String, Value)>) -> Seq<Seq<char>> {
    fields.map_values(|f: (String, Value)| f.0@)
}

/// A value that has the shape of an object node is an object whose field
/// names are the node's property names, in declaration order.
pub proof fn lemma_object_shape(defs: Seq<(String, Schema)>, path: Seq<usize>, v: Value, s: SchemaObject)
    requires
        s.instance_type == Some(TypeSpec::Single(InstanceType::Object)),
        fits(defs, path, v, s),
    ensures
        v is Object,
        s.object is Some,
        field_names(v->Object_0@) == property_names(s.object->Some_0@),
{
    assert(fits_kind(defs, path, v, s, InstanceType::Object));
    let fields = v->Object_0@;
    let props = s.object->Some_0@;
    assert forall|i: int| 0 <= i < fields.len() implies field_names(fields)[i] == property_names(props)[i] by {
        assert(fields[i].0@ == props[i].0@);
    }
    assert(field_names(fields) =~= property_names(props));
}

/// A value that has the shape of an array node has at least `min_items`
/// elements (when that does not exceed the upper bound) and at most
/// `max_items`, and no more than there are positional element schemas.
pub proof fn lemma_array_length(defs: Seq<(String, Schema)>, path: Seq<usize>, v: Value, s: SchemaObject)
    requires
        s.instance_type == Some(TypeSpec::Single(InstanceType::Array)),
        fits(defs, path, v, s),
    ensures
        v is Array,
        s.array is Some,
        min_len(s.array->Some_0) <= v->Array_0@.len(),
        max_len(s.array->Some_0) matches Some(h) ==> v->Array_0@.len() <= h,
        s.array->Some_0.max_items matches Some(m) ==> v->Array_0@.len() <= m,
        s.array->Some_0.min_items is Some && (max_len(s.array->Some_0) matches Some(h) ==> s.array->Some_0.min_items->Some_0
            <= h) ==> s.array->Some_0.min_items->Some_0 <= v->Array_0@.len(),
{
    assert(fits_kind(defs, path, v, s, InstanceType::Array));
}

/// Two variants of a `oneOf` that are object nodes with different property
/// names never both describe one value: a value built for a chosen variant
/// has that variant's shape and not another's.
pub proof fn lemma_one_of_exclusive(
    defs: Seq<(String, Schema)>,
    path: Seq<usize>,
    v: Value,
    a: Schema,
    b: Schema,
)
    requires
        a is Object,
        b is Object,
        a->Object_0.instance_type == Some(TypeSpec::Single(InstanceType::Object)),
        b->Object_0.instance_type == Some(TypeSpec::Single(InstanceType::Object)),
        a->Object_0.object is Some,
        b->Object_0.object is Some,
        property_names(a->Object_0.object->Some_0@) != property_names(b->Object_0.object->Some_0@),
        fits_variant(defs, path, v, a),
    ensures
        !fits_variant(defs, path, v, b),
{
    lemma_object_shape(defs, path, v, a->Object_0);
    if fits_variant(defs, path, v, b) {
        lemma_object_shape(defs, path, v, b->Object_0);
    }
}

/// Whether a node is a plain scalar of kind `t`.
pub open spec fn is_scalar_node(s: Schema, t: InstanceType) -> bool {
    &&& s is Object
    &&& s->Object_0.instance_type == Some(TypeSpec::Single(t))
    &&& (t is String || t is Number || t is Integer || t is Boolean)
}

/// Whether a value is of the scalar kind `t`.
pub open spec fn has_kind(v: Value, t: InstanceType) -> bool {
    match t {
        InstanceType::String => v is String,
        InstanceType::Number => v is Number,
        InstanceType::Integer => v is Integer,
        InstanceType::Boolean => v is Bool,
        _ => false,
    }
}

/// An `allOf` of two scalar parts gives the sequence of the two parts'
/// values, in order, each of its part's kind.
pub proof fn lemma_all_of_pair(
    defs: Seq<(String, Schema)>,
    path: Seq<usize>,
    v: Value,
    s: SchemaObject,
    t0: InstanceType,
    t1: InstanceType,
)
    requires
        s.subschemas is Some,
        s.subschemas->Some_0.one_of is None,
        s.subschemas->Some_0.all_of is Some,
        s.subschemas->Some_0.all_of->Some_0@.len() == 2,
        is_scalar_node(s.subschemas->Some_0.all_of->Some_0@[0], t0),
        is_scalar_node(s.subschemas->Some_0.all_of->Some_0@[1], t1),
        fits_composition(defs, path, v, s),
    ensures
        v is Array,
        v->Array_0@.len() == 2,
        has_kind(v->Array_0@[0], t0),
        has_kind(v->Array_0@[1], t1),
{
    let vs = s.subschemas->Some_0.all_of->Some_0@;
    assert(crate::shape::fits_schema(defs, path, v->Array_0@[0], vs[0]));
    assert(crate::shape::fits_schema(defs, path, v->Array_0@[1], vs[1]));
}

/// Whether node `s` is nothing but a reference to the definition at `idx`.
pub open spec fn refers_to(defs: Seq<(String, Schema)>, s: SchemaObject, idx: int) -> bool {
    &&& s.instance_type is None
    &&& s.reference is Some
    &&& ref_name(s.reference->Some_0@) matches Some(n) && is_def_index(defs, n, idx)
}

/// A cycle of references `A -> B -> A` describes no value: entering it is
/// rejected rather than followed without end.
pub proof fn lemma_reference_cycle(defs: Seq<(String, Schema)>, v: Value, s: SchemaObject, a: int, b: int)
    requires
        refers_to(defs, s, a),
        defs[a].1 is Object,
        refers_to(defs, defs[a].1->Object_0, b),
        defs[b].1 is Object,
        refers_to(defs, defs[b].1->Object_0, a),
    ensures
        !fits(defs, Seq::empty(), v, s),
{
    if fits(defs, Seq::empty(), v, s) {
        let na = ref_name(s.reference->Some_0@)->Some_0;
        let i = choose|i: int|
            #![trigger is_def_index(defs, na, i)]
            is_def_index(defs, na, i) && !Seq::<usize>::empty().contains(i as usize) && Seq::<usize>::empty().len()
                < defs.len() && defs[i].1 is Object && fits(
                defs,
                Seq::<usize>::empty().push(i as usize),
                v,
                defs[i].1->Object_0,
            );
        lemma_def_index_unique(defs, na, i, a);
        let path_a = Seq::<usize>::empty().push(a as usize);
        let oa = defs[a].1->Object_0;
        let nb = ref_name(oa.reference->Some_0@)->Some_0;
        let j = choose|j: int|
            #![trigger is_def_index(defs, nb, j)]
            is_def_index(defs, nb, j) && !path_a.contains(j as usize) && path_a.len() < defs.len() && defs[j].1 is Object
                && fits(defs, path_a.push(j as usize), v, defs[j].1->Object_0);
        lemma_def_index_unique(defs, nb, j, b);
        let path_ab = path_a.push(b as usize);
        let ob = defs[b].1->Object_0;
        let nc = ref_name(ob.reference->Some_0@)->Some_0;
        let k = choose|k: int|
            #![trigger is_def_index(defs, nc, k)]
            is_def_index(defs, nc, k) && !path_ab.contains(k as usize) && path_ab.len() < defs.len() && defs[k].1 is Object
                && fits(defs, path_ab.push(k as usize), v, defs[k].1->Object_0);
        lemma_def_index_unique(defs, nc, k, a);
        assert(path_ab[0] == a as usize);
        assert(path_ab.contains(a as usize));
    }
}

/// Below `min_items`, an array element is built without asking whether to
/// add it.
pub proof fn lemma_element_below_min(
    defs: Seq<(String, Schema)>,
    answers: Seq<Answer>,
    path: Seq<usize>,
    title: Option<String>,
    name: Seq<char>,
    s: SchemaObject,
    index: int,
    c: Cursor,
)
    requires
        index < min_items_of(s),
    ensures
        m_element(defs, answers, path, title, name, s, index, c) == (
            Some(m_element_value(defs, answers, path, title, name, s, index, c).0),
            m_element_value(defs, answers, path, title, name, s, index, c).1,
        ),
{
}

/// From `min_items` on, answering "no" to "Add element?" ends the array:
/// no element is built and the answer is one committed prompt.
pub proof fn lemma_element_declined(
    defs: Seq<(String, Schema)>,
    answers: Seq<Answer>,
    path: Seq<usize>,
    title: Option<String>,
    name: Seq<char>,
    s: SchemaObject,
    index: int,
    c: Cursor,
)
    requires
        index >= min_items_of(s),
        c.pos < answers.len(),
        c.pos < usize::MAX,
        answers[c.pos as int] == Answer::Confirm(false),
    ensures
        m_element(defs, answers, path, title, name, s, index, c) == (None::<ResultModel>, commit(read(c))),
{
}

/// Once an array holds as many elements as its bound allows, it is complete
/// and nothing more is asked.
pub proof fn lemma_array_stops_at_bound(
    defs: Seq<(String, Schema)>,
    answers: Seq<Answer>,
    path: Seq<usize>,
    title: Option<String>,
    name: Seq<char>,
    s: SchemaObject,
    acc: Seq<ValueModel>,
    cps: Seq<usize>,
    c: Cursor,
)
    requires
        s.array is Some,
        max_len(s.array->Some_0) == Some(acc.len() as int),
    ensures
        m_array_loop(defs, answers, path, title, name, s, acc, cps, c) == (ResultModel::Committed(ValueModel::Array(acc)), c),
{
}

/// A frame absorbs a cancellation deeper than its checkpoint: the depth goes
/// back to the checkpoint, strictly below the cancelled depth, the lines
/// since then (at least two) are erased, and the same node is attempted
/// again.
pub proof fn lemma_frame_absorbs_rewind(
    defs: Seq<(String, Schema)>,
    answers: Seq<Answer>,
    path: Seq<usize>,
    title: Option<String>,
    name: Seq<char>,
    s: SchemaObject,
    c: Cursor,
    checkpoint: usize,
    d: usize,
    c1: Cursor,
)
    requires
        m_inner(defs, answers, path, title, name, s, c) == (ResultModel::Rewind(d), c1),
        d > checkpoint,
        can_retry(answers, c, c1, checkpoint, d),
    ensures
        m_frame(defs, answers, path, title, name, s, c, checkpoint) == m_frame(
            defs,
            answers,
            path,
            title,
            name,
            s,
            rewound(c1, checkpoint, d),
            checkpoint,
        ),
        rewound(c1, checkpoint, d).depth == checkpoint,
        rewound(c1, checkpoint, d).depth < d,
        rewound(c1, checkpoint, d).erased == d - checkpoint + 1,
        rewound(c1, checkpoint, d).erased >= 2,
{
}

/// A frame passes on unchanged a cancellation at or above its checkpoint,
/// and every failure.
pub proof fn lemma_frame_passes_on(
    defs: Seq<(String, Schema)>,
    answers: Seq<Answer>,
    path: Seq<usize>,
    title: Option<String>,
    name: Seq<char>,
    s: SchemaObject,
    c: Cursor,
    checkpoint: usize,
)
    requires
        m_inner(defs, answers, path, title, name, s, c).0 matches ResultModel::Rewind(d) ==> d <= checkpoint,
    ensures
        m_frame(defs, answers, path, title, name, s, c, checkpoint) == m_inner(defs, answers, path, title, name, s, c),
{
}

} // verus!
