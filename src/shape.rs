use vstd::prelude::*;

use crate::schema::{ArrayItems, InstanceType, Schema, SchemaObject, TypeSpec};
use crate::literal::literal_label;
use crate::model::value_model;
use crate::value::Value;

verus! {

broadcast use vstd::std_specs::vec::axiom_vec_index_decreases, vstd::std_specs::vec::axiom_vec_decreases_to_view;

/// The path prefix of a reference into the definition table.
pub open spec fn definitions_prefix() -> Seq<char> {
    seq!['#', '/', 'd', 'e', 'f', 'i', 'n', 'i', 't', 'i', 'o', 'n', 's', '/']
}

/// The definition name that a reference path names, if it has the prefix.
pub open spec fn ref_name(r: Seq<char>) -> Option<Seq<char>> {
    let p = definitions_prefix();
    if r.len() >= p.len() && r.subrange(0, p.len() as int) == p {
        Some(r.subrange(p.len() as int, r.len() as int))
    } else {
        None
    }
}

/// `idx` is the first entry of the table with the given name.
pub open spec fn is_def_index(defs: Seq<(String, Schema)>, name: Seq<char>, idx: int) -> bool {
    &&& 0 <= idx < defs.len()
    &&& defs[idx].0@ == name
    &&& forall|j: int| 0 <= j < idx ==> defs[j].0@ != name
}

/// Whether a node's kind is exactly `Null`.
pub open spec fn is_null_typed(o: SchemaObject) -> bool {
    o.instance_type == Some(TypeSpec::Single(InstanceType::Null))
}

/// `idx` is the first variant that is not of kind `Null`, every one before it
/// being a node of kind `Null`.
pub open spec fn is_first_non_null(vs: Seq<Schema>, idx: int) -> bool {
    &&& 0 <= idx < vs.len()
    &&& vs[idx] is Object
    &&& !is_null_typed(vs[idx]->Object_0)
    &&& forall|j: int| 0 <= j < idx ==> vs[j] is Object && is_null_typed(#[trigger] vs[j]->Object_0)
}

/// `idx` is the first kind of the list that is not `Null`.
pub open spec fn is_first_non_null_kind(ts: Seq<InstanceType>, idx: int) -> bool {
    &&& 0 <= idx < ts.len()
    &&& ts[idx] != InstanceType::Null
    &&& forall|j: int| 0 <= j < idx ==> ts[j] == InstanceType::Null
}

pub open spec fn ref_measure(n: int, active: Seq<usize>) -> int {
    if active.len() <= n {
        n - active.len()
    } else {
        0
    }
}

/// The number of elements an array built for `a` may hold at most.
pub open spec fn max_len(a: crate::schema::ArrayValidation) -> Option<int> {
    let by_items: Option<int> = match a.items {
        Some(ArrayItems::Positional(v)) => Some(v@.len() as int),
        _ => None,
    };
    match (a.max_items, by_items) {
        (Some(m), Some(k)) => Some(if (m as int) < k { m as int } else { k }),
        (Some(m), None) => Some(m as int),
        (None, Some(k)) => Some(k),
        (None, None) => None,
    }
}

/// The number of elements an array built for `a` holds at least.
pub open spec fn min_len(a: crate::schema::ArrayValidation) -> int {
    let lo: int = match a.min_items {
        Some(m) => m as int,
        None => 0,
    };
    match max_len(a) {
        Some(hi) => if hi < lo { hi } else { lo },
        None => lo,
    }
}

/// Whether `v` has the shape that the node `s` describes, where `active`
/// lists the definitions already entered on the way to `s`.
///
/// A reference into a definition that is already active has no value.
pub open spec fn fits(defs: Seq<(String, Schema)>, active: Seq<usize>, v: Value, s: SchemaObject) -> bool
    decreases v, ref_measure(defs.len() as int, active), s, 2int,
{
    match s.instance_type {
        Some(TypeSpec::Single(t)) => fits_kind(defs, active, v, s, t),
        Some(TypeSpec::Union(ts)) => v is Null || exists|i: int|
            is_first_non_null_kind(ts@, i) && fits_kind(defs, active, v, s, ts@[i]),
        None => match s.reference {
            Some(r) => match ref_name(r@) {
                Some(name) => exists|idx: int|
                    #![trigger is_def_index(defs, name, idx)]
                    is_def_index(defs, name, idx) && !active.contains(idx as usize) && active.len()
                        < defs.len() && defs[idx].1 is Object && fits(
                        defs,
                        active.push(idx as usize),
                        v,
                        defs[idx].1->Object_0,
                    ),
                None => false,
            },
            None => fits_composition(defs, active, v, s),
        },
    }
}

/// Whether `v` has the shape of `s` read as being of kind `t`.
pub open spec fn fits_kind(
    defs: Seq<(String, Schema)>,
    active: Seq<usize>,
    v: Value,
    s: SchemaObject,
    t: InstanceType,
) -> bool
    decreases v, ref_measure(defs.len() as int, active), s, 1int,
{
    match t {
        InstanceType::String => v is String,
        InstanceType::Number => v is Number,
        InstanceType::Integer => v is Integer,
        InstanceType::Boolean => v is Bool,
        InstanceType::Null => fits_composition(defs, active, v, s),
        InstanceType::Array => v is Array && s.array is Some && {
            let elems = v->Array_0@;
            let a = s.array->Some_0;
            &&& min_len(a) <= elems.len()
            &&& (max_len(a) matches Some(hi) ==> elems.len() <= hi)
            &&& match a.items {
                Some(ArrayItems::Uniform(item)) => forall|i: int|
                    0 <= i < elems.len() ==> fits_schema(defs, active, #[trigger] elems[i], *item),
                Some(ArrayItems::Positional(items)) => forall|i: int|
                    0 <= i < elems.len() ==> fits_schema(defs, active, #[trigger] elems[i], items@[i]),
                None => false,
            }
        },
        InstanceType::Object => v is Object && s.object is Some && {
            let fields = v->Object_0@;
            let props = s.object->Some_0@;
            &&& fields.len() == props.len()
            &&& forall|i: int|
                0 <= i < props.len() ==> (#[trigger] fields[i]).0@ == props[i].0@ && fits_schema(
                    defs,
                    active,
                    fields[i].1,
                    props[i].1,
                )
        },
    }
}

/// Whether `v` has the shape of the composition of `s`.
pub open spec fn fits_composition(defs: Seq<(String, Schema)>, active: Seq<usize>, v: Value, s: SchemaObject) -> bool
    decreases v, ref_measure(defs.len() as int, active), s, 0int,
{
    match s.subschemas {
        Some(sub) => match sub.one_of {
            Some(vs) => exists|k: int| 0 <= k < vs@.len() && fits_variant(defs, active, v, #[trigger] vs@[k]),
            None => match sub.all_of {
                Some(vs) => if vs@.len() == 1 {
                    fits_schema(defs, active, v, vs@[0])
                } else {
                    v is Array && v->Array_0@.len() == vs@.len() && forall|i: int|
                        0 <= i < vs@.len() ==> fits_schema(defs, active, #[trigger] v->Array_0@[i], vs@[i])
                },
                None => match sub.any_of {
                    Some(vs) => v is Null || exists|i: int|
                        is_first_non_null(vs@, i) && fits(defs, active, v, vs@[i]->Object_0),
                    None => false,
                },
            },
        },
        None => false,
    }
}

/// Whether `v` has the shape of `sch`; a boolean schema admits no value.
pub open spec fn fits_schema(defs: Seq<(String, Schema)>, active: Seq<usize>, v: Value, sch: Schema) -> bool
    decreases v, ref_measure(defs.len() as int, active), sch, 0int,
{
    match sch {
        Schema::Object(o) => fits(defs, active, v, o),
        Schema::Bool(_) => false,
    }
}

/// Whether `v` is what choosing the variant `var` of a `oneOf` can give: a
/// value of the variant's structure, or the variant's first literal.
pub open spec fn fits_variant(defs: Seq<(String, Schema)>, active: Seq<usize>, v: Value, var: Schema) -> bool
    decreases v, ref_measure(defs.len() as int, active), var, 0int,
{
    match var {
        Schema::Object(o) => if o.object is Some {
            fits(defs, active, v, o)
        } else {
            match o.enum_values {
                Some(ev) => ev@.len() > 0 && value_model(v) == value_model(ev@[0]),
                None => false,
            }
        },
        Schema::Bool(_) => false,
    }
}


/// The label under which a `oneOf` variant is offered: its first property
/// name, or its first literal value when that is a string.
pub open spec fn label_of(var: Schema) -> Option<Seq<char>> {
    match var {
        Schema::Object(o) => match o.object {
            Some(props) => if props@.len() > 0 {
                Some(props@[0].0@)
            } else {
                None
            },
            None => match o.enum_values {
                Some(ev) => if ev@.len() > 0 {
                    Some(literal_label(ev@[0]))
                } else {
                    None
                },
                None => None,
            },
        },
        Schema::Bool(_) => None,
    }
}

/// Whether `sch` is a node that can be built, `active` being the definitions
/// already entered: every part that a build may visit is a node, every
/// reference resolves to a definition off the current path, every
/// composition is usable.
pub open spec fn schema_ok(defs: Seq<(String, Schema)>, active: Seq<usize>, s: SchemaObject) -> bool
    decreases ref_measure(defs.len() as int, active), s, 2int,
{
    match s.instance_type {
        Some(TypeSpec::Single(t)) => kind_ok(defs, active, s, t),
        Some(TypeSpec::Union(ts)) => exists|i: int|
            is_first_non_null_kind(ts@, i) && kind_ok(defs, active, s, ts@[i]),
        None => match s.reference {
            Some(r) => match ref_name(r@) {
                Some(name) => exists|idx: int|
                    #![trigger is_def_index(defs, name, idx)]
                    is_def_index(defs, name, idx) && !active.contains(idx as usize) && active.len()
                        < defs.len() && defs[idx].1 is Object && schema_ok(
                        defs,
                        active.push(idx as usize),
                        defs[idx].1->Object_0,
                    ),
                None => false,
            },
            None => composition_ok(defs, active, s),
        },
    }
}

/// Whether no two entries of a named list share a name.
pub open spec fn distinct_names(entries: Seq<(String, Schema)>) -> bool {
    forall|i: int, j: int|
        0 <= i < j < entries.len() ==> (#[trigger] entries[i]).0@ != (#[trigger] entries[j]).0@
}

/// Whether `sch` is a node that can be built.
pub open spec fn node_ok(defs: Seq<(String, Schema)>, active: Seq<usize>, sch: Schema) -> bool
    decreases ref_measure(defs.len() as int, active), sch, 0int,
{
    match sch {
        Schema::Object(o) => schema_ok(defs, active, o),
        Schema::Bool(_) => false,
    }
}

/// Whether `s`, read as being of kind `t`, can be built.
pub open spec fn kind_ok(defs: Seq<(String, Schema)>, active: Seq<usize>, s: SchemaObject, t: InstanceType) -> bool
    decreases ref_measure(defs.len() as int, active), s, 1int,
{
    match t {
        InstanceType::Null => composition_ok(defs, active, s),
        InstanceType::Array => s.array is Some && match s.array->Some_0.items {
            Some(ArrayItems::Uniform(item)) => node_ok(defs, active, *item),
            Some(ArrayItems::Positional(items)) => forall|i: int|
                0 <= i < items@.len() ==> node_ok(defs, active, #[trigger] items@[i]),
            None => false,
        },
        InstanceType::Object => s.object is Some && (forall|i: int|
            0 <= i < s.object->Some_0@.len() ==> node_ok(defs, active, (#[trigger] s.object->Some_0@[i]).1))
            && distinct_names(s.object->Some_0@),
        _ => true,
    }
}

/// Whether the composition of `s` can be built.
pub open spec fn composition_ok(defs: Seq<(String, Schema)>, active: Seq<usize>, s: SchemaObject) -> bool
    decreases ref_measure(defs.len() as int, active), s, 0int,
{
    match s.subschemas {
        Some(sub) => match sub.one_of {
            Some(vs) => forall|k: int|
                0 <= k < vs@.len() ==> label_of(#[trigger] vs@[k]) is Some && (vs@[k]->Object_0.object is Some
                    ==> node_ok(defs, active, vs@[k])),
            None => match sub.all_of {
                Some(vs) => forall|i: int| 0 <= i < vs@.len() ==> node_ok(defs, active, #[trigger] vs@[i]),
                None => match sub.any_of {
                    Some(vs) => exists|i: int|
                        is_first_non_null(vs@, i) && node_ok(defs, active, vs@[i]),
                    None => false,
                },
            },
        },
        None => false,
    }
}

/// A name has at most one first index in the table.
pub proof fn lemma_def_index_unique(defs: Seq<(String, Schema)>, name: Seq<char>, i: int, j: int)
    requires
        is_def_index(defs, name, i),
        is_def_index(defs, name, j),
    ensures
        i == j,
{
    if i < j {
        assert(defs[i].0@ != name);
    } else if j < i {
        assert(defs[j].0@ != name);
    }
}

} // verus!
