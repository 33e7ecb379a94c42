//! The build replayed as mathematics: one spec function per build step,
//! from a schema node, the answer log and a cursor to the step's result and
//! the cursor after it. Every executable build step is proved equal to its
//! counterpart here, so the value built, the next prompt, the lines erased
//! and every failure are functions of the schema and the log.
use vstd::prelude::*;

use crate::builder::{Cursor, Outcome};
use crate::error::SchemaError;
use crate::prompt::{Answer, Prompt, PromptKind};
use crate::schema::{ArrayItems, InstanceType, SchemaObject, Schema, TypeSpec};
use crate::shape::{is_def_index, is_null_typed, label_of, max_len, ref_measure, ref_name};
use crate::text::{description_text, element_name, opt_view, title_prefix};
use crate::value::Value;

verus! {

broadcast use vstd::std_specs::vec::axiom_vec_index_decreases, vstd::std_specs::vec::axiom_vec_decreases_to_view;

/// A value as a mathematical object.
pub enum ValueModel {
    Null,
    Bool(bool),
    Integer(i64),
    Number(Seq<char>),
    String(Seq<char>),
    Array(Seq<ValueModel>),
    Object(Seq<(Seq<char>, ValueModel)>),
}

/// The mathematical form of a value.
pub open spec fn value_model(v: Value) -> ValueModel
    decreases v,
{
    match v {
        Value::Null => ValueModel::Null,
        Value::Bool(b) => ValueModel::Bool(b),
        Value::Integer(n) => ValueModel::Integer(n),
        Value::Number(t) => ValueModel::Number(t@),
        Value::String(t) => ValueModel::String(t@),
        Value::Array(vs) => ValueModel::Array(
            Seq::new(vs@.len(), |i: int| if 0 <= i < vs@.len() { value_model(vs@[i]) } else { ValueModel::Null }),
        ),
        Value::Object(fs) => ValueModel::Object(
            Seq::new(
                fs@.len(),
                |i: int|
                    if 0 <= i < fs@.len() {
                        (fs@[i].0@, value_model(fs@[i].1))
                    } else {
                        (Seq::empty(), ValueModel::Null)
                    },
            ),
        ),
    }
}

/// What a prompt asks for, as a mathematical object.
pub enum KindModel {
    Confirm,
    Text,
    Integer,
    Number,
    Bool,
    Select(Seq<Seq<char>>),
}

/// A prompt as a mathematical object.
pub struct PromptModel {
    pub kind: KindModel,
    pub message: Seq<char>,
    pub help: Seq<char>,
}

/// The result of building a node, as a mathematical object.
pub enum ResultModel {
    Committed(ValueModel),
    Rewind(usize),
    Pending(PromptModel),
    Failed(SchemaError),
}

pub open spec fn prompt_model(p: Prompt) -> PromptModel {
    PromptModel {
        kind: match p.kind {
            PromptKind::Confirm => KindModel::Confirm,
            PromptKind::Text => KindModel::Text,
            PromptKind::Integer => KindModel::Integer,
            PromptKind::Number => KindModel::Number,
            PromptKind::Bool => KindModel::Bool,
            PromptKind::Select(opts) => KindModel::Select(opts@.map_values(|o: String| o@)),
        },
        message: p.message@,
        help: p.help@,
    }
}

pub open spec fn outcome_model(o: Outcome) -> ResultModel {
    match o {
        Outcome::Committed(v) => ResultModel::Committed(value_model(v)),
        Outcome::Rewind(d) => ResultModel::Rewind(d),
        Outcome::Pending(p) => ResultModel::Pending(prompt_model(p)),
        Outcome::Failed(e) => ResultModel::Failed(e),
    }
}

/// How many answers of the log are still unread.
pub open spec fn remaining(answers: Seq<Answer>, c: Cursor) -> nat {
    if c.pos <= answers.len() {
        (answers.len() - c.pos) as nat
    } else {
        0
    }
}

/// The cursor after the answer at its position was read.
pub open spec fn read(c: Cursor) -> Cursor {
    Cursor { pos: (c.pos + 1) as usize, depth: c.depth, lines: (c.lines + 1) as usize, erased: 0 }
}

/// The cursor after a prompt was committed.
pub open spec fn commit(c: Cursor) -> Cursor {
    Cursor { depth: (c.depth + 1) as usize, ..c }
}

/// The cursor after a cancellation at depth `d` was absorbed by a frame
/// entered at depth `checkpoint`: the lines since then are erased.
pub open spec fn rewound(c: Cursor, checkpoint: usize, d: usize) -> Cursor {
    Cursor {
        pos: c.pos,
        depth: checkpoint,
        lines: (c.lines - (d - checkpoint + 1)) as usize,
        erased: (d - checkpoint + 1) as usize,
    }
}

/// Whether a frame entered at `c` may retry from `c1` after a cancellation
/// at depth `d` (always so for the cursors a build produces).
pub open spec fn can_retry(answers: Seq<Answer>, c: Cursor, c1: Cursor, checkpoint: usize, d: usize) -> bool {
    &&& c.pos < c1.pos <= answers.len()
    &&& checkpoint < d
    &&& c1.lines >= d - checkpoint + 1
}

/// A prompt put at `c`, answered by the log: the prompt itself when the log
/// is used up, a rewind when it is cancelled, else `yes` applied to the
/// committed cursor and the answer.
pub open spec fn asked(answers: Seq<Answer>, c: Cursor, p: PromptModel) -> Option<(ResultModel, Cursor)> {
    if c.pos >= answers.len() || c.pos == usize::MAX {
        Some((ResultModel::Pending(p), c))
    } else if answers[c.pos as int] is Skip {
        Some((ResultModel::Rewind(c.depth), read(c)))
    } else {
        None
    }
}

pub open spec fn confirm_model(message: Seq<char>, help: Seq<char>) -> PromptModel {
    PromptModel { kind: KindModel::Confirm, message, help }
}

pub open spec fn opt_title_model(title: Option<String>, s: SchemaObject) -> Option<String> {
    match s.metadata {
        Some(m) => if m.title is Some {
            m.title
        } else {
            title
        },
        None => title,
    }
}

/// A scalar prompt of the given kind, answered by the log.
pub open spec fn m_scalar(answers: Seq<Answer>, c: Cursor, kind: KindModel, name: Seq<char>, help: Seq<char>) -> (
    ResultModel,
    Cursor,
) {
    let p = PromptModel { kind, message: name, help };
    match asked(answers, c, p) {
        Some(out) => out,
        None => {
            let c2 = commit(read(c));
            let r = match (kind, answers[c.pos as int]) {
                (KindModel::Integer, Answer::Integer(n)) => ResultModel::Committed(ValueModel::Integer(n)),
                (KindModel::Text, Answer::Text(t)) => ResultModel::Committed(ValueModel::String(t@)),
                (KindModel::Number, Answer::Number(t)) => ResultModel::Committed(ValueModel::Number(t@)),
                (KindModel::Bool, Answer::Bool(b)) => ResultModel::Committed(ValueModel::Bool(b)),
                _ => ResultModel::Failed(SchemaError::AnswerMismatch),
            };
            (r, c2)
        },
    }
}

/// The first index from `j` on whose kind is not `Null`.
pub open spec fn first_kind_from(ts: Seq<InstanceType>, j: int) -> Option<int>
    decreases ts.len() - j,
{
    if j >= ts.len() || j < 0 {
        None
    } else if ts[j] != InstanceType::Null {
        Some(j)
    } else {
        first_kind_from(ts, j + 1)
    }
}

/// The first variant from `j` on that is not of kind `Null`; a boolean
/// schema met first is an error.
pub open spec fn first_variant_from(vs: Seq<Schema>, j: int) -> Result<int, SchemaError>
    decreases vs.len() - j,
{
    if j >= vs.len() || j < 0 {
        Err(SchemaError::MalformedComposition)
    } else {
        match vs[j] {
            Schema::Bool(_) => Err(SchemaError::SchemaIsBool),
            Schema::Object(o) => if is_null_typed(o) {
                first_variant_from(vs, j + 1)
            } else {
                Ok(j)
            },
        }
    }
}

/// The labels of the variants from `j` on, appended to `acc`; the first
/// variant without a label is an error.
pub open spec fn labels_from(vs: Seq<Schema>, j: int, acc: Seq<Seq<char>>) -> Result<Seq<Seq<char>>, SchemaError>
    decreases vs.len() - j,
{
    if j >= vs.len() || j < 0 {
        Ok(acc)
    } else {
        match label_of(vs[j]) {
            Some(l) => labels_from(vs, j + 1, acc.push(l)),
            None => Err(if vs[j] is Bool {
                SchemaError::SchemaIsBool
            } else {
                SchemaError::MalformedComposition
            }),
        }
    }
}

/// The latest index below `j` whose checkpoint lies below `d`.
pub open spec fn latest_below_from(cps: Seq<usize>, d: usize, j: int) -> Option<int>
    decreases j,
{
    if j <= 0 || j > cps.len() {
        None
    } else if cps[j - 1] < d {
        Some(j - 1)
    } else {
        latest_below_from(cps, d, j - 1)
    }
}

pub open spec fn first_def(defs: Seq<(String, Schema)>, name: Seq<char>) -> int {
    choose|i: int| is_def_index(defs, name, i)
}

/// One undo frame: the node is attempted; a cancellation deeper than
/// `checkpoint` is absorbed and the node attempted again.
pub open spec fn m_frame(
    defs: Seq<(String, Schema)>,
    answers: Seq<Answer>,
    path: Seq<usize>,
    title: Option<String>,
    name: Seq<char>,
    s: SchemaObject,
    c: Cursor,
    checkpoint: usize,
) -> (ResultModel, Cursor)
    decreases remaining(answers, c), ref_measure(defs.len() as int, path), s, 6int, 0int,
{
    let (r, c1) = m_inner(defs, answers, path, title, name, s, c);
    match r {
        ResultModel::Rewind(d) => if d > checkpoint && can_retry(answers, c, c1, checkpoint, d) {
            m_frame(defs, answers, path, title, name, s, rewound(c1, checkpoint, d), checkpoint)
        } else {
            (r, c1)
        },
        _ => (r, c1),
    }
}

/// A node built by its kind.
pub open spec fn m_inner(
    defs: Seq<(String, Schema)>,
    answers: Seq<Answer>,
    path: Seq<usize>,
    title: Option<String>,
    name: Seq<char>,
    s: SchemaObject,
    c: Cursor,
) -> (ResultModel, Cursor)
    decreases remaining(answers, c), ref_measure(defs.len() as int, path), s, 5int, 0int,
{
    match s.instance_type {
        Some(TypeSpec::Single(t)) => m_single(defs, answers, path, title, name, s, t, c),
        Some(TypeSpec::Union(ts)) => match first_kind_from(ts@, 0) {
            None => (ResultModel::Failed(SchemaError::Unimplemented), c),
            Some(k) => {
                let p = confirm_model("Add optional value?"@, title_prefix(opt_view(title)) + name);
                match asked(answers, c, p) {
                    Some(out) => out,
                    None => {
                        let c2 = commit(read(c));
                        match answers[c.pos as int] {
                            Answer::Confirm(yes) => if yes {
                                m_single(defs, answers, path, title, name, s, ts@[k], c2)
                            } else {
                                (ResultModel::Committed(ValueModel::Null), c2)
                            },
                            _ => (ResultModel::Failed(SchemaError::AnswerMismatch), c2),
                        }
                    },
                }
            },
        },
        None => match s.reference {
            Some(r) => match ref_name(r@) {
                Some(n) => if exists|i: int| is_def_index(defs, n, i) {
                    let idx = first_def(defs, n);
                    if path.contains(idx as usize) {
                        (ResultModel::Failed(SchemaError::ReferenceCycle(defs[idx].0)), c)
                    } else {
                        match defs[idx].1 {
                            Schema::Bool(_) => (ResultModel::Failed(SchemaError::SchemaIsBool), c),
                            Schema::Object(target) => if path.len() < defs.len() {
                                m_frame(
                                    defs,
                                    answers,
                                    path.push(idx as usize),
                                    opt_title_model(title, target),
                                    name,
                                    target,
                                    c,
                                    c.depth,
                                )
                            } else {
                                (ResultModel::Failed(SchemaError::ReferenceCycle(defs[idx].0)), c)
                            },
                        }
                    }
                } else {
                    (ResultModel::Failed(SchemaError::UnresolvedReference(r)), c)
                },
                None => (ResultModel::Failed(SchemaError::UnresolvedReference(r)), c),
            },
            None => m_subschema(defs, answers, path, title, name, s, c),
        },
    }
}

/// A node built as being of kind `t`.
pub open spec fn m_single(
    defs: Seq<(String, Schema)>,
    answers: Seq<Answer>,
    path: Seq<usize>,
    title: Option<String>,
    name: Seq<char>,
    s: SchemaObject,
    t: InstanceType,
    c: Cursor,
) -> (ResultModel, Cursor)
    decreases remaining(answers, c), ref_measure(defs.len() as int, path), s, 4int, 0int,
{
    let desc = description_text(s);
    match t {
        InstanceType::String => m_scalar(answers, c, KindModel::Text, name, "string"@ + desc),
        InstanceType::Number => m_scalar(answers, c, KindModel::Number, name, "num"@ + desc),
        InstanceType::Integer => m_scalar(answers, c, KindModel::Integer, name, "int"@ + desc),
        InstanceType::Boolean => m_scalar(answers, c, KindModel::Bool, name, "bool"@ + desc),
        InstanceType::Array => m_array(defs, answers, path, title, name, s, c),
        InstanceType::Object => m_object(defs, answers, path, title, s, c),
        InstanceType::Null => m_subschema(defs, answers, path, title, name, s, c),
    }
}

/// A composition built: a `oneOf` choice, the `allOf` parts, or the optional
/// `anyOf` variant.
pub open spec fn m_subschema(
    defs: Seq<(String, Schema)>,
    answers: Seq<Answer>,
    path: Seq<usize>,
    title: Option<String>,
    name: Seq<char>,
    s: SchemaObject,
    c: Cursor,
) -> (ResultModel, Cursor)
    decreases remaining(answers, c), ref_measure(defs.len() as int, path), s, 3int, 0int,
{
    match s.subschemas {
        None => (ResultModel::Failed(SchemaError::MalformedComposition), c),
        Some(sub) => match sub.one_of {
            Some(vs) => match labels_from(vs@, 0, Seq::empty()) {
                Err(e) => (ResultModel::Failed(e), c),
                Ok(options) => {
                    let p = PromptModel {
                        kind: KindModel::Select(options),
                        message: "Select one:"@,
                        help: title_prefix(opt_view(title)) + name + description_text(s),
                    };
                    match asked(answers, c, p) {
                        Some(out) => out,
                        None => {
                            let c2 = commit(read(c));
                            match answers[c.pos as int] {
                                Answer::Choice(k) => if k >= options.len() {
                                    (ResultModel::Failed(SchemaError::AnswerMismatch), c2)
                                } else {
                                    match vs@[k as int] {
                                        Schema::Bool(_) => (ResultModel::Failed(SchemaError::SchemaIsBool), c2),
                                        Schema::Object(o) => if o.object is Some {
                                            m_frame(defs, answers, path, opt_title_model(title, o), name, o, c2, c2.depth)
                                        } else {
                                            match o.enum_values {
                                                Some(ev) => if ev@.len() > 0 {
                                                    (ResultModel::Committed(value_model(ev@[0])), c2)
                                                } else {
                                                    (ResultModel::Failed(SchemaError::MalformedComposition), c2)
                                                },
                                                None => (ResultModel::Failed(SchemaError::MalformedComposition), c2),
                                            }
                                        },
                                    }
                                },
                                _ => (ResultModel::Failed(SchemaError::AnswerMismatch), c2),
                            }
                        },
                    }
                },
            },
            None => match sub.all_of {
                Some(vs) => m_all_of(defs, answers, path, title, name, s, 0, Seq::empty(), c),
                None => match sub.any_of {
                    Some(vs) => match first_variant_from(vs@, 0) {
                        Err(e) => (ResultModel::Failed(e), c),
                        Ok(j) => match vs@[j] {
                            Schema::Bool(_) => (ResultModel::Failed(SchemaError::SchemaIsBool), c),
                            Schema::Object(o) => {
                                let t2 = opt_title_model(title, o);
                                let p = confirm_model("Add optional value?"@, title_prefix(opt_view(t2)) + name);
                                match asked(answers, c, p) {
                                    Some(out) => out,
                                    None => {
                                        let c2 = commit(read(c));
                                        match answers[c.pos as int] {
                                            Answer::Confirm(yes) => if yes {
                                                m_frame(defs, answers, path, t2, name, o, c2, c2.depth)
                                            } else {
                                                (ResultModel::Committed(ValueModel::Null), c2)
                                            },
                                            _ => (ResultModel::Failed(SchemaError::AnswerMismatch), c2),
                                        }
                                    },
                                }
                            },
                        },
                    },
                    None => (ResultModel::Failed(SchemaError::MalformedComposition), c),
                },
            },
        },
    }
}

/// The `allOf` parts from `j` on, after the values `vals` of the earlier ones.
pub open spec fn m_all_of(
    defs: Seq<(String, Schema)>,
    answers: Seq<Answer>,
    path: Seq<usize>,
    title: Option<String>,
    name: Seq<char>,
    s: SchemaObject,
    j: int,
    vals: Seq<ValueModel>,
    c: Cursor,
) -> (ResultModel, Cursor)
    decreases remaining(answers, c), ref_measure(defs.len() as int, path), s, 2int, if j >= 0 { s.subschemas->Some_0.all_of->Some_0@.len() - j } else { 0 },
{
    match s.subschemas {
        Some(sub) => match sub.all_of {
            Some(vs) => if j >= vs@.len() || j < 0 {
                if vals.len() == 1 {
                    (ResultModel::Committed(vals[0]), c)
                } else {
                    (ResultModel::Committed(ValueModel::Array(vals)), c)
                }
            } else {
                match vs@[j] {
                    Schema::Bool(_) => (ResultModel::Failed(SchemaError::SchemaIsBool), c),
                    Schema::Object(o) => {
                        let (r, c1) = m_frame(defs, answers, path, opt_title_model(title, o), name, o, c, c.depth);
                        match r {
                            ResultModel::Committed(v) => if c.pos <= c1.pos <= answers.len() {
                                m_all_of(defs, answers, path, title, name, s, j + 1, vals.push(v), c1)
                            } else {
                                (r, c1)
                            },
                            _ => (r, c1),
                        }
                    },
                }
            },
            None => (ResultModel::Failed(SchemaError::MalformedComposition), c),
        },
        None => (ResultModel::Failed(SchemaError::MalformedComposition), c),
    }
}

pub open spec fn min_items_of(s: SchemaObject) -> int {
    match s.array {
        Some(a) => match a.min_items {
            Some(m) => m as int,
            None => 0,
        },
        None => 0,
    }
}

pub open spec fn array_help(title: Option<String>, name: Seq<char>, s: SchemaObject) -> Seq<char> {
    title_prefix(opt_view(title)) + name + description_text(s)
}

/// An array built.
pub open spec fn m_array(
    defs: Seq<(String, Schema)>,
    answers: Seq<Answer>,
    path: Seq<usize>,
    title: Option<String>,
    name: Seq<char>,
    s: SchemaObject,
    c: Cursor,
) -> (ResultModel, Cursor)
    decreases remaining(answers, c), ref_measure(defs.len() as int, path), s, 3int, 0int,
{
    match s.array {
        None => (ResultModel::Failed(SchemaError::MissingValidation), c),
        Some(a) => match a.items {
            None => (ResultModel::Failed(SchemaError::MissingValidation), c),
            Some(_) => m_array_loop(defs, answers, path, title, name, s, Seq::empty(), Seq::empty(), c),
        },
    }
}

/// The elements of an array from index `acc.len()` on, after the elements
/// `acc` whose frames were entered at the depths `cps`.
pub open spec fn m_array_loop(
    defs: Seq<(String, Schema)>,
    answers: Seq<Answer>,
    path: Seq<usize>,
    title: Option<String>,
    name: Seq<char>,
    s: SchemaObject,
    acc: Seq<ValueModel>,
    cps: Seq<usize>,
    c: Cursor,
) -> (ResultModel, Cursor)
    decreases remaining(answers, c), ref_measure(defs.len() as int, path), s, 2int, if acc.len() <= min_items_of(s) { min_items_of(s) - acc.len() } else { 0 },
{
    let i = acc.len();
    let min = min_items_of(s);
    if s.array is Some && max_len(s.array->Some_0) is Some && i == max_len(s.array->Some_0)->Some_0 {
        (ResultModel::Committed(ValueModel::Array(acc)), c)
    } else {
        let checkpoint = c.depth;
        let (e, c1) = m_element(defs, answers, path, title, name, s, i as int, c);
        match e {
            None => (ResultModel::Committed(ValueModel::Array(acc)), c1),
            Some(ResultModel::Committed(v)) => if c.pos <= c1.pos <= answers.len() && (c.pos < c1.pos || i < min) {
                m_array_loop(defs, answers, path, title, name, s, acc.push(v), cps.push(checkpoint), c1)
            } else {
                (ResultModel::Committed(v), c1)
            },
            Some(ResultModel::Rewind(d)) => if checkpoint < d {
                if can_retry(answers, c, c1, checkpoint, d) {
                    m_array_loop(defs, answers, path, title, name, s, acc, cps, rewound(c1, checkpoint, d))
                } else {
                    (ResultModel::Rewind(d), c1)
                }
            } else {
                match latest_below_from(cps, d, cps.len() as int) {
                    Some(j) => if can_retry(answers, c, c1, cps[j], d) && j <= acc.len() {
                        m_array_loop(
                            defs,
                            answers,
                            path,
                            title,
                            name,
                            s,
                            acc.subrange(0, j),
                            cps.subrange(0, j),
                            rewound(c1, cps[j], d),
                        )
                    } else {
                        (ResultModel::Rewind(d), c1)
                    },
                    None => (ResultModel::Rewind(d), c1),
                }
            },
            Some(other) => (other, c1),
        }
    }
}

/// One element of an array: from index `min_items` on, first the question
/// whether to add it; `None` when declined.
pub open spec fn m_element(
    defs: Seq<(String, Schema)>,
    answers: Seq<Answer>,
    path: Seq<usize>,
    title: Option<String>,
    name: Seq<char>,
    s: SchemaObject,
    index: int,
    c: Cursor,
) -> (Option<ResultModel>, Cursor)
    decreases remaining(answers, c), ref_measure(defs.len() as int, path), s, 1int, 0int,
{
    if index >= min_items_of(s) {
        let p = confirm_model("Add element?"@, array_help(title, name, s));
        match asked(answers, c, p) {
            Some((r, c1)) => (Some(r), c1),
            None => {
                let c2 = commit(read(c));
                match answers[c.pos as int] {
                    Answer::Confirm(yes) => if yes {
                        let (r, c3) = m_element_value(defs, answers, path, title, name, s, index, c2);
                        (Some(r), c3)
                    } else {
                        (None, c2)
                    },
                    _ => (Some(ResultModel::Failed(SchemaError::AnswerMismatch)), c2),
                }
            },
        }
    } else {
        let (r, c3) = m_element_value(defs, answers, path, title, name, s, index, c);
        (Some(r), c3)
    }
}

/// The value of one array element.
pub open spec fn m_element_value(
    defs: Seq<(String, Schema)>,
    answers: Seq<Answer>,
    path: Seq<usize>,
    title: Option<String>,
    name: Seq<char>,
    s: SchemaObject,
    index: int,
    c: Cursor,
) -> (ResultModel, Cursor)
    decreases remaining(answers, c), ref_measure(defs.len() as int, path), s, 0int, 0int,
{
    match s.array {
        Some(a) => match a.items {
            Some(ArrayItems::Uniform(item)) => match *item {
                Schema::Bool(_) => (ResultModel::Failed(SchemaError::SchemaIsBool), c),
                Schema::Object(o) => m_frame(defs, answers, path, title, element_name(name, index as nat, false), o, c, c.depth),
            },
            Some(ArrayItems::Positional(items)) => if 0 <= index < items@.len() {
                match items@[index] {
                    Schema::Bool(_) => (ResultModel::Failed(SchemaError::SchemaIsBool), c),
                    Schema::Object(o) => m_frame(defs, answers, path, title, element_name(name, index as nat, true), o, c, c.depth),
                }
            } else {
                (ResultModel::Failed(SchemaError::MissingValidation), c)
            },
            None => (ResultModel::Failed(SchemaError::MissingValidation), c),
        },
        None => (ResultModel::Failed(SchemaError::MissingValidation), c),
    }
}

/// An object built.
pub open spec fn m_object(
    defs: Seq<(String, Schema)>,
    answers: Seq<Answer>,
    path: Seq<usize>,
    title: Option<String>,
    s: SchemaObject,
    c: Cursor,
) -> (ResultModel, Cursor)
    decreases remaining(answers, c), ref_measure(defs.len() as int, path), s, 3int, 0int,
{
    match s.object {
        None => (ResultModel::Failed(SchemaError::MissingValidation), c),
        Some(_) => m_object_loop(defs, answers, path, title, s, Seq::empty(), Seq::empty(), c),
    }
}

/// The properties of an object from index `fields.len()` on.
pub open spec fn m_object_loop(
    defs: Seq<(String, Schema)>,
    answers: Seq<Answer>,
    path: Seq<usize>,
    title: Option<String>,
    s: SchemaObject,
    fields: Seq<(Seq<char>, ValueModel)>,
    cps: Seq<usize>,
    c: Cursor,
) -> (ResultModel, Cursor)
    decreases remaining(answers, c), ref_measure(defs.len() as int, path), s, 2int, if fields.len() <= s.object->Some_0@.len() { s.object->Some_0@.len() - fields.len() } else { 0 },
{
    match s.object {
        None => (ResultModel::Failed(SchemaError::MissingValidation), c),
        Some(props) => {
            let k = fields.len() as int;
            if k >= props@.len() {
                (ResultModel::Committed(ValueModel::Object(fields)), c)
            } else {
                match props@[k].1 {
                    Schema::Bool(_) => (ResultModel::Failed(SchemaError::SchemaIsBool), c),
                    Schema::Object(o) => {
                        let (r, c1) = m_frame(defs, answers, path, title, props@[k].0@, o, c, c.depth);
                        match r {
                            ResultModel::Committed(v) => if c.pos <= c1.pos <= answers.len() {
                                m_object_loop(defs, answers, path, title, s, fields.push((props@[k].0@, v)), cps.push(c.depth), c1)
                            } else {
                                (r, c1)
                            },
                            ResultModel::Rewind(d) => match latest_below_from(cps, d, cps.len() as int) {
                                Some(j) => if can_retry(answers, c, c1, cps[j], d) && j <= fields.len() {
                                    m_object_loop(
                                        defs,
                                        answers,
                                        path,
                                        title,
                                        s,
                                        fields.subrange(0, j),
                                        cps.subrange(0, j),
                                        rewound(c1, cps[j], d),
                                    )
                                } else {
                                    (r, c1)
                                },
                                None => (r, c1),
                            },
                            _ => (r, c1),
                        }
                    },
                }
            }
        },
    }
}

/// The models of a sequence of values.
pub open spec fn models(vs: Seq<Value>) -> Seq<ValueModel> {
    vs.map_values(|x: Value| value_model(x))
}

/// The models of a sequence of named values.
pub open spec fn field_models(fs: Seq<(String, Value)>) -> Seq<(Seq<char>, ValueModel)> {
    fs.map_values(|f: (String, Value)| (f.0@, value_model(f.1)))
}

pub proof fn lemma_array_model(v: Vec<Value>)
    ensures
        value_model(Value::Array(v)) == ValueModel::Array(models(v@)),
{
    assert(value_model(Value::Array(v))->Array_0 =~= models(v@));
}

pub proof fn lemma_object_model(fs: Vec<(String, Value)>)
    ensures
        value_model(Value::Object(fs)) == ValueModel::Object(field_models(fs@)),
{
    assert(value_model(Value::Object(fs))->Object_0 =~= field_models(fs@));
}

} // verus!
