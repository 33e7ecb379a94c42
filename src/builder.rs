use vstd::prelude::*;
use vstd::string::StringExecFns;

use crate::collections::{get_array, get_object};
use crate::compose::{chosen_variant_fits, get_subschema};
use crate::error::SchemaError;
use crate::model::{
    commit, first_def, first_kind_from, m_frame, m_inner, m_scalar, m_single, outcome_model, read, rewound,
    KindModel,
};
use crate::path::{lemma_path_bound, path_contains, path_ok, path_push};
use crate::prompt::{Answer, Prompt, PromptKind};
use crate::resolve::resolve_reference;
use crate::schema::{InstanceType, Schema, SchemaObject, TypeSpec};
use crate::shape::{
    fits, fits_kind, is_def_index, is_first_non_null_kind, kind_ok, lemma_def_index_unique, ref_measure, ref_name,
    schema_ok,
};
use crate::text::{concat, description_text, get_description, get_title_str};
use crate::value::Value;

verus! {

broadcast use vstd::std_specs::vec::axiom_vec_index_decreases, vstd::std_specs::vec::axiom_vec_decreases_to_view;

/// Where a build stands in the answer log, and what the terminal shows.
///
/// `depth` counts the committed prompts that are in force; `lines` counts the
/// lines on screen, one per prompt that was answered or cancelled and not yet
/// erased; `erased` is the number of lines that were erased since the last
/// answer was read.
#[derive(Clone, Copy)]
pub struct Cursor {
    pub pos: usize,
    pub depth: usize,
    pub lines: usize,
    pub erased: usize,
}

/// The result of one attempt at building a node.
pub enum Outcome {
    /// The node's value.
    Committed(Value),
    /// A prompt was cancelled at the given depth and no frame has absorbed it yet.
    Rewind(usize),
    /// The log has no answer for this prompt yet.
    Pending(Prompt),
    /// The build cannot go on.
    Failed(SchemaError),
}

/// A settled cursor: the screen shows one line per committed prompt, and
/// lines were erased exactly when the last answer was a cancellation.
pub open spec fn at_rest(c: Cursor, answers: Seq<Answer>) -> bool {
    &&& c.depth <= c.pos <= answers.len()
    &&& c.lines == c.depth
    &&& c.erased != 1
    &&& (c.erased >= 2 <==> (c.pos > 0 && answers[c.pos - 1] is Skip))
}

/// A cursor right after the prompt at depth `d` was cancelled: its line is
/// still on screen.
pub open spec fn rewinding(c: Cursor, answers: Seq<Answer>, d: usize) -> bool {
    &&& c.depth == d
    &&& c.lines == d + 1
    &&& d < c.pos <= answers.len()
    &&& answers[c.pos - 1] is Skip
}

/// No answer in `answers[from..to]` is a cancellation.
pub open spec fn no_skip(answers: Seq<Answer>, from: int, to: int) -> bool {
    forall|i: int| from <= i < to ==> !(#[trigger] answers[i] is Skip)
}

/// What every step of a build guarantees about the cursor.
pub open spec fn frame_ok(answers: Seq<Answer>, before: Cursor, after: Cursor, r: Outcome) -> bool {
    &&& before.pos <= after.pos <= answers.len()
    &&& match r {
        Outcome::Committed(_) => {
            &&& at_rest(after, answers)
            &&& before.depth <= after.depth
            &&& no_skip(answers, before.pos as int, after.pos as int) ==> after.depth == before.depth
                + (after.pos - before.pos)
        },
        Outcome::Rewind(d) => rewinding(after, answers, d) && before.pos < after.pos,
        Outcome::Pending(_) => {
            &&& at_rest(after, answers)
            &&& after.pos == answers.len()
            &&& no_skip(answers, before.pos as int, after.pos as int) ==> after.depth == before.depth
                + (after.pos - before.pos)
        },
        Outcome::Failed(e) => {
            &&& !(e is Aborted)
            &&& (e is AnswerMismatch ==> exists|i: int| before.pos <= i < after.pos && !(#[trigger] answers[i] is Skip))
        },
    }
}

/// A failure that is not a mismatched answer.
pub open spec fn structural(r: Outcome) -> bool {
    r is Failed && !(r->Failed_0 is AnswerMismatch)
}

/// Reads the answer to `prompt`: `Ok` with its index when it is an answer,
/// `Rewind` when it cancels the prompt, `Pending` when the log has run out.
pub(crate) fn ask(answers: &Vec<Answer>, cur: &mut Cursor, prompt: Prompt) -> (r: Result<usize, Outcome>)
    requires
        at_rest(*old(cur), answers@),
    ensures
        match r {
            Ok(i) => {
                &&& i == old(cur).pos
                &&& *final(cur) == commit(read(*old(cur)))
                &&& final(cur).pos == i + 1
                &&& !(answers@[i as int] is Skip)
                &&& final(cur).depth == old(cur).depth + 1
                &&& at_rest(*final(cur), answers@)
            },
            Err(Outcome::Rewind(d)) => {
                &&& *final(cur) == read(*old(cur))
                &&& final(cur).pos == old(cur).pos + 1
                &&& d == old(cur).depth
                &&& rewinding(*final(cur), answers@, d)
            },
            Err(Outcome::Pending(p)) => *final(cur) == *old(cur) && old(cur).pos == answers@.len()
                && p == prompt,
            _ => false,
        },
{
    if cur.pos >= answers.len() {
        return Err(Outcome::Pending(prompt));
    }
    let i = cur.pos;
    cur.pos = i + 1;
    cur.lines = cur.lines + 1;
    cur.erased = 0;
    match &answers[i] {
        Answer::Skip => Err(Outcome::Rewind(cur.depth)),
        _ => {
            cur.depth = cur.depth + 1;
            Ok(i)
        },
    }
}

/// Returns the cursor to `checkpoint` after a cancellation at depth `d`,
/// erasing the lines shown since then.
pub(crate) fn rewind_to(answers: &Vec<Answer>, cur: &mut Cursor, checkpoint: usize, d: usize)
    requires
        rewinding(*old(cur), answers@, d),
        checkpoint < d,
    ensures
        at_rest(*final(cur), answers@),
        final(cur).pos == old(cur).pos,
        final(cur).depth == checkpoint,
        final(cur).depth < old(cur).depth,
        final(cur).erased == d - checkpoint + 1,
        final(cur).erased >= 2,
        *final(cur) == rewound(*old(cur), checkpoint, d),
{
    let n = d - checkpoint + 1;
    cur.depth = checkpoint;
    cur.lines = cur.lines - n;
    cur.erased = n;
}

pub(crate) fn confirm_prompt(message: &str, help: String) -> (r: Prompt)
    ensures
        r.kind is Confirm,
        r.message@ == message@,
        r.help == help,
{
    Prompt { kind: PromptKind::Confirm, message: String::from_str(message), help }
}

fn clone_title(title: &Option<String>) -> (r: Option<String>)
    ensures
        r == *title,
{
    match title {
        Some(t) => Some(t.clone()),
        None => None,
    }
}

/// The title in force below `schema`: its own when it declares one, else the
/// inherited one.
pub fn update_title(title: &Option<String>, schema: &SchemaObject) -> (r: Option<String>)
    ensures
        r == match schema.metadata {
            Some(m) => if m.title is Some {
                m.title
            } else {
                *title
            },
            None => *title,
        },
{
    match &schema.metadata {
        Some(metadata) => match &metadata.title {
            Some(_) => clone_title(&metadata.title),
            None => clone_title(title),
        },
        None => clone_title(title),
    }
}

/// Prompts for an integer.
fn get_int(answers: &Vec<Answer>, cur: &mut Cursor, name: &String, description: &String) -> (r: Outcome)
    requires
        at_rest(*old(cur), answers@),
    ensures
        frame_ok(answers@, *old(cur), *final(cur), r),
        r is Committed ==> r->Committed_0 is Integer,
        !structural(r),
        (outcome_model(r), *final(cur)) == m_scalar(answers@, *old(cur), KindModel::Integer, name@, "int"@ + description@),
{
    let prompt = Prompt {
        kind: PromptKind::Integer,
        message: name.clone(),
        help: concat("int", description.as_str()),
    };
    match ask(answers, cur, prompt) {
        Ok(i) => match &answers[i] {
            Answer::Integer(n) => Outcome::Committed(Value::Integer(*n)),
            _ => Outcome::Failed(SchemaError::AnswerMismatch),
        },
        Err(o) => o,
    }
}

/// Prompts for text.
fn get_string(answers: &Vec<Answer>, cur: &mut Cursor, name: &String, description: &String) -> (r: Outcome)
    requires
        at_rest(*old(cur), answers@),
    ensures
        frame_ok(answers@, *old(cur), *final(cur), r),
        r is Committed ==> r->Committed_0 is String,
        !structural(r),
        (outcome_model(r), *final(cur)) == m_scalar(answers@, *old(cur), KindModel::Text, name@, "string"@ + description@),
{
    let prompt = Prompt {
        kind: PromptKind::Text,
        message: name.clone(),
        help: concat("string", description.as_str()),
    };
    match ask(answers, cur, prompt) {
        Ok(i) => match &answers[i] {
            Answer::Text(s) => Outcome::Committed(Value::String(s.clone())),
            _ => Outcome::Failed(SchemaError::AnswerMismatch),
        },
        Err(o) => o,
    }
}

/// Prompts for a decimal number.
fn get_num(answers: &Vec<Answer>, cur: &mut Cursor, name: &String, description: &String) -> (r: Outcome)
    requires
        at_rest(*old(cur), answers@),
    ensures
        frame_ok(answers@, *old(cur), *final(cur), r),
        r is Committed ==> r->Committed_0 is Number,
        !structural(r),
        (outcome_model(r), *final(cur)) == m_scalar(answers@, *old(cur), KindModel::Number, name@, "num"@ + description@),
{
    let prompt = Prompt {
        kind: PromptKind::Number,
        message: name.clone(),
        help: concat("num", description.as_str()),
    };
    match ask(answers, cur, prompt) {
        Ok(i) => match &answers[i] {
            Answer::Number(s) => Outcome::Committed(Value::Number(s.clone())),
            _ => Outcome::Failed(SchemaError::AnswerMismatch),
        },
        Err(o) => o,
    }
}

/// Prompts for a boolean.
fn get_bool(answers: &Vec<Answer>, cur: &mut Cursor, name: &String, description: &String) -> (r: Outcome)
    requires
        at_rest(*old(cur), answers@),
    ensures
        frame_ok(answers@, *old(cur), *final(cur), r),
        r is Committed ==> r->Committed_0 is Bool,
        !structural(r),
        (outcome_model(r), *final(cur)) == m_scalar(answers@, *old(cur), KindModel::Bool, name@, "bool"@ + description@),
{
    let prompt = Prompt {
        kind: PromptKind::Bool,
        message: name.clone(),
        help: concat("bool", description.as_str()),
    };
    match ask(answers, cur, prompt) {
        Ok(i) => match &answers[i] {
            Answer::Bool(b) => Outcome::Committed(Value::Bool(*b)),
            _ => Outcome::Failed(SchemaError::AnswerMismatch),
        },
        Err(o) => o,
    }
}

/// Builds a value for `schema` as one undo frame: a cancellation deeper than
/// the depth at entry is absorbed here, the lines shown since entry are
/// erased, and the node is attempted again from scratch.
pub(crate) fn parse_schema(
    defs: &Vec<(String, Schema)>,
    answers: &Vec<Answer>,
    cur: &mut Cursor,
    path: &Vec<usize>,
    title: &Option<String>,
    name: &String,
    schema: &SchemaObject,
) -> (r: Outcome)
    requires
        at_rest(*old(cur), answers@),
        path_ok(path@, defs@.len() as int),
    ensures
        frame_ok(answers@, *old(cur), *final(cur), r),
        r is Rewind ==> r->Rewind_0 <= old(cur).depth,
        r is Committed ==> fits(defs@, path@, r->Committed_0, *schema),
        structural(r) ==> !schema_ok(defs@, path@, *schema),
        (outcome_model(r), *final(cur)) == m_frame(defs@, answers@, path@, *title, name@, *schema, *old(cur), old(cur).depth),
        r is Committed && schema.instance_type is None && schema.reference is None ==> exists|p: int|
            old(cur).pos <= p && chosen_variant_fits(defs@, path@, answers@, p, r->Committed_0, *schema),
    decreases answers@.len() - old(cur).pos, ref_measure(defs@.len() as int, path@), *schema, 4int,
{
    let checkpoint = cur.depth;
    loop
        invariant
            at_rest(*cur, answers@),
            path_ok(path@, defs@.len() as int),
            cur.depth == checkpoint,
            checkpoint == old(cur).depth,
            old(cur).pos <= cur.pos,
            cur.pos == old(cur).pos || answers@[cur.pos - 1] is Skip,
            m_frame(defs@, answers@, path@, *title, name@, *schema, *cur, checkpoint) == m_frame(
                defs@,
                answers@,
                path@,
                *title,
                name@,
                *schema,
                *old(cur),
                checkpoint,
            ),
        decreases answers@.len() - cur.pos,
    {
        let ghost before = *cur;
        let r = parse_schema_inner(defs, answers, cur, path, title, name, schema);
        proof {
            assert(m_frame(defs@, answers@, path@, *title, name@, *schema, before, checkpoint) == {
                let (r0, c1) = m_inner(defs@, answers@, path@, *title, name@, *schema, before);
                match r0 {
                    crate::model::ResultModel::Rewind(d) => if d > checkpoint && crate::model::can_retry(
                        answers@,
                        before,
                        c1,
                        checkpoint,
                        d,
                    ) {
                        m_frame(defs@, answers@, path@, *title, name@, *schema, rewound(c1, checkpoint, d), checkpoint)
                    } else {
                        (r0, c1)
                    },
                    _ => (r0, c1),
                }
            });
        }
        match r {
            Outcome::Rewind(d) => {
                if d > checkpoint {
                    rewind_to(answers, cur, checkpoint, d);
                } else {
                    return Outcome::Rewind(d);
                }
            },
            other => {
                proof {
                    if before.pos != old(cur).pos {
                        assert(answers@[before.pos - 1] is Skip);
                    }
                    if other is Committed && schema.instance_type is None && schema.reference is None {
                        assert(chosen_variant_fits(defs@, path@, answers@, before.pos as int, other->Committed_0, *schema));
                    }
                }
                return other;
            },
        }
    }
}

/// Builds a value for `schema` by its kind: a scalar, an optional value, a
/// reference or a composition.
fn parse_schema_inner(
    defs: &Vec<(String, Schema)>,
    answers: &Vec<Answer>,
    cur: &mut Cursor,
    path: &Vec<usize>,
    title: &Option<String>,
    name: &String,
    schema: &SchemaObject,
) -> (r: Outcome)
    requires
        at_rest(*old(cur), answers@),
        path_ok(path@, defs@.len() as int),
    ensures
        frame_ok(answers@, *old(cur), *final(cur), r),
        r is Committed ==> fits(defs@, path@, r->Committed_0, *schema),
        structural(r) ==> !schema_ok(defs@, path@, *schema),
        (outcome_model(r), *final(cur)) == m_inner(defs@, answers@, path@, *title, name@, *schema, *old(cur)),
        r is Committed && schema.instance_type is None && schema.reference is None ==> chosen_variant_fits(
            defs@,
            path@,
            answers@,
            old(cur).pos as int,
            r->Committed_0,
            *schema,
        ),
    decreases answers@.len() - old(cur).pos, ref_measure(defs@.len() as int, path@), *schema, 3int,
{
    let description = get_description(schema);
    match &schema.instance_type {
        Some(TypeSpec::Single(t)) => get_single_instance(
            defs,
            answers,
            cur,
            path,
            schema,
            *t,
            title,
            name,
            &description,
        ),
        Some(TypeSpec::Union(ts)) => {
            let mut k: usize = 0;
            while k < ts.len() && ts[k] == InstanceType::Null
                invariant
                    k <= ts@.len(),
                    forall|j: int| 0 <= j < k ==> ts@[j] == InstanceType::Null,
                    first_kind_from(ts@, 0) == first_kind_from(ts@, k as int),
                decreases ts.len() - k,
            {
                k = k + 1;
            }
            if k == ts.len() {
                return Outcome::Failed(SchemaError::Unimplemented);
            }
            let t = ts[k];
            proof {
                assert(is_first_non_null_kind(ts@, k as int));
            }
            let title_str = get_title_str(title);
            let prompt = confirm_prompt("Add optional value?", concat(title_str.as_str(), name.as_str()));
            match ask(answers, cur, prompt) {
                Ok(i) => match &answers[i] {
                    Answer::Confirm(yes) => {
                        if *yes {
                            get_single_instance(defs, answers, cur, path, schema, t, title, name, &description)
                        } else {
                            Outcome::Committed(Value::Null)
                        }
                    },
                    _ => Outcome::Failed(SchemaError::AnswerMismatch),
                },
                Err(o) => o,
            }
        },
        None => match &schema.reference {
            Some(reference) => match resolve_reference(defs, reference) {
                Ok(idx) => {
                    proof {
                        let n = ref_name(reference@)->Some_0;
                        assert(is_def_index(defs@, n, idx as int));
                        assert(exists|i: int| is_def_index(defs@, n, i));
                        lemma_def_index_unique(defs@, n, first_def(defs@, n), idx as int);
                    }
                    if path_contains(path, idx) {
                        return Outcome::Failed(SchemaError::ReferenceCycle(defs[idx].0.clone()));
                    }
                    match &defs[idx].1 {
                        Schema::Bool(_) => Outcome::Failed(SchemaError::SchemaIsBool),
                        Schema::Object(target) => {
                            proof {
                                lemma_path_bound(path@, defs.len(), idx);
                            }
                            let inner_path = path_push(path, idx);
                            let inner_title = update_title(title, target);
                            parse_schema(defs, answers, cur, &inner_path, &inner_title, name, target)
                        },
                    }
                },
                Err(e) => {
                    proof {
                        if ref_name(reference@) is Some {
                            let n = ref_name(reference@)->Some_0;
                            assert forall|i: int| !is_def_index(defs@, n, i) by {
                                if 0 <= i < defs@.len() {
                                    assert(defs@[i].0@ != n);
                                }
                            }
                        }
                    }
                    Outcome::Failed(e)
                },
            },
            None => get_subschema(defs, answers, cur, path, title, name, schema, &description),
        },
    }
}

/// Builds a value for `schema` read as being of kind `instance`.
fn get_single_instance(
    defs: &Vec<(String, Schema)>,
    answers: &Vec<Answer>,
    cur: &mut Cursor,
    path: &Vec<usize>,
    schema: &SchemaObject,
    instance: InstanceType,
    title: &Option<String>,
    name: &String,
    description: &String,
) -> (r: Outcome)
    requires
        at_rest(*old(cur), answers@),
        path_ok(path@, defs@.len() as int),
        description@ == description_text(*schema),
    ensures
        frame_ok(answers@, *old(cur), *final(cur), r),
        r is Committed ==> fits_kind(defs@, path@, r->Committed_0, *schema, instance),
        structural(r) ==> !kind_ok(defs@, path@, *schema, instance),
        (outcome_model(r), *final(cur)) == m_single(defs@, answers@, path@, *title, name@, *schema, instance, *old(cur)),
    decreases answers@.len() - old(cur).pos, ref_measure(defs@.len() as int, path@), *schema, 2int,
{
    match instance {
        InstanceType::String => get_string(answers, cur, name, description),
        InstanceType::Number => get_num(answers, cur, name, description),
        InstanceType::Integer => get_int(answers, cur, name, description),
        InstanceType::Boolean => get_bool(answers, cur, name, description),
        InstanceType::Array => get_array(defs, answers, cur, path, schema, title, name, description),
        InstanceType::Object => get_object(defs, answers, cur, path, schema, title),
        InstanceType::Null => get_subschema(defs, answers, cur, path, title, name, schema, description),
    }
}

} // verus!
