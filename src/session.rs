use vstd::prelude::*;

use crate::builder::{no_skip, parse_schema, Cursor, Outcome};
use crate::compose::chosen_variant_fits;
use crate::error::SchemaError;
use crate::model::{m_frame, prompt_model, value_model, ResultModel};
use crate::prompt::{Answer, Prompt};
use crate::schema::RootSchema;
use crate::shape::{distinct_names, fits, schema_ok};
use crate::value::Value;

verus! {

/// What the user interface does next.
#[derive(Debug, PartialEq)]
pub enum Step {
    /// Erase `erase` lines, then show `prompt`; `depth` committed prompts are
    /// in force and on screen.
    Ask { prompt: Prompt, erase: usize, depth: usize },
    /// Every prompt is answered: the built value.
    Done(Value),
    /// The build ended without a value.
    Failed(SchemaError),
}

/// What `run` promises for the given schema and answer log:
/// - a finished value has the shape of the root schema, every scalar in it
///   was and for a root `oneOf` it is the chosen variant's;
/// - before each prompt the screen shows one line per committed prompt; a
///   log without cancellations commits one prompt per answer; after a
///   cancellation at least two lines are erased (the cancelled prompt and
///   the committed one it undoes), and only then;
/// - a build of a well-formed schema fails only when the first prompt is
///   cancelled or an answer does not fit its prompt.
pub open spec fn step_ok(root: RootSchema, answers: Seq<Answer>, r: Step) -> bool {
    match r {
        Step::Done(v) => {
            &&& fits(root.definitions@, Seq::empty(), v, root.schema)
            &&& (root.schema.instance_type is None && root.schema.reference is None ==> exists|p: int|
                0 <= p && chosen_variant_fits(root.definitions@, Seq::empty(), answers, p, v, root.schema))
        },
        Step::Ask { prompt, erase, depth } => {
            &&& depth <= answers.len()
            &&& erase != 1
            &&& (erase >= 2 <==> (answers.len() > 0 && answers.last() is Skip))
            &&& (no_skip(answers, 0, answers.len() as int) ==> depth == answers.len())
        },
        Step::Failed(e) => match e {
            SchemaError::Aborted => exists|i: int| 0 <= i < answers.len() && answers[i] is Skip,
            SchemaError::AnswerMismatch => exists|i: int| 0 <= i < answers.len() && !(answers[i] is Skip),
            _ => !well_formed(root),
        },
    }
}

/// The title of the root node, if it declares one.
pub open spec fn root_title(root: RootSchema) -> Option<String> {
    match root.schema.metadata {
        Some(m) => m.title,
        None => None,
    }
}

/// The build of the root node replayed against the answer log, from an
/// empty screen: its result and the final cursor.
pub open spec fn replay(root: RootSchema, answers: Seq<Answer>) -> (ResultModel, Cursor) {
    m_frame(
        root.definitions@,
        answers,
        Seq::empty(),
        root_title(root),
        Seq::empty(),
        root.schema,
        Cursor { pos: 0, depth: 0, lines: 0, erased: 0 },
        0,
    )
}

/// Whether a step is what the replayed build gives: its value, its next
/// prompt with the cursor's erase count and depth, or its failure; a rewind
/// that leaves the root frame is an abort.
pub open spec fn step_of(r: Step, m: (ResultModel, Cursor)) -> bool {
    match r {
        Step::Done(v) => m.0 == ResultModel::Committed(value_model(v)),
        Step::Ask { prompt, erase, depth } => m.0 == ResultModel::Pending(prompt_model(prompt)) && erase
            == m.1.erased && depth == m.1.depth,
        Step::Failed(SchemaError::Aborted) => m.0 is Rewind,
        Step::Failed(e) => m.0 == ResultModel::Failed(e),
    }
}

/// Whether every part of the schema that a build may visit can be built,
/// and definition and property names are unique: then a build fails only by
/// a cancelled first prompt or a mismatched answer.
pub open spec fn well_formed(root: RootSchema) -> bool {
    &&& distinct_names(root.definitions@)
    &&& schema_ok(root.definitions@, Seq::empty(), root.schema)
}

/// Replays the answer log against the schema and decides what comes next:
/// the next prompt (after erasing the lines of an undone attempt), the
/// finished value, or the reason the build ended.
///
/// Cancelling a prompt returns to the innermost node, or array or object
/// element, that was entered before the last committed prompt, and attempts
/// it again from scratch; cancelling when nothing is committed yet aborts
/// the build.
pub fn run(root: &RootSchema, answers: &Vec<Answer>) -> (r: Step)
    ensures
        step_ok(*root, answers@, r),
        step_of(r, replay(*root, answers@)),
{
    let mut cur = Cursor { pos: 0, depth: 0, lines: 0, erased: 0 };
    let path: Vec<usize> = Vec::new();
    let title: Option<String> = match &root.schema.metadata {
        Some(m) => match &m.title {
            Some(t) => Some(t.clone()),
            None => None,
        },
        None => None,
    };
    let name = String::new();
    proof {
        assert(path@ =~= Seq::<usize>::empty());
    }
    match parse_schema(&root.definitions, answers, &mut cur, &path, &title, &name, &root.schema) {
        Outcome::Committed(v) => Step::Done(v),
        Outcome::Pending(prompt) => {
            proof {
                if answers@.len() > 0 {
                    assert(answers@.last() == answers@[cur.pos - 1]);
                }
            }
            Step::Ask { prompt, erase: cur.erased, depth: cur.depth }
        },
        Outcome::Rewind(_) => {
            proof {
                assert(answers@[cur.pos - 1] is Skip);
            }
            Step::Failed(SchemaError::Aborted)
        },
        Outcome::Failed(e) => Step::Failed(e),
    }
}

/// The state of an interactive build: every answer given so far, undone
/// ones included.
pub struct Session {
    pub answers: Vec<Answer>,
}

impl Session {
    /// A session in which nothing has been answered.
    pub fn new() -> (s: Session)
        ensures
            s.answers@ == Seq::<Answer>::empty(),
    {
        Session { answers: Vec::new() }
    }

    /// What comes next in this session.
    pub fn current(&self, root: &RootSchema) -> (r: Step)
        ensures
            step_ok(*root, self.answers@, r),
            step_of(r, replay(*root, self.answers@)),
    {
        run(root, &self.answers)
    }

    /// Records the answer to the current prompt and decides what comes next.
    pub fn respond(&mut self, root: &RootSchema, answer: Answer) -> (r: Step)
        ensures
            final(self).answers@ == old(self).answers@.push(answer),
            step_ok(*root, final(self).answers@, r),
            step_of(r, replay(*root, final(self).answers@)),
    {
        self.answers.push(answer);
        run(root, &self.answers)
    }
}

} // verus!
