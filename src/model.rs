use vstd::prelude::*;

verus! {

/// Identifier of a stored record (a user, a form, a question or an option).
/// A 12-byte database object id fits in the low 96 bits.
pub type RecordId = u128;

/// A point in time, in milliseconds since the Unix epoch.
pub type Millis = i64;

/// What an operation of the core can fail with.
#[derive(Clone, Copy, Debug, PartialEq, Eq, Structural)]
pub enum CoreError {
    /// The token, form or user does not exist or does not belong to the caller.
    NotFound,
    /// A user tried to become their own caregiver.
    InvalidRelationship,
    /// A submission names a form that the caller does not own.
    BadRequest,
    /// The store refused the write (a uniqueness constraint).
    StorageFailure,
}

/// Summary of a user as shown to others: no credential material.
#[derive(Clone, Debug)]
pub struct UserSummary {
    pub id: RecordId,
    pub first_name: String,
    pub last_name: String,
    pub email_address: String,
}

/// A registered account.
#[derive(Clone, Debug)]
pub struct User {
    pub id: RecordId,
    pub first_name: String,
    pub last_name: String,
    pub email_address: String,
    pub hashed_password: String,
    pub is_patient: bool,
    /// Users this user has approved as caregivers.
    pub caregivers: Vec<RecordId>,
}

impl User {
    /// A freshly registered user, with no caregivers yet.
    pub fn from(
        id: RecordId,
        first_name: String,
        last_name: String,
        email_address: String,
        password: String,
        is_patient: bool,
    ) -> (r: User)
        ensures
            r.id == id,
            r.first_name == first_name,
            r.last_name == last_name,
            r.email_address == email_address,
            r.hashed_password == password,
            r.is_patient == is_patient,
            r.caregivers@ == Seq::<RecordId>::empty(),
    {
        User {
            id,
            first_name,
            last_name,
            email_address,
            hashed_password: password,
            is_patient,
            caregivers: Vec::new(),
        }
    }

    /// The fields of this user that others may see.
    pub fn summary(&self) -> (r: UserSummary)
        ensures
            r.id == self.id,
            r.first_name@ == self.first_name@,
            r.last_name@ == self.last_name@,
            r.email_address@ == self.email_address@,
    {
        UserSummary {
            id: self.id,
            first_name: self.first_name.clone(),
            last_name: self.last_name.clone(),
            email_address: self.email_address.clone(),
        }
    }
}

/// Free-form question with length bounds on the answer.
#[derive(Clone, Debug)]
pub struct FreeFormQuestion {
    pub id: Option<RecordId>,
    pub title: String,
    pub max_length: u64,
    pub min_length: u64,
}

/// Numeric slider. The bounds and the step are IEEE-754 double bit patterns:
/// this library stores them and never computes with them.
#[derive(Clone, Debug)]
pub struct SliderQuestion {
    pub id: Option<RecordId>,
    pub title: String,
    pub units: Option<String>,
    pub low: u64,
    pub high: u64,
    pub step: u64,
    pub highest_message: Option<String>,
    pub middle_message: Option<String>,
    pub lowest_message: Option<String>,
}

/// One option of a multiple-choice question.
#[derive(Clone, Debug)]
pub struct MultichoiceQuestionOption {
    pub name: String,
    pub id: Option<RecordId>,
}

/// Multiple-choice question with bounds on how many options may be picked.
#[derive(Clone, Debug)]
pub struct MultichoiceQuestion {
    pub id: Option<RecordId>,
    pub title: String,
    pub options: Vec<MultichoiceQuestionOption>,
    pub min_selected: u64,
    pub max_selected: u64,
}

/// A question of a form.
#[derive(Clone, Debug)]
pub enum Question {
    Multichoice(MultichoiceQuestion),
    Slider(SliderQuestion),
    FreeForm(FreeFormQuestion),
}

/// A question reference paired with its answer: the chosen option's id, the
/// slider value (as an IEEE-754 double bit pattern), or the typed text.
#[derive(Clone, Debug)]
pub enum QuestionAndAnswer {
    Multichoice(RecordId, RecordId),
    Slider(RecordId, u64),
    FreeForm(RecordId, String),
}

/// A question of a form being replaced by another.
#[derive(Clone, Debug)]
pub struct QuestionEdited {
    pub question_id: RecordId,
    pub former_question: Question,
    pub new_question: Question,
    pub edited_by: RecordId,
    pub edited_at: Millis,
}

/// A form being filled in.
#[derive(Clone, Debug)]
pub struct FormSubmitted {
    pub answers: Vec<QuestionAndAnswer>,
    pub submitted_by: RecordId,
    pub submitted_at: Millis,
}

/// An entry of a form's append-only log.
#[derive(Clone, Debug)]
pub enum Event {
    FormSubmitted(FormSubmitted),
    QuestionEdited(QuestionEdited),
}

/// A questionnaire owned by one user, with its log of events.
#[derive(Clone, Debug)]
pub struct Form {
    pub id: RecordId,
    pub user_id: RecordId,
    pub title: String,
    pub description: Option<String>,
    pub created_by: RecordId,
    pub created_at: Millis,
    pub questions: Vec<Question>,
    pub events: Vec<Event>,
}

/// `q` and its options all carry an id.
pub open spec fn identified(q: Question) -> bool {
    match q {
        Question::Multichoice(m) => m.id is Some && forall|i: int|
            0 <= i < m.options@.len() ==> (#[trigger] m.options@[i]).id is Some,
        Question::Slider(s) => s.id is Some,
        Question::FreeForm(f) => f.id is Some,
    }
}

/// `a` and `b` are the same question but for the ids they carry.
pub open spec fn same_but_ids(a: Question, b: Question) -> bool {
    match (a, b) {
        (Question::Multichoice(x), Question::Multichoice(y)) => {
            &&& x.title == y.title
            &&& x.min_selected == y.min_selected
            &&& x.max_selected == y.max_selected
            &&& x.options@.len() == y.options@.len()
            &&& forall|i: int| 0 <= i < x.options@.len() ==> (#[trigger] x.options@[i]).name == y.options@[i].name
        },
        (Question::Slider(x), Question::Slider(y)) => {
            &&& x.title == y.title
            &&& x.units == y.units
            &&& x.low == y.low
            &&& x.high == y.high
            &&& x.step == y.step
            &&& x.highest_message == y.highest_message
            &&& x.middle_message == y.middle_message
            &&& x.lowest_message == y.lowest_message
        },
        (Question::FreeForm(x), Question::FreeForm(y)) => {
            &&& x.title == y.title
            &&& x.max_length == y.max_length
            &&& x.min_length == y.min_length
        },
        _ => false,
    }
}

/// Relies on bson's `DateTime::now`: the current time in milliseconds.
#[verifier::external_body]
pub(crate) fn now_millis() -> (r: Millis) {
    bson::DateTime::now().timestamp_millis()
}

/// Relies on bson's `ObjectId::new`: a fresh 12-byte object id, read here as
/// a big-endian integer.
#[verifier::external_body]
fn fresh_record_id() -> (r: RecordId)
    ensures
        r < 0x1_0000_0000_0000_0000_0000_0000u128,
{
    let mut wide = [0u8; 16];
    wide[4..].copy_from_slice(&bson::oid::ObjectId::new().bytes());
    u128::from_be_bytes(wide)
}

/// The options, each given a fresh id.
fn identify_options(options: Vec<MultichoiceQuestionOption>) -> (r: Vec<MultichoiceQuestionOption>)
    ensures
        r@.len() == options@.len(),
        forall|i: int| 0 <= i < r@.len() ==> (#[trigger] r@[i]).id is Some && r@[i].name == options@[i].name,
{
    let mut rest = options;
    let mut out: Vec<MultichoiceQuestionOption> = Vec::new();
    while rest.len() > 0
        invariant
            out@.len() + rest@.len() == options@.len(),
            forall|i: int| 0 <= i < out@.len() ==> (#[trigger] out@[i]).id is Some && out@[i].name == options@[i].name,
            forall|i: int| 0 <= i < rest@.len() ==> (#[trigger] rest@[i]).name == options@[out@.len() + i].name,
        decreases rest@.len(),
    {
        let ghost before = rest@;
        let mut o = rest.remove(0);
        assert forall|i: int| 0 <= i < rest@.len() implies (#[trigger] rest@[i]).name == options@[out@.len() + 1 + i].name by {
            assert(rest@[i] == before[i + 1]);
        }
        o.id = Some(fresh_record_id());
        out.push(o);
    }
    out
}

/// The question, with fresh ids for itself and its options.
fn identify(q: Question) -> (r: Question)
    ensures
        identified(r),
        same_but_ids(q, r),
{
    match q {
        Question::Multichoice(m) => {
            let options = identify_options(m.options);
            Question::Multichoice(MultichoiceQuestion {
                id: Some(fresh_record_id()),
                title: m.title,
                options,
                min_selected: m.min_selected,
                max_selected: m.max_selected,
            })
        },
        Question::Slider(s) => {
            let mut s = s;
            s.id = Some(fresh_record_id());
            Question::Slider(s)
        },
        Question::FreeForm(f) => {
            let mut f = f;
            f.id = Some(fresh_record_id());
            Question::FreeForm(f)
        },
    }
}

impl Form {
    /// A new form with no events yet, created at `created_at`.
    pub fn assemble(
        id: RecordId,
        title: String,
        description: Option<String>,
        created_by: RecordId,
        user_id: RecordId,
        created_at: Millis,
        questions: Vec<Question>,
    ) -> (r: Form)
        ensures
            r.id == id,
            r.user_id == user_id,
            r.title == title,
            r.description == description,
            r.created_by == created_by,
            r.created_at == created_at,
            r.questions == questions,
            r.events@ == Seq::<Event>::empty(),
    {
        Form { id, user_id, title, description, created_by, created_at, questions, events: Vec::new() }
    }

    /// A new form created now, whose questions and options all get fresh ids.
    pub fn from(
        id: RecordId,
        title: String,
        description: Option<String>,
        created_by: RecordId,
        user_id: RecordId,
        questions: Vec<Question>,
    ) -> (r: Form)
        ensures
            r.id == id,
            r.user_id == user_id,
            r.title == title,
            r.description == description,
            r.created_by == created_by,
            r.questions@.len() == questions@.len(),
            forall|i: int|
                0 <= i < r.questions@.len() ==> identified(#[trigger] r.questions@[i]) && same_but_ids(
                    questions@[i],
                    r.questions@[i],
                ),
            r.events@ == Seq::<Event>::empty(),
    {
        let mut rest = questions;
        let mut out: Vec<Question> = Vec::new();
        while rest.len() > 0
            invariant
                out@.len() + rest@.len() == questions@.len(),
                forall|i: int|
                    0 <= i < out@.len() ==> identified(#[trigger] out@[i]) && same_but_ids(questions@[i], out@[i]),
                forall|i: int| 0 <= i < rest@.len() ==> #[trigger] rest@[i] == questions@[out@.len() + i],
            decreases rest@.len(),
        {
            let ghost before = rest@;
            let q = rest.remove(0);
            assert forall|i: int| 0 <= i < rest@.len() implies #[trigger] rest@[i] == questions@[out@.len() + 1 + i] by {
                assert(rest@[i] == before[i + 1]);
            }
            out.push(identify(q));
        }
        Form::assemble(id, title, description, created_by, user_id, now_millis(), out)
    }
}

} // verus!
