//! What a handler asks of the store, and what the store answers.
//!
//! The store is a relational database with two tables: `refs`, with the
//! columns `refstr` (the key), `name` and `relevant_skills` (a JSON array of
//! skill names), and `skills`, with the one column `skill`. A handler never
//! touches it. It is handed the answers given so far and says what to ask
//! next, or what to reply to the caller.
//!
//! What a handler reads in order to decide what to write, it reads inside
//! the transaction in which it writes; see `Query::Begin` for what the
//! handlers rely on the store to do.

use crate::outcome::Failure;
use vstd::prelude::*;

verus! {

/// The row that `SELECT COUNT(*)` returns.
#[derive(Debug, PartialEq, Eq)]
pub struct Count {
    pub count: i64,
}

/// A row of `refs`, read for its list of skills. A column that holds no value
/// is `None`.
#[derive(Debug, PartialEq, Eq)]
pub struct EntitySkills {
    pub refstr: Option<String>,
    pub relevant_skills: Option<Vec<u8>>,
}

/// A row of `refs`, read for its name.
#[derive(Debug, PartialEq, Eq)]
pub struct EntityReference {
    pub name: Option<String>,
    pub refstr: Option<String>,
}

/// `EntitySkills` as a mathematical value.
pub struct EntitySkillsView {
    pub refstr: Option<Seq<char>>,
    pub relevant_skills: Option<Seq<u8>>,
}

/// `EntityReference` as a mathematical value.
pub struct EntityReferenceView {
    pub name: Option<Seq<char>>,
    pub refstr: Option<Seq<char>>,
}

impl DeepView for EntitySkills {
    type V = EntitySkillsView;

    open spec fn deep_view(&self) -> EntitySkillsView {
        EntitySkillsView {
            refstr: self.refstr.deep_view(),
            relevant_skills: match self.relevant_skills {
                Some(text) => Some(text@),
                None => None,
            },
        }
    }
}

impl DeepView for EntityReference {
    type V = EntityReferenceView;

    open spec fn deep_view(&self) -> EntityReferenceView {
        EntityReferenceView { name: self.name.deep_view(), refstr: self.refstr.deep_view() }
    }
}

impl EntityReference {
    /// A copy of the row.
    pub fn copy(&self) -> (twin: Self)
        ensures
            twin.deep_view() == self.deep_view(),
    {
        EntityReference {
            name: match &self.name {
                Some(name) => Some(name.clone()),
                None => None,
            },
            refstr: match &self.refstr {
                Some(refstr) => Some(refstr.clone()),
                None => None,
            },
        }
    }
}

impl DeepView for Count {
    type V = int;

    open spec fn deep_view(&self) -> int {
        self.count as int
    }
}

/// A statement for the store.
#[derive(Debug, PartialEq, Eq)]
pub enum Query {
    /// Opens a transaction. What is asked until `Commit` happens as a whole or
    /// not at all: a transaction that is left without `Commit` is undone.
    ///
    /// The handlers rely on the store to carry out transactions one after
    /// the other: from the answer to `Begin` until `Commit`, or until the
    /// transaction is given up, no statement of another caller is carried
    /// out that writes, and what the transaction reads stays as it is. With
    /// SQLite this is a transaction begun with `BEGIN IMMEDIATE`. Every
    /// handler that writes after it has read does both inside one
    /// transaction, so that of two callers one sees all of what the other
    /// did or nothing of it. A skill that one caller deletes while another
    /// attaches it therefore stays deleted: the one who attaches is either
    /// first, and the cascade takes the skill out again, or second, and is
    /// told that the skill is unknown and may try again
    /// (`together::law_deleted_while_attached`). Of two skills that two
    /// callers attach to one reference neither is lost
    /// (`together::law_attached_together`).
    Begin,
    /// Makes the open transaction last.
    Commit,
    /// `SELECT COUNT(*) FROM refs WHERE refstr = ?`
    CountRefs { refstr: String },
    /// `INSERT INTO refs (refstr, name, relevant_skills) VALUES (?, ?, ?)`
    InsertRef { refstr: String, name: String, relevant_skills: Vec<u8> },
    /// `DELETE FROM refs WHERE refstr = ?`
    DeleteRef { refstr: String },
    /// `SELECT name, refstr FROM refs`
    ListRefs,
    /// `SELECT name, refstr FROM refs WHERE refstr = ?`
    FindRef { refstr: String },
    /// `SELECT refstr, relevant_skills FROM refs`
    ListRefSkills,
    /// `SELECT refstr, relevant_skills FROM refs WHERE refstr = ?`
    FindRefSkills { refstr: String },
    /// `UPDATE refs SET relevant_skills = ? WHERE refstr = ?`
    SetRefSkills { refstr: String, relevant_skills: Vec<u8> },
    /// `SELECT COUNT(*) FROM skills WHERE skill = ?`
    CountSkills { skill: String },
    /// `INSERT INTO skills (skill) VALUES (?)`
    InsertSkill { skill: String },
    /// `DELETE FROM skills WHERE skill = ?`
    DeleteSkill { skill: String },
    /// `SELECT skill FROM skills`
    ListSkills,
}

/// `Query` as a mathematical value.
pub enum QueryView {
    Begin,
    Commit,
    CountRefs { refstr: Seq<char> },
    InsertRef { refstr: Seq<char>, name: Seq<char>, relevant_skills: Seq<u8> },
    DeleteRef { refstr: Seq<char> },
    ListRefs,
    FindRef { refstr: Seq<char> },
    ListRefSkills,
    FindRefSkills { refstr: Seq<char> },
    SetRefSkills { refstr: Seq<char>, relevant_skills: Seq<u8> },
    CountSkills { skill: Seq<char> },
    InsertSkill { skill: Seq<char> },
    DeleteSkill { skill: Seq<char> },
    ListSkills,
}

impl DeepView for Query {
    type V = QueryView;

    open spec fn deep_view(&self) -> QueryView {
        match self {
            Query::Begin => QueryView::Begin,
            Query::Commit => QueryView::Commit,
            Query::CountRefs { refstr } => QueryView::CountRefs { refstr: refstr@ },
            Query::InsertRef { refstr, name, relevant_skills } => QueryView::InsertRef {
                refstr: refstr@,
                name: name@,
                relevant_skills: relevant_skills@,
            },
            Query::DeleteRef { refstr } => QueryView::DeleteRef { refstr: refstr@ },
            Query::ListRefs => QueryView::ListRefs,
            Query::FindRef { refstr } => QueryView::FindRef { refstr: refstr@ },
            Query::ListRefSkills => QueryView::ListRefSkills,
            Query::FindRefSkills { refstr } => QueryView::FindRefSkills { refstr: refstr@ },
            Query::SetRefSkills { refstr, relevant_skills } => QueryView::SetRefSkills {
                refstr: refstr@,
                relevant_skills: relevant_skills@,
            },
            Query::CountSkills { skill } => QueryView::CountSkills { skill: skill@ },
            Query::InsertSkill { skill } => QueryView::InsertSkill { skill: skill@ },
            Query::DeleteSkill { skill } => QueryView::DeleteSkill { skill: skill@ },
            Query::ListSkills => QueryView::ListSkills,
        }
    }
}

impl QueryView {
    /// Whether the statement changes what the store holds.
    pub open spec fn writes(self) -> bool {
        match self {
            QueryView::InsertRef { .. }
            | QueryView::DeleteRef { .. }
            | QueryView::SetRefSkills { .. }
            | QueryView::InsertSkill { .. }
            | QueryView::DeleteSkill { .. } => true,
            _ => false,
        }
    }
}

/// What the store hands back for one statement.
#[derive(Debug, PartialEq, Eq)]
pub enum Answer {
    /// The statement could not be carried out.
    Failed,
    /// A statement without a result was carried out.
    Done,
    /// The result of a count.
    Count(Count),
    /// The rows of `ListRefs`.
    Refs(Vec<EntityReference>),
    /// The row of `FindRef`, if there is one.
    Ref(Option<EntityReference>),
    /// The rows of `ListRefSkills`.
    RefSkills(Vec<EntitySkills>),
    /// The row of `FindRefSkills`, if there is one.
    RefSkill(Option<EntitySkills>),
    /// The rows of `ListSkills`.
    Skills(Vec<Option<String>>),
}

/// `Answer` as a mathematical value.
pub enum AnswerView {
    Failed,
    Done,
    Count(int),
    Refs(Seq<EntityReferenceView>),
    Ref(Option<EntityReferenceView>),
    RefSkills(Seq<EntitySkillsView>),
    RefSkill(Option<EntitySkillsView>),
    Skills(Seq<Option<Seq<char>>>),
}

impl DeepView for Answer {
    type V = AnswerView;

    open spec fn deep_view(&self) -> AnswerView {
        match self {
            Answer::Failed => AnswerView::Failed,
            Answer::Done => AnswerView::Done,
            Answer::Count(row) => AnswerView::Count(row.deep_view()),
            Answer::Refs(rows) => AnswerView::Refs(rows.deep_view()),
            Answer::Ref(row) => AnswerView::Ref(row.deep_view()),
            Answer::RefSkills(rows) => AnswerView::RefSkills(rows.deep_view()),
            Answer::RefSkill(row) => AnswerView::RefSkill(row.deep_view()),
            Answer::Skills(rows) => AnswerView::Skills(rows.deep_view()),
        }
    }
}

/// What a handler does next: ask the store, or reply to the caller.
#[derive(Debug, PartialEq, Eq)]
pub enum Step<T> {
    /// The statement to carry out; its answer is added to the answers and the
    /// handler is called again.
    Ask(Query),
    /// The reply; the handler is not called again.
    Done(Result<T, Failure>),
}

/// `Step` as a mathematical value.
pub enum StepView<V> {
    Ask(QueryView),
    Done(Result<V, Failure>),
}

impl<T: DeepView> DeepView for Step<T> {
    type V = StepView<T::V>;

    open spec fn deep_view(&self) -> StepView<T::V> {
        match self {
            Step::Ask(query) => StepView::Ask(query.deep_view()),
            Step::Done(Ok(value)) => StepView::Done(Ok(value.deep_view())),
            Step::Done(Err(why)) => StepView::Done(Err(*why)),
        }
    }
}

impl<V> StepView<V> {
    /// Whether the step is a statement that changes what the store holds.
    pub open spec fn writes(self) -> bool {
        self matches StepView::Ask(query) && query.writes()
    }
}

/// The step that reports a fault of the store.
pub open spec fn fault<V>() -> StepView<V> {
    StepView::Done(Err(Failure::Internal))
}

} // verus!
