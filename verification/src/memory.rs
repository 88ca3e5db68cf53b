//! A store that lives in memory, and the service on top of it.
//!
//! `MemoryStore` keeps the two tables in vectors and carries out the
//! statements of a handler at once. Its operations drive the handlers of
//! `refs` to their end; their contracts say what each makes of the
//! `Registry` that the store holds.

use crate::auth::generate_token;
use crate::auth::generate_token_spec;
use crate::auth::minted;
use crate::auth::Level;
use crate::auth::User;
use crate::key::ref_key_spec;
use crate::outcome::Failure;
use crate::query::Answer;
use crate::query::AnswerView;
use crate::query::Count;
use crate::query::EntityReference;
use crate::query::EntitySkills;
use crate::query::Query;
use crate::query::QueryView;
use crate::query::Step;
use crate::refs;
use crate::refs::Change;
use crate::refs::DEFAULT_REF;
use crate::registry::Reference;
use crate::registry::Registry;
use crate::skills::decode_skills;
use crate::skills::json_of_names;
use crate::skills::names_of_json;
use crate::tables::read_back;
use crate::tables::Row;
use crate::tables::Tables;
use uuid::Uuid;
use vstd::prelude::*;

verus! {

/// A row of the table `refs`.
struct Record {
    refstr: String,
    name: String,
    relevant_skills: Vec<u8>,
}

impl Record {
    spec fn row(self) -> Row {
        Row { refstr: self.refstr@, name: self.name@, relevant_skills: self.relevant_skills@ }
    }
}

/// A store in memory. It holds no two references under one key, no skill
/// twice, and no list of skills that cannot be read: a statement that would
/// make it do so fails.
pub struct MemoryStore {
    refs: Vec<Record>,
    skills: Vec<String>,
}

impl View for MemoryStore {
    type V = Registry;

    closed spec fn view(&self) -> Registry {
        self.tables().registry()
    }
}

impl MemoryStore {
    /// The tables of the store.
    pub closed spec fn tables(&self) -> Tables {
        Tables {
            refs: Seq::new(self.refs@.len(), |i: int| self.refs@[i].row()),
            skills: self.skills.deep_view(),
        }
    }

    /// What every store satisfies.
    pub closed spec fn wf(&self) -> bool {
        self.tables().wf()
    }

    /// A well-formed store holds a well-formed registry, and its registry
    /// is that of its tables.
    pub proof fn lemma_wf(&self)
        requires
            self.wf(),
        ensures
            self@.wf(),
            self@ == self.tables().registry(),
            self.tables().wf(),
    {
    }

    /// A store that holds nothing.
    pub fn new() -> (store: Self)
        ensures
            store.wf(),
            store@ == Registry::empty(),
    {
        let store = MemoryStore { refs: Vec::new(), skills: Vec::new() };
        assert(store.tables().skills =~= Seq::empty());
        assert(store@.refs =~= Seq::empty());
        store
    }

    /// Where the row with the key `refstr` stands.
    fn locate(&self, refstr: &String) -> (at: Option<usize>)
        requires
            self.wf(),
        ensures
            match at {
                Some(i) => self.tables().has_ref(refstr@) && i == self.tables().position(refstr@)
                    && i < self.refs.len(),
                None => !self.tables().has_ref(refstr@),
            },
    {
        let mut i: usize = 0;
        while i < self.refs.len()
            invariant
                i <= self.refs.len(),
                self.wf(),
                forall|j: int| 0 <= j < i ==> (#[trigger] self.tables().refs[j]).refstr != refstr@,
            decreases self.refs.len() - i,
        {
            if self.refs[i].refstr == *refstr {
                proof {
                    let tables = self.tables();
                    assert(tables.refs[i as int].refstr == refstr@);
                }
                return Some(i);
            }
            i += 1;
        }
        None
    }
}

/// Where `skill` stands in `list`.
fn index_of_skill(list: &Vec<String>, skill: &String) -> (at: Option<usize>)
    requires
        list.deep_view().no_duplicates(),
    ensures
        match at {
            Some(i) => list.deep_view().contains(skill@) && i == list.deep_view().index_of(skill@)
                && i < list.len(),
            None => !list.deep_view().contains(skill@),
        },
{
    let mut i: usize = 0;
    while i < list.len()
        invariant
            i <= list.len(),
            list.deep_view().no_duplicates(),
            forall|j: int| 0 <= j < i ==> list.deep_view()[j] != skill@,
        decreases list.len() - i,
    {
        if list[i] == *skill {
            proof {
                let names = list.deep_view();
                assert(names[i as int] == skill@);
            }
            return Some(i);
        }
        i += 1;
    }
    None
}

impl MemoryStore {
    fn rows_named(&self) -> (rows: Vec<EntityReference>)
        ensures
            rows.deep_view() == Seq::new(
                self.tables().refs.len(),
                |i: int| self.tables().refs[i].named(),
            ),
    {
        let mut rows: Vec<EntityReference> = Vec::new();
        let mut i: usize = 0;
        while i < self.refs.len()
            invariant
                i <= self.refs.len(),
                rows.len() == i,
                forall|j: int|
                    0 <= j < i ==> (#[trigger] rows.deep_view()[j]) == self.tables().refs[j].named(),
            decreases self.refs.len() - i,
        {
            let ghost before = rows.deep_view();
            let row = EntityReference {
                name: Some(self.refs[i].name.clone()),
                refstr: Some(self.refs[i].refstr.clone()),
            };
            let ghost added = row.deep_view();
            rows.push(row);
            assert(rows.deep_view() =~= before.push(added));
            i += 1;
        }
        rows
    }

    fn rows_skilled(&self) -> (rows: Vec<EntitySkills>)
        ensures
            rows.deep_view() == Seq::new(
                self.tables().refs.len(),
                |i: int| self.tables().refs[i].skilled(),
            ),
    {
        let mut rows: Vec<EntitySkills> = Vec::new();
        let mut i: usize = 0;
        while i < self.refs.len()
            invariant
                i <= self.refs.len(),
                rows.len() == i,
                forall|j: int|
                    0 <= j < i ==> (#[trigger] rows.deep_view()[j])
                        == self.tables().refs[j].skilled(),
            decreases self.refs.len() - i,
        {
            let ghost before = rows.deep_view();
            let row = EntitySkills {
                refstr: Some(self.refs[i].refstr.clone()),
                relevant_skills: Some(self.refs[i].relevant_skills.clone()),
            };
            let ghost added = row.deep_view();
            rows.push(row);
            assert(rows.deep_view() =~= before.push(added));
            i += 1;
        }
        rows
    }

    fn rows_of_skills(&self) -> (rows: Vec<Option<String>>)
        ensures
            rows.deep_view() == Seq::new(
                self.tables().skills.len(),
                |i: int| Some(self.tables().skills[i]),
            ),
    {
        let mut rows: Vec<Option<String>> = Vec::new();
        let mut i: usize = 0;
        while i < self.skills.len()
            invariant
                i <= self.skills.len(),
                rows.len() == i,
                forall|j: int|
                    0 <= j < i ==> (#[trigger] rows.deep_view()[j]) == Some(
                        self.tables().skills[j],
                    ),
            decreases self.skills.len() - i,
        {
            let ghost before = rows.deep_view();
            let row = Some(self.skills[i].clone());
            let ghost added = row.deep_view();
            rows.push(row);
            assert(rows.deep_view() =~= before.push(added));
            i += 1;
        }
        rows
    }

    fn insert_row(&mut self, refstr: &String, name: &String, relevant_skills: &Vec<u8>) -> (answer:
        Answer)
        requires
            old(self).wf(),
        ensures
            final(self).wf(),
            read_back(relevant_skills@),
            answer.deep_view() == old(self).tables().reply(
                QueryView::InsertRef {
                    refstr: refstr@,
                    name: name@,
                    relevant_skills: relevant_skills@,
                },
            ),
            final(self).tables() == old(self).tables().next(
                QueryView::InsertRef {
                    refstr: refstr@,
                    name: name@,
                    relevant_skills: relevant_skills@,
                },
            ),
    {
        let readable = decode_skills(relevant_skills).is_ok();
        if self.locate(refstr).is_some() || !readable {
            return Answer::Failed;
        }
        let ghost before = self.tables();
        let record = Record {
            refstr: refstr.clone(),
            name: name.clone(),
            relevant_skills: relevant_skills.clone(),
        };
        let ghost row = record.row();
        self.refs.push(record);
        proof {
            assert(self.tables().refs =~= before.refs.push(row));
        }
        Answer::Done
    }

    fn delete_row(&mut self, refstr: &String) -> (answer: Answer)
        requires
            old(self).wf(),
        ensures
            final(self).wf(),
            answer.deep_view() == AnswerView::Done,
            final(self).tables() == old(self).tables().next(
                QueryView::DeleteRef { refstr: refstr@ },
            ),
    {
        let ghost before = self.tables();
        match self.locate(refstr) {
            Some(at) => {
                self.refs.remove(at);
                proof {
                    assert(self.tables().refs =~= before.refs.remove(at as int));
                }
            },
            None => {},
        }
        Answer::Done
    }

    fn rewrite_row(&mut self, refstr: &String, relevant_skills: &Vec<u8>) -> (answer: Answer)
        requires
            old(self).wf(),
        ensures
            final(self).wf(),
            read_back(relevant_skills@),
            answer.deep_view() == old(self).tables().reply(
                QueryView::SetRefSkills { refstr: refstr@, relevant_skills: relevant_skills@ },
            ),
            final(self).tables() == old(self).tables().next(
                QueryView::SetRefSkills { refstr: refstr@, relevant_skills: relevant_skills@ },
            ),
    {
        let ghost before = self.tables();
        if decode_skills(relevant_skills).is_err() {
            return Answer::Failed;
        }
        match self.locate(refstr) {
            Some(at) => {
                let record = Record {
                    refstr: self.refs[at].refstr.clone(),
                    name: self.refs[at].name.clone(),
                    relevant_skills: relevant_skills.clone(),
                };
                self.refs.set(at, record);
                proof {
                    assert(self.tables().refs =~= before.rewritten(refstr@, relevant_skills@));
                }
            },
            None => {
                proof {
                    assert(self.tables().refs =~= before.rewritten(refstr@, relevant_skills@));
                }
            },
        }
        Answer::Done
    }

    fn insert_name(&mut self, skill: &String) -> (answer: Answer)
        requires
            old(self).wf(),
        ensures
            final(self).wf(),
            answer.deep_view() == old(self).tables().reply(
                QueryView::InsertSkill { skill: skill@ },
            ),
            final(self).tables() == old(self).tables().next(
                QueryView::InsertSkill { skill: skill@ },
            ),
    {
        let ghost before = self.tables();
        if index_of_skill(&self.skills, skill).is_some() {
            return Answer::Failed;
        }
        self.skills.push(skill.clone());
        proof {
            assert(self.tables().skills =~= before.skills.push(skill@));
        }
        Answer::Done
    }

    fn delete_name(&mut self, skill: &String) -> (answer: Answer)
        requires
            old(self).wf(),
        ensures
            final(self).wf(),
            answer.deep_view() == AnswerView::Done,
            final(self).tables() == old(self).tables().next(
                QueryView::DeleteSkill { skill: skill@ },
            ),
    {
        let ghost before = self.tables();
        match index_of_skill(&self.skills, skill) {
            Some(at) => {
                self.skills.remove(at);
                proof {
                    assert(self.tables().skills =~= before.skills.remove(at as int));
                }
            },
            None => {},
        }
        Answer::Done
    }

    /// Answers a statement that reads. `Begin` and `Commit` are answered
    /// as done: nothing is open while no one else writes. A statement that
    /// writes fails.
    fn look(&self, query: &Query) -> (answer: Answer)
        requires
            self.wf(),
        ensures
            !query.deep_view().writes() ==> answer.deep_view() == self.tables().reply(
                query.deep_view(),
            ),
            query.deep_view().writes() ==> answer is Failed,
    {
        match query {
            Query::Begin => Answer::Done,
            Query::Commit => Answer::Done,
            Query::CountRefs { refstr } => Answer::Count(
                Count {
                    count: if self.locate(refstr).is_some() {
                        1
                    } else {
                        0
                    },
                },
            ),
            Query::ListRefs => Answer::Refs(self.rows_named()),
            Query::FindRef { refstr } => Answer::Ref(
                match self.locate(refstr) {
                    Some(at) => Some(
                        EntityReference {
                            name: Some(self.refs[at].name.clone()),
                            refstr: Some(self.refs[at].refstr.clone()),
                        },
                    ),
                    None => None,
                },
            ),
            Query::ListRefSkills => Answer::RefSkills(self.rows_skilled()),
            Query::FindRefSkills { refstr } => Answer::RefSkill(
                match self.locate(refstr) {
                    Some(at) => Some(
                        EntitySkills {
                            refstr: Some(self.refs[at].refstr.clone()),
                            relevant_skills: Some(self.refs[at].relevant_skills.clone()),
                        },
                    ),
                    None => None,
                },
            ),
            Query::CountSkills { skill } => Answer::Count(
                Count {
                    count: if index_of_skill(&self.skills, skill).is_some() {
                        1
                    } else {
                        0
                    },
                },
            ),
            Query::ListSkills => Answer::Skills(self.rows_of_skills()),
            _ => Answer::Failed,
        }
    }

    /// Carries out one statement. What a statement writes is there at
    /// once: `Begin` and `Commit` change nothing.
    fn answer(&mut self, query: &Query) -> (answer: Answer)
        requires
            old(self).wf(),
        ensures
            final(self).wf(),
            answer.deep_view() == old(self).tables().reply(query.deep_view()),
            final(self).tables() == old(self).tables().next(query.deep_view()),
            match query.deep_view() {
                QueryView::InsertRef { relevant_skills, .. } => read_back(relevant_skills),
                QueryView::SetRefSkills { relevant_skills, .. } => read_back(relevant_skills),
                _ => true,
            },
    {
        match query {
            Query::InsertRef { refstr, name, relevant_skills } => self.insert_row(
                refstr,
                name,
                relevant_skills,
            ),
            Query::DeleteRef { refstr } => self.delete_row(refstr),
            Query::SetRefSkills { refstr, relevant_skills } => self.rewrite_row(
                refstr,
                relevant_skills,
            ),
            Query::InsertSkill { skill } => self.insert_name(skill),
            Query::DeleteSkill { skill } => self.delete_name(skill),
            _ => self.look(query),
        }
    }
}

/// What the caller is told, as a mathematical value.
pub open spec fn told<T: DeepView>(outcome: Result<T, Failure>) -> Result<T::V, Failure> {
    match outcome {
        Ok(value) => Ok(value.deep_view()),
        Err(why) => Err(why),
    }
}

/// Adds an answer to the answers.
fn note(answers: &mut Vec<Answer>, answer: Answer)
    ensures
        final(answers).len() == old(answers).len() + 1,
        final(answers).deep_view() == old(answers).deep_view().push(answer.deep_view()),
{
    answers.push(answer);
}

impl MemoryStore {
    /// Creates the reference called `name`: `refs::create_ref`, carried
    /// out on this store.
    pub fn create_ref(&mut self, name: &String) -> (outcome: Result<String, Failure>)
        requires
            old(self).wf(),
        ensures
            final(self).wf(),
            final(self)@ == old(self)@.create_ref(name@).0,
            told(outcome) == old(self)@.create_ref(name@).1,
    {
        let ghost start = self.tables();
        let ghost refstr = ref_key_spec(name@);
        let ghost insert = QueryView::InsertRef {
            refstr,
            name: name@,
            relevant_skills: json_of_names(Seq::empty()),
        };
        let mut answers: Vec<Answer> = Vec::new();
        proof {
            start.lemma_registry_position(refstr);
        }
        loop
            invariant
                self.wf(),
                start.wf(),
                start == old(self).tables(),
                refstr == ref_key_spec(name@),
                insert == (QueryView::InsertRef {
                    refstr,
                    name: name@,
                    relevant_skills: json_of_names(Seq::empty()),
                }),
                start.registry().has_ref(refstr) == start.has_ref(refstr),
                answers.len() <= 2,
                answers.len() == 0 ==> self.tables() == start,
                answers.len() == 1 ==> self.tables() == start && answers.deep_view()[0]
                    == start.reply(QueryView::CountRefs { refstr }),
                answers.len() == 2 ==> {
                    &&& !start.has_ref(refstr)
                    &&& answers.deep_view()[0] == AnswerView::Count(0)
                    &&& answers.deep_view()[1] == start.reply(insert)
                    &&& self.tables() == start.next(insert)
                    &&& read_back(json_of_names(Seq::empty()))
                },
            decreases 3 - answers.len(),
        {
            match refs::create_ref(name, &answers) {
                Step::Ask(query) => {
                    let answer = self.answer(&query);
                    note(&mut answers, answer);
                },
                Step::Done(outcome) => {
                    proof {
                        if answers.len() == 2 {
                            let empty = Seq::<Seq<char>>::empty();
                            assert(self.tables().registry().refs =~= start.registry().refs.push(
                                Reference { refstr, name: name@, skills: empty },
                            ));
                        }
                    }
                    return outcome;
                },
            }
        }
    }

    /// Deletes a reference: `refs::delete_ref`, carried out on this store.
    pub fn delete_ref(&mut self, refstr: &String) -> (outcome: Result<(), Failure>)
        requires
            old(self).wf(),
        ensures
            final(self).wf(),
            final(self)@ == old(self)@.delete_ref(refstr@).0,
            told(outcome) == old(self)@.delete_ref(refstr@).1,
    {
        let ghost start = self.tables();
        let mut answers: Vec<Answer> = Vec::new();
        proof {
            start.lemma_registry_position(refstr@);
        }
        loop
            invariant
                self.wf(),
                start.wf(),
                start == old(self).tables(),
                start.registry().has_ref(refstr@) == start.has_ref(refstr@),
                start.has_ref(refstr@) ==> start.registry().position(refstr@) == start.position(
                    refstr@,
                ) && 0 <= start.position(refstr@) < start.refs.len(),
                answers.len() <= 1,
                answers.len() == 0 ==> self.tables() == start,
                answers.len() == 1 ==> {
                    &&& refstr@ != DEFAULT_REF@
                    &&& answers.deep_view()[0] == AnswerView::Done
                    &&& self.tables() == start.next(QueryView::DeleteRef { refstr: refstr@ })
                },
            decreases 2 - answers.len(),
        {
            match refs::delete_ref(refstr, &answers) {
                Step::Ask(query) => {
                    let answer = self.answer(&query);
                    note(&mut answers, answer);
                },
                Step::Done(outcome) => {
                    proof {
                        if answers.len() == 1 && start.has_ref(refstr@) {
                            assert(self.tables().registry().refs =~= start.registry().refs.remove(
                                start.position(refstr@),
                            ));
                        }
                    }
                    return outcome;
                },
            }
        }
    }

    /// Lists the references: `refs::list_refs`, carried out on this store.
    pub fn list_refs(&self) -> (outcome: Result<Vec<EntityReference>, Failure>)
        requires
            self.wf(),
        ensures
            told(outcome) == self@.list_refs(),
    {
        let ghost start = self.tables();
        let mut answers: Vec<Answer> = Vec::new();
        loop
            invariant
                self.wf(),
                start == self.tables(),
                answers.len() <= 1,
                answers.len() == 1 ==> answers.deep_view()[0] == start.reply(QueryView::ListRefs),
            decreases 2 - answers.len(),
        {
            match refs::list_refs(&answers) {
                Step::Ask(query) => {
                    let answer = self.look(&query);
                    note(&mut answers, answer);
                },
                Step::Done(outcome) => {
                    proof {
                        assert(Seq::new(start.refs.len(), |i: int| start.refs[i].named())
                            =~= start.registry().list_refs()->Ok_0);
                    }
                    return outcome;
                },
            }
        }
    }

    /// Looks up the name of a reference: `refs::get_ref_name`, carried out
    /// on this store.
    pub fn get_ref_name(&self, refstr: &String) -> (outcome: Result<String, Failure>)
        requires
            self.wf(),
        ensures
            told(outcome) == self@.get_ref_name(refstr@),
    {
        let ghost start = self.tables();
        let mut answers: Vec<Answer> = Vec::new();
        proof {
            start.lemma_registry_position(refstr@);
        }
        loop
            invariant
                self.wf(),
                start == self.tables(),
                start.registry().has_ref(refstr@) == start.has_ref(refstr@),
                start.has_ref(refstr@) ==> start.registry().position(refstr@) == start.position(
                    refstr@,
                ) && 0 <= start.position(refstr@) < start.refs.len(),
                answers.len() <= 1,
                answers.len() == 1 ==> answers.deep_view()[0] == start.reply(
                    QueryView::FindRef { refstr: refstr@ },
                ),
            decreases 2 - answers.len(),
        {
            match refs::get_ref_name(refstr, &answers) {
                Step::Ask(query) => {
                    let answer = self.look(&query);
                    note(&mut answers, answer);
                },
                Step::Done(outcome) => {
                    return outcome;
                },
            }
        }
    }

    /// Adds a skill to the catalog: `refs::create_skill`, carried out on
    /// this store.
    pub fn create_skill(&mut self, name: &String) -> (outcome: Result<(), Failure>)
        requires
            old(self).wf(),
        ensures
            final(self).wf(),
            final(self)@ == old(self)@.create_skill(name@).0,
            told(outcome) == old(self)@.create_skill(name@).1,
    {
        let ghost start = self.tables();
        let mut answers: Vec<Answer> = Vec::new();
        loop
            invariant
                self.wf(),
                start == old(self).tables(),
                answers.len() <= 2,
                answers.len() == 0 ==> self.tables() == start,
                answers.len() == 1 ==> self.tables() == start && answers.deep_view()[0]
                    == start.reply(QueryView::CountSkills { skill: name@ }),
                answers.len() == 2 ==> {
                    &&& !start.skills.contains(name@)
                    &&& answers.deep_view()[0] == AnswerView::Count(0)
                    &&& answers.deep_view()[1] == AnswerView::Done
                    &&& self.tables() == start.next(QueryView::InsertSkill { skill: name@ })
                },
            decreases 3 - answers.len(),
        {
            match refs::create_skill(name, &answers) {
                Step::Ask(query) => {
                    let answer = self.answer(&query);
                    note(&mut answers, answer);
                },
                Step::Done(outcome) => {
                    return outcome;
                },
            }
        }
    }

    /// Lists the catalog: `refs::list_skills`, carried out on this store.
    pub fn list_skills(&self) -> (outcome: Result<Vec<String>, Failure>)
        requires
            self.wf(),
        ensures
            told(outcome) == self@.list_skills(),
    {
        let ghost start = self.tables();
        let mut answers: Vec<Answer> = Vec::new();
        loop
            invariant
                self.wf(),
                start == self.tables(),
                answers.len() <= 1,
                answers.len() == 1 ==> answers.deep_view()[0] == start.reply(QueryView::ListSkills),
            decreases 2 - answers.len(),
        {
            match refs::list_skills(&answers) {
                Step::Ask(query) => {
                    let answer = self.look(&query);
                    note(&mut answers, answer);
                },
                Step::Done(outcome) => {
                    proof {
                        if answers.len() == 1 {
                            let rows = Seq::new(
                                start.skills.len(),
                                |i: int| Some(start.skills[i]),
                            );
                            assert(refs::values(rows) =~= start.skills);
                        }
                    }
                    return outcome;
                },
            }
        }
    }

    /// Issues the claims of a normal token for a reference:
    /// `auth::generate_token`, carried out on this store.
    pub fn generate_token(&self, reference: &String) -> (outcome: Result<User, Failure>)
        requires
            self.wf(),
        ensures
            match outcome {
                Ok(user) => self@.has_ref(reference@) && user.deep_view() == minted(
                    reference@,
                    Level::Normal,
                    user.id,
                ),
                Err(why) => !self@.has_ref(reference@) && why == Failure::UnknownReference,
            },
    {
        let ghost start = self.tables();
        let mut answers: Vec<Answer> = Vec::new();
        proof {
            start.lemma_registry_position(reference@);
        }
        loop
            invariant
                self.wf(),
                start == self.tables(),
                start.registry().has_ref(reference@) == start.has_ref(reference@),
                answers.len() <= 1,
                answers.len() == 1 ==> answers.deep_view()[0] == start.reply(
                    QueryView::CountRefs { refstr: reference@ },
                ),
            decreases 2 - answers.len(),
        {
            let step = generate_token(reference, &answers);
            match step {
                Step::Ask(query) => {
                    let answer = self.look(&query);
                    note(&mut answers, answer);
                },
                Step::Done(outcome) => {
                    return outcome;
                },
            }
        }
    }

    /// Searches the catalog: `refs::search_skills`, carried out on this
    /// store.
    pub fn search_skills(&self, term: &String, percent: u32) -> (outcome: Result<
        Vec<String>,
        Failure,
    >)
        requires
            self.wf(),
        ensures
            told(outcome) == self@.search_skills(term@, percent as nat),
    {
        let ghost start = self.tables();
        let mut answers: Vec<Answer> = Vec::new();
        loop
            invariant
                self.wf(),
                start == self.tables(),
                answers.len() <= 1,
                answers.len() == 1 ==> answers.deep_view()[0] == start.reply(QueryView::ListSkills),
            decreases 2 - answers.len(),
        {
            match refs::search_skills(term, percent, &answers) {
                Step::Ask(query) => {
                    let answer = self.look(&query);
                    note(&mut answers, answer);
                },
                Step::Done(outcome) => {
                    proof {
                        if answers.len() == 1 {
                            let rows = Seq::new(
                                start.skills.len(),
                                |i: int| Some(start.skills[i]),
                            );
                            assert(refs::values(rows) =~= start.skills);
                        }
                    }
                    return outcome;
                },
            }
        }
    }

    /// Reads the skills of a reference: `refs::get_skills`, carried out on
    /// this store.
    pub fn get_skills(&self, refstr: &String) -> (outcome: Result<Vec<String>, Failure>)
        requires
            self.wf(),
        ensures
            told(outcome) == self@.get_skills(refstr@),
    {
        let ghost start = self.tables();
        let mut answers: Vec<Answer> = Vec::new();
        proof {
            start.lemma_registry_position(refstr@);
        }
        loop
            invariant
                start.wf(),
                self.wf(),
                start == self.tables(),
                start.registry().has_ref(refstr@) == start.has_ref(refstr@),
                start.has_ref(refstr@) ==> start.registry().position(refstr@) == start.position(
                    refstr@,
                ) && 0 <= start.position(refstr@) < start.refs.len(),
                answers.len() <= 1,
                answers.len() == 1 ==> answers.deep_view()[0] == start.reply(
                    QueryView::FindRefSkills { refstr: refstr@ },
                ),
            decreases 2 - answers.len(),
        {
            match refs::get_skills(refstr, &answers) {
                Step::Ask(query) => {
                    let answer = self.look(&query);
                    note(&mut answers, answer);
                },
                Step::Done(outcome) => {
                    return outcome;
                },
            }
        }
    }

    /// Attaches or detaches a skill: the handler that belongs to `change`,
    /// carried out on this store.
    fn change_skills(&mut self, refstr: &String, change: Change, skill: &String) -> (outcome:
        Result<(), Failure>)
        requires
            old(self).wf(),
        ensures
            final(self).wf(),
            final(self)@ == (match change {
                Change::Attach => old(self)@.add_skill_to_ref(refstr@, skill@),
                Change::Detach => old(self)@.remove_skill_from_ref(refstr@, skill@),
            }).0,
            told(outcome) == (match change {
                Change::Attach => old(self)@.add_skill_to_ref(refstr@, skill@),
                Change::Detach => old(self)@.remove_skill_from_ref(refstr@, skill@),
            }).1,
    {
        let ghost start = self.tables();
        let ghost from: int = if change == Change::Attach {
            2
        } else {
            1
        };
        let ghost at = start.position(refstr@);
        let ghost list = change.apply(start.list_at(at), skill@);
        let ghost write = QueryView::SetRefSkills {
            refstr: refstr@,
            relevant_skills: json_of_names(list),
        };
        let mut answers: Vec<Answer> = Vec::new();
        proof {
            start.lemma_registry_position(refstr@);
        }
        loop
            invariant
                self.wf(),
                start.wf(),
                start == old(self).tables(),
                from == (if change == Change::Attach {
                    2int
                } else {
                    1int
                }),
                at == start.position(refstr@),
                list == change.apply(start.list_at(at), skill@),
                write == (QueryView::SetRefSkills {
                    refstr: refstr@,
                    relevant_skills: json_of_names(list),
                }),
                start.registry().has_ref(refstr@) == start.has_ref(refstr@),
                start.has_ref(refstr@) ==> start.registry().position(refstr@) == at && 0 <= at
                    < start.refs.len(),
                answers.len() <= from + 3,
                answers.len() >= 1 ==> answers.deep_view()[0] == AnswerView::Done,
                from == 2 && answers.len() >= 2 ==> answers.deep_view()[1] == start.reply(
                    QueryView::CountSkills { skill: skill@ },
                ),
                from == 2 && answers.len() >= 3 ==> start.skills.contains(skill@),
                answers.len() >= from + 1 ==> answers.deep_view()[from] == start.reply(
                    QueryView::FindRefSkills { refstr: refstr@ },
                ),
                answers.len() <= from + 1 ==> self.tables() == start,
                answers.len() >= from + 2 ==> {
                    &&& start.has_ref(refstr@)
                    &&& answers.deep_view()[from + 1] == AnswerView::Done
                    &&& self.tables() == start.next(write)
                    &&& names_of_json(json_of_names(list)) == Some(list)
                },
                answers.len() >= from + 3 ==> answers.deep_view()[from + 2] == AnswerView::Done,
            decreases 6 - answers.len(),
        {
            let step = match change {
                Change::Attach => refs::add_skill_to_ref(refstr, skill, &answers),
                Change::Detach => refs::remove_skill_from_ref(refstr, skill, &answers),
            };
            match step {
                Step::Ask(query) => {
                    let answer = self.answer(&query);
                    note(&mut answers, answer);
                },
                Step::Done(outcome) => {
                    proof {
                        if answers.len() >= from + 2 {
                            start.lemma_rewritten(refstr@, list);
                        }
                    }
                    return outcome;
                },
            }
        }
    }

    /// Attaches a skill to a reference: `refs::add_skill_to_ref`, carried
    /// out on this store.
    pub fn add_skill_to_ref(&mut self, refstr: &String, skill: &String) -> (outcome: Result<
        (),
        Failure,
    >)
        requires
            old(self).wf(),
        ensures
            final(self).wf(),
            final(self)@ == old(self)@.add_skill_to_ref(refstr@, skill@).0,
            told(outcome) == old(self)@.add_skill_to_ref(refstr@, skill@).1,
    {
        self.change_skills(refstr, Change::Attach, skill)
    }

    /// Detaches a skill from a reference: `refs::remove_skill_from_ref`,
    /// carried out on this store.
    pub fn remove_skill_from_ref(&mut self, refstr: &String, skill: &String) -> (outcome: Result<
        (),
        Failure,
    >)
        requires
            old(self).wf(),
        ensures
            final(self).wf(),
            final(self)@ == old(self)@.remove_skill_from_ref(refstr@, skill@).0,
            told(outcome) == old(self)@.remove_skill_from_ref(refstr@, skill@).1,
    {
        self.change_skills(refstr, Change::Detach, skill)
    }

    /// Deletes a skill from the catalog and from every reference:
    /// `refs::delete_skill`, carried out on this store.
    pub fn delete_skill(&mut self, skill: &String) -> (outcome: Result<(), Failure>)
        requires
            old(self).wf(),
        ensures
            final(self).wf(),
            final(self)@ == old(self)@.delete_skill(skill@).0,
            told(outcome) == old(self)@.delete_skill(skill@).1,
    {
        let ghost start = self.tables();
        let ghost rows = start.refs.len() as int;
        let mut answers: Vec<Answer> = Vec::new();
        loop
            invariant
                self.wf(),
                start.wf(),
                start == old(self).tables(),
                rows == start.refs.len(),
                answers.len() <= rows + 6,
                answers.len() >= 1 ==> answers.deep_view()[0] == AnswerView::Done,
                answers.len() >= 2 ==> answers.deep_view()[1] == start.reply(
                    QueryView::CountSkills { skill: skill@ },
                ),
                answers.len() <= 3 ==> self.tables() == start,
                answers.len() >= 3 ==> {
                    &&& start.skills.contains(skill@)
                    &&& answers.deep_view()[2] == start.reply(QueryView::ListRefSkills)
                    &&& start.stripped_to(skill@, answers.len() - 3, self.tables().refs)
                    &&& self.tables().skills == if answers.len() - 3 > rows {
                        start.skills.remove(start.skills.index_of(skill@))
                    } else {
                        start.skills
                    }
                },
                answers.len() > 3 ==> answers.deep_view()[answers.len() - 1] == AnswerView::Done,
            decreases rows + 7 - answers.len(),
        {
            match refs::delete_skill(skill, &answers) {
                Step::Ask(query) => {
                    let answer = self.answer(&query);
                    note(&mut answers, answer);
                },
                Step::Done(outcome) => {
                    proof {
                        if answers.len() >= 3 {
                            assert(self.tables().registry().refs =~= start.registry().stripped(
                                skill@,
                            ));
                        }
                    }
                    return outcome;
                },
            }
        }
    }
}

} // verus!
