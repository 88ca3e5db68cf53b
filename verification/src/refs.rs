//! The handlers for references and skills.
//!
//! Each handler is a function of its arguments and of the answers that the
//! store has given so far. It says which statement comes next, or what the
//! caller is told. Whoever drives a handler starts with no answers, carries
//! out each statement it asks for, adds the answer, and calls it again until
//! it is done.
//!
//! A handler that writes what depends on what it has read (`delete_skill`,
//! `add_skill_to_ref`, `remove_skill_from_ref`) asks `Begin` first and reads
//! inside the transaction, so that nothing it decides on is out of date when
//! it writes.

pub use crate::query::Count;
pub use crate::query::EntityReference;
pub use crate::query::EntitySkills;

use crate::key::ref_key;
use crate::key::ref_key_spec;
use crate::outcome::Failure;
use crate::query::fault;
use crate::query::Answer;
use crate::query::AnswerView;
use crate::query::EntityReferenceView;
use crate::query::EntitySkillsView;
use crate::query::Query;
use crate::query::QueryView;
use crate::query::Step;
use crate::query::StepView;
use crate::search::rank;
use crate::search::ranked;
use crate::skills::attach;
use crate::skills::attached;
use crate::skills::decode_skills;
use crate::skills::detach;
use crate::skills::detached;
use crate::skills::encode_skills;
use crate::skills::json_of_names;
use crate::skills::names_of_json;
use vstd::prelude::*;

verus! {

/// The key of the default reference, which is never deleted.
pub const DEFAULT_REF: &'static str = "NOREF";

/// What is done with the list of skills of a row.
#[derive(Clone, Copy, Debug, PartialEq, Eq, Structural)]
pub enum Change {
    /// The skill is attached.
    Attach,
    /// The skill is detached.
    Detach,
}

impl Change {
    /// The list after the change.
    pub open spec fn apply(self, list: Seq<Seq<char>>, skill: Seq<char>) -> Seq<Seq<char>> {
        match self {
            Change::Attach => attached(list, skill),
            Change::Detach => detached(list, skill),
        }
    }
}

/// The statement that rewrites the list of skills stored as `text` under
/// `refstr`, or the fault that is reported where the text cannot be read.
pub open spec fn rewrite_spec(
    refstr: Seq<char>,
    text: Seq<u8>,
    change: Change,
    skill: Seq<char>,
) -> StepView<()> {
    match names_of_json(text) {
        Some(list) => StepView::Ask(
            QueryView::SetRefSkills {
                refstr,
                relevant_skills: json_of_names(change.apply(list, skill)),
            },
        ),
        None => fault(),
    }
}

/// Says how the list of skills stored as `text` under `refstr` is rewritten.
pub fn rewrite(refstr: &String, text: &Vec<u8>, change: Change, skill: &String) -> (step: Step<()>)
    ensures
        step.deep_view() == rewrite_spec(refstr@, text@, change, skill@),
{
    match decode_skills(text) {
        Ok(mut list) => {
            let rest = match change {
                Change::Attach => {
                    attach(&mut list, skill.clone());
                    list
                },
                Change::Detach => detach(&list, skill),
            };
            Step::Ask(
                Query::SetRefSkills { refstr: refstr.clone(), relevant_skills: encode_skills(&rest) },
            )
        },
        Err(_) => Step::Done(Err(Failure::Internal)),
    }
}

/// The statement that strips `skill` from a row read by `ListRefSkills`, or
/// the fault that is reported where the row lacks its key or its list.
pub open spec fn strip_spec(row: EntitySkillsView, skill: Seq<char>) -> StepView<()> {
    match (row.refstr, row.relevant_skills) {
        (Some(refstr), Some(text)) => rewrite_spec(refstr, text, Change::Detach, skill),
        _ => fault(),
    }
}

/// The steps of `delete_skill`.
pub open spec fn delete_skill_spec(skill: Seq<char>, answers: Seq<AnswerView>) -> StepView<()> {
    let n = answers.len();
    if n == 0 {
        StepView::Ask(QueryView::Begin)
    } else if n == 1 {
        if answers[0] is Done {
            StepView::Ask(QueryView::CountSkills { skill })
        } else {
            fault()
        }
    } else if n == 2 {
        match answers[1] {
            AnswerView::Count(count) => if count == 0 {
                StepView::Done(Ok(()))
            } else {
                StepView::Ask(QueryView::ListRefSkills)
            },
            _ => fault(),
        }
    } else {
        match answers[2] {
            AnswerView::RefSkills(rows) => {
                let rewritten = n - 3;
                if n > 3 && !(answers[n - 1] is Done) {
                    fault()
                } else if rewritten < rows.len() {
                    strip_spec(rows[rewritten], skill)
                } else if rewritten == rows.len() {
                    StepView::Ask(QueryView::DeleteSkill { skill })
                } else if rewritten == rows.len() + 1 {
                    StepView::Ask(QueryView::Commit)
                } else {
                    StepView::Done(Ok(()))
                }
            },
            _ => fault(),
        }
    }
}

/// Deletes a skill from the catalog and from every reference.
///
/// In one transaction: if the catalog does not hold the skill, nothing is
/// changed and the caller is told that all is well. Else every row of `refs`
/// is read, the list of each is rewritten without the skill, row by row in
/// the order in which the rows were read, then the skill leaves the catalog
/// and the transaction is made to last. A statement that fails, a row
/// without key or list, or a list that cannot be read ends the handler with
/// `Failure::Internal` before `Commit` is asked.
pub fn delete_skill(skill: &String, answers: &Vec<Answer>) -> (step: Step<()>)
    ensures
        step.deep_view() == delete_skill_spec(skill@, answers.deep_view()),
{
    let n = answers.len();
    if n == 0 {
        return Step::Ask(Query::Begin);
    }
    if n == 1 {
        return match &answers[0] {
            Answer::Done => Step::Ask(Query::CountSkills { skill: skill.clone() }),
            _ => Step::Done(Err(Failure::Internal)),
        };
    }
    if n == 2 {
        return match &answers[1] {
            Answer::Count(row) => if row.count == 0 {
                Step::Done(Ok(()))
            } else {
                Step::Ask(Query::ListRefSkills)
            },
            _ => Step::Done(Err(Failure::Internal)),
        };
    }
    match &answers[2] {
        Answer::RefSkills(rows) => {
            if n > 3 {
                match &answers[n - 1] {
                    Answer::Done => {},
                    _ => {
                        return Step::Done(Err(Failure::Internal));
                    },
                }
            }
            let rewritten = n - 3;
            if rewritten < rows.len() {
                let row = &rows[rewritten];
                match (&row.refstr, &row.relevant_skills) {
                    (Some(refstr), Some(text)) => rewrite(refstr, text, Change::Detach, skill),
                    _ => Step::Done(Err(Failure::Internal)),
                }
            } else if rewritten == rows.len() {
                Step::Ask(Query::DeleteSkill { skill: skill.clone() })
            } else if rewritten - 1 == rows.len() {
                Step::Ask(Query::Commit)
            } else {
                Step::Done(Ok(()))
            }
        },
        _ => Step::Done(Err(Failure::Internal)),
    }
}

/// The steps that read the list of one reference, write it back changed and
/// make the transaction last. `answers[from]` is the answer to
/// `FindRefSkills`.
pub open spec fn rewrite_steps_spec(
    refstr: Seq<char>,
    change: Change,
    skill: Seq<char>,
    answers: Seq<AnswerView>,
    from: int,
) -> StepView<()> {
    let n = answers.len() - from;
    if n <= 0 {
        StepView::Ask(QueryView::FindRefSkills { refstr })
    } else if n == 1 {
        match answers[from] {
            AnswerView::RefSkill(None) => StepView::Done(Err(Failure::UnknownReference)),
            AnswerView::RefSkill(Some(row)) => match row.relevant_skills {
                Some(text) => rewrite_spec(refstr, text, change, skill),
                None => fault(),
            },
            _ => fault(),
        }
    } else if n == 2 {
        if answers[from + 1] is Done {
            StepView::Ask(QueryView::Commit)
        } else {
            fault()
        }
    } else {
        if answers[from + 2] is Done {
            StepView::Done(Ok(()))
        } else {
            fault()
        }
    }
}

/// Says how the list of one reference is read, written back changed and
/// made to last. `answers[from]` is the answer to `FindRefSkills`.
pub fn rewrite_steps(
    refstr: &String,
    change: Change,
    skill: &String,
    answers: &Vec<Answer>,
    from: usize,
) -> (step: Step<()>)
    ensures
        step.deep_view() == rewrite_steps_spec(
            refstr@,
            change,
            skill@,
            answers.deep_view(),
            from as int,
        ),
{
    if answers.len() <= from {
        return Step::Ask(Query::FindRefSkills { refstr: refstr.clone() });
    }
    let n = answers.len() - from;
    if n == 1 {
        match &answers[from] {
            Answer::RefSkill(None) => Step::Done(Err(Failure::UnknownReference)),
            Answer::RefSkill(Some(row)) => match &row.relevant_skills {
                Some(text) => rewrite(refstr, text, change, skill),
                None => Step::Done(Err(Failure::Internal)),
            },
            _ => Step::Done(Err(Failure::Internal)),
        }
    } else if n == 2 {
        match &answers[from + 1] {
            Answer::Done => Step::Ask(Query::Commit),
            _ => Step::Done(Err(Failure::Internal)),
        }
    } else {
        match &answers[from + 2] {
            Answer::Done => Step::Done(Ok(())),
            _ => Step::Done(Err(Failure::Internal)),
        }
    }
}

/// The steps that change the list of one reference, all of them in one
/// transaction. `Begin` is asked first. A skill that is to be attached is
/// looked up in the catalog next, inside the transaction; then the list is
/// read, written back and the transaction made to last. A statement that
/// failed ends the handler.
pub open spec fn edit_spec(
    refstr: Seq<char>,
    change: Change,
    skill: Seq<char>,
    answers: Seq<AnswerView>,
) -> StepView<()> {
    if answers.len() == 0 {
        StepView::Ask(QueryView::Begin)
    } else if answers.last() is Failed || !(answers[0] is Done) {
        fault()
    } else if change == Change::Detach {
        rewrite_steps_spec(refstr, change, skill, answers, 1)
    } else if answers.len() == 1 {
        StepView::Ask(QueryView::CountSkills { skill })
    } else {
        match answers[1] {
            AnswerView::Count(count) => if count == 0 {
                StepView::Done(Err(Failure::UnknownSkill))
            } else {
                rewrite_steps_spec(refstr, change, skill, answers, 2)
            },
            _ => fault(),
        }
    }
}

/// Changes the list of skills of one reference in one transaction.
///
/// Everything that the change depends on is read inside the transaction:
/// for a skill that is to be attached the catalog, then the list of the
/// reference. A skill that the catalog does not hold is reported as
/// `Failure::UnknownSkill`, a reference that is not stored as
/// `Failure::UnknownReference`; a statement that fails, a row without a list
/// and a list that cannot be read as `Failure::Internal`. None of these is
/// followed by `Commit`, so nothing of the transaction lasts.
pub fn edit(refstr: &String, change: Change, skill: &String, answers: &Vec<Answer>) -> (step: Step<
    (),
>)
    ensures
        step.deep_view() == edit_spec(refstr@, change, skill@, answers.deep_view()),
{
    let n = answers.len();
    if n == 0 {
        return Step::Ask(Query::Begin);
    }
    match &answers[n - 1] {
        Answer::Failed => {
            return Step::Done(Err(Failure::Internal));
        },
        _ => {},
    }
    match &answers[0] {
        Answer::Done => {},
        _ => {
            return Step::Done(Err(Failure::Internal));
        },
    }
    match change {
        Change::Detach => rewrite_steps(refstr, change, skill, answers, 1),
        Change::Attach => {
            if n == 1 {
                return Step::Ask(Query::CountSkills { skill: skill.clone() });
            }
            match &answers[1] {
                Answer::Count(row) => if row.count == 0 {
                    Step::Done(Err(Failure::UnknownSkill))
                } else {
                    rewrite_steps(refstr, change, skill, answers, 2)
                },
                _ => Step::Done(Err(Failure::Internal)),
            }
        },
    }
}

/// The steps of `add_skill_to_ref`.
pub open spec fn add_skill_to_ref_spec(
    refstr: Seq<char>,
    skill: Seq<char>,
    answers: Seq<AnswerView>,
) -> StepView<()> {
    edit_spec(refstr, Change::Attach, skill, answers)
}

/// Attaches a skill to a reference.
///
/// In one transaction: the skill is looked up in the catalog, and one that
/// the catalog does not hold is reported as `Failure::UnknownSkill`. Else
/// the list of the reference is read and written back with the skill at its
/// end, or as it was if it holds the skill already. Because the catalog is
/// read inside the transaction, a skill that was deleted before the
/// transaction began is never attached.
pub fn add_skill_to_ref(refstr: &String, skill: &String, answers: &Vec<Answer>) -> (step: Step<()>)
    ensures
        step.deep_view() == add_skill_to_ref_spec(refstr@, skill@, answers.deep_view()),
{
    edit(refstr, Change::Attach, skill, answers)
}

/// The steps of `create_ref`.
pub open spec fn create_ref_spec(name: Seq<char>, answers: Seq<AnswerView>) -> StepView<Seq<char>> {
    let refstr = ref_key_spec(name);
    if answers.len() == 0 {
        StepView::Ask(QueryView::CountRefs { refstr })
    } else {
        match answers[0] {
            AnswerView::Count(count) => if count != 0 {
                StepView::Done(Err(Failure::ReferenceExists))
            } else if answers.len() == 1 {
                StepView::Ask(
                    QueryView::InsertRef {
                        refstr,
                        name,
                        relevant_skills: json_of_names(Seq::empty()),
                    },
                )
            } else if answers[1] is Done {
                StepView::Done(Ok(refstr))
            } else {
                fault()
            },
            _ => fault(),
        }
    }
}

/// Creates the reference called `name`, with no skills, under the key that
/// is derived from the name, and hands the key to the caller. Where a
/// reference is stored under that key already, nothing is written and
/// `Failure::ReferenceExists` is reported.
pub fn create_ref(name: &String, answers: &Vec<Answer>) -> (step: Step<String>)
    ensures
        step.deep_view() == create_ref_spec(name@, answers.deep_view()),
{
    let refstr = ref_key(name);
    if answers.len() == 0 {
        return Step::Ask(Query::CountRefs { refstr });
    }
    match &answers[0] {
        Answer::Count(row) => if row.count != 0 {
            Step::Done(Err(Failure::ReferenceExists))
        } else if answers.len() == 1 {
            let none: Vec<String> = Vec::new();
            assert(none.deep_view() =~= Seq::<Seq<char>>::empty());
            Step::Ask(
                Query::InsertRef {
                    refstr,
                    name: name.clone(),
                    relevant_skills: encode_skills(&none),
                },
            )
        } else {
            match &answers[1] {
                Answer::Done => Step::Done(Ok(refstr)),
                _ => Step::Done(Err(Failure::Internal)),
            }
        },
        _ => Step::Done(Err(Failure::Internal)),
    }
}

/// The steps of `remove_skill_from_ref`.
pub open spec fn remove_skill_from_ref_spec(
    refstr: Seq<char>,
    skill: Seq<char>,
    answers: Seq<AnswerView>,
) -> StepView<()> {
    edit_spec(refstr, Change::Detach, skill, answers)
}

/// Detaches a skill from a reference: in one transaction, the list of the
/// reference is read and written back without the skill. A skill that is not
/// in the list is no error.
pub fn remove_skill_from_ref(refstr: &String, skill: &String, answers: &Vec<Answer>) -> (step: Step<
    (),
>)
    ensures
        step.deep_view() == remove_skill_from_ref_spec(refstr@, skill@, answers.deep_view()),
{
    edit(refstr, Change::Detach, skill, answers)
}

/// The steps of `create_skill`.
pub open spec fn create_skill_spec(name: Seq<char>, answers: Seq<AnswerView>) -> StepView<()> {
    if answers.len() == 0 {
        StepView::Ask(QueryView::CountSkills { skill: name })
    } else {
        match answers[0] {
            AnswerView::Count(count) => if count > 0 {
                StepView::Done(Err(Failure::SkillExists))
            } else if answers.len() == 1 {
                StepView::Ask(QueryView::InsertSkill { skill: name })
            } else if answers[1] is Done {
                StepView::Done(Ok(()))
            } else {
                fault()
            },
            _ => fault(),
        }
    }
}

/// Adds a skill to the catalog. A skill that the catalog holds already is
/// reported as `Failure::SkillExists`, and nothing is written.
pub fn create_skill(name: &String, answers: &Vec<Answer>) -> (step: Step<()>)
    ensures
        step.deep_view() == create_skill_spec(name@, answers.deep_view()),
{
    if answers.len() == 0 {
        return Step::Ask(Query::CountSkills { skill: name.clone() });
    }
    match &answers[0] {
        Answer::Count(row) => if row.count > 0 {
            Step::Done(Err(Failure::SkillExists))
        } else if answers.len() == 1 {
            Step::Ask(Query::InsertSkill { skill: name.clone() })
        } else {
            match &answers[1] {
                Answer::Done => Step::Done(Ok(())),
                _ => Step::Done(Err(Failure::Internal)),
            }
        },
        _ => Step::Done(Err(Failure::Internal)),
    }
}

/// The steps of `get_ref_name`.
pub open spec fn get_ref_name_spec(refstr: Seq<char>, answers: Seq<AnswerView>) -> StepView<
    Seq<char>,
> {
    if answers.len() == 0 {
        StepView::Ask(QueryView::FindRef { refstr })
    } else {
        match answers[0] {
            AnswerView::Ref(None) => StepView::Done(Err(Failure::UnknownReference)),
            AnswerView::Ref(Some(row)) => match row.name {
                Some(name) => StepView::Done(Ok(name)),
                None => fault(),
            },
            _ => fault(),
        }
    }
}

/// Looks up the name of a reference. A key under which nothing is stored is
/// reported as `Failure::UnknownReference`, a row without a name as
/// `Failure::Internal`.
pub fn get_ref_name(refstr: &String, answers: &Vec<Answer>) -> (step: Step<String>)
    ensures
        step.deep_view() == get_ref_name_spec(refstr@, answers.deep_view()),
{
    if answers.len() == 0 {
        return Step::Ask(Query::FindRef { refstr: refstr.clone() });
    }
    match &answers[0] {
        Answer::Ref(None) => Step::Done(Err(Failure::UnknownReference)),
        Answer::Ref(Some(row)) => match &row.name {
            Some(name) => Step::Done(Ok(name.clone())),
            None => Step::Done(Err(Failure::Internal)),
        },
        _ => Step::Done(Err(Failure::Internal)),
    }
}

/// The steps of `delete_ref`.
pub open spec fn delete_ref_spec(refstr: Seq<char>, answers: Seq<AnswerView>) -> StepView<()> {
    if refstr == DEFAULT_REF@ {
        StepView::Done(Err(Failure::DefaultReference))
    } else if answers.len() == 0 {
        StepView::Ask(QueryView::DeleteRef { refstr })
    } else if answers[0] is Done {
        StepView::Done(Ok(()))
    } else {
        fault()
    }
}

/// Deletes a reference. The default reference is never deleted: for its key
/// nothing is asked of the store and `Failure::DefaultReference` is
/// reported. Deleting what is not stored is no error.
pub fn delete_ref(refstr: &String, answers: &Vec<Answer>) -> (step: Step<()>)
    ensures
        step.deep_view() == delete_ref_spec(refstr@, answers.deep_view()),
{
    let permanent = DEFAULT_REF.to_owned();
    if *refstr == permanent {
        return Step::Done(Err(Failure::DefaultReference));
    }
    if answers.len() == 0 {
        return Step::Ask(Query::DeleteRef { refstr: refstr.clone() });
    }
    match &answers[0] {
        Answer::Done => Step::Done(Ok(())),
        _ => Step::Done(Err(Failure::Internal)),
    }
}

/// Whether every row holds a value.
pub open spec fn all_present(rows: Seq<Option<Seq<char>>>) -> bool {
    forall|i: int| 0 <= i < rows.len() ==> (#[trigger] rows[i]) is Some
}

/// The values of rows that all hold one, in their order.
pub open spec fn values(rows: Seq<Option<Seq<char>>>) -> Seq<Seq<char>> {
    Seq::new(rows.len(), |i: int| rows[i]->Some_0)
}

/// The steps of `list_skills`.
pub open spec fn list_skills_spec(answers: Seq<AnswerView>) -> StepView<Seq<Seq<char>>> {
    if answers.len() == 0 {
        StepView::Ask(QueryView::ListSkills)
    } else {
        match answers[0] {
            AnswerView::Skills(rows) => if all_present(rows) {
                StepView::Done(Ok(values(rows)))
            } else {
                fault()
            },
            _ => fault(),
        }
    }
}

/// The values of the rows, if every row holds one.
pub fn present_values(rows: &Vec<Option<String>>) -> (names: Option<Vec<String>>)
    ensures
        match names {
            Some(found) => all_present(rows.deep_view()) && found.deep_view() == values(
                rows.deep_view(),
            ),
            None => !all_present(rows.deep_view()),
        },
{
    let mut names: Vec<String> = Vec::new();
    let mut i: usize = 0;
    while i < rows.len()
        invariant
            i <= rows.len(),
            names.len() == i,
            forall|j: int| 0 <= j < i ==> (#[trigger] rows.deep_view()[j]) is Some,
            forall|j: int|
                0 <= j < i ==> (#[trigger] names.deep_view()[j]) == rows.deep_view()[j]->Some_0,
        decreases rows.len() - i,
    {
        match &rows[i] {
            Some(name) => {
                let ghost before = names.deep_view();
                names.push(name.clone());
                assert(names.deep_view() =~= before.push(name@));
            },
            None => {
                assert(rows.deep_view()[i as int] is None);
                return None;
            },
        }
        i += 1;
    }
    Some(names)
}

/// Lists the skills of the catalog, in the order in which the store hands
/// them out. A row without a value is reported as `Failure::Internal`.
pub fn list_skills(answers: &Vec<Answer>) -> (step: Step<Vec<String>>)
    ensures
        step.deep_view() == list_skills_spec(answers.deep_view()),
{
    if answers.len() == 0 {
        return Step::Ask(Query::ListSkills);
    }
    match &answers[0] {
        Answer::Skills(rows) => match present_values(rows) {
            Some(names) => Step::Done(Ok(names)),
            None => Step::Done(Err(Failure::Internal)),
        },
        _ => Step::Done(Err(Failure::Internal)),
    }
}

/// The steps of `search_skills`.
pub open spec fn search_skills_spec(
    term: Seq<char>,
    percent: nat,
    answers: Seq<AnswerView>,
) -> StepView<Seq<Seq<char>>> {
    if answers.len() == 0 {
        StepView::Ask(QueryView::ListSkills)
    } else {
        match answers[0] {
            AnswerView::Skills(rows) => if all_present(rows) {
                StepView::Done(Ok(ranked(term, values(rows), percent)))
            } else {
                fault()
            },
            _ => fault(),
        }
    }
}

/// Searches the catalog for skills that are close to `term`: lists those
/// whose score reaches `percent` hundredths, from the lowest score to the
/// highest. Where no skill comes close the list is empty; that is no
/// failure.
pub fn search_skills(term: &String, percent: u32, answers: &Vec<Answer>) -> (step: Step<
    Vec<String>,
>)
    ensures
        step.deep_view() == search_skills_spec(term@, percent as nat, answers.deep_view()),
{
    if answers.len() == 0 {
        return Step::Ask(Query::ListSkills);
    }
    match &answers[0] {
        Answer::Skills(rows) => match present_values(rows) {
            Some(names) => Step::Done(Ok(rank(term, &names, percent))),
            None => Step::Done(Err(Failure::Internal)),
        },
        _ => Step::Done(Err(Failure::Internal)),
    }
}

/// The steps of `get_skills`.
pub open spec fn get_skills_spec(refstr: Seq<char>, answers: Seq<AnswerView>) -> StepView<
    Seq<Seq<char>>,
> {
    if answers.len() == 0 {
        StepView::Ask(QueryView::FindRefSkills { refstr })
    } else {
        match answers[0] {
            AnswerView::RefSkill(None) => StepView::Done(Err(Failure::UnknownReference)),
            AnswerView::RefSkill(Some(row)) => match row.relevant_skills {
                Some(text) => match names_of_json(text) {
                    Some(list) => StepView::Done(Ok(list)),
                    None => fault(),
                },
                None => fault(),
            },
            _ => fault(),
        }
    }
}

/// Reads the skills attached to a reference, in the order in which they
/// were attached. A key under which nothing is stored is reported as
/// `Failure::UnknownReference`; a row without a list and a list that cannot
/// be read as `Failure::Internal`.
pub fn get_skills(refstr: &String, answers: &Vec<Answer>) -> (step: Step<Vec<String>>)
    ensures
        step.deep_view() == get_skills_spec(refstr@, answers.deep_view()),
{
    if answers.len() == 0 {
        return Step::Ask(Query::FindRefSkills { refstr: refstr.clone() });
    }
    match &answers[0] {
        Answer::RefSkill(None) => Step::Done(Err(Failure::UnknownReference)),
        Answer::RefSkill(Some(row)) => match &row.relevant_skills {
            Some(text) => match decode_skills(text) {
                Ok(list) => Step::Done(Ok(list)),
                Err(_) => Step::Done(Err(Failure::Internal)),
            },
            None => Step::Done(Err(Failure::Internal)),
        },
        _ => Step::Done(Err(Failure::Internal)),
    }
}

/// The steps of `list_refs`.
pub open spec fn list_refs_spec(answers: Seq<AnswerView>) -> StepView<Seq<EntityReferenceView>> {
    if answers.len() == 0 {
        StepView::Ask(QueryView::ListRefs)
    } else {
        match answers[0] {
            AnswerView::Refs(rows) => StepView::Done(Ok(rows)),
            _ => fault(),
        }
    }
}

/// Lists the key and the name of every reference, in the order in which the
/// store hands them out.
pub fn list_refs(answers: &Vec<Answer>) -> (step: Step<Vec<EntityReference>>)
    ensures
        step.deep_view() == list_refs_spec(answers.deep_view()),
{
    if answers.len() == 0 {
        return Step::Ask(Query::ListRefs);
    }
    match &answers[0] {
        Answer::Refs(rows) => {
            let mut copies: Vec<EntityReference> = Vec::new();
            let mut i: usize = 0;
            while i < rows.len()
                invariant
                    i <= rows.len(),
                    copies.len() == i,
                    forall|j: int|
                        0 <= j < i ==> (#[trigger] copies.deep_view()[j]) == rows.deep_view()[j],
                decreases rows.len() - i,
            {
                let ghost before = copies.deep_view();
                let copy = rows[i].copy();
                copies.push(copy);
                assert(copies.deep_view() =~= before.push(rows.deep_view()[i as int]));
                i += 1;
            }
            assert(copies.deep_view() =~= rows.deep_view());
            Step::Done(Ok(copies))
        },
        _ => Step::Done(Err(Failure::Internal)),
    }
}

} // verus!
