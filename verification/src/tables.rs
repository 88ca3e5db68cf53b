//! The two tables of the store, as a mathematical value, and what each
//! statement makes of them.
//!
//! This is the store as one caller sees it while no other caller writes: a
//! statement is answered from what the tables hold, and a statement that
//! writes gives new tables. No two rows of `refs` share a key, `skills`
//! holds no skill twice, and a list of skills that cannot be read is not
//! taken in. What a transaction is, is said in `session`; that no other
//! caller comes between `Begin` and `Commit` is what the handlers rely on
//! the store to see to, as `Query::Begin` says.

use crate::query::AnswerView;
use crate::query::EntityReferenceView;
use crate::query::EntitySkillsView;
use crate::query::QueryView;
use crate::refs::Change;
use crate::registry::Reference;
use crate::registry::Registry;
use crate::skills::detached;
use crate::skills::json_of_names;
use crate::skills::names_of_json;
use vstd::prelude::*;

verus! {

/// A row of the table `refs`, as a mathematical value.
pub struct Row {
    pub refstr: Seq<char>,
    pub name: Seq<char>,
    pub relevant_skills: Seq<u8>,
}

/// The two tables, as a mathematical value.
pub struct Tables {
    pub refs: Seq<Row>,
    pub skills: Seq<Seq<char>>,
}

impl Row {
    /// The row with another list of skills.
    pub open spec fn with_text(self, relevant_skills: Seq<u8>) -> Row {
        Row { refstr: self.refstr, name: self.name, relevant_skills }
    }

    /// The reference that the row stands for.
    pub open spec fn reference(self) -> Reference {
        Reference {
            refstr: self.refstr,
            name: self.name,
            skills: names_of_json(self.relevant_skills)->Some_0,
        }
    }

    /// The row as `FindRef` and `ListRefs` hand it out.
    pub open spec fn named(self) -> EntityReferenceView {
        EntityReferenceView { name: Some(self.name), refstr: Some(self.refstr) }
    }

    /// The row as `FindRefSkills` and `ListRefSkills` hand it out.
    pub open spec fn skilled(self) -> EntitySkillsView {
        EntitySkillsView { refstr: Some(self.refstr), relevant_skills: Some(self.relevant_skills) }
    }
}

/// Whether text that was written for a list of names is read back as
/// that list.
pub open spec fn read_back(text: Seq<u8>) -> bool {
    forall|names: Seq<Seq<char>>|
        text == #[trigger] json_of_names(names) ==> names_of_json(text) == Some(names)
}

impl Tables {
    /// Whether a row has the key `refstr`.
    pub open spec fn has_ref(self, refstr: Seq<char>) -> bool {
        exists|i: int| 0 <= i < self.refs.len() && (#[trigger] self.refs[i]).refstr == refstr
    }

    /// Where the row with the key `refstr` stands, if there is one.
    pub open spec fn position(self, refstr: Seq<char>) -> int {
        choose|i: int| 0 <= i < self.refs.len() && (#[trigger] self.refs[i]).refstr == refstr
    }

    /// No two rows share a key, no skill is listed twice, and every list of
    /// skills can be read.
    pub open spec fn wf(self) -> bool {
        &&& forall|i: int, j: int|
            0 <= i < j < self.refs.len() ==> (#[trigger] self.refs[i]).refstr != (
            #[trigger] self.refs[j]).refstr
        &&& self.skills.no_duplicates()
        &&& forall|i: int|
            0 <= i < self.refs.len() ==> names_of_json(
                (#[trigger] self.refs[i]).relevant_skills,
            ) is Some
    }

    /// What the tables stand for.
    pub open spec fn registry(self) -> Registry {
        Registry {
            refs: Seq::new(self.refs.len(), |i: int| self.refs[i].reference()),
            catalog: self.skills,
        }
    }

    /// The rows in which every row with the key `refstr` has the list
    /// `relevant_skills`.
    pub open spec fn rewritten(self, refstr: Seq<char>, relevant_skills: Seq<u8>) -> Seq<Row> {
        Seq::new(
            self.refs.len(),
            |i: int|
                if self.refs[i].refstr == refstr {
                    self.refs[i].with_text(relevant_skills)
                } else {
                    self.refs[i]
                },
        )
    }

    /// The answer to a statement.
    pub open spec fn reply(self, query: QueryView) -> AnswerView {
        match query {
            QueryView::Begin | QueryView::Commit => AnswerView::Done,
            QueryView::CountRefs { refstr } => AnswerView::Count(
                if self.has_ref(refstr) {
                    1
                } else {
                    0
                },
            ),
            QueryView::InsertRef { refstr, name, relevant_skills } => if self.has_ref(refstr)
                || names_of_json(relevant_skills) is None {
                AnswerView::Failed
            } else {
                AnswerView::Done
            },
            QueryView::DeleteRef { refstr } => AnswerView::Done,
            QueryView::ListRefs => AnswerView::Refs(
                Seq::new(self.refs.len(), |i: int| self.refs[i].named()),
            ),
            QueryView::FindRef { refstr } => AnswerView::Ref(
                if self.has_ref(refstr) {
                    Some(self.refs[self.position(refstr)].named())
                } else {
                    None
                },
            ),
            QueryView::ListRefSkills => AnswerView::RefSkills(
                Seq::new(self.refs.len(), |i: int| self.refs[i].skilled()),
            ),
            QueryView::FindRefSkills { refstr } => AnswerView::RefSkill(
                if self.has_ref(refstr) {
                    Some(self.refs[self.position(refstr)].skilled())
                } else {
                    None
                },
            ),
            QueryView::SetRefSkills { refstr, relevant_skills } => if names_of_json(
                relevant_skills,
            ) is None {
                AnswerView::Failed
            } else {
                AnswerView::Done
            },
            QueryView::CountSkills { skill } => AnswerView::Count(
                if self.skills.contains(skill) {
                    1
                } else {
                    0
                },
            ),
            QueryView::InsertSkill { skill } => if self.skills.contains(skill) {
                AnswerView::Failed
            } else {
                AnswerView::Done
            },
            QueryView::DeleteSkill { skill } => AnswerView::Done,
            QueryView::ListSkills => AnswerView::Skills(
                Seq::new(self.skills.len(), |i: int| Some(self.skills[i])),
            ),
        }
    }

    /// The tables after a statement. A statement that fails changes nothing.
    pub open spec fn next(self, query: QueryView) -> Tables {
        match query {
            QueryView::InsertRef { refstr, name, relevant_skills } => if self.reply(query)
                is Done {
                Tables {
                    refs: self.refs.push(Row { refstr, name, relevant_skills }),
                    skills: self.skills,
                }
            } else {
                self
            },
            QueryView::DeleteRef { refstr } => if self.has_ref(refstr) {
                Tables { refs: self.refs.remove(self.position(refstr)), skills: self.skills }
            } else {
                self
            },
            QueryView::SetRefSkills { refstr, relevant_skills } => if self.reply(query) is Done {
                Tables { refs: self.rewritten(refstr, relevant_skills), skills: self.skills }
            } else {
                self
            },
            QueryView::InsertSkill { skill } => if self.skills.contains(skill) {
                self
            } else {
                Tables { refs: self.refs, skills: self.skills.push(skill) }
            },
            QueryView::DeleteSkill { skill } => if self.skills.contains(skill) {
                Tables { refs: self.refs, skills: self.skills.remove(self.skills.index_of(skill)) }
            } else {
                self
            },
            _ => self,
        }
    }

    /// The registry has a reference under a key where the tables have a
    /// row under it, and at the same place.
    pub proof fn lemma_registry_position(self, refstr: Seq<char>)
        requires
            self.wf(),
        ensures
            self.registry().has_ref(refstr) == self.has_ref(refstr),
            self.has_ref(refstr) ==> {
                &&& self.registry().position(refstr) == self.position(refstr)
                &&& 0 <= self.position(refstr) < self.refs.len()
                &&& self.refs[self.position(refstr)].refstr == refstr
            },
    {
        let registry = self.registry();
        if self.has_ref(refstr) {
            let at = self.position(refstr);
            assert(registry.refs[at].refstr == refstr);
        }
    }

    /// The list of skills of the row at `at`.
    pub open spec fn list_at(self, at: int) -> Seq<Seq<char>> {
        names_of_json(self.refs[at].relevant_skills)->Some_0
    }

    /// Rewriting the list under a key rewrites the list of that reference
    /// in the registry, if the text is read back as the list it was
    /// written for.
    pub proof fn lemma_rewritten(self, refstr: Seq<char>, skills: Seq<Seq<char>>)
        requires
            self.wf(),
            self.has_ref(refstr),
            names_of_json(json_of_names(skills)) == Some(skills),
        ensures
            (Tables {
                refs: self.rewritten(refstr, json_of_names(skills)),
                skills: self.skills,
            }).registry() == self.registry().with_skills(refstr, skills),
    {
        self.lemma_registry_position(refstr);
        let after = Tables {
            refs: self.rewritten(refstr, json_of_names(skills)),
            skills: self.skills,
        };
        assert(after.registry().refs =~= self.registry().with_skills(refstr, skills).refs);
    }

    /// The text of the row at `at` once `skill` is taken out of its list.
    pub open spec fn stripped_text(self, at: int, skill: Seq<char>) -> Seq<u8> {
        json_of_names(detached(self.list_at(at), skill))
    }

    /// Whether `now` is what `self` becomes when `skill` is taken out of
    /// the lists of its first `done` rows, each text being read back as the
    /// list it was written for.
    pub open spec fn stripped_to(self, skill: Seq<char>, done: int, now: Seq<Row>) -> bool {
        &&& now.len() == self.refs.len()
        &&& forall|i: int|
            0 <= i < self.refs.len() ==> (#[trigger] now[i]) == if i < done {
                self.refs[i].with_text(self.stripped_text(i, skill))
            } else {
                self.refs[i]
            }
        &&& forall|i: int|
            0 <= i < self.refs.len() && i < done ==> names_of_json(
                #[trigger] self.stripped_text(i, skill),
            ) == Some(detached(self.list_at(i), skill))
    }

    /// The rows with `skill` taken out of the lists of the first `done`.
    pub open spec fn stripped_rows(self, skill: Seq<char>, done: int) -> Seq<Row> {
        Seq::new(
            self.refs.len(),
            |i: int|
                if i < done {
                    self.refs[i].with_text(self.stripped_text(i, skill))
                } else {
                    self.refs[i]
                },
        )
    }

    /// The tables once `skill` is deleted: out of every list and out of the
    /// catalog.
    pub open spec fn cascaded(self, skill: Seq<char>) -> Tables {
        Tables {
            refs: self.stripped_rows(skill, self.refs.len() as int),
            skills: self.skills.remove(self.skills.index_of(skill)),
        }
    }

    /// What the transaction that deletes `skill` has made of the tables
    /// when `asked` statements were answered in its favour.
    pub open spec fn cascading(self, skill: Seq<char>, asked: int) -> Tables {
        if asked <= 3 {
            self
        } else if asked - 3 <= self.refs.len() {
            Tables { refs: self.stripped_rows(skill, asked - 3), skills: self.skills }
        } else {
            self.cascaded(skill)
        }
    }

    /// The tables once the list under `refstr` is changed.
    pub open spec fn edited(self, refstr: Seq<char>, change: Change, skill: Seq<char>) -> Tables {
        Tables {
            refs: self.rewritten(
                refstr,
                json_of_names(change.apply(self.list_at(self.position(refstr)), skill)),
            ),
            skills: self.skills,
        }
    }
}

} // verus!
