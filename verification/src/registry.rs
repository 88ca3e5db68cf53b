//! What the store holds, as a mathematical value, and what each operation
//! of the service makes of it.

use crate::key::ref_key_spec;
use crate::outcome::Failure;
use crate::query::EntityReferenceView;
use crate::refs::DEFAULT_REF;
use crate::search::ranked;
use crate::skills::attached;
use crate::skills::detached;
use vstd::prelude::*;

verus! {

/// A stored reference.
pub struct Reference {
    /// The key, derived from the name when the reference was created.
    pub refstr: Seq<char>,
    /// The name.
    pub name: Seq<char>,
    /// The skills attached, in the order in which they were attached.
    pub skills: Seq<Seq<char>>,
}

/// The references and the catalog of skills, each in the order in which
/// the entries were made.
pub struct Registry {
    pub refs: Seq<Reference>,
    pub catalog: Seq<Seq<char>>,
}

impl Registry {
    /// The registry that holds nothing.
    pub open spec fn empty() -> Registry {
        Registry { refs: Seq::empty(), catalog: Seq::empty() }
    }

    /// Whether a reference is stored under `refstr`.
    pub open spec fn has_ref(self, refstr: Seq<char>) -> bool {
        exists|i: int| 0 <= i < self.refs.len() && (#[trigger] self.refs[i]).refstr == refstr
    }

    /// Where the reference with the key `refstr` stands, if there is one.
    pub open spec fn position(self, refstr: Seq<char>) -> int {
        choose|i: int| 0 <= i < self.refs.len() && (#[trigger] self.refs[i]).refstr == refstr
    }

    /// No two references share a key, and the catalog holds no skill twice.
    pub open spec fn wf(self) -> bool {
        &&& forall|i: int, j: int|
            0 <= i < j < self.refs.len() ==> (#[trigger] self.refs[i]).refstr != (
            #[trigger] self.refs[j]).refstr
        &&& self.catalog.no_duplicates()
    }

    /// Every skill attached to a reference is in the catalog.
    pub open spec fn consistent(self) -> bool {
        forall|i: int, j: int|
            0 <= i < self.refs.len() && 0 <= j < self.refs[i].skills.len()
                ==> self.catalog.contains(#[trigger] self.refs[i].skills[j])
    }

    /// No reference holds a skill twice.
    pub open spec fn tidy(self) -> bool {
        forall|i: int| 0 <= i < self.refs.len() ==> (#[trigger] self.refs[i]).skills.no_duplicates()
    }

    /// The references with `skill` taken out of every list.
    pub open spec fn stripped(self, skill: Seq<char>) -> Seq<Reference> {
        Seq::new(
            self.refs.len(),
            |i: int|
                Reference {
                    refstr: self.refs[i].refstr,
                    name: self.refs[i].name,
                    skills: detached(self.refs[i].skills, skill),
                },
        )
    }

    /// The registry in which the reference under `refstr` has the list
    /// `skills`.
    pub open spec fn with_skills(self, refstr: Seq<char>, skills: Seq<Seq<char>>) -> Registry {
        let at = self.position(refstr);
        Registry {
            refs: self.refs.update(
                at,
                Reference { refstr: self.refs[at].refstr, name: self.refs[at].name, skills },
            ),
            catalog: self.catalog,
        }
    }

    /// `create_ref`: the registry afterwards and what the caller is told.
    pub open spec fn create_ref(self, name: Seq<char>) -> (Registry, Result<Seq<char>, Failure>) {
        let refstr = ref_key_spec(name);
        if self.has_ref(refstr) {
            (self, Err(Failure::ReferenceExists))
        } else {
            (
                Registry {
                    refs: self.refs.push(Reference { refstr, name, skills: Seq::empty() }),
                    catalog: self.catalog,
                },
                Ok(refstr),
            )
        }
    }

    /// `delete_ref`: the registry afterwards and what the caller is told.
    pub open spec fn delete_ref(self, refstr: Seq<char>) -> (Registry, Result<(), Failure>) {
        if refstr == DEFAULT_REF@ {
            (self, Err(Failure::DefaultReference))
        } else if self.has_ref(refstr) {
            (
                Registry { refs: self.refs.remove(self.position(refstr)), catalog: self.catalog },
                Ok(()),
            )
        } else {
            (self, Ok(()))
        }
    }

    /// `list_refs`: what the caller is told.
    pub open spec fn list_refs(self) -> Result<Seq<EntityReferenceView>, Failure> {
        Ok(
            Seq::new(
                self.refs.len(),
                |i: int|
                    EntityReferenceView {
                        name: Some(self.refs[i].name),
                        refstr: Some(self.refs[i].refstr),
                    },
            ),
        )
    }

    /// `get_ref_name`: what the caller is told.
    pub open spec fn get_ref_name(self, refstr: Seq<char>) -> Result<Seq<char>, Failure> {
        if self.has_ref(refstr) {
            Ok(self.refs[self.position(refstr)].name)
        } else {
            Err(Failure::UnknownReference)
        }
    }

    /// `create_skill`: the registry afterwards and what the caller is told.
    pub open spec fn create_skill(self, name: Seq<char>) -> (Registry, Result<(), Failure>) {
        if self.catalog.contains(name) {
            (self, Err(Failure::SkillExists))
        } else {
            (Registry { refs: self.refs, catalog: self.catalog.push(name) }, Ok(()))
        }
    }

    /// `delete_skill`: the registry afterwards and what the caller is told.
    pub open spec fn delete_skill(self, skill: Seq<char>) -> (Registry, Result<(), Failure>) {
        if self.catalog.contains(skill) {
            (
                Registry {
                    refs: self.stripped(skill),
                    catalog: self.catalog.remove(self.catalog.index_of(skill)),
                },
                Ok(()),
            )
        } else {
            (self, Ok(()))
        }
    }

    /// `list_skills`: what the caller is told.
    pub open spec fn list_skills(self) -> Result<Seq<Seq<char>>, Failure> {
        Ok(self.catalog)
    }

    /// `search_skills`: what the caller is told.
    pub open spec fn search_skills(self, term: Seq<char>, percent: nat) -> Result<
        Seq<Seq<char>>,
        Failure,
    > {
        Ok(ranked(term, self.catalog, percent))
    }

    /// `add_skill_to_ref`: the registry afterwards and what the caller is
    /// told.
    pub open spec fn add_skill_to_ref(self, refstr: Seq<char>, skill: Seq<char>) -> (
        Registry,
        Result<(), Failure>,
    ) {
        if !self.catalog.contains(skill) {
            (self, Err(Failure::UnknownSkill))
        } else if !self.has_ref(refstr) {
            (self, Err(Failure::UnknownReference))
        } else {
            (
                self.with_skills(
                    refstr,
                    attached(self.refs[self.position(refstr)].skills, skill),
                ),
                Ok(()),
            )
        }
    }

    /// `remove_skill_from_ref`: the registry afterwards and what the caller
    /// is told.
    pub open spec fn remove_skill_from_ref(self, refstr: Seq<char>, skill: Seq<char>) -> (
        Registry,
        Result<(), Failure>,
    ) {
        if !self.has_ref(refstr) {
            (self, Err(Failure::UnknownReference))
        } else {
            (
                self.with_skills(
                    refstr,
                    detached(self.refs[self.position(refstr)].skills, skill),
                ),
                Ok(()),
            )
        }
    }

    /// `get_skills`: what the caller is told.
    pub open spec fn get_skills(self, refstr: Seq<char>) -> Result<Seq<Seq<char>>, Failure> {
        if self.has_ref(refstr) {
            Ok(self.refs[self.position(refstr)].skills)
        } else {
            Err(Failure::UnknownReference)
        }
    }
}

} // verus!
