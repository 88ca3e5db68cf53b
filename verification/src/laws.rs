//! What holds of the service whatever the registry holds.

use crate::key::is_url_safe;
use crate::key::law_ref_key_stable;
use crate::key::ref_key_spec;
use crate::key::KEY_LEN;
use crate::outcome::Failure;
use crate::query::AnswerView;
use crate::query::StepView;
use crate::query::fault;
use crate::query::QueryView;
use crate::refs::add_skill_to_ref_spec;
use crate::refs::create_ref_spec;
use crate::refs::delete_ref_spec;
use crate::refs::delete_skill_spec;
use crate::refs::remove_skill_from_ref_spec;
use crate::refs::DEFAULT_REF;
use crate::registry::Registry;
use crate::search::ascending;
use crate::search::law_ranked;
use crate::search::reaches;
use crate::skills::attached;
use crate::skills::lemma_detached_absent;
use crate::skills::lemma_detached_no_duplicates;
use crate::skills::lemma_detached_contains;
use crate::skills::lemma_push_contains;
use vstd::prelude::*;

verus! {

/// Whether `list` holds `skill` at one place and no other.
pub open spec fn holds_once(list: Seq<Seq<char>>, skill: Seq<char>) -> bool {
    exists|i: int|
        0 <= i < list.len() && #[trigger] list[i] == skill && forall|j: int|
            0 <= j < list.len() && #[trigger] list[j] == skill ==> j == i
}

/// Whether `list` holds `skill` at one place at most.
pub open spec fn holds_at_most_once(list: Seq<Seq<char>>, skill: Seq<char>) -> bool {
    forall|i: int, j: int|
        0 <= i < list.len() && 0 <= j < list.len() && #[trigger] list[i] == skill
            && #[trigger] list[j] == skill ==> i == j
}

/// In a well-formed registry a key belongs to one place only.
pub proof fn lemma_position(registry: Registry, at: int)
    requires
        registry.wf(),
        0 <= at < registry.refs.len(),
    ensures
        registry.has_ref(registry.refs[at].refstr),
        registry.position(registry.refs[at].refstr) == at,
{
}

/// A catalog without duplicates holds, once a skill was taken out, every
/// other skill that it held and nothing else.
pub proof fn lemma_catalog_without(catalog: Seq<Seq<char>>, skill: Seq<char>, other: Seq<char>)
    requires
        catalog.no_duplicates(),
        catalog.contains(skill),
    ensures
        catalog.remove(catalog.index_of(skill)).no_duplicates(),
        catalog.remove(catalog.index_of(skill)).contains(other) <==> (catalog.contains(other)
            && other != skill),
{
    let at = catalog.index_of(skill);
    let rest = catalog.remove(at);
    if catalog.contains(other) && other != skill {
        let i = choose|i: int| 0 <= i < catalog.len() && catalog[i] == other;
        let to_i = if i < at { i } else { i - 1 };
        assert(rest[to_i] == other);
    }
}

/// Every operation leaves a well-formed registry well-formed.
pub proof fn law_well_formed(registry: Registry, name: Seq<char>, skill: Seq<char>)
    requires
        registry.wf(),
    ensures
        registry.create_ref(name).0.wf(),
        registry.delete_ref(name).0.wf(),
        registry.create_skill(skill).0.wf(),
        registry.delete_skill(skill).0.wf(),
        registry.add_skill_to_ref(name, skill).0.wf(),
        registry.remove_skill_from_ref(name, skill).0.wf(),
{
}

/// No operation attaches a skill that the catalog does not hold: where
/// every attached skill is in the catalog before an operation, every
/// attached skill is in the catalog after it.
pub proof fn law_consistent(registry: Registry, name: Seq<char>, skill: Seq<char>)
    requires
        registry.wf(),
        registry.consistent(),
    ensures
        registry.create_ref(name).0.consistent(),
        registry.delete_ref(name).0.consistent(),
        registry.create_skill(skill).0.consistent(),
        registry.delete_skill(skill).0.consistent(),
        registry.add_skill_to_ref(name, skill).0.consistent(),
        registry.remove_skill_from_ref(name, skill).0.consistent(),
{
    let listed = registry.create_skill(skill).0;
    assert forall|i: int, j: int|
        0 <= i < listed.refs.len() && 0 <= j < listed.refs[i].skills.len()
            implies listed.catalog.contains(#[trigger] listed.refs[i].skills[j]) by {
        lemma_push_contains(registry.catalog, skill, registry.refs[i].skills[j]);
    }
    let unlisted = registry.delete_skill(skill).0;
    if registry.catalog.contains(skill) {
        assert forall|i: int, j: int|
            0 <= i < unlisted.refs.len() && 0 <= j < unlisted.refs[i].skills.len()
                implies unlisted.catalog.contains(#[trigger] unlisted.refs[i].skills[j]) by {
            let kept = unlisted.refs[i].skills[j];
            let list = registry.refs[i].skills;
            lemma_detached_contains(list, skill, kept);
            lemma_catalog_without(registry.catalog, skill, kept);
        }
    }
    let removed = registry.remove_skill_from_ref(name, skill).0;
    if registry.has_ref(name) {
        let at = registry.position(name);
        assert forall|i: int, j: int|
            0 <= i < removed.refs.len() && 0 <= j < removed.refs[i].skills.len()
                implies removed.catalog.contains(#[trigger] removed.refs[i].skills[j]) by {
            if i == at {
                let kept = removed.refs[i].skills[j];
                let list = registry.refs[at].skills;
                lemma_detached_contains(list, skill, kept);
            }
        }
    }
}

/// No operation attaches a skill twice: where no reference holds a skill
/// twice before an operation, none does after it.
pub proof fn law_tidy(registry: Registry, name: Seq<char>, skill: Seq<char>)
    requires
        registry.wf(),
        registry.tidy(),
    ensures
        registry.create_ref(name).0.tidy(),
        registry.delete_ref(name).0.tidy(),
        registry.create_skill(skill).0.tidy(),
        registry.delete_skill(skill).0.tidy(),
        registry.add_skill_to_ref(name, skill).0.tidy(),
        registry.remove_skill_from_ref(name, skill).0.tidy(),
{
    let unlisted = registry.delete_skill(skill).0;
    if registry.catalog.contains(skill) {
        assert forall|i: int| 0 <= i < unlisted.refs.len() implies (
        #[trigger] unlisted.refs[i]).skills.no_duplicates() by {
            lemma_detached_no_duplicates(registry.refs[i].skills, skill);
        }
    }
    if registry.has_ref(name) {
        let at = registry.position(name);
        lemma_detached_no_duplicates(registry.refs[at].skills, skill);
    }
}

/// The key that `create_ref` hands out is the key of the name: it has
/// `KEY_LEN` characters, each a letter, a digit, `-` or `_`, and the same
/// name gives the same key whatever the store holds or answers.
pub proof fn law_created_key(registry: Registry, name: Seq<char>, answers: Seq<AnswerView>)
    ensures
        create_ref_spec(name, answers) matches StepView::Done(Ok(key)) ==> key == ref_key_spec(
            name,
        ),
        registry.create_ref(name).1 matches Ok(key) ==> key == ref_key_spec(name),
        ref_key_spec(name).len() == KEY_LEN,
        forall|i: int| 0 <= i < KEY_LEN ==> is_url_safe(#[trigger] ref_key_spec(name)[i]),
{
    law_ref_key_stable(name, name);
}

/// Creating a reference twice under one name: the second attempt is turned
/// down as a conflict and changes nothing.
pub proof fn law_create_ref_twice(registry: Registry, name: Seq<char>)
    ensures
        ({
            let first = registry.create_ref(name);
            let second = first.0.create_ref(name);
            second.1 == Err::<Seq<char>, Failure>(Failure::ReferenceExists) && second.0 == first.0
        }),
{
    let first = registry.create_ref(name);
    if !registry.has_ref(ref_key_spec(name)) {
        assert(first.0.refs[registry.refs.len() as int].refstr == ref_key_spec(name));
    }
}

/// Attaching a skill twice to a reference that holds it at most once:
/// both attempts succeed, the second changes nothing, and the reference
/// then holds the skill exactly once.
pub proof fn law_add_skill_twice(registry: Registry, refstr: Seq<char>, skill: Seq<char>)
    requires
        registry.wf(),
        registry.has_ref(refstr),
        registry.catalog.contains(skill),
        holds_at_most_once(registry.refs[registry.position(refstr)].skills, skill),
    ensures
        ({
            let first = registry.add_skill_to_ref(refstr, skill);
            let second = first.0.add_skill_to_ref(refstr, skill);
            &&& first.1 == Ok::<(), Failure>(())
            &&& second.1 == Ok::<(), Failure>(())
            &&& second.0 == first.0
            &&& second.0.get_skills(refstr) matches Ok(list)
            &&& holds_once(list, skill)
        }),
{
    let at = registry.position(refstr);
    let before = registry.refs[at].skills;
    let first = registry.add_skill_to_ref(refstr, skill).0;
    lemma_position(first, at);
    lemma_push_contains(before, skill, skill);
    assert(first.add_skill_to_ref(refstr, skill).0.refs =~= first.refs);
}

/// Detaching a skill that is not attached succeeds and changes nothing.
pub proof fn law_remove_absent_skill(registry: Registry, refstr: Seq<char>, skill: Seq<char>)
    requires
        registry.wf(),
        registry.has_ref(refstr),
        !registry.refs[registry.position(refstr)].skills.contains(skill),
    ensures
        registry.remove_skill_from_ref(refstr, skill).1 == Ok::<(), Failure>(()),
        registry.remove_skill_from_ref(refstr, skill).0 == registry,
{
    let at = registry.position(refstr);
    lemma_detached_absent(registry.refs[at].skills, skill);
    assert(registry.remove_skill_from_ref(refstr, skill).0.refs =~= registry.refs);
}

/// Deleting a skill takes it out of the catalog and out of every
/// reference: afterwards no reference holds it, and the list of the catalog
/// does not hold it. (Where the catalog does not hold the skill nothing is
/// changed; then no reference holds it if every attached skill is in the
/// catalog.)
pub proof fn law_delete_skill_cascades(registry: Registry, skill: Seq<char>, refstr: Seq<char>)
    requires
        registry.wf(),
        registry.catalog.contains(skill) || registry.consistent(),
    ensures
        ({
            let after = registry.delete_skill(skill).0;
            &&& registry.delete_skill(skill).1 == Ok::<(), Failure>(())
            &&& after.has_ref(refstr) == registry.has_ref(refstr)
            &&& after.get_skills(refstr) matches Ok(list) ==> !list.contains(skill)
            &&& after.list_skills() matches Ok(names) && !names.contains(skill)
        }),
{
    let after = registry.delete_skill(skill).0;
    if registry.has_ref(refstr) {
        let at = registry.position(refstr);
        assert(after.refs[at].refstr == refstr);
        if !registry.catalog.contains(skill) && registry.refs[at].skills.contains(skill) {
            let j = choose|j: int|
                0 <= j < registry.refs[at].skills.len() && registry.refs[at].skills[j] == skill;
            assert(registry.catalog.contains(registry.refs[at].skills[j]));
        }
    }
}

/// Deleting a skill that the catalog does not hold succeeds and changes
/// nothing.
pub proof fn law_delete_absent_skill(registry: Registry, skill: Seq<char>)
    requires
        !registry.catalog.contains(skill),
    ensures
        registry.delete_skill(skill) == (registry, Ok::<(), Failure>(())),
{
}

/// The default reference is never deleted, whatever the store holds and
/// whatever it has answered: nothing is asked of the store, and the caller
/// is told that the request is a bad one.
pub proof fn law_default_ref_permanent(registry: Registry, answers: Seq<AnswerView>)
    ensures
        delete_ref_spec(DEFAULT_REF@, answers) == StepView::Done(
            Err::<(), Failure>(Failure::DefaultReference),
        ),
        registry.delete_ref(DEFAULT_REF@) == (
            registry,
            Err::<(), Failure>(Failure::DefaultReference),
        ),
{
}

/// Two skills attached to one reference, one after the other, are both
/// attached afterwards, whichever came first.
pub proof fn law_both_skills_attached(
    registry: Registry,
    refstr: Seq<char>,
    first: Seq<char>,
    second: Seq<char>,
)
    requires
        registry.wf(),
        registry.has_ref(refstr),
        registry.catalog.contains(first),
        registry.catalog.contains(second),
    ensures
        ({
            let after = registry.add_skill_to_ref(refstr, first).0.add_skill_to_ref(
                refstr,
                second,
            ).0;
            &&& after.get_skills(refstr) matches Ok(list)
            &&& list.contains(first)
            &&& list.contains(second)
        }),
{
    let at = registry.position(refstr);
    let before = registry.refs[at].skills;
    let middle = registry.add_skill_to_ref(refstr, first).0;
    let after = middle.add_skill_to_ref(refstr, second).0;
    lemma_position(after, at);
    lemma_push_contains(before, first, first);
    let list = attached(before, first);
    lemma_push_contains(list, second, first);
    lemma_push_contains(list, second, second);
}

/// A search of the catalog lists a skill if and only if the catalog holds
/// it and its score reaches the threshold; it lists no skill twice, and
/// goes from the lowest score to the highest.
pub proof fn law_search(registry: Registry, term: Seq<char>, percent: nat, name: Seq<char>)
    requires
        registry.wf(),
    ensures
        registry.search_skills(term, percent) matches Ok(found) && {
            &&& found.contains(name) <==> (registry.catalog.contains(name) && reaches(
                term,
                name,
                percent,
            ))
            &&& found.no_duplicates()
            &&& ascending(term, found)
        },
{
    law_ranked(term, registry.catalog, percent, name);
}

/// A statement that fails ends the handlers that work in a transaction:
/// the caller is told of a fault and nothing more is asked of the store, so
/// the transaction is left without `Commit` and nothing of it lasts.
pub proof fn law_failed_statement_aborts(
    refstr: Seq<char>,
    skill: Seq<char>,
    answers: Seq<AnswerView>,
)
    requires
        answers.len() > 0,
        answers.last() is Failed,
    ensures
        delete_skill_spec(skill, answers) == fault::<()>(),
        remove_skill_from_ref_spec(refstr, skill, answers) == fault::<()>(),
        add_skill_to_ref_spec(refstr, skill, answers) == fault::<()>(),
{
}

/// Attaching and detaching do all they do between `Begin` and `Commit` of
/// one transaction. `Begin` is asked before anything else. Whatever the
/// change depends on is read once the store has answered that the
/// transaction is open: the catalog, where a skill is to be attached, and
/// then the list. The list is written back next, `Commit` follows the
/// write, and nothing is asked once `Commit` is answered. A skill that the
/// catalog does not hold ends the handler without a write and without
/// `Commit`. So where the store carries out transactions one after the
/// other, two callers that change lists or delete skills do so one after
/// the other.
pub proof fn law_one_transaction(refstr: Seq<char>, skill: Seq<char>, answers: Seq<AnswerView>)
    ensures
        ({
            let step = remove_skill_from_ref_spec(refstr, skill, answers);
            &&& answers.len() == 0 ==> step == StepView::<()>::Ask(QueryView::Begin)
            &&& answers.len() > 0 && step is Ask ==> answers[0] is Done
            &&& step == StepView::<()>::Ask(QueryView::Begin) ==> answers.len() == 0
            &&& step == StepView::<()>::Ask(QueryView::FindRefSkills { refstr })
                ==> answers.len() == 1
            &&& step.writes() ==> answers.len() == 2
            &&& step == StepView::<()>::Ask(QueryView::Commit) ==> answers.len() == 3
                && answers[2] is Done
            &&& answers.len() >= 4 ==> step is Done
        }),
        ({
            let step = add_skill_to_ref_spec(refstr, skill, answers);
            &&& answers.len() == 0 ==> step == StepView::<()>::Ask(QueryView::Begin)
            &&& answers.len() > 0 && step is Ask ==> answers[0] is Done
            &&& step == StepView::<()>::Ask(QueryView::Begin) ==> answers.len() == 0
            &&& step == StepView::<()>::Ask(QueryView::CountSkills { skill }) ==> answers.len()
                == 1
            &&& step == StepView::<()>::Ask(QueryView::FindRefSkills { refstr })
                ==> answers.len() == 2
            &&& step.writes() ==> answers.len() == 3
            &&& step == StepView::<()>::Ask(QueryView::Commit) ==> answers.len() == 4
                && answers[3] is Done
            &&& answers.len() >= 2 && answers[1] == AnswerView::Count(0) ==> !(step is Ask)
            &&& answers.len() >= 5 ==> step is Done
        }),
{
}

/// A skill that is deleted stays detached, whichever of the two comes
/// first, deleting it or attaching it: attaching it after it was deleted is
/// turned down as `Failure::UnknownSkill` and changes nothing, and deleting
/// it after it was attached takes it out of the list again. Either way the
/// reference does not hold the skill and the catalog does not hold it.
pub proof fn law_deleted_skill_stays_detached(
    registry: Registry,
    refstr: Seq<char>,
    skill: Seq<char>,
)
    requires
        registry.wf(),
        registry.has_ref(refstr),
        registry.catalog.contains(skill),
    ensures
        ({
            let deleted = registry.delete_skill(skill).0;
            let late = deleted.add_skill_to_ref(refstr, skill);
            &&& late.1 == Err::<(), Failure>(Failure::UnknownSkill)
            &&& late.0 == deleted
            &&& late.0.get_skills(refstr) matches Ok(list)
            &&& !list.contains(skill)
            &&& !late.0.catalog.contains(skill)
        }),
        ({
            let added = registry.add_skill_to_ref(refstr, skill).0;
            let after = added.delete_skill(skill).0;
            &&& after.get_skills(refstr) matches Ok(list)
            &&& !list.contains(skill)
            &&& !after.catalog.contains(skill)
        }),
{
    let at = registry.position(refstr);
    let deleted = registry.delete_skill(skill).0;
    assert(deleted.refs[at].refstr == refstr);
    law_well_formed(registry, refstr, skill);
    lemma_position(deleted, at);
    lemma_catalog_without(registry.catalog, skill, skill);
    let added = registry.add_skill_to_ref(refstr, skill).0;
    assert(added.refs[at].refstr == refstr);
    lemma_position(added, at);
    let after = added.delete_skill(skill).0;
    assert(after.refs[at].refstr == refstr);
    law_well_formed(added, refstr, skill);
    lemma_position(after, at);
    lemma_detached_contains(added.refs[at].skills, skill, skill);
    lemma_detached_contains(registry.refs[at].skills, skill, skill);
}

/// Deleting a skill does all it does between `Begin` and `Commit` of one
/// transaction: `Begin` is asked before anything else, the catalog and the
/// rows are read inside the transaction, nothing is written before the rows
/// were read, `Commit` is asked once every row is rewritten and the skill is
/// out of the catalog, and nothing is asked once `Commit` is answered.
pub proof fn law_cascade_in_one_transaction(skill: Seq<char>, answers: Seq<AnswerView>)
    ensures
        ({
            let step = delete_skill_spec(skill, answers);
            &&& step == StepView::<()>::Ask(QueryView::Begin) <==> answers.len() == 0
            &&& step == StepView::<()>::Ask(QueryView::CountSkills { skill }) ==> answers.len()
                == 1 && answers[0] is Done
            &&& step == StepView::<()>::Ask(QueryView::ListRefSkills) ==> answers.len() == 2
            &&& step.writes() ==> answers.len() >= 3 && answers[2] is RefSkills
            &&& step == StepView::<()>::Ask(QueryView::Commit) ==> (answers[2] matches AnswerView::RefSkills(
                rows,
            ) && answers.len() == rows.len() + 4)
            &&& answers.len() >= 3 ==> (answers[2] matches AnswerView::RefSkills(rows)
                ==> (answers.len() >= rows.len() + 5 ==> step is Done))
        }),
{
}

} // verus!
