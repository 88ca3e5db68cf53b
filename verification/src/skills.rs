//! The list of skills attached to a reference, and the way it is stored.
//!
//! A list holds each skill at most once, in the order in which the skills
//! were attached. It is stored as JSON text: an array of strings.

use crate::outcome::Failure;
use vstd::prelude::*;

verus! {

/// `list` with `skill` attached: unchanged if the skill is in it already,
/// else with the skill at its end.
pub open spec fn attached(list: Seq<Seq<char>>, skill: Seq<char>) -> Seq<Seq<char>> {
    if list.contains(skill) {
        list
    } else {
        list.push(skill)
    }
}

/// The test that every name but `skill` passes.
pub open spec fn other_than(skill: Seq<char>) -> spec_fn(Seq<char>) -> bool {
    |name: Seq<char>| name != skill
}

/// `list` without `skill`: every other entry stays, in its order.
pub open spec fn detached(list: Seq<Seq<char>>, skill: Seq<char>) -> Seq<Seq<char>> {
    list.filter(other_than(skill))
}

/// The JSON text that stands for a list of names.
pub uninterp spec fn json_of_names(names: Seq<Seq<char>>) -> Seq<u8>;

/// The list of names that a JSON text stands for, if it stands for one.
pub uninterp spec fn names_of_json(text: Seq<u8>) -> Option<Seq<Seq<char>>>;

/// `serde_json::Error`: why a text could not be read. It is never looked
/// into.
#[verifier::external_type_specification]
#[verifier::external_body]
pub struct ExJsonError(serde_json::Error);

/// `serde_json::to_vec` on a list of strings. Writing strings into a vector
/// of bytes cannot fail, so the result is always `Ok`; it is the JSON text of
/// the list.
#[verifier::external_body]
fn to_json(list: &Vec<String>) -> (text: Result<Vec<u8>, serde_json::Error>)
    ensures
        text is Ok,
        text->Ok_0@ == json_of_names(list.deep_view()),
{
    serde_json::to_vec(list)
}

/// `serde_json::from_slice` for a list of strings. The result is `Ok` with
/// the list that the text stands for, and an error where the text is no JSON
/// array of strings. The text that `serde_json::to_vec` writes for a list is
/// read back as that list.
#[verifier::external_body]
fn from_json(text: &Vec<u8>) -> (list: Result<Vec<String>, serde_json::Error>)
    ensures
        match list {
            Ok(found) => names_of_json(text@) == Some(found.deep_view()),
            Err(_) => names_of_json(text@) is None,
        },
        forall|names: Seq<Seq<char>>|
            text@ == #[trigger] json_of_names(names) ==> list is Ok && list->Ok_0.deep_view()
                == names,
{
    serde_json::from_slice(text.as_slice())
}

/// Removing a skill from a list that ends in `last` removes it from what
/// stands before `last`, and drops `last` if it is the skill.
pub proof fn lemma_detached_push(list: Seq<Seq<char>>, last: Seq<char>, skill: Seq<char>)
    ensures
        detached(list.push(last), skill) == if last != skill {
            detached(list, skill).push(last)
        } else {
            detached(list, skill)
        },
{
    list.lemma_filter_push(last, other_than(skill));
}

/// Removing a skill leaves nothing of it, keeps what was there besides, and
/// adds nothing.
pub proof fn lemma_detached_contains(list: Seq<Seq<char>>, skill: Seq<char>, other: Seq<char>)
    ensures
        !detached(list, skill).contains(skill),
        other != skill ==> (detached(list, skill).contains(other) <==> list.contains(other)),
    decreases list.len(),
{
    if list.len() > 0 {
        let front = list.drop_last();
        let last = list.last();
        assert(list =~= front.push(last));
        lemma_detached_contains(front, skill, other);
        lemma_detached_push(front, last, skill);
    }
}

/// What a list holds once `last` was put at its end.
pub proof fn lemma_push_contains(list: Seq<Seq<char>>, last: Seq<char>, other: Seq<char>)
    ensures
        list.push(last).contains(other) <==> (list.contains(other) || other == last),
{
    let longer = list.push(last);
    if list.contains(other) {
        let i = choose|i: int| 0 <= i < list.len() && list[i] == other;
        assert(longer[i] == other);
    }
    if other == last {
        assert(longer[list.len() as int] == other);
    }
}

/// Removing a skill that is not in the list changes nothing.
pub proof fn lemma_detached_absent(list: Seq<Seq<char>>, skill: Seq<char>)
    requires
        !list.contains(skill),
    ensures
        detached(list, skill) == list,
    decreases list.len(),
{
    if list.len() > 0 {
        let front = list.drop_last();
        let last = list.last();
        assert(list =~= front.push(last));
        lemma_detached_absent(front, skill);
        lemma_detached_push(front, last, skill);
    }
}

/// A list without duplicates has none after a skill was removed.
pub proof fn lemma_detached_no_duplicates(list: Seq<Seq<char>>, skill: Seq<char>)
    requires
        list.no_duplicates(),
    ensures
        detached(list, skill).no_duplicates(),
    decreases list.len(),
{
    if list.len() > 0 {
        let front = list.drop_last();
        let last = list.last();
        assert(list =~= front.push(last));
        lemma_detached_no_duplicates(front, skill);
        lemma_detached_push(front, last, skill);
        lemma_detached_contains(front, skill, last);
    }
}

/// Whether `list` holds `skill`.
pub fn holds(list: &Vec<String>, skill: &String) -> (found: bool)
    ensures
        found == list.deep_view().contains(skill@),
{
    let mut i: usize = 0;
    while i < list.len()
        invariant
            i <= list.len(),
            forall|j: int| 0 <= j < i ==> list.deep_view()[j] != skill@,
        decreases list.len() - i,
    {
        if list[i] == *skill {
            assert(list.deep_view()[i as int] == skill@);
            return true;
        }
        i += 1;
    }
    false
}

/// Attaches `skill` to `list`. A skill that the list holds already is not
/// added again.
pub fn attach(list: &mut Vec<String>, skill: String)
    ensures
        final(list).deep_view() == attached(old(list).deep_view(), skill@),
{
    if !holds(list, &skill) {
        list.push(skill);
    }
}

/// Copies `list` without any entry equal to `skill`.
pub fn detach(list: &Vec<String>, skill: &String) -> (rest: Vec<String>)
    ensures
        rest.deep_view() == detached(list.deep_view(), skill@),
{
    let ghost keep = other_than(skill@);
    let mut rest: Vec<String> = Vec::new();
    let mut i: usize = 0;
    while i < list.len()
        invariant
            i <= list.len(),
            keep == other_than(skill@),
            rest.deep_view() == list.deep_view().subrange(0, i as int).filter(keep),
        decreases list.len() - i,
    {
        let ghost seen = list.deep_view().subrange(0, i as int);
        proof {
            assert(list.deep_view().subrange(0, i + 1) =~= seen.push(list.deep_view()[i as int]));
            seen.lemma_filter_push(list.deep_view()[i as int], keep);
        }
        if list[i] != *skill {
            rest.push(list[i].clone());
        }
        i += 1;
    }
    assert(list.deep_view().subrange(0, i as int) =~= list.deep_view());
    rest
}

/// Writes a list of skills as the JSON text under which it is stored.
pub fn encode_skills(list: &Vec<String>) -> (text: Vec<u8>)
    ensures
        text@ == json_of_names(list.deep_view()),
{
    match to_json(list) {
        Ok(text) => text,
        Err(_) => Vec::new(),
    }
}

/// Reads a stored list of skills. Text that is no JSON array of strings is a
/// fault of the store; text that `encode_skills` wrote for a list is read
/// back as that list.
pub fn decode_skills(text: &Vec<u8>) -> (list: Result<Vec<String>, Failure>)
    ensures
        match list {
            Ok(found) => names_of_json(text@) == Some(found.deep_view()),
            Err(why) => why == Failure::Internal && names_of_json(text@) is None,
        },
        forall|names: Seq<Seq<char>>|
            text@ == #[trigger] json_of_names(names) ==> list is Ok && list->Ok_0.deep_view()
                == names,
{
    match from_json(text) {
        Ok(found) => Ok(found),
        Err(_) => Err(Failure::Internal),
    }
}

} // verus!
