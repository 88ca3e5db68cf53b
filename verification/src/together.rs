//! Two callers at once.
//!
//! The store carries out one transaction at a time: a caller whose `Begin`
//! finds a transaction open waits until it is closed, or gives up when its
//! `Begin` fails. The handlers that change lists and delete skills ask
//! `Begin` before anything else, so whatever turns two callers take, the
//! store ends up as if one had come after the other: a skill that is deleted
//! while it is attached stays deleted, and of two skills that are attached
//! at once neither is lost.

use crate::outcome::Failure;
use crate::query::AnswerView;
use crate::query::QueryView;
use crate::query::StepView;
use crate::refs::add_skill_to_ref_spec;
use crate::refs::delete_skill_spec;
use crate::refs::Change;
use crate::session::attaching;
use crate::session::cascade;
use crate::session::lemma_one_more;
use crate::session::on_the_way;
use crate::session::Session;
use crate::skills::json_of_names;
use crate::skills::names_of_json;
use crate::tables::Tables;
use vstd::prelude::*;

verus! {

/// The store and what it has answered to each of two callers.
pub struct Pair {
    pub store: Session,
    /// The answers given to the one caller.
    pub one: Seq<AnswerView>,
    /// The answers given to the other.
    pub other: Seq<AnswerView>,
}

/// What one turn of a caller makes of the store and of the answers it was
/// given. A caller who is done does nothing. A caller who has not begun
/// waits while a transaction is open. Else the statement it asks for is
/// carried out, or fails where the store cannot carry it out; a caller who
/// is done with that leaves, and a transaction that it left open is undone.
pub open spec fn moved(
    handler: spec_fn(Seq<AnswerView>) -> StepView<()>,
    store: Session,
    answers: Seq<AnswerView>,
    works: bool,
) -> (Session, Seq<AnswerView>) {
    match handler(answers) {
        StepView::Done(_) => (store, answers),
        StepView::Ask(query) => if answers.len() == 0 && store.open is Some {
            (store, answers)
        } else {
            let (next, answer) = store.ask(query, works);
            let more = answers.push(answer);
            (
                if handler(more) is Done {
                    next.left()
                } else {
                    next
                },
                more,
            )
        },
    }
}

impl Pair {
    /// Both callers are about to start.
    pub open spec fn start(tables: Tables) -> Pair {
        Pair { store: Session::start(tables), one: Seq::empty(), other: Seq::empty() }
    }

    /// One turn: of the one caller, who drives `first`, where `mine` holds,
    /// else of the other, who drives `second`.
    pub open spec fn turn(
        self,
        first: spec_fn(Seq<AnswerView>) -> StepView<()>,
        second: spec_fn(Seq<AnswerView>) -> StepView<()>,
        mine: bool,
        works: bool,
    ) -> Pair {
        if mine {
            let (store, answers) = moved(first, self.store, self.one, works);
            Pair { store, one: answers, other: self.other }
        } else {
            let (store, answers) = moved(second, self.store, self.other, works);
            Pair { store, one: self.one, other: answers }
        }
    }

    /// The pair after `turns` turns; `whose` says for each turn, by its
    /// number, whether it is the turn of the one caller, and `works` whether
    /// the store can carry out what is asked in it.
    pub open spec fn after(
        self,
        first: spec_fn(Seq<AnswerView>) -> StepView<()>,
        second: spec_fn(Seq<AnswerView>) -> StepView<()>,
        whose: spec_fn(int) -> bool,
        works: spec_fn(int) -> bool,
        turns: nat,
    ) -> Pair
        decreases turns,
    {
        if turns == 0 {
            self
        } else {
            self.after(first, second, whose, works, (turns - 1) as nat).turn(
                first,
                second,
                whose(turns - 1),
                works(turns - 1),
            )
        }
    }
}

/// The text of the list under `refstr` once `skill` is attached.
pub open spec fn attached_text(base: Tables, refstr: Seq<char>, skill: Seq<char>) -> Seq<u8> {
    json_of_names(Change::Attach.apply(base.list_at(base.position(refstr)), skill))
}

/// Where a caller who deletes `skill` stands when it works alone on `base`.
pub open spec fn deleting_alone(
    base: Tables,
    skill: Seq<char>,
    store: Session,
    answers: Seq<AnswerView>,
) -> bool {
    let step = delete_skill_spec(skill, answers);
    &&& on_the_way(base, skill, store, answers)
    &&& step is Done ==> store.open is None
    &&& step == StepView::Done(Ok::<(), Failure>(())) ==> store.held == base.cascaded(skill)
}

/// Where a caller who attaches `skill` stands when it works alone on
/// `base`.
pub open spec fn attaching_alone(
    base: Tables,
    refstr: Seq<char>,
    skill: Seq<char>,
    store: Session,
    answers: Seq<AnswerView>,
) -> bool {
    let step = add_skill_to_ref_spec(refstr, skill, answers);
    let asked = answers.len();
    let changed = base.edited(refstr, Change::Attach, skill);
    &&& step is Done ==> {
        &&& store.open is None
        &&& if step == StepView::Done(Ok::<(), Failure>(())) {
            &&& store.held == changed
            &&& base.skills.contains(skill)
            &&& names_of_json(attached_text(base, refstr, skill)) is Some
        } else {
            store.held == base
        }
    }
    &&& step is Ask ==> {
        &&& store.held == base
        &&& asked <= 4
        &&& asked == 0 ==> store.open is None
        &&& 1 <= asked <= 3 ==> store.open == Some(base)
        &&& asked == 4 ==> store.open == Some(changed) && names_of_json(
            attached_text(base, refstr, skill),
        ) is Some
        &&& asked >= 2 ==> answers[1] == base.reply(QueryView::CountSkills { skill })
        &&& asked >= 3 ==> answers[2] == base.reply(QueryView::FindRefSkills { refstr })
    }
}

/// One turn of a caller who deletes, working alone.
proof fn lemma_deleter_turn(
    base: Tables,
    skill: Seq<char>,
    store: Session,
    answers: Seq<AnswerView>,
    works: bool,
)
    requires
        base.wf(),
        base.skills.contains(skill),
        deleting_alone(base, skill, store, answers),
    ensures
        deleting_alone(
            base,
            skill,
            moved(cascade(skill), store, answers, works).0,
            moved(cascade(skill), store, answers, works).1,
        ),
{
    let step = delete_skill_spec(skill, answers);
    if step is Ask && !(answers.len() == 0 && store.open is Some) {
        let query = step->Ask_0;
        let (next, answer) = store.ask(query, works);
        let more = answers.push(answer);
        lemma_one_more(base, skill, store, answers, works);
        assert(forall|i: int| 0 <= i < answers.len() ==> more[i] == answers[i]);
        assert(more[answers.len() as int] == answer);
        let after = delete_skill_spec(skill, more);
        if after == StepView::Done(Ok::<(), Failure>(())) {
            if answers.len() == 1 {
                assert(works ==> answer == base.reply(QueryView::CountSkills { skill }));
            } else {
                assert(query == QueryView::Commit);
            }
        }
    }
}

/// One turn of a caller who attaches, working alone.
proof fn lemma_attacher_turn(
    base: Tables,
    refstr: Seq<char>,
    skill: Seq<char>,
    store: Session,
    answers: Seq<AnswerView>,
    works: bool,
)
    requires
        attaching_alone(base, refstr, skill, store, answers),
    ensures
        attaching_alone(
            base,
            refstr,
            skill,
            moved(attaching(refstr, skill), store, answers, works).0,
            moved(attaching(refstr, skill), store, answers, works).1,
        ),
{
    let step = add_skill_to_ref_spec(refstr, skill, answers);
    if step is Ask && !(answers.len() == 0 && store.open is Some) {
        let query = step->Ask_0;
        let (next, answer) = store.ask(query, works);
        let more = answers.push(answer);
        assert(forall|i: int| 0 <= i < answers.len() ==> more[i] == answers[i]);
        assert(more[answers.len() as int] == answer);
    }
}

/// What attaching leaves behind is well-formed and holds the catalog that
/// was there.
proof fn lemma_changed(base: Tables, refstr: Seq<char>, skill: Seq<char>)
    requires
        base.wf(),
        names_of_json(attached_text(base, refstr, skill)) is Some,
    ensures
        base.edited(refstr, Change::Attach, skill).wf(),
        base.edited(refstr, Change::Attach, skill).skills == base.skills,
{
    let changed = base.edited(refstr, Change::Attach, skill);
    assert forall|i: int, j: int| 0 <= i < j < changed.refs.len() implies (
    #[trigger] changed.refs[i]).refstr != (#[trigger] changed.refs[j]).refstr by {
        assert(base.refs[i].refstr != base.refs[j].refstr);
    }
    assert forall|i: int| 0 <= i < changed.refs.len() implies names_of_json(
        (#[trigger] changed.refs[i]).relevant_skills,
    ) is Some by {
        assert(names_of_json(base.refs[i].relevant_skills) is Some);
    }
}

/// Where a caller who deletes `skill` and a caller who attaches it stand
/// together: one of them has not begun, or one is done and the other works
/// on what the first has left.
pub open spec fn one_at_a_time(
    tables: Tables,
    skill: Seq<char>,
    refstr: Seq<char>,
    pair: Pair,
) -> bool {
    let changed = tables.edited(refstr, Change::Attach, skill);
    let deleted = delete_skill_spec(skill, pair.one);
    let attached = add_skill_to_ref_spec(refstr, skill, pair.other);
    ||| pair.other.len() == 0 && deleting_alone(tables, skill, pair.store, pair.one)
    ||| pair.one.len() == 0 && attaching_alone(tables, refstr, skill, pair.store, pair.other)
    ||| {
        &&& deleted == StepView::Done(Ok::<(), Failure>(()))
        &&& attaching_alone(tables.cascaded(skill), refstr, skill, pair.store, pair.other)
    }
    ||| deleted is Done && deleted != StepView::Done(Ok::<(), Failure>(()))
    ||| attached is Done && deleting_alone(tables, skill, pair.store, pair.one)
    ||| {
        &&& attached is Done
        &&& names_of_json(attached_text(tables, refstr, skill)) is Some
        &&& deleting_alone(changed, skill, pair.store, pair.one)
    }
}

/// A turn leaves the two one at a time.
proof fn lemma_turn(
    tables: Tables,
    skill: Seq<char>,
    refstr: Seq<char>,
    pair: Pair,
    mine: bool,
    works: bool,
)
    requires
        tables.wf(),
        tables.skills.contains(skill),
        one_at_a_time(tables, skill, refstr, pair),
    ensures
        one_at_a_time(
            tables,
            skill,
            refstr,
            pair.turn(cascade(skill), attaching(refstr, skill), mine, works),
        ),
{
    let changed = tables.edited(refstr, Change::Attach, skill);
    let gone = tables.cascaded(skill);
    let deleted = delete_skill_spec(skill, pair.one);
    let attached = add_skill_to_ref_spec(refstr, skill, pair.other);
    if pair.other.len() == 0 && deleting_alone(tables, skill, pair.store, pair.one) {
        if mine {
            lemma_deleter_turn(tables, skill, pair.store, pair.one, works);
        } else if pair.store.open is None {
            if pair.one.len() == 0 {
                lemma_attacher_turn(tables, refstr, skill, pair.store, pair.other, works);
            } else if deleted == StepView::Done(Ok::<(), Failure>(())) {
                lemma_attacher_turn(gone, refstr, skill, pair.store, pair.other, works);
            }
        }
    } else if pair.one.len() == 0 && attaching_alone(
        tables,
        refstr,
        skill,
        pair.store,
        pair.other,
    ) {
        if !mine {
            lemma_attacher_turn(tables, refstr, skill, pair.store, pair.other, works);
        } else if pair.store.open is None {
            if pair.other.len() == 0 || pair.store.held == tables {
                lemma_deleter_turn(tables, skill, pair.store, pair.one, works);
            } else {
                lemma_changed(tables, refstr, skill);
                lemma_deleter_turn(changed, skill, pair.store, pair.one, works);
            }
        }
    } else if deleted == StepView::Done(Ok::<(), Failure>(())) && attaching_alone(
        gone,
        refstr,
        skill,
        pair.store,
        pair.other,
    ) {
        if !mine {
            lemma_attacher_turn(gone, refstr, skill, pair.store, pair.other, works);
        }
    } else if deleted is Done && deleted != StepView::Done(Ok::<(), Failure>(())) {
    } else if attached is Done && deleting_alone(tables, skill, pair.store, pair.one) {
        if mine {
            lemma_deleter_turn(tables, skill, pair.store, pair.one, works);
        }
    } else {
        if mine {
            lemma_changed(tables, refstr, skill);
            lemma_deleter_turn(changed, skill, pair.store, pair.one, works);
        }
    }
}

/// Whatever turns the two take, they stay one at a time.
proof fn lemma_turns(
    tables: Tables,
    skill: Seq<char>,
    refstr: Seq<char>,
    whose: spec_fn(int) -> bool,
    works: spec_fn(int) -> bool,
    turns: nat,
)
    requires
        tables.wf(),
        tables.skills.contains(skill),
    ensures
        one_at_a_time(
            tables,
            skill,
            refstr,
            Pair::start(tables).after(
                cascade(skill),
                attaching(refstr, skill),
                whose,
                works,
                turns,
            ),
        ),
    decreases turns,
{
    if turns > 0 {
        lemma_turns(tables, skill, refstr, whose, works, (turns - 1) as nat);
        lemma_turn(
            tables,
            skill,
            refstr,
            Pair::start(tables).after(
                cascade(skill),
                attaching(refstr, skill),
                whose,
                works,
                (turns - 1) as nat,
            ),
            whose(turns - 1),
            works(turns - 1),
        );
    }
}

/// A skill that one caller deletes while another attaches it stays
/// deleted. Whatever turns the two take and whichever statements fail: once
/// the caller who deletes is told that all went well, the store holds what
/// it holds when the skill is deleted from what was there, or from what was
/// there with the skill attached, and the catalog does not hold the skill.
/// So the one who attaches has either written before the skill was deleted,
/// and its write went through the cascade, or has written nothing.
pub proof fn law_deleted_while_attached(
    tables: Tables,
    skill: Seq<char>,
    refstr: Seq<char>,
    whose: spec_fn(int) -> bool,
    works: spec_fn(int) -> bool,
    turns: nat,
)
    requires
        tables.wf(),
        tables.skills.contains(skill),
    ensures
        ({
            let end = Pair::start(tables).after(
                cascade(skill),
                attaching(refstr, skill),
                whose,
                works,
                turns,
            );
            let changed = tables.edited(refstr, Change::Attach, skill);
            delete_skill_spec(skill, end.one) == StepView::Done(Ok::<(), Failure>(())) ==> {
                &&& end.store.held == tables.cascaded(skill) || end.store.held == changed.cascaded(
                    skill,
                )
                &&& !end.store.held.skills.contains(skill)
            }
        }),
{
    lemma_turns(tables, skill, refstr, whose, works, turns);
    let gone = tables.cascaded(skill);
    crate::laws::lemma_catalog_without(tables.skills, skill, skill);
    if names_of_json(attached_text(tables, refstr, skill)) is Some {
        lemma_changed(tables, refstr, skill);
    }
    assert(!gone.skills.contains(skill));
}

/// Where two callers stand together who attach `here` and `there` to one
/// reference: one of them has not begun, or one is done and the other works
/// on what the first has left.
pub open spec fn in_turn(
    tables: Tables,
    refstr: Seq<char>,
    here: Seq<char>,
    there: Seq<char>,
    pair: Pair,
) -> bool {
    let one = add_skill_to_ref_spec(refstr, here, pair.one);
    let other = add_skill_to_ref_spec(refstr, there, pair.other);
    let told = StepView::Done(Ok::<(), Failure>(()));
    ||| pair.other.len() == 0 && attaching_alone(tables, refstr, here, pair.store, pair.one)
    ||| pair.one.len() == 0 && attaching_alone(tables, refstr, there, pair.store, pair.other)
    ||| one is Done && one != told && attaching_alone(
        tables,
        refstr,
        there,
        pair.store,
        pair.other,
    )
    ||| one == told && attaching_alone(
        tables.edited(refstr, Change::Attach, here),
        refstr,
        there,
        pair.store,
        pair.other,
    )
    ||| other is Done && other != told && attaching_alone(
        tables,
        refstr,
        here,
        pair.store,
        pair.one,
    )
    ||| other == told && attaching_alone(
        tables.edited(refstr, Change::Attach, there),
        refstr,
        here,
        pair.store,
        pair.one,
    )
}

/// A turn leaves the two in turn.
proof fn lemma_in_turn(
    tables: Tables,
    refstr: Seq<char>,
    here: Seq<char>,
    there: Seq<char>,
    pair: Pair,
    mine: bool,
    works: bool,
)
    requires
        in_turn(tables, refstr, here, there, pair),
    ensures
        in_turn(
            tables,
            refstr,
            here,
            there,
            pair.turn(attaching(refstr, here), attaching(refstr, there), mine, works),
        ),
{
    let one = add_skill_to_ref_spec(refstr, here, pair.one);
    let other = add_skill_to_ref_spec(refstr, there, pair.other);
    let told = StepView::Done(Ok::<(), Failure>(()));
    let with_here = tables.edited(refstr, Change::Attach, here);
    let with_there = tables.edited(refstr, Change::Attach, there);
    if pair.other.len() == 0 && attaching_alone(tables, refstr, here, pair.store, pair.one) {
        if mine {
            lemma_attacher_turn(tables, refstr, here, pair.store, pair.one, works);
        } else if pair.store.open is None {
            if pair.one.len() == 0 || one != told {
                lemma_attacher_turn(tables, refstr, there, pair.store, pair.other, works);
            } else {
                lemma_attacher_turn(with_here, refstr, there, pair.store, pair.other, works);
            }
        }
    } else if pair.one.len() == 0 && attaching_alone(
        tables,
        refstr,
        there,
        pair.store,
        pair.other,
    ) {
        if !mine {
            lemma_attacher_turn(tables, refstr, there, pair.store, pair.other, works);
        } else if pair.store.open is None {
            if pair.other.len() == 0 || other != told {
                lemma_attacher_turn(tables, refstr, here, pair.store, pair.one, works);
            } else {
                lemma_attacher_turn(with_there, refstr, here, pair.store, pair.one, works);
            }
        }
    } else if one is Done && one != told && attaching_alone(
        tables,
        refstr,
        there,
        pair.store,
        pair.other,
    ) {
        if !mine {
            lemma_attacher_turn(tables, refstr, there, pair.store, pair.other, works);
        }
    } else if one == told && attaching_alone(with_here, refstr, there, pair.store, pair.other) {
        if !mine {
            lemma_attacher_turn(with_here, refstr, there, pair.store, pair.other, works);
        }
    } else if other is Done && other != told && attaching_alone(
        tables,
        refstr,
        here,
        pair.store,
        pair.one,
    ) {
        if mine {
            lemma_attacher_turn(tables, refstr, here, pair.store, pair.one, works);
        }
    } else {
        if mine {
            lemma_attacher_turn(with_there, refstr, here, pair.store, pair.one, works);
        }
    }
}

/// Of two skills that two callers attach to one reference at once neither
/// is lost. Whatever turns the two take and whichever statements fail: once
/// both are told that all went well, the store holds what it holds when the
/// one skill is attached to what was there and the other to what that
/// gives, in one order or the other.
pub proof fn law_attached_together(
    tables: Tables,
    refstr: Seq<char>,
    here: Seq<char>,
    there: Seq<char>,
    whose: spec_fn(int) -> bool,
    works: spec_fn(int) -> bool,
    turns: nat,
)
    ensures
        ({
            let end = Pair::start(tables).after(
                attaching(refstr, here),
                attaching(refstr, there),
                whose,
                works,
                turns,
            );
            let told = StepView::Done(Ok::<(), Failure>(()));
            &&& in_turn(tables, refstr, here, there, end)
            &&& add_skill_to_ref_spec(refstr, here, end.one) == told && add_skill_to_ref_spec(
                refstr,
                there,
                end.other,
            ) == told ==> {
                ||| end.store.held == tables.edited(refstr, Change::Attach, here).edited(
                    refstr,
                    Change::Attach,
                    there,
                )
                ||| end.store.held == tables.edited(refstr, Change::Attach, there).edited(
                    refstr,
                    Change::Attach,
                    here,
                )
            }
        }),
    decreases turns,
{
    if turns > 0 {
        law_attached_together(tables, refstr, here, there, whose, works, (turns - 1) as nat);
        lemma_in_turn(
            tables,
            refstr,
            here,
            there,
            Pair::start(tables).after(
                attaching(refstr, here),
                attaching(refstr, there),
                whose,
                works,
                (turns - 1) as nat,
            ),
            whose(turns - 1),
            works(turns - 1),
        );
    }
}

} // verus!
