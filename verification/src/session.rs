//! What lasts of what a handler writes when statements may fail.
//!
//! A session is one caller's dealings with the store. What is written
//! inside a transaction is seen by the statements that follow, and lasts
//! once `Commit` is carried out; a session that ends with its transaction
//! open leaves behind what was there when the transaction was opened.

use crate::outcome::Failure;
use crate::query::AnswerView;
use crate::query::QueryView;
use crate::query::StepView;
use crate::refs::add_skill_to_ref_spec;
use crate::refs::delete_skill_spec;
use crate::refs::remove_skill_from_ref_spec;
use crate::refs::Change;
use crate::skills::names_of_json;
use crate::tables::Tables;
use vstd::prelude::*;

verus! {

/// A session with the store.
pub struct Session {
    /// What the store holds for good.
    pub held: Tables,
    /// What the open transaction has made of it, if one is open.
    pub open: Option<Tables>,
}

impl Session {
    /// The session once its caller has left: a transaction that is still
    /// open is undone.
    pub open spec fn left(self) -> Session {
        Session { held: self.held, open: None }
    }

    /// A session on `tables`, with no transaction open.
    pub open spec fn start(tables: Tables) -> Session {
        Session { held: tables, open: None }
    }

    /// The session after a statement, and the answer. A statement that the
    /// store cannot carry out fails and changes nothing; so does `Begin`
    /// inside a transaction and `Commit` outside of one.
    pub open spec fn ask(self, query: QueryView, works: bool) -> (Session, AnswerView) {
        if !works {
            (self, AnswerView::Failed)
        } else {
            match (query, self.open) {
                (QueryView::Begin, None) => (
                    Session { held: self.held, open: Some(self.held) },
                    AnswerView::Done,
                ),
                (QueryView::Begin, Some(_)) => (self, AnswerView::Failed),
                (QueryView::Commit, Some(written)) => (
                    Session { held: written, open: None },
                    AnswerView::Done,
                ),
                (QueryView::Commit, None) => (self, AnswerView::Failed),
                (_, Some(written)) => (
                    Session { held: self.held, open: Some(written.next(query)) },
                    written.reply(query),
                ),
                (_, None) => (
                    Session { held: self.held.next(query), open: None },
                    self.held.reply(query),
                ),
            }
        }
    }
}

/// Drives a handler on a session: what the store holds for good once the
/// handler is done, and what the caller is told. `works` says of each
/// statement, by its number, whether the store can carry it out;
/// `patience` is the number of statements after which the caller hangs up
/// and is told nothing.
pub open spec fn drive<V>(
    handler: spec_fn(Seq<AnswerView>) -> StepView<V>,
    session: Session,
    answers: Seq<AnswerView>,
    works: spec_fn(int) -> bool,
    patience: nat,
) -> (Tables, Option<Result<V, Failure>>)
    decreases patience,
{
    match handler(answers) {
        StepView::Done(outcome) => (session.held, Some(outcome)),
        StepView::Ask(query) => if patience == 0 {
            (session.held, None)
        } else {
            let (next, answer) = session.ask(query, works(answers.len() as int));
            drive(handler, next, answers.push(answer), works, (patience - 1) as nat)
        },
    }
}

/// The handler that deletes `skill`.
pub open spec fn cascade(skill: Seq<char>) -> spec_fn(Seq<AnswerView>) -> StepView<()> {
    |answers: Seq<AnswerView>| delete_skill_spec(skill, answers)
}

/// Where a session stands that deletes `skill` from `tables`: the handler
/// is done and nothing has changed for good, or it is done after `Commit`
/// and everything has, or it goes on inside its transaction.
pub open spec fn on_the_way(
    tables: Tables,
    skill: Seq<char>,
    session: Session,
    answers: Seq<AnswerView>,
) -> bool {
    let step = delete_skill_spec(skill, answers);
    let asked = answers.len() as int;
    ||| step is Done && session.held == tables
    ||| step == StepView::Done(Ok::<(), Failure>(())) && session.held == tables.cascaded(skill)
    ||| {
        &&& step is Ask
        &&& session.held == tables
        &&& asked <= tables.refs.len() + 4
        &&& asked == 0 ==> session.open is None
        &&& asked >= 1 ==> session.open == Some(tables.cascading(skill, asked))
        &&& asked >= 2 ==> tables.skills.contains(skill)
        &&& asked >= 3 ==> answers[2] == tables.reply(QueryView::ListRefSkills)
    }
}

/// One more statement leaves a session that deletes a skill on its way.
pub proof fn lemma_one_more(
    tables: Tables,
    skill: Seq<char>,
    session: Session,
    answers: Seq<AnswerView>,
    works: bool,
)
    requires
        tables.wf(),
        on_the_way(tables, skill, session, answers),
        delete_skill_spec(skill, answers) is Ask,
    ensures
        ({
            let query = delete_skill_spec(skill, answers)->Ask_0;
            let (next, answer) = session.ask(query, works);
            on_the_way(tables, skill, next, answers.push(answer))
        }),
{
    let query = delete_skill_spec(skill, answers)->Ask_0;
    let (next, answer) = session.ask(query, works);
    let more = answers.push(answer);
    let asked = answers.len() as int;
    let rows = tables.refs.len() as int;
    assert(forall|i: int| 0 <= i < asked ==> more[i] == answers[i]);
    assert(more[asked] == answer);
    if !works || asked < 3 {
        // the statement fails, or the transaction is opened, the skill
        // counted or the rows read
        assert(on_the_way(tables, skill, next, more));
    } else if asked - 3 < rows {
        // the next list is rewritten
        let done = asked - 3;
        let now = tables.cascading(skill, asked);
        let row = tables.refs[done];
        let text = tables.stripped_text(done, skill);
        assert(query == QueryView::SetRefSkills { refstr: row.refstr, relevant_skills: text });
        assert(now.refs == tables.stripped_rows(skill, done));
        assert forall|i: int| 0 <= i < rows && i != done implies (#[trigger] now.refs[i]).refstr
            != row.refstr by {
            assert(tables.refs[i].refstr != tables.refs[done].refstr);
        }
        assert(now.rewritten(row.refstr, text) =~= tables.stripped_rows(skill, done + 1));
        if names_of_json(text) is None {
            assert(answer is Failed);
            assert(on_the_way(tables, skill, next, more));
        } else {
            assert(next.open == Some(tables.cascading(skill, asked + 1)));
            assert(more[2] == answers[2]);
            if delete_skill_spec(skill, more) is Ask {
                assert(more.len() as int == asked + 1);
                assert(on_the_way(tables, skill, next, more));
            } else {
                assert(on_the_way(tables, skill, next, more));
            }
        }
    } else if asked - 3 == rows {
        // the skill leaves the catalog
        let now = tables.cascading(skill, asked);
        assert(query == QueryView::DeleteSkill { skill });
        assert(now.refs =~= tables.stripped_rows(skill, rows));
        assert(now.next(query) == tables.cascaded(skill));
        assert(on_the_way(tables, skill, next, more));
    } else {
        // the transaction is made to last
        assert(query == QueryView::Commit);
        assert(on_the_way(tables, skill, next, more));
    }
}

/// Deleting a skill happens as a whole or not at all: where every list of
/// the store can be read and no two rows share a key, the store ends up
/// holding what it held before, or what it holds once the skill is out of
/// every list and out of the catalog, whichever statements fail and
/// whenever the caller hangs up; and the latter only where the caller is
/// told that all went well. (`law_cascade_undone_unless_told` says what
/// holds of every store.)
pub proof fn law_cascade_is_atomic(
    tables: Tables,
    skill: Seq<char>,
    works: spec_fn(int) -> bool,
    patience: nat,
)
    requires
        tables.wf(),
    ensures
        ({
            let end = drive(cascade(skill), Session::start(tables), Seq::empty(), works, patience);
            ||| end.0 == tables
            ||| end.0 == tables.cascaded(skill) && end.1 == Some(Ok::<(), Failure>(()))
        }),
{
    lemma_cascade(tables, skill, Session::start(tables), Seq::empty(), works, patience);
}

/// A session on its way ends with all or nothing.
proof fn lemma_cascade(
    tables: Tables,
    skill: Seq<char>,
    session: Session,
    answers: Seq<AnswerView>,
    works: spec_fn(int) -> bool,
    patience: nat,
)
    requires
        tables.wf(),
        on_the_way(tables, skill, session, answers),
    ensures
        ({
            let end = drive(cascade(skill), session, answers, works, patience);
            ||| end.0 == tables
            ||| end.0 == tables.cascaded(skill) && end.1 == Some(Ok::<(), Failure>(()))
        }),
    decreases patience,
{
    match delete_skill_spec(skill, answers) {
        StepView::Done(outcome) => {},
        StepView::Ask(query) => {
            if patience > 0 {
                let (next, answer) = session.ask(query, works(answers.len() as int));
                lemma_one_more(tables, skill, session, answers, works(answers.len() as int));
                lemma_cascade(
                    tables,
                    skill,
                    next,
                    answers.push(answer),
                    works,
                    (patience - 1) as nat,
                );
            }
        },
    }
}

/// Where a session stands that deletes `skill`, whatever the store holds:
/// the caller is told that all went well, or nothing has changed for good
/// and the handler, if it goes on, does so inside its transaction.
pub open spec fn in_hand(
    tables: Tables,
    skill: Seq<char>,
    session: Session,
    answers: Seq<AnswerView>,
) -> bool {
    let step = delete_skill_spec(skill, answers);
    ||| step == StepView::Done(Ok::<(), Failure>(()))
    ||| {
        &&& session.held == tables
        &&& step is Ask ==> (session.open is Some <==> answers.len() > 0)
    }
}

/// A session in hand stays in hand, and ends with nothing changed unless
/// the caller is told that all went well.
proof fn lemma_in_hand(
    tables: Tables,
    skill: Seq<char>,
    session: Session,
    answers: Seq<AnswerView>,
    works: spec_fn(int) -> bool,
    patience: nat,
)
    requires
        in_hand(tables, skill, session, answers),
    ensures
        ({
            let end = drive(cascade(skill), session, answers, works, patience);
            end.1 != Some(Ok::<(), Failure>(())) ==> end.0 == tables
        }),
    decreases patience,
{
    match delete_skill_spec(skill, answers) {
        StepView::Done(outcome) => {},
        StepView::Ask(query) => {
            if patience > 0 {
                let (next, answer) = session.ask(query, works(answers.len() as int));
                let more = answers.push(answer);
                assert(forall|i: int| 0 <= i < answers.len() ==> more[i] == answers[i]);
                assert(more[answers.len() as int] == answer);
                assert(in_hand(tables, skill, next, more));
                lemma_in_hand(tables, skill, next, more, works, (patience - 1) as nat);
            }
        },
    }
}

/// Unless the caller is told that all went well, deleting a skill changes
/// nothing: whatever the store holds, lists that cannot be read among it,
/// whichever statements fail and whenever the caller hangs up, the store
/// then holds what it held before.
pub proof fn law_cascade_undone_unless_told(
    tables: Tables,
    skill: Seq<char>,
    works: spec_fn(int) -> bool,
    patience: nat,
)
    ensures
        ({
            let end = drive(cascade(skill), Session::start(tables), Seq::empty(), works, patience);
            end.1 != Some(Ok::<(), Failure>(())) ==> end.0 == tables
        }),
{
    lemma_in_hand(tables, skill, Session::start(tables), Seq::empty(), works, patience);
}

/// The handler that attaches `skill` to the reference under `refstr`.
pub open spec fn attaching(refstr: Seq<char>, skill: Seq<char>) -> spec_fn(Seq<AnswerView>) -> StepView<
    (),
> {
    |answers: Seq<AnswerView>| add_skill_to_ref_spec(refstr, skill, answers)
}

/// The handler that detaches `skill` from the reference under `refstr`.
pub open spec fn detaching(refstr: Seq<char>, skill: Seq<char>) -> spec_fn(Seq<AnswerView>) -> StepView<
    (),
> {
    |answers: Seq<AnswerView>| remove_skill_from_ref_spec(refstr, skill, answers)
}

/// Attaching and detaching happen as a whole or not at all, whatever the
/// store holds, lists that cannot be read among it: whichever statements
/// fail and whenever the caller hangs up, the store ends up holding what it
/// held before, or what it holds once the list is rewritten; and the latter
/// only where the caller is told that all went well.
pub proof fn law_edit_is_atomic(
    tables: Tables,
    refstr: Seq<char>,
    skill: Seq<char>,
    works: spec_fn(int) -> bool,
    patience: nat,
)
    ensures
        ({
            let end = drive(
                attaching(refstr, skill),
                Session::start(tables),
                Seq::empty(),
                works,
                patience,
            );
            ||| end.0 == tables
            ||| end.0 == tables.edited(refstr, Change::Attach, skill) && end.1 == Some(
                Ok::<(), Failure>(()),
            )
        }),
        ({
            let end = drive(
                detaching(refstr, skill),
                Session::start(tables),
                Seq::empty(),
                works,
                patience,
            );
            ||| end.0 == tables
            ||| end.0 == tables.edited(refstr, Change::Detach, skill) && end.1 == Some(
                Ok::<(), Failure>(()),
            )
        }),
{
    reveal_with_fuel(drive, 7);
}

} // verus!
