use skillrefs::key::ref_key;
use skillrefs::outcome::Failure;
use skillrefs::query::Answer;
use skillrefs::query::Query;
use skillrefs::query::Step;
use skillrefs::refs::add_skill_to_ref;
use skillrefs::refs::create_ref;
use skillrefs::refs::create_skill;
use skillrefs::refs::delete_ref;
use skillrefs::refs::delete_skill;
use skillrefs::refs::edit;
use skillrefs::refs::get_ref_name;
use skillrefs::refs::get_skills;
use skillrefs::refs::list_refs;
use skillrefs::refs::list_skills;
use skillrefs::refs::present_values;
use skillrefs::refs::remove_skill_from_ref;
use skillrefs::refs::rewrite;
use skillrefs::refs::rewrite_steps;
use skillrefs::refs::search_skills;
use skillrefs::refs::Change;
use skillrefs::refs::Count;
use skillrefs::refs::EntityReference;
use skillrefs::refs::EntitySkills;
use skillrefs::refs::DEFAULT_REF;

fn text(value: &str) -> String {
    String::from(value)
}

fn count(count: i64) -> Answer {
    Answer::Count(Count { count })
}

fn skills_row(refstr: &str, json: &str) -> EntitySkills {
    EntitySkills { refstr: Some(text(refstr)), relevant_skills: Some(json.as_bytes().to_vec()) }
}

fn set(refstr: &str, json: &str) -> Step<()> {
    Step::Ask(Query::SetRefSkills {
        refstr: text(refstr),
        relevant_skills: json.as_bytes().to_vec(),
    })
}

fn fault<T>() -> Step<T> {
    Step::Done(Err(Failure::Internal))
}

#[test]
fn default_ref_is_noref() {
    assert_eq!(DEFAULT_REF, "NOREF");
}

#[test]
fn create_ref_counts_then_inserts_then_hands_out_the_key() {
    let name = text("alice");
    let key = ref_key(&name);
    let mut answers = Vec::new();
    assert_eq!(create_ref(&name, &answers), Step::Ask(Query::CountRefs { refstr: key.clone() }));
    answers.push(count(0));
    assert_eq!(
        create_ref(&name, &answers),
        Step::Ask(Query::InsertRef {
            refstr: key.clone(),
            name: name.clone(),
            relevant_skills: b"[]".to_vec(),
        })
    );
    answers.push(Answer::Done);
    assert_eq!(create_ref(&name, &answers), Step::Done(Ok(key)));
}

#[test]
fn create_ref_reports_a_conflict() {
    let name = text("alice");
    assert_eq!(create_ref(&name, &vec![count(1)]), Step::Done(Err(Failure::ReferenceExists)));
    assert_eq!(create_ref(&name, &vec![count(2)]), Step::Done(Err(Failure::ReferenceExists)));
}

#[test]
fn create_ref_reports_a_fault_of_the_store() {
    let name = text("alice");
    assert_eq!(create_ref(&name, &vec![Answer::Failed]), fault());
    assert_eq!(create_ref(&name, &vec![count(0), Answer::Failed]), fault());
    assert_eq!(create_ref(&name, &vec![Answer::Done]), fault());
}

#[test]
fn delete_ref_deletes_and_is_done() {
    let refstr = text("AsfBJGbiWmA");
    assert_eq!(
        delete_ref(&refstr, &Vec::new()),
        Step::Ask(Query::DeleteRef { refstr: refstr.clone() })
    );
    assert_eq!(delete_ref(&refstr, &vec![Answer::Done]), Step::Done(Ok(())));
    assert_eq!(delete_ref(&refstr, &vec![Answer::Failed]), fault());
}

#[test]
fn delete_ref_never_deletes_the_default_ref() {
    let refstr = text(DEFAULT_REF);
    assert_eq!(delete_ref(&refstr, &Vec::new()), Step::Done(Err(Failure::DefaultReference)));
    assert_eq!(delete_ref(&refstr, &vec![Answer::Done]), Step::Done(Err(Failure::DefaultReference)));
    assert_eq!(
        delete_ref(&refstr, &vec![Answer::Failed]),
        Step::Done(Err(Failure::DefaultReference))
    );
}

#[test]
fn delete_ref_takes_the_key_as_it_is_written() {
    let refstr = text("noref");
    assert_eq!(
        delete_ref(&refstr, &Vec::new()),
        Step::Ask(Query::DeleteRef { refstr: refstr.clone() })
    );
}

#[test]
fn list_refs_hands_out_the_rows() {
    assert_eq!(list_refs(&Vec::new()), Step::Ask(Query::ListRefs));
    let rows = vec![
        EntityReference { name: Some(text("alice")), refstr: Some(text("AsfBJGbiWmA")) },
        EntityReference { name: None, refstr: Some(text("NOREF")) },
    ];
    let copy = vec![
        EntityReference { name: Some(text("alice")), refstr: Some(text("AsfBJGbiWmA")) },
        EntityReference { name: None, refstr: Some(text("NOREF")) },
    ];
    assert_eq!(list_refs(&vec![Answer::Refs(rows)]), Step::Done(Ok(copy)));
    assert_eq!(list_refs(&vec![Answer::Refs(Vec::new())]), Step::Done(Ok(Vec::new())));
    assert_eq!(list_refs(&vec![Answer::Failed]), fault());
}

#[test]
fn get_ref_name_reads_the_name() {
    let refstr = text("AsfBJGbiWmA");
    assert_eq!(
        get_ref_name(&refstr, &Vec::new()),
        Step::Ask(Query::FindRef { refstr: refstr.clone() })
    );
    let row = EntityReference { name: Some(text("alice")), refstr: Some(refstr.clone()) };
    assert_eq!(get_ref_name(&refstr, &vec![Answer::Ref(Some(row))]), Step::Done(Ok(text("alice"))));
}

#[test]
fn get_ref_name_reports_what_is_missing() {
    let refstr = text("AsfBJGbiWmA");
    assert_eq!(
        get_ref_name(&refstr, &vec![Answer::Ref(None)]),
        Step::Done(Err(Failure::UnknownReference))
    );
    let row = EntityReference { name: None, refstr: Some(refstr.clone()) };
    assert_eq!(get_ref_name(&refstr, &vec![Answer::Ref(Some(row))]), fault());
    assert_eq!(get_ref_name(&refstr, &vec![Answer::Failed]), fault());
}

#[test]
fn create_skill_counts_then_inserts() {
    let name = text("rust");
    let mut answers = Vec::new();
    assert_eq!(create_skill(&name, &answers), Step::Ask(Query::CountSkills { skill: name.clone() }));
    answers.push(count(0));
    assert_eq!(create_skill(&name, &answers), Step::Ask(Query::InsertSkill { skill: name.clone() }));
    answers.push(Answer::Done);
    assert_eq!(create_skill(&name, &answers), Step::Done(Ok(())));
}

#[test]
fn create_skill_reports_a_conflict() {
    let name = text("rust");
    assert_eq!(create_skill(&name, &vec![count(1)]), Step::Done(Err(Failure::SkillExists)));
    assert_eq!(create_skill(&name, &vec![Answer::Failed]), fault());
    assert_eq!(create_skill(&name, &vec![count(0), Answer::Failed]), fault());
}

#[test]
fn delete_skill_of_an_unknown_skill_is_done_at_once() {
    let skill = text("rust");
    let mut answers = Vec::new();
    assert_eq!(delete_skill(&skill, &answers), Step::Ask(Query::Begin));
    answers.push(Answer::Done);
    assert_eq!(delete_skill(&skill, &answers), Step::Ask(Query::CountSkills { skill: skill.clone() }));
    answers.push(count(0));
    assert_eq!(delete_skill(&skill, &answers), Step::Done(Ok(())));
}

#[test]
fn delete_skill_strips_every_reference_then_the_catalog() {
    let skill = text("rust");
    let mut answers = vec![Answer::Done, count(1)];
    assert_eq!(delete_skill(&skill, &answers), Step::Ask(Query::ListRefSkills));
    answers.push(Answer::RefSkills(vec![
        skills_row("r1", "[\"rust\",\"go\"]"),
        skills_row("r2", "[\"go\"]"),
        skills_row("r3", "[\"rust\"]"),
    ]));
    assert_eq!(delete_skill(&skill, &answers), set("r1", "[\"go\"]"));
    answers.push(Answer::Done);
    assert_eq!(delete_skill(&skill, &answers), set("r2", "[\"go\"]"));
    answers.push(Answer::Done);
    assert_eq!(delete_skill(&skill, &answers), set("r3", "[]"));
    answers.push(Answer::Done);
    assert_eq!(delete_skill(&skill, &answers), Step::Ask(Query::DeleteSkill { skill: skill.clone() }));
    answers.push(Answer::Done);
    assert_eq!(delete_skill(&skill, &answers), Step::Ask(Query::Commit));
    answers.push(Answer::Done);
    assert_eq!(delete_skill(&skill, &answers), Step::Done(Ok(())));
}

#[test]
fn delete_skill_without_references_goes_straight_to_the_catalog() {
    let skill = text("rust");
    let mut answers = vec![Answer::Done, count(1), Answer::RefSkills(Vec::new())];
    assert_eq!(delete_skill(&skill, &answers), Step::Ask(Query::DeleteSkill { skill: skill.clone() }));
    answers.push(Answer::Done);
    assert_eq!(delete_skill(&skill, &answers), Step::Ask(Query::Commit));
    answers.push(Answer::Done);
    assert_eq!(delete_skill(&skill, &answers), Step::Done(Ok(())));
}

#[test]
fn delete_skill_gives_up_when_a_statement_fails() {
    let skill = text("rust");
    let rows = || Answer::RefSkills(vec![skills_row("r1", "[\"rust\"]")]);
    assert_eq!(delete_skill(&skill, &vec![Answer::Failed]), fault());
    assert_eq!(delete_skill(&skill, &vec![Answer::Done, Answer::Failed]), fault());
    assert_eq!(delete_skill(&skill, &vec![Answer::Done, count(1), Answer::Failed]), fault());
    assert_eq!(delete_skill(&skill, &vec![Answer::Done, count(1), rows(), Answer::Failed]), fault());
    assert_eq!(
        delete_skill(&skill, &vec![Answer::Done, count(1), rows(), Answer::Done, Answer::Failed]),
        fault()
    );
    assert_eq!(
        delete_skill(
            &skill,
            &vec![Answer::Done, count(1), rows(), Answer::Done, Answer::Done, Answer::Failed]
        ),
        fault()
    );
}

#[test]
fn delete_skill_gives_up_on_a_row_it_cannot_read() {
    let skill = text("rust");
    let unreadable = vec![Answer::Done, count(1), Answer::RefSkills(vec![skills_row("r1", "rust")])];
    assert_eq!(delete_skill(&skill, &unreadable), fault());
    let keyless = vec![
        Answer::Done,
        count(1),
        Answer::RefSkills(vec![EntitySkills {
            refstr: None,
            relevant_skills: Some(b"[]".to_vec()),
        }]),
    ];
    assert_eq!(delete_skill(&skill, &keyless), fault());
    let listless = vec![
        Answer::Done,
        count(1),
        Answer::RefSkills(vec![EntitySkills { refstr: Some(text("r1")), relevant_skills: None }]),
    ];
    assert_eq!(delete_skill(&skill, &listless), fault());
}

#[test]
fn list_skills_hands_out_the_names() {
    assert_eq!(list_skills(&Vec::new()), Step::Ask(Query::ListSkills));
    let rows = vec![Some(text("rust")), Some(text("go"))];
    assert_eq!(
        list_skills(&vec![Answer::Skills(rows)]),
        Step::Done(Ok(vec![text("rust"), text("go")]))
    );
    assert_eq!(list_skills(&vec![Answer::Skills(Vec::new())]), Step::Done(Ok(Vec::new())));
}

#[test]
fn list_skills_reports_a_row_without_a_value() {
    let rows = vec![Some(text("rust")), None];
    assert_eq!(list_skills(&vec![Answer::Skills(rows)]), fault());
    assert_eq!(list_skills(&vec![Answer::Failed]), fault());
}

#[test]
fn present_values_asks_for_every_value() {
    assert_eq!(present_values(&vec![Some(text("a")), Some(text("b"))]), Some(vec![text("a"), text("b")]));
    assert_eq!(present_values(&vec![None, Some(text("b"))]), None);
    assert_eq!(present_values(&Vec::new()), Some(Vec::new()));
}

#[test]
fn search_skills_ranks_the_catalog() {
    let term = text("pyth");
    assert_eq!(search_skills(&term, 50, &Vec::new()), Step::Ask(Query::ListSkills));
    let rows = vec![Some(text("python")), Some(text("java")), Some(text("typescript"))];
    assert_eq!(
        search_skills(&term, 50, &vec![Answer::Skills(rows)]),
        Step::Done(Ok(vec![text("python")]))
    );
}

#[test]
fn search_skills_without_a_match_is_no_failure() {
    let term = text("pyth");
    let rows = vec![Some(text("java"))];
    assert_eq!(search_skills(&term, 50, &vec![Answer::Skills(rows)]), Step::Done(Ok(Vec::new())));
    assert_eq!(search_skills(&term, 50, &vec![Answer::Failed]), fault());
    assert_eq!(search_skills(&term, 50, &vec![Answer::Skills(vec![None])]), fault());
}

#[test]
fn add_skill_to_ref_opens_the_transaction_first() {
    let refstr = text("r1");
    let skill = text("rust");
    assert_eq!(add_skill_to_ref(&refstr, &skill, &Vec::new()), Step::Ask(Query::Begin));
    assert_eq!(add_skill_to_ref(&refstr, &skill, &vec![Answer::Failed]), fault());
}

#[test]
fn add_skill_to_ref_checks_the_catalog_inside_the_transaction() {
    let refstr = text("r1");
    let skill = text("rust");
    assert_eq!(
        add_skill_to_ref(&refstr, &skill, &vec![Answer::Done]),
        Step::Ask(Query::CountSkills { skill: skill.clone() })
    );
    assert_eq!(
        add_skill_to_ref(&refstr, &skill, &vec![Answer::Done, count(0)]),
        Step::Done(Err(Failure::UnknownSkill))
    );
    assert_eq!(add_skill_to_ref(&refstr, &skill, &vec![count(1)]), fault());
}

#[test]
fn add_skill_to_ref_rewrites_the_list_in_a_transaction() {
    let refstr = text("r1");
    let skill = text("rust");
    let mut answers = Vec::new();
    assert_eq!(add_skill_to_ref(&refstr, &skill, &answers), Step::Ask(Query::Begin));
    answers.push(Answer::Done);
    assert_eq!(
        add_skill_to_ref(&refstr, &skill, &answers),
        Step::Ask(Query::CountSkills { skill: skill.clone() })
    );
    answers.push(count(1));
    assert_eq!(
        add_skill_to_ref(&refstr, &skill, &answers),
        Step::Ask(Query::FindRefSkills { refstr: refstr.clone() })
    );
    answers.push(Answer::RefSkill(Some(skills_row("r1", "[\"go\"]"))));
    assert_eq!(add_skill_to_ref(&refstr, &skill, &answers), set("r1", "[\"go\",\"rust\"]"));
    answers.push(Answer::Done);
    assert_eq!(add_skill_to_ref(&refstr, &skill, &answers), Step::Ask(Query::Commit));
    answers.push(Answer::Done);
    assert_eq!(add_skill_to_ref(&refstr, &skill, &answers), Step::Done(Ok(())));
}

#[test]
fn add_skill_to_ref_does_not_attach_twice() {
    let refstr = text("r1");
    let skill = text("rust");
    let answers =
        vec![Answer::Done, count(1), Answer::RefSkill(Some(skills_row("r1", "[\"rust\",\"go\"]")))];
    assert_eq!(add_skill_to_ref(&refstr, &skill, &answers), set("r1", "[\"rust\",\"go\"]"));
}

#[test]
fn add_skill_to_ref_reports_an_unknown_reference() {
    let refstr = text("r1");
    let skill = text("rust");
    let answers = vec![Answer::Done, count(1), Answer::RefSkill(None)];
    assert_eq!(
        add_skill_to_ref(&refstr, &skill, &answers),
        Step::Done(Err(Failure::UnknownReference))
    );
}

#[test]
fn add_skill_to_ref_gives_up_when_a_statement_fails() {
    let refstr = text("r1");
    let skill = text("rust");
    let row = || Answer::RefSkill(Some(skills_row("r1", "[]")));
    assert_eq!(add_skill_to_ref(&refstr, &skill, &vec![Answer::Failed]), fault());
    assert_eq!(add_skill_to_ref(&refstr, &skill, &vec![Answer::Done, Answer::Failed]), fault());
    assert_eq!(
        add_skill_to_ref(&refstr, &skill, &vec![Answer::Done, count(1), Answer::Failed]),
        fault()
    );
    assert_eq!(
        add_skill_to_ref(&refstr, &skill, &vec![Answer::Done, count(1), row(), Answer::Failed]),
        fault()
    );
    assert_eq!(
        add_skill_to_ref(
            &refstr,
            &skill,
            &vec![Answer::Done, count(1), row(), Answer::Done, Answer::Failed]
        ),
        fault()
    );
    assert_eq!(
        add_skill_to_ref(&refstr, &skill, &vec![Answer::Done, count(0), Answer::Failed]),
        fault()
    );
}

#[test]
fn add_skill_to_ref_gives_up_on_a_list_it_cannot_read() {
    let refstr = text("r1");
    let skill = text("rust");
    let unreadable =
        vec![Answer::Done, count(1), Answer::RefSkill(Some(skills_row("r1", "{\"a\":1}")))];
    assert_eq!(add_skill_to_ref(&refstr, &skill, &unreadable), fault());
    let listless = vec![
        Answer::Done,
        count(1),
        Answer::RefSkill(Some(EntitySkills { refstr: Some(text("r1")), relevant_skills: None })),
    ];
    assert_eq!(add_skill_to_ref(&refstr, &skill, &listless), fault());
}

#[test]
fn add_skill_to_ref_after_the_skill_was_deleted_writes_nothing() {
    let refstr = text("r1");
    let skill = text("rust");
    let mut answers = Vec::new();
    let mut asked = Vec::new();
    let script = vec![Answer::Done, count(0)];
    for answer in script {
        match add_skill_to_ref(&refstr, &skill, &answers) {
            Step::Ask(query) => asked.push(query),
            Step::Done(outcome) => panic!("done too early: {:?}", outcome),
        }
        answers.push(answer);
    }
    assert_eq!(add_skill_to_ref(&refstr, &skill, &answers), Step::Done(Err(Failure::UnknownSkill)));
    assert_eq!(asked, vec![Query::Begin, Query::CountSkills { skill: skill.clone() }]);
}

#[test]
fn remove_skill_from_ref_rewrites_the_list_in_a_transaction() {
    let refstr = text("r1");
    let skill = text("rust");
    let mut answers = Vec::new();
    assert_eq!(remove_skill_from_ref(&refstr, &skill, &answers), Step::Ask(Query::Begin));
    answers.push(Answer::Done);
    assert_eq!(
        remove_skill_from_ref(&refstr, &skill, &answers),
        Step::Ask(Query::FindRefSkills { refstr: refstr.clone() })
    );
    answers.push(Answer::RefSkill(Some(skills_row("r1", "[\"go\",\"rust\",\"java\"]"))));
    assert_eq!(remove_skill_from_ref(&refstr, &skill, &answers), set("r1", "[\"go\",\"java\"]"));
    answers.push(Answer::Done);
    assert_eq!(remove_skill_from_ref(&refstr, &skill, &answers), Step::Ask(Query::Commit));
    answers.push(Answer::Done);
    assert_eq!(remove_skill_from_ref(&refstr, &skill, &answers), Step::Done(Ok(())));
}

#[test]
fn remove_skill_from_ref_of_an_absent_skill_writes_the_list_back() {
    let refstr = text("r1");
    let skill = text("rust");
    let answers = vec![Answer::Done, Answer::RefSkill(Some(skills_row("r1", "[\"go\"]")))];
    assert_eq!(remove_skill_from_ref(&refstr, &skill, &answers), set("r1", "[\"go\"]"));
}

#[test]
fn remove_skill_from_ref_reports_an_unknown_reference() {
    let refstr = text("r1");
    let skill = text("rust");
    let answers = vec![Answer::Done, Answer::RefSkill(None)];
    assert_eq!(
        remove_skill_from_ref(&refstr, &skill, &answers),
        Step::Done(Err(Failure::UnknownReference))
    );
    assert_eq!(remove_skill_from_ref(&refstr, &skill, &vec![Answer::Failed]), fault());
}

#[test]
fn edit_begins_with_begin() {
    let refstr = text("r1");
    let skill = text("rust");
    assert_eq!(edit(&refstr, Change::Attach, &skill, &Vec::new()), Step::Ask(Query::Begin));
    assert_eq!(edit(&refstr, Change::Detach, &skill, &Vec::new()), Step::Ask(Query::Begin));
    assert_eq!(
        edit(&refstr, Change::Detach, &skill, &vec![Answer::Done]),
        Step::Ask(Query::FindRefSkills { refstr: refstr.clone() })
    );
}

#[test]
fn rewrite_steps_start_where_they_are_told() {
    let refstr = text("r1");
    let skill = text("rust");
    let find = Step::Ask(Query::FindRefSkills { refstr: refstr.clone() });
    assert_eq!(rewrite_steps(&refstr, Change::Attach, &skill, &vec![Answer::Done, count(1)], 2), find);
    let answers = vec![Answer::Done, Answer::RefSkill(Some(skills_row("r1", "[]"))), Answer::Done];
    assert_eq!(
        rewrite_steps(&refstr, Change::Detach, &skill, &answers, 1),
        Step::Ask(Query::Commit)
    );
}

#[test]
fn rewrite_attaches_or_detaches() {
    let refstr = text("r1");
    let skill = text("rust");
    let stored = b"[\"go\",\"rust\"]".to_vec();
    assert_eq!(rewrite(&refstr, &stored, Change::Attach, &skill), set("r1", "[\"go\",\"rust\"]"));
    assert_eq!(rewrite(&refstr, &stored, Change::Detach, &skill), set("r1", "[\"go\"]"));
    assert_eq!(rewrite(&refstr, &b"nothing".to_vec(), Change::Detach, &skill), fault());
}

#[test]
fn get_skills_reads_the_list() {
    let refstr = text("r1");
    assert_eq!(
        get_skills(&refstr, &Vec::new()),
        Step::Ask(Query::FindRefSkills { refstr: refstr.clone() })
    );
    let row = Answer::RefSkill(Some(skills_row("r1", "[\"go\",\"rust\"]")));
    assert_eq!(get_skills(&refstr, &vec![row]), Step::Done(Ok(vec![text("go"), text("rust")])));
}

#[test]
fn get_skills_reports_what_is_missing() {
    let refstr = text("r1");
    assert_eq!(
        get_skills(&refstr, &vec![Answer::RefSkill(None)]),
        Step::Done(Err(Failure::UnknownReference))
    );
    let unreadable = Answer::RefSkill(Some(skills_row("r1", "[")));
    assert_eq!(get_skills(&refstr, &vec![unreadable]), fault());
    let listless =
        Answer::RefSkill(Some(EntitySkills { refstr: Some(text("r1")), relevant_skills: None }));
    assert_eq!(get_skills(&refstr, &vec![listless]), fault());
    assert_eq!(get_skills(&refstr, &vec![Answer::Failed]), fault());
}

#[test]
fn a_row_copies_itself() {
    let row = EntityReference { name: Some(text("alice")), refstr: None };
    assert_eq!(row.copy(), row);
}
