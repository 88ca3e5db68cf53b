use skillrefs::outcome::Failure;
use skillrefs::skills::attach;
use skillrefs::skills::decode_skills;
use skillrefs::skills::detach;
use skillrefs::skills::encode_skills;
use skillrefs::skills::holds;

fn list(names: &[&str]) -> Vec<String> {
    names.iter().map(|name| String::from(*name)).collect()
}

#[test]
fn holds_finds_what_is_there() {
    let skills = list(&["rust", "go"]);
    assert!(holds(&skills, &String::from("go")));
    assert!(!holds(&skills, &String::from("java")));
    assert!(!holds(&Vec::new(), &String::from("go")));
}

#[test]
fn attach_puts_a_new_skill_last() {
    let mut skills = list(&["rust", "go"]);
    attach(&mut skills, String::from("java"));
    assert_eq!(skills, list(&["rust", "go", "java"]));
}

#[test]
fn attach_skips_a_skill_that_is_there() {
    let mut skills = list(&["rust", "go"]);
    attach(&mut skills, String::from("rust"));
    assert_eq!(skills, list(&["rust", "go"]));
}

#[test]
fn attach_twice_attaches_once() {
    let mut skills = Vec::new();
    attach(&mut skills, String::from("rust"));
    attach(&mut skills, String::from("rust"));
    assert_eq!(skills, list(&["rust"]));
}

#[test]
fn detach_removes_every_occurrence() {
    let skills = list(&["go", "rust", "go", "java", "go"]);
    assert_eq!(detach(&skills, &String::from("go")), list(&["rust", "java"]));
}

#[test]
fn detach_of_an_absent_skill_changes_nothing() {
    let skills = list(&["rust", "java"]);
    assert_eq!(detach(&skills, &String::from("go")), skills);
    assert_eq!(detach(&Vec::new(), &String::from("go")), Vec::<String>::new());
}

#[test]
fn detach_keeps_the_order() {
    let skills = list(&["c", "b", "a"]);
    assert_eq!(detach(&skills, &String::from("b")), list(&["c", "a"]));
}

#[test]
fn encode_writes_a_json_array() {
    assert_eq!(encode_skills(&Vec::new()), b"[]".to_vec());
    assert_eq!(encode_skills(&list(&["rust", "go"])), b"[\"rust\",\"go\"]".to_vec());
}

#[test]
fn encode_escapes_what_json_asks_for() {
    assert_eq!(encode_skills(&list(&["a\"b\\c"])), b"[\"a\\\"b\\\\c\"]".to_vec());
}

#[test]
fn decode_reads_a_json_array() {
    assert_eq!(decode_skills(&b"[]".to_vec()), Ok(Vec::new()));
    assert_eq!(decode_skills(&b" [ \"rust\" , \"go\" ] ".to_vec()), Ok(list(&["rust", "go"])));
}

#[test]
fn decode_turns_down_what_is_no_list_of_strings() {
    assert_eq!(decode_skills(&b"".to_vec()), Err(Failure::Internal));
    assert_eq!(decode_skills(&b"[1,2]".to_vec()), Err(Failure::Internal));
    assert_eq!(decode_skills(&b"{\"a\":\"b\"}".to_vec()), Err(Failure::Internal));
    assert_eq!(decode_skills(&b"[\"rust\"".to_vec()), Err(Failure::Internal));
    assert_eq!(decode_skills(&b"[\"rust\"] x".to_vec()), Err(Failure::Internal));
    assert_eq!(decode_skills(&vec![b'[', b'"', 0xff, b'"', b']']), Err(Failure::Internal));
}

#[test]
fn decode_gives_back_what_encode_wrote() {
    let lists = [
        list(&[]),
        list(&["rust"]),
        list(&["", " ", "a b"]),
        list(&["quote\"", "back\\slash", "new\nline", "tab\t", "nul\u{0}"]),
        list(&["ünïcödé", "✓", "\u{10ffff}"]),
        list(&["same", "same"]),
    ];
    for names in lists {
        assert_eq!(decode_skills(&encode_skills(&names)), Ok(names));
    }
}
