use proot::parse::{decode_pr, decode_pr_list, parse_pr_list, DecodeError, Field, Pr, ShapeError};

const PRS_DATA: &str = r#"
        [

            {
                "id": "1",
                "number": 1,
                "title": "Add feature",
                "url": "www.example.com",
                "state": "OPEN",
                "isCrossRepository": false,
                "baseRefName": "main",
                "headRefName": "feature",
                "headRepositoryOwner": {
                    "login": "owner"
                }
            },
            {
                "id": "2",
                "number": 2,
                "title": "Fix bug",
                "url": "www.example.com",
                "state": "CLOSED",
                "isCrossRepository": false,
                "baseRefName": "main",
                "headRefName": "bugfix",
                "headRepositoryOwner": {
                    "login": "owner"
                }
            },
            {
                "id": "3",
                "number": 3,
                "title": "Refactor code",
                "url": "www.example.com",
                "state": "OPEN",
                "isCrossRepository": false,
                "baseRefName": "main",
                "headRefName": "refactor",
                "headRepositoryOwner": {
                    "login": "owner"
                }
            },
            {
                "id": "4",
                "number": 4,
                "title": "Add tests",
                "url": "www.example.com",
                "state": "OPEN",
                "isCrossRepository": false,
                "baseRefName": "feature",
                "headRefName": "tests",
                "headRepositoryOwner": {
                    "login": "owner"
                }
            },
            {
                "id": "5",
                "number": 5,
                "title": "Fix tests",
                "url": "www.example.com",
                "state": "OPEN",
                "isCrossRepository": false,
                "baseRefName": "bugfix",
                "headRefName": "fix-tests",
                "headRepositoryOwner": {
                    "login": "owner"
                }
            },
            {
                "id": "6",
                "number": 6,
                "title": "Refactor tests",
                "url": "www.example.com",
                "state": "OPEN",
                "isCrossRepository": false,
                "baseRefName": "refactor",
                "headRefName": "refactor-tests",
                "headRepositoryOwner": {
                    "login": "owner"
                }
            },
            {
                "id": "7",
                "number": 7,
                "title": "Add feature",
                "url": "www.example.com",
                "state": "OPEN",
                "isCrossRepository": false,
                "baseRefName": "dev",
                "headRefName": "feature",
                "headRepositoryOwner": {
                    "login": "owner"
                }
            }
        ]
    "#;

fn record(members: &str) -> String {
    format!("[{{{}}}]", members)
}

const FULL: &str = r#""id": "a", "number": 12, "title": "T", "url": "u", "state": "OPEN",
    "isCrossRepository": false, "baseRefName": "main", "headRefName": "topic""#;

fn shape_fault(json: &str) -> ShapeError {
    match parse_pr_list(json) {
        Err(DecodeError::Shape(fault)) => fault,
        other => panic!("expected a shape fault, got {:?}", other),
    }
}

#[test]
fn test_parse_pr_list() {
    let pr_list = parse_pr_list(PRS_DATA).expect("Prs should be parsed without error");
    assert_eq!(pr_list.len(), 7);
}

#[test]
fn test_pr_missing_field() {
    let test_cases = vec![
        r#"
                [
                    {
                        "id": "1",
                        "number": 1,
                        "title": "Add feature",
                        "url": "www.example.com",
                        "state": "OPEN",
                        isCrossRepository": false,
                        "baseRefName": "main"
                    }
                ]
            "#,
        r#"
                [
                    {
                        "id": "1",
                        "number": 1,
                        "title": "Add feature",
                        "url": "www.example.com",
                        "state": "OPEN",
                        "headRefName": "feature"
                    }
                ]
            "#,
        r#"
                [
                    {
                        "id": "1",
                        "number": 1,
                        "title": "Add feature",
                        "url": "www.example.com",
                        "baseRefName": "main",
                        "headRefName": "feature"
                    }
                ]
            "#,
    ];

    test_cases.iter().for_each(|json| {
        let pr_list = parse_pr_list(json);
        assert!(pr_list.is_err());
    });
}

#[test]
fn test_allow_missing_title() {
    let json = r#"
            [
                {
                    "id": "1",
                    "number": 1,
                    "url": "www.example.com",
                    "state": "OPEN",
                    "isCrossRepository": false,
                    "baseRefName": "main",
                    "headRefName": "feature",
                    "headRepositoryOwner": {
                        "login": "owner"
                    }
                }
            ]
        "#;

    let pr_list = parse_pr_list(json).expect("Prs should be parsed without error");
    assert_eq!(pr_list.len(), 1);
    assert_eq!(pr_list[0].title, None);
    assert_eq!(pr_list[0].state, "OPEN");
    assert_eq!(pr_list[0].base_ref_name, "main");
    assert_eq!(pr_list[0].head_ref_name, "feature");
}

#[test]
fn decodes_every_member_in_order() {
    let prs = parse_pr_list(PRS_DATA).expect("the fixture decodes");
    let ids: Vec<&str> = prs.iter().map(|pr| pr.id.as_str()).collect();
    assert_eq!(ids, vec!["1", "2", "3", "4", "5", "6", "7"]);
    let second: &Pr = &prs[1];
    assert_eq!(second.number, 2);
    assert_eq!(second.title.as_deref(), Some("Fix bug"));
    assert_eq!(second.url, "www.example.com");
    assert_eq!(second.state, "CLOSED");
    assert_eq!(second.base_ref_name, "main");
    assert_eq!(second.head_ref_name, "bugfix");
    assert!(second.head_repository_owner.is_none());
    assert!(!second.is_cross_repository());
    assert_eq!(second.effective_head(), "bugfix");
}

#[test]
fn empty_array_decodes_to_no_prs() {
    let prs = parse_pr_list("[]").expect("an empty array is a list");
    assert!(prs.is_empty());
}

#[test]
fn null_title_is_absent() {
    let json = record(&FULL.replace(r#""title": "T""#, r#""title": null"#));
    let prs = parse_pr_list(&json).expect("null is allowed for the title");
    assert_eq!(prs[0].title, None);
}

#[test]
fn empty_title_is_kept_as_empty() {
    let json = record(&FULL.replace(r#""title": "T""#, r#""title": """#));
    let prs = parse_pr_list(&json).expect("an empty title is a title");
    assert_eq!(prs[0].title, Some(String::new()));
}

#[test]
fn unknown_members_are_ignored() {
    let json = record(&format!("{}, \"labels\": [1, 2], \"draft\": true", FULL));
    let prs = parse_pr_list(&json).expect("extra members do no harm");
    assert_eq!(prs.len(), 1);
    assert_eq!(prs[0].id, "a");
    assert_eq!(prs[0].number, 12);
}

#[test]
fn cross_repository_pr_carries_its_owner() {
    let members = FULL.replace("false", "true");
    let json = record(&format!("{}, \"headRepositoryOwner\": {{\"login\": \"alice\"}}", members));
    let prs = parse_pr_list(&json).expect("a fork with an owner decodes");
    assert!(prs[0].is_cross_repository());
    assert_eq!(prs[0].head_repository_owner.as_ref().map(|o| o.login.as_str()), Some("alice"));
    assert_eq!(prs[0].effective_head(), "alice/topic");
}

#[test]
fn owner_is_not_read_for_same_repository_prs() {
    let json = record(&format!("{}, \"headRepositoryOwner\": 5", FULL));
    let prs = parse_pr_list(&json).expect("the owner is not read");
    assert!(prs[0].head_repository_owner.is_none());
    let json = record(FULL);
    let prs = parse_pr_list(&json).expect("the owner is not required");
    assert!(prs[0].head_repository_owner.is_none());
}

#[test]
fn cross_repository_pr_needs_its_owner() {
    let members = FULL.replace("false", "true");
    assert_eq!(
        shape_fault(&record(&members)),
        ShapeError::Missing { index: 0, field: Field::HeadRepositoryOwner }
    );
    assert_eq!(
        shape_fault(&record(&format!("{}, \"headRepositoryOwner\": \"alice\"", members))),
        ShapeError::Mistyped { index: 0, field: Field::HeadRepositoryOwner }
    );
    assert_eq!(
        shape_fault(&record(&format!("{}, \"headRepositoryOwner\": {{}}", members))),
        ShapeError::Missing { index: 0, field: Field::Login }
    );
    assert_eq!(
        shape_fault(&record(&format!("{}, \"headRepositoryOwner\": {{\"login\": 1}}", members))),
        ShapeError::Mistyped { index: 0, field: Field::Login }
    );
}

#[test]
fn malformed_text_is_a_syntax_error() {
    for json in ["", "[", "{\"id\": }", "[1, 2,]", "nonsense"] {
        match parse_pr_list(json) {
            Err(DecodeError::Syntax(message)) => assert!(!message.is_empty()),
            other => panic!("expected a syntax error for {:?}, got {:?}", json, other),
        }
    }
}

#[test]
fn a_document_that_is_no_array_is_rejected() {
    for json in ["{}", "null", "3", "\"text\"", "true"] {
        assert_eq!(shape_fault(json), ShapeError::NotAnArray);
    }
}

#[test]
fn an_element_that_is_no_object_is_rejected() {
    assert_eq!(shape_fault("[1]"), ShapeError::NotAnObject { index: 0 });
    assert_eq!(shape_fault("[[]]"), ShapeError::NotAnObject { index: 0 });
    let json = format!("[{{{}}}, null]", FULL);
    assert_eq!(shape_fault(&json), ShapeError::NotAnObject { index: 1 });
}

#[test]
fn each_required_member_is_missed() {
    let cases = [
        (r#""id": "a", "#, Field::Id),
        (r#""number": 12, "#, Field::Number),
        (r#""url": "u", "#, Field::Url),
        (r#""state": "OPEN","#, Field::State),
        (r#""isCrossRepository": false, "#, Field::IsCrossRepository),
        (r#""baseRefName": "main", "#, Field::BaseRefName),
        (r#", "headRefName": "topic""#, Field::HeadRefName),
    ];
    for (member, field) in cases {
        assert!(FULL.contains(member));
        let json = record(&FULL.replace(member, ""));
        assert_eq!(shape_fault(&json), ShapeError::Missing { index: 0, field });
    }
}

#[test]
fn each_member_is_type_checked() {
    let cases = [
        (r#""id": "a""#, r#""id": 1"#, Field::Id),
        (r#""number": 12"#, r#""number": "12""#, Field::Number),
        (r#""number": 12"#, r#""number": -1"#, Field::Number),
        (r#""number": 12"#, r#""number": 1.5"#, Field::Number),
        (r#""number": 12"#, r#""number": 4294967296"#, Field::Number),
        (r#""title": "T""#, r#""title": 7"#, Field::Title),
        (r#""url": "u""#, r#""url": null"#, Field::Url),
        (r#""state": "OPEN""#, r#""state": ["OPEN"]"#, Field::State),
        (r#""isCrossRepository": false"#, r#""isCrossRepository": "no""#, Field::IsCrossRepository),
        (r#""baseRefName": "main""#, r#""baseRefName": {}"#, Field::BaseRefName),
        (r#""headRefName": "topic""#, r#""headRefName": false"#, Field::HeadRefName),
    ];
    for (member, wrong, field) in cases {
        assert!(FULL.contains(member));
        let json = record(&FULL.replace(member, wrong));
        assert_eq!(shape_fault(&json), ShapeError::Mistyped { index: 0, field });
    }
}

#[test]
fn the_largest_number_fits() {
    let json = record(&FULL.replace("12", "4294967295"));
    let prs = parse_pr_list(&json).expect("the number fits in 32 bits");
    assert_eq!(prs[0].number, 4294967295);
    let json = record(&FULL.replace("12", "0"));
    assert_eq!(parse_pr_list(&json).expect("zero is a number")[0].number, 0);
}

#[test]
fn the_first_fault_is_reported() {
    let members = FULL.replace(r#""id": "a", "#, "").replace(r#""state": "OPEN","#, "");
    assert_eq!(
        shape_fault(&record(&members)),
        ShapeError::Missing { index: 0, field: Field::Id }
    );
    let bad_state = FULL.replace(r#""state": "OPEN""#, r#""state": 0"#);
    let bad_url = FULL.replace(r#""url": "u", "#, "");
    let json = format!("[{{{}}}, {{{}}}, {{{}}}]", FULL, bad_state, bad_url);
    assert_eq!(
        shape_fault(&json),
        ShapeError::Mistyped { index: 1, field: Field::State }
    );
}

#[test]
fn one_bad_record_rejects_the_whole_array() {
    let good = PRS_DATA.trim().trim_end_matches(']');
    let json = format!("{}, {{\"id\": \"8\"}}]", good);
    assert_eq!(
        shape_fault(&json),
        ShapeError::Missing { index: 7, field: Field::Number }
    );
}

#[test]
fn decodes_a_parsed_document() {
    let document: serde_json::Value =
        serde_json::from_str(&record(FULL)).expect("the text is JSON");
    let prs = decode_pr_list(&document).expect("the document is a list");
    assert_eq!(prs.len(), 1);
    assert_eq!(prs[0].head_ref_name, "topic");
    let element = &document.as_array().expect("an array")[0];
    let pr = decode_pr(element, 3).expect("the element is a record");
    assert_eq!(pr.id, "a");
    assert_eq!(pr.title.as_deref(), Some("T"));
    let broken: serde_json::Value = serde_json::from_str("{\"id\": 1}").expect("JSON");
    assert_eq!(
        decode_pr(&broken, 3).err(),
        Some(ShapeError::Mistyped { index: 3, field: Field::Id })
    );
    assert_eq!(decode_pr_list(&broken).err(), Some(ShapeError::NotAnArray));
}

#[test]
fn member_names_are_the_json_keys() {
    assert_eq!(Field::Id.name(), "id");
    assert_eq!(Field::Number.name(), "number");
    assert_eq!(Field::Title.name(), "title");
    assert_eq!(Field::Url.name(), "url");
    assert_eq!(Field::State.name(), "state");
    assert_eq!(Field::IsCrossRepository.name(), "isCrossRepository");
    assert_eq!(Field::BaseRefName.name(), "baseRefName");
    assert_eq!(Field::HeadRefName.name(), "headRefName");
    assert_eq!(Field::HeadRepositoryOwner.name(), "headRepositoryOwner");
    assert_eq!(Field::Login.name(), "login");
}

#[test]
fn faults_are_described_in_words() {
    assert_eq!(ShapeError::NotAnArray.message(), "expected an array of pull requests");
    assert_eq!(
        ShapeError::NotAnObject { index: 0 }.message(),
        "record 0: expected an object"
    );
    assert_eq!(
        ShapeError::Missing { index: 12, field: Field::BaseRefName }.message(),
        "record 12: missing member `baseRefName`"
    );
    assert_eq!(
        ShapeError::Mistyped { index: 3, field: Field::Number }.message(),
        "record 3: member `number` has the wrong type"
    );
    let error = parse_pr_list("[{}]").expect_err("the record is empty");
    assert_eq!(error.message(), "record 0: missing member `id`");
    match parse_pr_list("[") {
        Err(DecodeError::Syntax(message)) => {
            assert_eq!(DecodeError::Syntax(message.clone()).message(), message)
        }
        other => panic!("expected a syntax error, got {:?}", other),
    }
}
