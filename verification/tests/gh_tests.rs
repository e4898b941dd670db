use proot::gh::{read_output, search_filter, CommandError, GhCli};
use proot::text::decimal_text;

const MEMBERS: &str =
    "id,number,title,url,state,isCrossRepository,baseRefName,headRefName,headRepositoryOwner";

#[test]
fn health_check_asks_for_the_version() {
    let command = GhCli::new().check_health();
    assert_eq!(command.program, "gh");
    assert_eq!(command.args, vec!["--version"]);
}

#[test]
fn opening_a_pr_views_it_on_the_web() {
    let command = GhCli::new().open_pr_on_web(42);
    assert_eq!(command.program, "gh");
    assert_eq!(command.args, vec!["pr", "view", "42", "--web"]);
    let command = GhCli::new().open_pr_on_web(0);
    assert_eq!(command.args, vec!["pr", "view", "0", "--web"]);
    let command = GhCli::new().open_pr_on_web(u64::MAX);
    assert_eq!(command.args, vec!["pr", "view", "18446744073709551615", "--web"]);
}

#[test]
fn listing_asks_for_the_members_that_are_decoded() {
    let command = GhCli::new().get_all_prs();
    assert_eq!(command.program, "gh");
    assert_eq!(command.args, vec!["pr", "list", "--json", MEMBERS]);
}

#[test]
fn filtered_listing_adds_the_search() {
    let command = GhCli::new().get_filtered_prs("author:@me ".to_string());
    assert_eq!(command.program, "gh");
    assert_eq!(command.args, vec!["pr", "list", "--json", MEMBERS, "--search", "author:@me "]);
    let command = GhCli::new().get_filtered_prs(String::new());
    assert_eq!(command.args, vec!["pr", "list", "--json", MEMBERS, "--search", ""]);
}

#[test]
fn commands_do_not_wear_the_tool_out() {
    let cli = GhCli::new();
    let first = cli.get_all_prs();
    let second = cli.get_all_prs();
    assert_eq!(first.args, second.args);
    assert_eq!(cli.check_health().args, vec!["--version"]);
}

#[test]
fn search_filter_joins_its_parts_with_blanks() {
    assert_eq!(search_filter(false, &Vec::new()), "");
    assert_eq!(search_filter(true, &Vec::new()), "author:@me ");
    let custom = vec!["label:bug".to_string(), "is:open".to_string()];
    assert_eq!(search_filter(false, &custom), "label:bug is:open ");
    assert_eq!(search_filter(true, &custom), "author:@me label:bug is:open ");
    assert_eq!(search_filter(true, &vec![String::new()]), "author:@me  ");
}

#[test]
fn decimal_text_writes_numbers() {
    assert_eq!(decimal_text(0), "0");
    assert_eq!(decimal_text(7), "7");
    assert_eq!(decimal_text(9), "9");
    assert_eq!(decimal_text(10), "10");
    assert_eq!(decimal_text(1234567890), "1234567890");
    assert_eq!(decimal_text(4294967295), "4294967295");
    assert_eq!(decimal_text(u64::MAX), "18446744073709551615");
    for n in [1u64, 19, 100, 101, 999, 1000, 65535, 1 << 40] {
        assert_eq!(decimal_text(n), n.to_string());
    }
}

#[test]
fn output_of_a_successful_run_is_its_text() {
    let out = read_output(true, "[]\n".as_bytes().to_vec(), &b"warning".to_vec());
    assert_eq!(out.ok(), Some("[]\n".to_string()));
    let out = read_output(true, "héllo ┌".as_bytes().to_vec(), &Vec::new());
    assert_eq!(out.ok(), Some("héllo ┌".to_string()));
    let out = read_output(true, Vec::new(), &Vec::new());
    assert_eq!(out.ok(), Some(String::new()));
}

#[test]
fn output_that_is_not_text_is_refused() {
    let out = read_output(true, vec![b'o', b'k', 0xff], &Vec::new());
    assert!(matches!(out, Err(CommandError::NotText)));
    let out = read_output(true, vec![0xc3], &b"ignored".to_vec());
    assert!(matches!(out, Err(CommandError::NotText)));
}

#[test]
fn a_failed_run_reports_what_the_tool_wrote() {
    let out = read_output(false, b"{}".to_vec(), &b"gh: not logged in\n".to_vec());
    match out {
        Err(CommandError::Failed(message)) => assert_eq!(message, "gh: not logged in\n"),
        other => panic!("expected a failure, got {:?}", other),
    }
    let out = read_output(false, vec![0xff], &vec![b'a', 0xff, b'b']);
    match out {
        Err(CommandError::Failed(message)) => assert_eq!(message, "a\u{fffd}b"),
        other => panic!("expected a failure, got {:?}", other),
    }
}
