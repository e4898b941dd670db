use proot::graph::PrGraph;
use proot::parse::{parse_pr_list, HeadRepositoryOwner, Pr};

const PRS_DATA: &str = r#"
        [

            {
                "id": "1",
                "number": 1,
                "title": "Add feature",
                "url": "www.example.com",
                "state": "OPEN",
                "isCrossRepository": false,
                "baseRefName": "main",
                "headRefName": "feature",
                "headRepositoryOwner": {
                    "login": "owner"
                }
            },
            {
                "id": "2",
                "number": 2,
                "title": "Fix bug",
                "url": "www.example.com",
                "state": "CLOSED",
                "isCrossRepository": false,
                "baseRefName": "main",
                "headRefName": "bugfix",
                "headRepositoryOwner": {
                    "login": "owner"
                }
            },
            {
                "id": "3",
                "number": 3,
                "title": "Refactor code",
                "url": "www.example.com",
                "state": "OPEN",
                "isCrossRepository": false,
                "baseRefName": "main",
                "headRefName": "refactor",
                "headRepositoryOwner": {
                    "login": "owner"
                }
            },
            {
                "id": "4",
                "number": 4,
                "title": "Add tests",
                "url": "www.example.com",
                "state": "OPEN",
                "isCrossRepository": false,
                "baseRefName": "feature",
                "headRefName": "tests",
                "headRepositoryOwner": {
                    "login": "owner"
                }
            },
            {
                "id": "5",
                "number": 5,
                "title": "Fix tests",
                "url": "www.example.com",
                "state": "OPEN",
                "isCrossRepository": false,
                "baseRefName": "bugfix",
                "headRefName": "fix-tests",
                "headRepositoryOwner": {
                    "login": "owner"
                }
            },
            {
                "id": "6",
                "number": 6,
                "title": "Refactor tests",
                "url": "www.example.com",
                "state": "OPEN",
                "isCrossRepository": false,
                "baseRefName": "refactor",
                "headRefName": "refactor-tests",
                "headRepositoryOwner": {
                    "login": "owner"
                }
            },
            {
                "id": "7",
                "number": 7,
                "title": "Add feature",
                "url": "www.example.com",
                "state": "OPEN",
                "isCrossRepository": false,
                "baseRefName": "dev",
                "headRefName": "feature",
                "headRepositoryOwner": {
                    "login": "owner"
                }
            }
        ]
    "#;

fn pr(id: &str, number: u32, base: &str, head: &str) -> Pr {
    Pr {
        id: id.to_string(),
        number,
        title: Some(format!("title {}", id)),
        url: "www.example.com".to_string(),
        state: "OPEN".to_string(),
        base_ref_name: base.to_string(),
        head_ref_name: head.to_string(),
        head_repository_owner: None,
    }
}

fn fork(id: &str, number: u32, base: &str, head: &str, login: &str) -> Pr {
    let mut pr = pr(id, number, base, head);
    pr.head_repository_owner = Some(HeadRepositoryOwner { login: login.to_string() });
    pr
}

#[test]
fn test_pr_graph() {
    let pr_list = parse_pr_list(PRS_DATA).expect("Prs should be parsed without error");
    let pr_graph = PrGraph::new(pr_list);

    assert_eq!(pr_graph.adjacency_list().len(), 5);
    assert_eq!(pr_graph.prs().len(), 7);
}

#[test]
fn test_pr_grph_all_ajdacents_in_prs() {
    let pr_list = parse_pr_list(PRS_DATA).expect("Prs should be parsed without error");
    let pr_graph = PrGraph::new(pr_list);

    for (base_ref_name, head_ref_names) in pr_graph.adjacency_list() {
        for head_ref_name in head_ref_names {
            assert!(pr_graph.get_pr(head_ref_name, base_ref_name).is_some());
        }
    }
}

#[test]
fn test_pr_graph_identifier() {
    let head_ref_name = "feature";
    let base_ref_name = "main";

    let identifier = PrGraph::identifier(head_ref_name, base_ref_name);
    assert_eq!(identifier, "feature->main");
}

#[test]
fn test_pr_graph_get_pr() {
    let pr_list = parse_pr_list(PRS_DATA).expect("Prs should be parsed without error");
    let pr_graph = PrGraph::new(pr_list);

    let pr = pr_graph.get_pr("feature", "main").unwrap();
    assert_eq!(pr.id, "1");
}

#[test]
fn test_pr_graph_get_starting_nodes() {
    let pr_list = parse_pr_list(PRS_DATA).expect("Prs should be parsed without error");
    let pr_graph = PrGraph::new(pr_list);

    let starting_nodes = pr_graph.get_starting_nodes();
    assert_eq!(starting_nodes.len(), 2);
    assert!(starting_nodes.contains(&"main".to_string()));
    assert!(starting_nodes.contains(&"dev".to_string()));
}

#[test]
fn starting_nodes_keep_the_order_of_first_appearance() {
    let pr_list = parse_pr_list(PRS_DATA).expect("the fixture decodes");
    let pr_graph = PrGraph::new(pr_list);
    assert_eq!(pr_graph.get_starting_nodes(), vec!["main".to_string(), "dev".to_string()]);
}

#[test]
fn adjacency_keeps_insertion_order() {
    let pr_list = parse_pr_list(PRS_DATA).expect("the fixture decodes");
    let pr_graph = PrGraph::new(pr_list);
    let list = pr_graph.adjacency_list();
    let bases: Vec<&str> = list.iter().map(|(base, _)| base.as_str()).collect();
    assert_eq!(bases, vec!["main", "feature", "bugfix", "refactor", "dev"]);
    assert_eq!(list[0].1, vec!["feature", "bugfix", "refactor"]);
    assert_eq!(list[1].1, vec!["tests"]);
    assert_eq!(list[4].1, vec!["feature"]);
    assert_eq!(pr_graph.heads_on("main"), Some(&list[0].1));
    assert_eq!(pr_graph.heads_on("tests"), None);
    assert_eq!(pr_graph.heads_on("nowhere"), None);
}

#[test]
fn lookup_distinguishes_edges_with_the_same_head() {
    let pr_list = parse_pr_list(PRS_DATA).expect("the fixture decodes");
    let pr_graph = PrGraph::new(pr_list);
    assert_eq!(pr_graph.get_pr("feature", "main").map(|pr| pr.number), Some(1));
    assert_eq!(pr_graph.get_pr("feature", "dev").map(|pr| pr.number), Some(7));
    assert!(pr_graph.get_pr("main", "feature").is_none());
    assert!(pr_graph.get_pr("feature", "bugfix").is_none());
    assert!(pr_graph.get_pr("", "").is_none());
}

#[test]
fn every_record_is_found_under_its_edge() {
    let pr_list = parse_pr_list(PRS_DATA).expect("the fixture decodes");
    let edges: Vec<(String, String, String)> = pr_list
        .iter()
        .map(|pr| (pr.effective_head(), pr.base_ref_name.clone(), pr.id.clone()))
        .collect();
    let pr_graph = PrGraph::new(pr_list);
    for (head, base, id) in edges {
        assert_eq!(pr_graph.get_pr(&head, &base).map(|pr| pr.id.clone()), Some(id));
    }
}

#[test]
fn an_empty_list_builds_an_empty_graph() {
    let pr_graph = PrGraph::new(Vec::new());
    assert!(pr_graph.adjacency_list().is_empty());
    assert!(pr_graph.prs().is_empty());
    assert!(pr_graph.get_starting_nodes().is_empty());
    assert!(pr_graph.get_pr("feature", "main").is_none());
}

#[test]
fn colliding_edges_keep_the_last_record() {
    let pr_graph = PrGraph::new(vec![
        pr("first", 1, "main", "topic"),
        pr("other", 2, "main", "side"),
        pr("second", 3, "main", "topic"),
    ]);
    assert_eq!(pr_graph.prs().len(), 2);
    assert_eq!(pr_graph.get_pr("topic", "main").map(|pr| pr.id.as_str()), Some("second"));
    assert_eq!(pr_graph.get_pr("side", "main").map(|pr| pr.id.as_str()), Some("other"));
    assert_eq!(pr_graph.adjacency_list().len(), 1);
    assert_eq!(pr_graph.adjacency_list()[0].1, vec!["topic", "side", "topic"]);
}

#[test]
fn cross_repository_heads_are_qualified_by_the_owner() {
    let pr_graph = PrGraph::new(vec![
        pr("1", 1, "main", "topic"),
        fork("2", 2, "main", "topic", "alice"),
        fork("3", 3, "alice/topic", "more", "bob"),
    ]);
    assert_eq!(pr_graph.adjacency_list()[0].1, vec!["topic", "alice/topic"]);
    assert_eq!(pr_graph.adjacency_list()[1].0, "alice/topic");
    assert_eq!(pr_graph.adjacency_list()[1].1, vec!["bob/more"]);
    assert_eq!(pr_graph.get_pr("alice/topic", "main").map(|pr| pr.number), Some(2));
    assert_eq!(pr_graph.get_pr("topic", "main").map(|pr| pr.number), Some(1));
    assert_eq!(pr_graph.get_pr("bob/more", "alice/topic").map(|pr| pr.number), Some(3));
    assert!(pr_graph.get_pr("more", "alice/topic").is_none());
    assert_eq!(pr_graph.get_starting_nodes(), vec!["main".to_string()]);
}

#[test]
fn edges_are_kept_apart_where_their_labels_coincide() {
    let pr_graph = PrGraph::new(vec![pr("1", 1, "c", "a->b"), pr("2", 2, "b->c", "a")]);
    assert_eq!(PrGraph::identifier("a->b", "c"), PrGraph::identifier("a", "b->c"));
    assert_eq!(pr_graph.prs().len(), 2);
    assert_eq!(pr_graph.get_pr("a->b", "c").map(|pr| pr.number), Some(1));
    assert_eq!(pr_graph.get_pr("a", "b->c").map(|pr| pr.number), Some(2));
}

#[test]
fn a_cycle_has_no_starting_node() {
    let pr_graph = PrGraph::new(vec![pr("1", 1, "A", "B"), pr("2", 2, "B", "A")]);
    assert!(pr_graph.get_starting_nodes().is_empty());
    assert!(pr_graph.is_head(&"A".to_string()));
    assert!(pr_graph.is_head(&"B".to_string()));
    assert!(!pr_graph.is_head(&"C".to_string()));
}

#[test]
fn identifier_joins_head_and_base() {
    assert_eq!(PrGraph::identifier("", ""), "->");
    assert_eq!(PrGraph::identifier("alice/topic", "main"), "alice/topic->main");
}
