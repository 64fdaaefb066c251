use starmap::config::Config;
use starmap::llms_txt::{apply_order, generate};
use starmap::types::{Repository, StarList};

fn repo(nwo: &str, desc: Option<&str>) -> Repository {
    Repository {
        name_with_owner: nwo.into(),
        description: desc.map(str::to_string),
        url: format!("https://github.com/{nwo}"),
        stargazer_count: None,
        language: None,
        topics: vec![],
    }
}

fn list(name: &str) -> StarList {
    StarList { name: name.into(), description: None, repositories: vec![] }
}

#[test]
fn generates_header_and_sections() {
    let lists = vec![StarList {
        name: "🤖 AI".into(),
        description: None,
        repositories: vec![repo("a/b", Some("hello"))],
    }];
    let out = generate("user stars", &lists, &Config::default());
    assert!(out.starts_with("# user stars\n"));
    assert!(out.contains("> Personally curated GitHub stars"));
    assert!(out.contains("## 🤖 AI"));
    assert!(out.contains("- [a/b](https://github.com/a/b): hello"));
}

#[test]
fn description_newlines_collapsed() {
    let lists = vec![StarList {
        name: "X".into(),
        description: None,
        repositories: vec![repo("a/b", Some("line1\nline2"))],
    }];
    let out = generate("t", &lists, &Config::default());
    assert!(out.contains("line1 line2"));
    assert!(!out.contains("line1\nline2"));
}

#[test]
fn empty_description_omits_colon() {
    let lists = vec![StarList {
        name: "X".into(),
        description: None,
        repositories: vec![repo("a/b", None)],
    }];
    let out = generate("t", &lists, &Config::default());
    assert!(out.contains("- [a/b](https://github.com/a/b)\n"));
    assert!(!out.contains("- [a/b](https://github.com/a/b):"));
}

#[test]
fn order_applied() {
    let lists = vec![
        StarList { name: "B".into(), description: None, repositories: vec![] },
        StarList { name: "A".into(), description: None, repositories: vec![] },
    ];
    let cfg = Config { order: vec!["A".into(), "B".into()], ..Default::default() };
    let out = generate("t", &lists, &cfg);
    assert!(out.find("## A").unwrap() < out.find("## B").unwrap());
}

#[test]
fn whole_index_exact() {
    let lists = vec![StarList {
        name: "X".into(),
        description: None,
        repositories: vec![repo("b/b", Some("two\r\nlines")), repo("a/a", Some(""))],
    }];
    let out = generate("t", &lists, &Config::default());
    assert_eq!(
        out,
        "# t\n\n> Personally curated GitHub stars\n\n## X\n\n- [a/a](https://github.com/a/a)\n- [b/b](https://github.com/b/b): two  lines\n\n"
    );
}

#[test]
fn order_puts_named_lists_first_then_the_rest() {
    let lists = vec![list("C"), list("A"), list("B"), list("D")];
    let order: Vec<String> = vec!["B".into(), "missing".into(), "C".into(), "B".into()];
    assert_eq!(apply_order(&lists, &order), vec![2, 0, 1, 3]);
    assert_eq!(apply_order(&lists, &[]), vec![0, 1, 2, 3]);
}

#[test]
fn order_with_duplicate_list_names_takes_the_last() {
    let lists = vec![list("A"), list("B"), list("A")];
    assert_eq!(apply_order(&lists, &["A".to_string()]), vec![2, 1]);
    assert_eq!(apply_order(&lists, &["B".to_string()]), vec![1, 0, 2]);
}
