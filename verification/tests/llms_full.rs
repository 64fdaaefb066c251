use starmap::config::{Config, LlmsFullConfig};
use starmap::llms_full::{generate, Readmes};
use starmap::types::{Repository, StarList};

fn repo(nwo: &str) -> Repository {
    Repository {
        name_with_owner: nwo.into(),
        description: Some("d".into()),
        url: format!("https://github.com/{nwo}"),
        stargazer_count: Some(42),
        language: Some("Rust".into()),
        topics: vec!["a".into(), "b".into()],
    }
}

#[test]
fn renders_header_and_metadata() {
    let lists = vec![StarList { name: "🤖 AI".into(), description: None, repositories: vec![repo("x/y")] }];
    let all_starred = vec![repo("x/y")];
    let mut readmes = Readmes::new();
    readmes.insert("x/y".into(), Some("README body".into()));
    let out = generate("test", &lists, &all_starred, &readmes, &Config::default());
    assert!(out.contains("# test — Full archive"));
    assert!(out.contains("## 🤖 AI"));
    assert!(out.contains("### [x/y]"));
    assert!(out.contains("**Description:** d"));
    assert!(out.contains("**Topics:** a, b"));
    assert!(out.contains("**Language:** Rust"));
    assert!(out.contains("**Stars:** 42"));
    assert!(out.contains("<details>\n<summary>README</summary>"));
    assert!(out.contains("README body"));
}

#[test]
fn truncates_long_readme() {
    let lists = vec![StarList { name: "X".into(), description: None, repositories: vec![repo("x/y")] }];
    let all_starred = vec![repo("x/y")];
    let mut readmes = Readmes::new();
    readmes.insert("x/y".into(), Some("a".repeat(20_000)));
    let cfg = Config { llms_full: LlmsFullConfig { max_readme_size_kb: 5 }, ..Default::default() };
    let out = generate("t", &lists, &all_starred, &readmes, &cfg);
    assert!(out.contains("truncated at 5 KB"));
}

#[test]
fn missing_readme_shown_as_unavailable() {
    let lists = vec![StarList { name: "X".into(), description: None, repositories: vec![repo("x/y")] }];
    let readmes = Readmes::new();
    let out = generate("t", &lists, &[repo("x/y")], &readmes, &Config::default());
    assert!(out.contains("*(README unavailable)*"));
}

#[test]
fn whole_archive_exact() {
    let plain = Repository {
        name_with_owner: "p/q".into(),
        description: None,
        url: "u".into(),
        stargazer_count: None,
        language: None,
        topics: vec![],
    };
    let lists = vec![StarList { name: "L".into(), description: None, repositories: vec![plain.clone(), repo("x/y")] }];
    let mut readmes = Readmes::new();
    readmes.insert("x/y".into(), Some("abcdef".into()));
    readmes.insert("p/q".into(), None);
    let cfg = Config { llms_full: LlmsFullConfig { max_readme_size_kb: 0 }, ..Default::default() };
    let out = generate("t", &lists, &[], &readmes, &cfg);
    assert_eq!(
        out,
        "# t — Full archive\n\n> Description, topics, and README of each starred repository.\n> Capped at 0 KB per README.\n\n## L\n\n\
### [p/q](u)\n\n*(README unavailable)*\n\n---\n\n\
### [x/y](https://github.com/x/y)\n- **Description:** d\n- **Topics:** a, b\n- **Language:** Rust\n- **Stars:** 42\n\n\
<details>\n<summary>README</summary>\n\n\n\n*(truncated at 0 KB; see source repo for full README)*\n\n</details>\n\n---\n\n"
    );
}

#[test]
fn metadata_comes_from_all_starred() {
    let thin = Repository {
        name_with_owner: "x/y".into(),
        description: None,
        url: "thin".into(),
        stargazer_count: None,
        language: None,
        topics: vec![],
    };
    let lists = vec![StarList { name: "L".into(), description: None, repositories: vec![thin] }];
    let out = generate("t", &lists, &[repo("x/y")], &Readmes::new(), &Config::default());
    assert!(out.contains("### [x/y](https://github.com/x/y)"));
    assert!(out.contains("**Stars:** 42"));
}

#[test]
fn readme_insert_replaces() {
    let mut readmes = Readmes::new();
    readmes.insert("k".into(), None);
    readmes.insert("k".into(), Some("v".into()));
    assert_eq!(readmes.get(&"k".to_string()), Some(&Some("v".to_string())));
    assert_eq!(readmes.get(&"other".to_string()), None);
}

#[test]
fn readme_within_budget_is_whole() {
    let lists = vec![StarList { name: "X".into(), description: None, repositories: vec![repo("x/y")] }];
    let mut readmes = Readmes::new();
    readmes.insert("x/y".into(), Some("é".repeat(512)));
    let cfg = Config { llms_full: LlmsFullConfig { max_readme_size_kb: 1 }, ..Default::default() };
    let out = generate("t", &lists, &[], &readmes, &cfg);
    assert!(!out.contains("truncated"));
    assert!(out.contains(&"é".repeat(512)));
}

#[test]
fn readme_store_last_write_wins() {
    let mut readmes = Readmes::new();
    readmes.insert("a/b".to_string(), Some("one".to_string()));
    readmes.insert("c/d".to_string(), None);
    readmes.insert("a/b".to_string(), Some("two".to_string()));
    assert_eq!(readmes.get(&"a/b".to_string()), Some(&Some("two".to_string())));
    assert_eq!(readmes.get(&"c/d".to_string()), Some(&None));
    assert_eq!(readmes.get(&"e/f".to_string()), None);
}
