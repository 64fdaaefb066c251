use starmap::config::Config;
use starmap::markdown::{
    anchor_from_lowercase, focus_label, generate, generate_with_config, is_focus_list, strip_emoji_prefix,
    to_anchor,
};
use starmap::types::{Repository, StarList};

fn make_repo(name: &str, desc: Option<&str>) -> Repository {
    Repository {
        name_with_owner: name.to_string(),
        description: desc.map(|s| s.to_string()),
        url: format!("https://github.com/{name}"),
        stargazer_count: None,
        language: None,
        topics: vec![],
    }
}

#[test]
fn test_generate_basic() {
    let lists = vec![StarList {
        name: "Rust Tools".to_string(),
        description: Some("Useful Rust tools".to_string()),
        repositories: vec![
            make_repo("BurntSushi/ripgrep", Some("Fast search")),
            make_repo("sharkdp/bat", Some("A cat clone")),
        ],
    }];

    let all_starred = vec![
        make_repo("BurntSushi/ripgrep", Some("Fast search")),
        make_repo("sharkdp/bat", Some("A cat clone")),
        make_repo("astral-sh/uv", Some("Python package manager")),
    ];

    let md = generate(&lists, &all_starred);

    assert!(md.contains("# Awesome Stars"));
    assert!(md.contains("## Contents"));
    assert!(md.contains("- [Rust Tools](#rust-tools)"));
    assert!(md.contains("- [Uncategorized](#uncategorized)"));
    assert!(md.contains("## Rust Tools"));
    assert!(md.contains("> Useful Rust tools"));
    assert!(md.contains("[BurntSushi/ripgrep](https://github.com/BurntSushi/ripgrep) - Fast search"));
    assert!(md.contains("## Uncategorized"));
    assert!(md.contains("[astral-sh/uv](https://github.com/astral-sh/uv) - Python package manager"));
}

#[test]
fn test_generate_no_uncategorized() {
    let lists = vec![StarList {
        name: "All".to_string(),
        description: None,
        repositories: vec![make_repo("owner/repo", Some("desc"))],
    }];

    let all_starred = vec![make_repo("owner/repo", Some("desc"))];

    let md = generate(&lists, &all_starred);

    assert!(!md.contains("Uncategorized"));
}

#[test]
fn test_alphabetical_sort() {
    let lists = vec![StarList {
        name: "Test".to_string(),
        description: None,
        repositories: vec![make_repo("zzz/repo", Some("last")), make_repo("aaa/repo", Some("first"))],
    }];

    let md = generate(&lists, &[]);
    let pos_a = md.find("aaa/repo").unwrap();
    let pos_z = md.find("zzz/repo").unwrap();
    assert!(pos_a < pos_z);
}

#[test]
fn test_is_focus_list_plain_prefix() {
    assert!(is_focus_list("Focus: In Production"));
}

#[test]
fn test_is_focus_list_with_emoji_prefix() {
    assert!(is_focus_list("🔥 Focus: In Production"));
}

#[test]
fn test_is_focus_list_lowercase_is_topic() {
    assert!(!is_focus_list("focus: In Production"));
}

#[test]
fn test_is_focus_list_no_colon_is_topic() {
    assert!(!is_focus_list("Focus In Production"));
}

#[test]
fn test_is_focus_list_plain_topic() {
    assert!(!is_focus_list("🤖 AI Frameworks"));
}

#[test]
fn test_is_focus_list_bare_prefix_is_focus() {
    assert!(is_focus_list("Focus: "));
}

#[test]
fn whole_document_exact() {
    let lists = vec![
        StarList {
            name: "🤖 AI Tools".to_string(),
            description: Some(String::new()),
            repositories: vec![make_repo("b/Two", None), make_repo("a/one", Some("first"))],
        },
        StarList { name: "Empty".to_string(), description: Some("none yet".to_string()), repositories: vec![] },
    ];
    let all = vec![make_repo("z/last", Some("zed")), make_repo("a/one", Some("first")), make_repo("C/mid", None)];
    let md = generate(&lists, &all);
    let expected = "# Awesome Stars\n\n\
> A curated list of my GitHub stars, organized by lists.\n\n\
## Contents\n\n\
- [🤖 AI Tools](#-ai-tools)\n\
- [Empty](#empty)\n\
- [Uncategorized](#uncategorized)\n\n\
## 🤖 AI Tools\n\n\
- [a/one](https://github.com/a/one) - first\n\
- [b/Two](https://github.com/b/Two) - No description provided\n\n\
## Empty\n\n\
> none yet\n\n\
\n\
## Uncategorized\n\n\
- [C/mid](https://github.com/C/mid) - No description provided\n\
- [z/last](https://github.com/z/last) - zed\n\n";
    assert_eq!(md, expected);
}

#[test]
fn sort_is_case_insensitive_and_stable() {
    let lists = vec![StarList {
        name: "L".to_string(),
        description: None,
        repositories: vec![
            make_repo("B/x", Some("1")),
            make_repo("a/y", Some("2")),
            make_repo("b/X", Some("3")),
        ],
    }];
    let md = generate(&lists, &[]);
    let a = md.find("a/y").unwrap();
    let b1 = md.find("B/x").unwrap();
    let b2 = md.find("b/X").unwrap();
    assert!(a < b1 && b1 < b2);
}

#[test]
fn anchors() {
    assert_eq!(to_anchor("Rust Tools"), "rust-tools");
    assert_eq!(to_anchor("🔥 Focus: In Production"), "-focus-in-production");
    assert_eq!(to_anchor("🤖 AI Frameworks"), "-ai-frameworks");
    assert_eq!(to_anchor("  C++ / Systems  "), "--c--systems--");
    assert_eq!(to_anchor("a-b  c"), "a-b--c");
    assert_eq!(to_anchor("Über Tools"), "über-tools");
    assert_eq!(to_anchor(""), "");
}

#[test]
fn emoji_prefix() {
    assert_eq!(strip_emoji_prefix("🔥 Focus: X"), "Focus: X");
    assert_eq!(strip_emoji_prefix("A Focus"), "A Focus");
    assert_eq!(strip_emoji_prefix("🔥Focus"), "🔥Focus");
    assert_eq!(strip_emoji_prefix("🔥"), "🔥");
    assert_eq!(strip_emoji_prefix(""), "");
}

#[test]
fn anchor_of_lowercased_text() {
    assert_eq!(anchor_from_lowercase("c++ / systems"), "c--systems");
    assert_eq!(anchor_from_lowercase("🤖 ai"), "-ai");
    assert_eq!(anchor_from_lowercase("x_y.z"), "x_yz");
    assert_eq!(anchor_from_lowercase("snake_case tools"), "snake_case-tools");
}

#[test]
fn focus_labels() {
    assert_eq!(focus_label("🔥 Focus: In Production"), Some("🔥 In Production".to_string()));
    assert_eq!(focus_label("Focus: Daily"), Some("Daily".to_string()));
    assert_eq!(focus_label("Focus: "), None);
    assert_eq!(focus_label("🔥 Focus: "), None);
    assert_eq!(focus_label("🤖 AI Frameworks"), None);
}

#[test]
fn focus_list_becomes_legend_and_tags() {
    let lists = vec![
        StarList { name: "Tools".to_string(), description: None, repositories: vec![make_repo("a/b", Some("x"))] },
        StarList {
            name: "🔥 Focus: In Production".to_string(),
            description: Some("Used daily".to_string()),
            repositories: vec![make_repo("a/b", Some("x"))],
        },
    ];
    let md = generate(&lists, &[make_repo("a/b", Some("x"))]);
    assert!(!md.contains("## 🔥 Focus: In Production"));
    assert!(!md.contains("[🔥 Focus: In Production](#"));
    let expected = "# Awesome Stars\n\n\
> A curated list of my GitHub stars, organized by lists.\n\n\
**Focus**\n\n\
- `🔥 In Production` - Used daily\n\n\
## Contents\n\n\
- [Tools](#tools)\n\n\
## Tools\n\n\
- [a/b](https://github.com/a/b) - x `🔥 In Production`\n\n";
    assert_eq!(md, expected);
}

#[test]
fn focus_only_repos_are_not_uncategorized() {
    let lists = vec![
        StarList { name: "🌱 Focus: Watching".to_string(), description: None, repositories: vec![make_repo("c/d", None)] },
        StarList { name: "Focus: ".to_string(), description: Some("ignored".to_string()), repositories: vec![make_repo("c/d", None)] },
        StarList {
            name: "Focus: Daily".to_string(),
            description: Some(String::new()),
            repositories: vec![make_repo("c/d", None), make_repo("a/b", Some("x"))],
        },
        StarList { name: "Lang".to_string(), description: Some("langs".to_string()), repositories: vec![make_repo("a/b", Some("x"))] },
    ];
    let all = vec![make_repo("a/b", Some("x")), make_repo("c/d", None), make_repo("e/f", Some("y"))];
    let md = generate(&lists, &all);
    let expected = "# Awesome Stars\n\n\
> A curated list of my GitHub stars, organized by lists.\n\n\
**Focus**\n\n\
- `🌱 Watching`\n\
- `Daily`\n\n\
## Contents\n\n\
- [Lang](#lang)\n\
- [Uncategorized](#uncategorized)\n\n\
## Lang\n\n\
> langs\n\n\
- [a/b](https://github.com/a/b) - x `Daily`\n\n\
## Uncategorized\n\n\
- [e/f](https://github.com/e/f) - y\n\n";
    assert_eq!(md, expected);
}

#[test]
fn star_only_in_focus_list_is_listed() {
    let lists = vec![StarList { name: "Focus: X".to_string(), description: None, repositories: vec![make_repo("a/b", None)] }];
    let md = generate(&lists, &[make_repo("a/b", None)]);
    assert!(!md.contains("Uncategorized"));
}

#[test]
fn configured_order_applies() {
    let lists = vec![
        StarList { name: "A".to_string(), description: None, repositories: vec![make_repo("a/a", Some("1"))] },
        StarList { name: "B".to_string(), description: None, repositories: vec![make_repo("b/b", Some("2"))] },
        StarList { name: "C".to_string(), description: None, repositories: vec![make_repo("c/c", Some("3"))] },
    ];
    let config = Config { order: vec!["C".to_string(), "Missing".to_string(), "A".to_string()], ..Config::default() };
    let md = generate_with_config(&lists, &[], &config);
    assert!(md.contains("## Contents\n\n- [C](#c)\n- [A](#a)\n- [B](#b)\n\n## C\n"));
    let c = md.find("## C").unwrap();
    let a = md.find("## A").unwrap();
    let b = md.find("## B").unwrap();
    assert!(c < a && a < b);
    assert_eq!(generate_with_config(&lists, &[], &Config::default()), generate(&lists, &[]));
}
