use fallow_cli::explain::{
    check_rules, dupes_rules, health_rules, rule_by_id, rule_docs_url, CHECK_DOCS, DUPES_DOCS,
    HEALTH_DOCS,
};

#[test]
fn rule_by_id_finds_check_rule() {
    let rule = rule_by_id("fallow/unused-file").unwrap();
    assert_eq!(rule.name, "Unused Files");
}

#[test]
fn rule_by_id_finds_health_rule() {
    let rule = rule_by_id("fallow/high-cyclomatic-complexity").unwrap();
    assert_eq!(rule.name, "High Cyclomatic Complexity");
}

#[test]
fn rule_by_id_finds_dupes_rule() {
    let rule = rule_by_id("fallow/code-duplication").unwrap();
    assert_eq!(rule.name, "Code Duplication");
}

#[test]
fn rule_by_id_returns_none_for_unknown() {
    assert!(rule_by_id("fallow/nonexistent").is_none());
    assert!(rule_by_id("").is_none());
}

#[test]
fn rule_docs_url_format() {
    let rule = rule_by_id("fallow/unused-export").unwrap();
    let url = rule_docs_url(&rule);
    assert!(url.starts_with("https://docs.fallow.tools/"));
    assert!(url.contains("unused-exports"));
}

#[test]
fn check_rules_all_have_fallow_prefix() {
    for rule in check_rules() {
        assert!(
            rule.id.starts_with("fallow/"),
            "rule {} should start with fallow/",
            rule.id
        );
    }
}

#[test]
fn check_rules_all_have_docs_path() {
    for rule in check_rules() {
        assert!(!rule.docs_path.is_empty(), "rule {} should have a docs_path", rule.id);
    }
}

#[test]
fn check_rules_no_duplicate_ids() {
    let mut seen: Vec<&str> = Vec::new();
    let mut all = check_rules();
    all.extend(health_rules());
    all.extend(dupes_rules());
    for rule in all {
        assert!(!seen.contains(&rule.id), "duplicate rule id: {}", rule.id);
        seen.push(rule.id);
    }
}

#[test]
fn health_rules_all_have_fallow_prefix() {
    for rule in health_rules() {
        assert!(
            rule.id.starts_with("fallow/"),
            "health rule {} should start with fallow/",
            rule.id
        );
    }
}

#[test]
fn health_rules_all_have_docs_path() {
    for rule in health_rules() {
        assert!(!rule.docs_path.is_empty(), "health rule {} should have a docs_path", rule.id);
    }
}

#[test]
fn health_rules_all_have_non_empty_fields() {
    for rule in health_rules() {
        assert!(!rule.name.is_empty(), "health rule {} missing name", rule.id);
        assert!(!rule.short.is_empty(), "health rule {} missing short description", rule.id);
        assert!(!rule.full.is_empty(), "health rule {} missing full description", rule.id);
    }
}

#[test]
fn dupes_rules_all_have_fallow_prefix() {
    for rule in dupes_rules() {
        assert!(
            rule.id.starts_with("fallow/"),
            "dupes rule {} should start with fallow/",
            rule.id
        );
    }
}

#[test]
fn dupes_rules_all_have_docs_path() {
    for rule in dupes_rules() {
        assert!(!rule.docs_path.is_empty(), "dupes rule {} should have a docs_path", rule.id);
    }
}

#[test]
fn dupes_rules_all_have_non_empty_fields() {
    for rule in dupes_rules() {
        assert!(!rule.name.is_empty(), "dupes rule {} missing name", rule.id);
        assert!(!rule.short.is_empty(), "dupes rule {} missing short description", rule.id);
        assert!(!rule.full.is_empty(), "dupes rule {} missing full description", rule.id);
    }
}

#[test]
fn check_rules_all_have_non_empty_fields() {
    for rule in check_rules() {
        assert!(!rule.name.is_empty(), "rule {} missing name", rule.id);
        assert!(!rule.short.is_empty(), "rule {} missing short description", rule.id);
        assert!(!rule.full.is_empty(), "rule {} missing full description", rule.id);
    }
}

#[test]
fn rule_docs_url_health_rule() {
    let rule = rule_by_id("fallow/high-cyclomatic-complexity").unwrap();
    let url = rule_docs_url(&rule);
    assert!(url.starts_with("https://docs.fallow.tools/"));
    assert!(url.contains("health"));
}

#[test]
fn rule_docs_url_dupes_rule() {
    let rule = rule_by_id("fallow/code-duplication").unwrap();
    let url = rule_docs_url(&rule);
    assert!(url.starts_with("https://docs.fallow.tools/"));
    assert!(url.contains("duplication"));
}

#[test]
fn check_docs_url_valid() {
    assert!(CHECK_DOCS.starts_with("https://"));
    assert!(CHECK_DOCS.contains("dead-code"));
}

#[test]
fn health_docs_url_valid() {
    assert!(HEALTH_DOCS.starts_with("https://"));
    assert!(HEALTH_DOCS.contains("health"));
}

#[test]
fn dupes_docs_url_valid() {
    assert!(DUPES_DOCS.starts_with("https://"));
    assert!(DUPES_DOCS.contains("dupes"));
}

#[test]
fn rule_by_id_finds_all_check_rules() {
    for rule in check_rules() {
        assert!(rule_by_id(rule.id).is_some(), "rule_by_id should find check rule {}", rule.id);
    }
}

#[test]
fn rule_by_id_finds_all_health_rules() {
    for rule in health_rules() {
        assert!(rule_by_id(rule.id).is_some(), "rule_by_id should find health rule {}", rule.id);
    }
}

#[test]
fn rule_by_id_finds_all_dupes_rules() {
    for rule in dupes_rules() {
        assert!(rule_by_id(rule.id).is_some(), "rule_by_id should find dupes rule {}", rule.id);
    }
}

#[test]
fn check_rules_count() {
    assert_eq!(check_rules().len(), 13);
}

#[test]
fn health_rules_count() {
    assert_eq!(health_rules().len(), 6);
}

#[test]
fn dupes_rules_count() {
    assert_eq!(dupes_rules().len(), 1);
}

#[test]
fn rule_docs_url_is_base_slash_path() {
    let rule = rule_by_id("fallow/circular-dependency").unwrap();
    assert_eq!(
        rule_docs_url(&rule),
        format!("https://docs.fallow.tools/{}", rule.docs_path)
    );
}

#[test]
fn rule_by_id_returns_first_matching_rule_fields() {
    let rule = rule_by_id("fallow/untested-export").unwrap();
    assert_eq!(rule.name, "Untested Export");
    assert_eq!(rule.docs_path, "explanations/health#coverage-gaps");
}
