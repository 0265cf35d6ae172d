use fallow_cli::health_types::{
    sort_findings, Confidence, EffortEstimate, ExceededThreshold, HealthFinding,
    RecommendationCategory, SortBy, HOTSPOT_SCORE_THRESHOLD, SNAPSHOT_SCHEMA_VERSION,
};

const CATEGORIES: [RecommendationCategory; 6] = [
    RecommendationCategory::UrgentChurnComplexity,
    RecommendationCategory::BreakCircularDependency,
    RecommendationCategory::SplitHighImpact,
    RecommendationCategory::RemoveDeadCode,
    RecommendationCategory::ExtractComplexFunctions,
    RecommendationCategory::ExtractDependencies,
];

#[test]
fn category_labels_are_non_empty() {
    for cat in &CATEGORIES {
        assert!(!cat.label().is_empty(), "{cat:?} should have a label");
    }
}

#[test]
fn category_labels_are_unique() {
    let labels: Vec<&str> = CATEGORIES.iter().map(|c| c.label()).collect();
    let mut unique = labels.clone();
    unique.sort();
    unique.dedup();
    assert_eq!(labels.len(), unique.len(), "category labels must be unique");
}

#[test]
fn category_compact_labels_are_non_empty() {
    for cat in &CATEGORIES {
        assert!(!cat.compact_label().is_empty(), "{cat:?} should have a compact_label");
    }
}

#[test]
fn category_compact_labels_are_unique() {
    let labels: Vec<&str> = CATEGORIES.iter().map(|c| c.compact_label()).collect();
    let mut unique = labels.clone();
    unique.sort();
    unique.dedup();
    assert_eq!(labels.len(), unique.len(), "compact labels must be unique");
}

#[test]
fn category_compact_labels_have_no_spaces() {
    for cat in &CATEGORIES {
        assert!(
            !cat.compact_label().contains(' '),
            "compact_label for {:?} should not contain spaces: '{}'",
            cat,
            cat.compact_label()
        );
    }
}

#[test]
fn category_label_values() {
    assert_eq!(RecommendationCategory::UrgentChurnComplexity.label(), "churn+complexity");
    assert_eq!(RecommendationCategory::BreakCircularDependency.compact_label(), "circular_dep");
}

#[test]
fn confidence_labels_are_non_empty() {
    for c in [Confidence::High, Confidence::Medium, Confidence::Low] {
        assert!(!c.label().is_empty());
    }
    assert_eq!(Confidence::Medium.label(), "medium");
}

#[test]
fn effort_labels_are_non_empty() {
    for e in [EffortEstimate::Low, EffortEstimate::Medium, EffortEstimate::High] {
        assert!(!e.label().is_empty(), "{e:?} should have a label");
    }
    assert_eq!(EffortEstimate::High.label(), "high");
}

#[test]
fn health_types_snapshot_schema_version_is_two() {
    assert_eq!(SNAPSHOT_SCHEMA_VERSION, 2);
}

#[test]
fn vital_signs_snapshot_schema_version_is_two() {
    assert_eq!(SNAPSHOT_SCHEMA_VERSION, 2);
}

#[test]
fn hotspot_score_threshold_is_50() {
    assert!((f64::from(HOTSPOT_SCORE_THRESHOLD) - 50.0).abs() < f64::EPSILON);
}

fn finding(name: &str, cyc: u16, cog: u16, lines: u32) -> HealthFinding {
    HealthFinding {
        path: "/p/a.ts".to_string(),
        name: name.to_string(),
        line: 1,
        col: 0,
        cyclomatic: cyc,
        cognitive: cog,
        line_count: lines,
        exceeded: ExceededThreshold::Both,
    }
}

#[test]
fn sort_findings_descending_and_stable() {
    let mut v = vec![finding("a", 5, 9, 10), finding("b", 9, 1, 30), finding("c", 5, 3, 20)];
    sort_findings(&mut v, &SortBy::Cyclomatic);
    let names: Vec<&str> = v.iter().map(|f| f.name.as_str()).collect();
    assert_eq!(names, vec!["b", "a", "c"]);
    sort_findings(&mut v, &SortBy::Cognitive);
    let names: Vec<&str> = v.iter().map(|f| f.name.as_str()).collect();
    assert_eq!(names, vec!["a", "c", "b"]);
    sort_findings(&mut v, &SortBy::Lines);
    let names: Vec<&str> = v.iter().map(|f| f.name.as_str()).collect();
    assert_eq!(names, vec!["b", "c", "a"]);
}

#[test]
fn letter_grade_boundaries() {
    let grade = |score: f64| fallow_cli::health_types::letter_grade(score as u32);
    assert_eq!(grade(100.0), "A");
    assert_eq!(grade(85.0), "A");
    assert_eq!(grade(84.9), "B");
    assert_eq!(grade(70.0), "B");
    assert_eq!(grade(69.9), "C");
    assert_eq!(grade(55.0), "C");
    assert_eq!(grade(54.9), "D");
    assert_eq!(grade(40.0), "D");
    assert_eq!(grade(39.9), "F");
    assert_eq!(grade(0.0), "F");
}
