use fallow_cli::dupes::{
    clone_group_key, filter_by_changed_files, filter_new_clone_groups, keep_top_groups, parse_trace_spec,
    recompute_stats, stats_fit_check, CloneGroup, CloneInstance, DetectionMode, DuplicationBaselineData,
    DuplicationReport, DuplicationStats, DupesMode,
};

fn instance(file: &str, start: usize, end: usize) -> CloneInstance {
    CloneInstance {
        file: file.to_string(),
        start_line: start,
        end_line: end,
        start_col: 0,
        end_col: 0,
        fragment: String::new(),
    }
}

fn make_group(instances: Vec<CloneInstance>, tokens: usize, lines: usize) -> CloneGroup {
    CloneGroup { instances, token_count: tokens, line_count: lines }
}

fn make_report(groups: Vec<CloneGroup>, total_files: usize, total_lines: usize) -> DuplicationReport {
    let clone_instances: usize = groups.iter().map(|g| g.instances.len()).sum();
    DuplicationReport {
        clone_groups: groups,
        stats: DuplicationStats {
            total_files,
            files_with_clones: 0,
            total_lines,
            duplicated_lines: 0,
            total_tokens: 0,
            duplicated_tokens: 0,
            clone_groups: 0,
            clone_instances,
        },
    }
}

fn empty_report() -> DuplicationReport {
    make_report(Vec::new(), 0, 0)
}

fn make_clone_group(instances: Vec<(&str, usize, usize)>) -> CloneGroup {
    CloneGroup {
        instances: instances.into_iter().map(|(f, s, e)| instance(f, s, e)).collect(),
        token_count: 50,
        line_count: 10,
    }
}

fn make_duplication_report(groups: Vec<CloneGroup>) -> DuplicationReport {
    DuplicationReport {
        clone_groups: groups,
        stats: DuplicationStats {
            total_files: 10,
            files_with_clones: 2,
            total_lines: 1000,
            duplicated_lines: 100,
            total_tokens: 5000,
            duplicated_tokens: 500,
            clone_groups: 1,
            clone_instances: 2,
        },
    }
}

#[test]
fn parse_trace_spec_valid() {
    let (file, line) = parse_trace_spec("src/utils.ts:42").unwrap();
    assert_eq!(file, "src/utils.ts");
    assert_eq!(line, 42);
}

#[test]
fn parse_trace_spec_windows_path_with_drive() {
    let (file, line) = parse_trace_spec("C:\\path\\file.ts:10").unwrap();
    assert_eq!(file, "C:\\path\\file.ts");
    assert_eq!(line, 10);
}

#[test]
fn parse_trace_spec_no_colon() {
    let err = parse_trace_spec("src/utils.ts").unwrap_err();
    assert!(err.contains("FILE:LINE"), "error should mention FILE:LINE format");
}

#[test]
fn parse_trace_spec_line_zero() {
    let err = parse_trace_spec("src/utils.ts:0").unwrap_err();
    assert!(err.contains("positive integer"));
}

#[test]
fn parse_trace_spec_negative_line() {
    let err = parse_trace_spec("src/utils.ts:-1").unwrap_err();
    assert!(err.contains("positive integer"));
}

#[test]
fn parse_trace_spec_non_numeric_line() {
    let err = parse_trace_spec("src/utils.ts:abc").unwrap_err();
    assert!(err.contains("positive integer"));
}

#[test]
fn parse_trace_spec_empty_line() {
    let err = parse_trace_spec("src/utils.ts:").unwrap_err();
    assert!(err.contains("positive integer"));
}

#[test]
fn parse_trace_spec_large_line_number() {
    let (file, line) = parse_trace_spec("src/app.ts:999999").unwrap();
    assert_eq!(file, "src/app.ts");
    assert_eq!(line, 999_999);
}

#[test]
fn parse_trace_spec_file_with_colons_in_path() {
    let (file, line) = parse_trace_spec("a:b:c:10").unwrap();
    assert_eq!(file, "a:b:c");
    assert_eq!(line, 10);
}

#[test]
fn parse_trace_spec_accepts_plus_sign_and_rejects_overflow() {
    assert_eq!(parse_trace_spec("a.ts:+7").unwrap(), ("a.ts", 7));
    let err = parse_trace_spec("a.ts:99999999999999999999999").unwrap_err();
    assert_eq!(err, "--trace LINE must be a positive integer");
    assert_eq!(
        parse_trace_spec("a.ts").unwrap_err(),
        "--trace requires FILE:LINE format (e.g., src/utils.ts:42)"
    );
}

#[test]
fn dupes_mode_from_detection_mode() {
    assert_eq!(DupesMode::from(DetectionMode::Strict), DupesMode::Strict);
    assert_eq!(DupesMode::from(DetectionMode::Mild), DupesMode::Mild);
    assert_eq!(DupesMode::from(DetectionMode::Weak), DupesMode::Weak);
    assert_eq!(DupesMode::from(DetectionMode::Semantic), DupesMode::Semantic);
}

#[test]
fn baseline_filters_matching_groups_completely() {
    let root = "/project";
    let group = make_group(
        vec![instance("/project/src/a.ts", 1, 10), instance("/project/src/b.ts", 1, 10)],
        50,
        10,
    );
    let report = make_report(vec![group], 10, 1000);
    let baseline = DuplicationBaselineData::from_report(&report, root);
    let filtered = filter_new_clone_groups(report, &baseline, root);
    assert!(filtered.clone_groups.is_empty());
    assert_eq!(filtered.stats.clone_groups, 0);
    assert_eq!(filtered.stats.clone_instances, 0);
}

#[test]
fn baseline_keeps_groups_not_in_baseline() {
    let root = "/project";
    let old_group = || {
        make_group(
            vec![instance("/project/src/a.ts", 1, 10), instance("/project/src/b.ts", 1, 10)],
            50,
            10,
        )
    };
    let new_group = make_group(
        vec![instance("/project/src/c.ts", 20, 30), instance("/project/src/d.ts", 20, 30)],
        60,
        11,
    );
    let baseline_report = make_report(vec![old_group()], 10, 1000);
    let baseline = DuplicationBaselineData::from_report(&baseline_report, root);
    let report = make_report(vec![old_group(), new_group], 10, 1000);
    let filtered = filter_new_clone_groups(report, &baseline, root);
    assert_eq!(filtered.clone_groups.len(), 1);
    assert_eq!(filtered.clone_groups[0].instances.len(), 2);
    assert!(filtered.clone_groups[0].instances.iter().any(|i| i.file == "/project/src/c.ts"));
}

#[test]
fn recompute_stats_empty_report() {
    let report = empty_report();
    let stats = recompute_stats(&report);
    assert_eq!(stats.clone_groups, 0);
    assert_eq!(stats.clone_instances, 0);
    assert_eq!(stats.duplicated_lines, 0);
}

#[test]
fn recompute_stats_basic() {
    let group = make_group(
        vec![instance("/project/src/a.ts", 1, 5), instance("/project/src/b.ts", 1, 5)],
        30,
        5,
    );
    let mut report = make_report(vec![group], 10, 100);
    report.stats.total_lines = 100;
    let stats = recompute_stats(&report);
    assert_eq!(stats.clone_groups, 1);
    assert_eq!(stats.clone_instances, 2);
    assert_eq!(stats.duplicated_lines, 10);
    assert_eq!(stats.total_lines, 100);
}

#[test]
fn recompute_stats_deduplicates_overlapping_lines_in_same_file() {
    let group1 = make_group(
        vec![instance("/project/src/a.ts", 1, 5), instance("/project/src/b.ts", 1, 5)],
        30,
        5,
    );
    let group2 = make_group(
        vec![instance("/project/src/a.ts", 3, 7), instance("/project/src/c.ts", 10, 14)],
        30,
        5,
    );
    let mut report = make_report(vec![group1, group2], 10, 100);
    report.stats.total_lines = 100;
    let stats = recompute_stats(&report);
    assert_eq!(stats.duplicated_lines, 17);
    assert_eq!(stats.files_with_clones, 3);
}

#[test]
fn recompute_stats_zero_total_lines_no_division_by_zero() {
    let mut report = empty_report();
    report.stats.total_lines = 0;
    let stats = recompute_stats(&report);
    assert_eq!(stats.duplicated_lines, 0);
    assert_eq!(stats.total_lines, 0);
}

#[test]
fn recompute_stats_computes_all_fields_from_groups() {
    let group1 = make_group(
        vec![instance("/project/src/a.ts", 1, 10), instance("/project/src/b.ts", 1, 10)],
        50,
        10,
    );
    let group2 = make_group(
        vec![instance("/project/src/c.ts", 20, 25), instance("/project/src/d.ts", 20, 25)],
        30,
        6,
    );
    let mut report = make_report(vec![group1, group2], 20, 500);
    report.stats.total_lines = 500;
    report.stats.total_tokens = 10000;
    let stats = recompute_stats(&report);
    assert_eq!(stats.clone_groups, 2);
    assert_eq!(stats.clone_instances, 4);
    assert_eq!(stats.duplicated_lines, 32);
    assert_eq!(stats.duplicated_tokens, 160);
    assert_eq!(stats.files_with_clones, 4);
    assert_eq!(stats.total_tokens, 10000);
    assert_eq!(stats.total_files, 20);
}

#[test]
fn recompute_stats_counts_tokens_per_instance() {
    let group = make_group(
        vec![
            instance("/project/src/a.ts", 1, 5),
            instance("/project/src/b.ts", 1, 5),
            instance("/project/src/c.ts", 1, 5),
        ],
        40,
        5,
    );
    let mut report = make_report(vec![group], 10, 100);
    report.stats.total_lines = 100;
    let stats = recompute_stats(&report);
    assert_eq!(stats.duplicated_tokens, 120);
}

#[test]
fn recompute_stats_treats_equal_paths_as_one_file() {
    let group = make_group(
        vec![instance("/project/src/a.ts", 1, 3), instance("/project/src//a.ts", 2, 4)],
        10,
        3,
    );
    let report = make_report(vec![group], 1, 10);
    let stats = recompute_stats(&report);
    assert_eq!(stats.files_with_clones, 1);
    assert_eq!(stats.duplicated_lines, 4);
}

#[test]
fn filter_by_changed_files_retains_groups_with_at_least_one_changed_instance() {
    let group = make_group(vec![instance("src/a.ts", 1, 10), instance("src/b.ts", 1, 10)], 50, 10);
    let mut report = make_report(vec![group], 10, 1000);
    let changed = vec!["src/a.ts".to_string()];
    filter_by_changed_files(&mut report, &changed);
    assert_eq!(report.clone_groups.len(), 1);
}

#[test]
fn filter_by_changed_files_removes_groups_with_no_changed_instances() {
    let group = make_group(vec![instance("src/a.ts", 1, 10), instance("src/b.ts", 1, 10)], 50, 10);
    let mut report = make_report(vec![group], 10, 1000);
    let changed = vec!["src/c.ts".to_string()];
    filter_by_changed_files(&mut report, &changed);
    assert!(report.clone_groups.is_empty());
}

#[test]
fn filter_by_changed_files_partial_group_retention() {
    let group1 = make_group(vec![instance("src/a.ts", 1, 10), instance("src/b.ts", 1, 10)], 50, 10);
    let group2 = make_group(vec![instance("src/c.ts", 1, 10), instance("src/d.ts", 1, 10)], 50, 10);
    let mut report = make_report(vec![group1, group2], 10, 1000);
    let changed = vec!["src/a.ts".to_string()];
    filter_by_changed_files(&mut report, &changed);
    assert_eq!(report.clone_groups.len(), 1);
    assert!(report.clone_groups[0].instances.iter().any(|i| i.file == "src/a.ts"));
}

#[test]
fn filter_by_changed_files_empty_changed_set_removes_all() {
    let group = make_group(vec![instance("src/a.ts", 1, 10), instance("src/b.ts", 1, 10)], 50, 10);
    let mut report = make_report(vec![group], 10, 1000);
    let changed: Vec<String> = Vec::new();
    filter_by_changed_files(&mut report, &changed);
    assert!(report.clone_groups.is_empty());
}

#[test]
fn stats_recomputed_after_changed_since_filter() {
    let group = make_group(vec![instance("src/a.ts", 1, 5), instance("src/b.ts", 1, 5)], 30, 5);
    let mut report = make_report(vec![group], 10, 100);
    report.stats.total_lines = 100;
    report.stats.total_tokens = 5000;
    report.stats.total_files = 10;
    let changed = vec!["src/x.ts".to_string()];
    filter_by_changed_files(&mut report, &changed);
    assert_eq!(report.stats.clone_groups, 0);
    assert_eq!(report.stats.clone_instances, 0);
    assert_eq!(report.stats.duplicated_lines, 0);
    assert_eq!(report.stats.total_lines, 100);
    assert_eq!(report.stats.total_tokens, 5000);
    assert_eq!(report.stats.total_files, 10);
}

#[test]
fn clone_group_key_is_deterministic() {
    let root = "/project";
    let group = make_clone_group(vec![("/project/src/a.ts", 1, 10), ("/project/src/b.ts", 5, 15)]);
    let key1 = clone_group_key(&group, root);
    let key2 = clone_group_key(&group, root);
    assert_eq!(key1, key2);
}

#[test]
fn clone_group_key_is_sorted() {
    let root = "/project";
    let group_ab = make_clone_group(vec![("/project/src/a.ts", 1, 10), ("/project/src/b.ts", 5, 15)]);
    let group_ba = make_clone_group(vec![("/project/src/b.ts", 5, 15), ("/project/src/a.ts", 1, 10)]);
    assert_eq!(
        clone_group_key(&group_ab, root),
        clone_group_key(&group_ba, root),
        "key should be stable regardless of instance order"
    );
}

#[test]
fn clone_group_key_exact_format() {
    let group = make_clone_group(vec![("/project/src/b.ts", 5, 15), ("/project/src/a.ts", 1, 10)]);
    let key: String = clone_group_key(&group, "/project").into_iter().collect();
    assert_eq!(key, "src/a.ts:1-10|src/b.ts:5-15");
}

#[test]
fn filter_new_clone_groups_removes_baseline() {
    let root = "/project";
    let group = make_clone_group(vec![("/project/src/a.ts", 1, 10), ("/project/src/b.ts", 5, 15)]);
    let report = make_duplication_report(vec![group]);
    let baseline = DuplicationBaselineData::from_report(&report, root);
    let filtered = filter_new_clone_groups(report, &baseline, root);
    assert!(filtered.clone_groups.is_empty(), "baseline group should be filtered out");
}

#[test]
fn filter_new_clone_groups_keeps_new_groups() {
    let root = "/project";
    let baseline_group = make_clone_group(vec![("/project/src/a.ts", 1, 10), ("/project/src/b.ts", 5, 15)]);
    let new_group = make_clone_group(vec![("/project/src/c.ts", 20, 30), ("/project/src/d.ts", 25, 35)]);
    let baseline_report = make_duplication_report(vec![baseline_group]);
    let baseline = DuplicationBaselineData::from_report(&baseline_report, root);
    let report = make_duplication_report(vec![
        make_clone_group(vec![("/project/src/a.ts", 1, 10), ("/project/src/b.ts", 5, 15)]),
        new_group,
    ]);
    let filtered = filter_new_clone_groups(report, &baseline, root);
    assert_eq!(filtered.clone_groups.len(), 1, "only the new group should remain");
}

#[test]
fn recompute_stats_after_filtering() {
    let root = "/project";
    let group = make_clone_group(vec![("/project/src/a.ts", 1, 10), ("/project/src/b.ts", 5, 15)]);
    let report = make_duplication_report(vec![group]);
    let baseline = DuplicationBaselineData::from_report(&report, root);
    let filtered = filter_new_clone_groups(report, &baseline, root);
    assert_eq!(filtered.stats.clone_groups, 0);
    assert_eq!(filtered.stats.clone_instances, 0);
    assert_eq!(filtered.stats.duplicated_lines, 0);
}

#[test]
fn recompute_stats_zero_total_lines() {
    let report = make_report(Vec::new(), 0, 0);
    let stats = recompute_stats(&report);
    assert_eq!(stats.duplicated_lines, 0);
    assert_eq!(stats.files_with_clones, 0);
}

#[test]
fn stats_fit_check_accepts_ordinary_and_refuses_overflowing_reports() {
    let ok = make_report(
        vec![make_group(vec![instance("/p/a.ts", 1, 10), instance("/p/b.ts", 5, 14)], 50, 10)],
        2,
        100,
    );
    assert!(stats_fit_check(&ok));
    assert!(stats_fit_check(&empty_report()));
    let huge_tokens = make_report(
        vec![make_group(vec![instance("/p/a.ts", 1, 2), instance("/p/b.ts", 1, 2)], usize::MAX, 2)],
        2,
        4,
    );
    assert!(!stats_fit_check(&huge_tokens));
    let huge_span = make_report(vec![make_group(vec![instance("/p/a.ts", 0, usize::MAX)], 1, 1)], 1, 1);
    assert!(!stats_fit_check(&huge_span));
}

#[test]
fn parse_trace_spec_round_trips_formatted_spec() {
    for (file, line) in [("a:b:c", 7usize), ("C:\\x\\y.ts", 1), ("src/utils.ts", usize::MAX), ("", 3)] {
        let spec = format!("{file}:{line}");
        assert_eq!(parse_trace_spec(&spec), Ok((file, line)));
    }
}

#[test]
fn keep_top_groups_cuts_to_first_n() {
    let mut r = make_duplication_report(vec![
        make_clone_group(vec![("a.ts", 1, 5)]),
        make_clone_group(vec![("b.ts", 1, 5)]),
        make_clone_group(vec![("c.ts", 1, 5)]),
    ]);
    keep_top_groups(&mut r, Some(2));
    assert_eq!(r.clone_groups.len(), 2);
    assert_eq!(r.clone_groups[0].instances[0].file, "a.ts");
    assert_eq!(r.clone_groups[1].instances[0].file, "b.ts");
    assert_eq!(r.stats.duplicated_lines, 100);
}

#[test]
fn keep_top_groups_without_limit_or_with_large_limit_keeps_all() {
    let mut r = make_duplication_report(vec![make_clone_group(vec![("a.ts", 1, 5)])]);
    keep_top_groups(&mut r, None);
    assert_eq!(r.clone_groups.len(), 1);
    keep_top_groups(&mut r, Some(5));
    assert_eq!(r.clone_groups.len(), 1);
    keep_top_groups(&mut r, Some(0));
    assert!(r.clone_groups.is_empty());
}
