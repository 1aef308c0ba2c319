use dmn_tck_runner::context::{Context, ModelError, TestCaseKey, TestResult};
use dmn_tck_runner::report::{ReportRow, Summary};

fn context() -> Context {
    Context::new(false, ".*".to_string(), "/root".to_string())
}

fn key(directory: &str, file_stem: &str, test_case_id: &str) -> TestCaseKey {
    TestCaseKey {
        directory: directory.to_string(),
        file_stem: file_stem.to_string(),
        test_case_id: test_case_id.to_string(),
    }
}

fn lines(rows: &[ReportRow]) -> Vec<String> {
    rows.iter().map(|row| row.line()).collect()
}

#[test]
fn result_words_are_those_of_the_reports() {
    assert_eq!(TestResult::Success.to_string(), "SUCCESS");
    assert_eq!(TestResult::Failure.to_string(), "ERROR");
    assert_eq!(TestResult::Ignored.to_string(), "IGNORED");
}

#[test]
fn new_context_is_empty_and_its_root_ends_with_a_separator() {
    let ctx = Context::new(true, "pattern".to_string(), "/root".to_string());
    assert_eq!(ctx.root_dir_path, "/root/");
    assert_eq!(ctx.file_search_pattern, "pattern");
    assert!(ctx.stop_on_failure);
    assert_eq!(ctx.success_count, 0);
    assert_eq!(ctx.failure_count, 0);
    assert_eq!(ctx.execution_time, 0);
    assert!(ctx.report.is_empty());
    assert_eq!(ctx.test_case_success.len(), 0);
    assert_eq!(ctx.test_case_failure.len(), 0);
    assert_eq!(ctx.test_case_duration.len(), 0);
    assert_eq!(ctx.test_case_count_per_file.len(), 0);
}

#[test]
fn a_row_is_five_quoted_fields() {
    let row = ReportRow {
        directory: "a/b".to_string(),
        file_stem: "0001-test-01".to_string(),
        test_id: "001:2".to_string(),
        result: TestResult::Failure,
        remarks: "no actual value".to_string(),
    };
    assert_eq!(row.line(), "\"a/b\",\"0001-test-01\",\"001:2\",\"ERROR\",\"no actual value\"");
}

#[test]
fn success_is_recorded_without_remarks() {
    let mut ctx = context();
    ctx.write_line("/root/a/t.xml", "t1", "t1", TestResult::Success, "ignored remark", 1500);
    assert_eq!(lines(&ctx.report), vec!["\"a\",\"t\",\"t1\",\"SUCCESS\",\"\""]);
    assert_eq!(ctx.success_count, 1);
    assert_eq!(ctx.failure_count, 0);
    assert_eq!(ctx.test_case_success.len(), 1);
    assert!(ctx.test_case_success.get(&key("a", "t", "t1")).is_some());
    assert_eq!(ctx.test_case_failure.len(), 0);
    assert_eq!(ctx.test_case_duration.get(&key("a", "t", "t1")), Some(&1500));
    assert_eq!(ctx.test_case_count_per_file.get(&"a".to_string()), Some(&1));
    assert_eq!(ctx.execution_time, 0);
}

#[test]
fn failure_is_recorded_with_its_remarks() {
    let mut ctx = context();
    ctx.write_line("/root/a/t.xml", "t1", "t1", TestResult::Failure, "boom", 10);
    ctx.write_line("/root/a/t.xml", "t1", "t1:1", TestResult::Failure, "ouch", 20);
    assert_eq!(
        lines(&ctx.report),
        vec!["\"a\",\"t\",\"t1\",\"ERROR\",\"boom\"", "\"a\",\"t\",\"t1:1\",\"ERROR\",\"ouch\""]
    );
    assert_eq!(ctx.success_count, 0);
    assert_eq!(ctx.failure_count, 2);
    assert_eq!(
        ctx.test_case_failure.get(&key("a", "t", "t1")),
        Some(&vec!["boom".to_string(), "ouch".to_string()])
    );
    assert_eq!(ctx.test_case_success.len(), 0);
    assert_eq!(ctx.test_case_duration.get(&key("a", "t", "t1")), Some(&20));
    assert_eq!(ctx.test_case_count_per_file.get(&"a".to_string()), Some(&2));
}

#[test]
fn ignored_is_written_but_not_counted() {
    let mut ctx = context();
    ctx.write_line("/root/a/t.xml", "t1", "t1", TestResult::Ignored, "remark", 10);
    assert_eq!(lines(&ctx.report), vec!["\"a\",\"t\",\"t1\",\"IGNORED\",\"\""]);
    assert_eq!(ctx.success_count + ctx.failure_count, 0);
    assert_eq!(ctx.test_case_success.len(), 0);
    assert_eq!(ctx.test_case_failure.len(), 0);
    assert_eq!(ctx.test_case_duration.len(), 1);
    assert_eq!(ctx.test_case_count_per_file.get(&"a".to_string()), Some(&1));
}

#[test]
fn a_file_outside_the_root_keeps_its_whole_directory() {
    let mut ctx = context();
    ctx.write_line("/elsewhere/a/t.xml", "t1", "t1", TestResult::Success, "", 1);
    assert_eq!(lines(&ctx.report), vec!["\"/elsewhere/a\",\"t\",\"t1\",\"SUCCESS\",\"\""]);
}

#[test]
fn counters_add_up_to_the_rows_of_the_report() {
    let mut ctx = context();
    ctx.write_line("/root/a/t.xml", "t1", "t1", TestResult::Success, "", 1);
    ctx.write_line("/root/a/t.xml", "t2", "t2", TestResult::Failure, "x", 2);
    ctx.write_line("/root/b/u.xml", "t1", "t1", TestResult::Success, "", 3);
    ctx.write_line("/root/b/u.xml", "t1", "t1:1", TestResult::Failure, "y", 4);
    ctx.write_line("/root/b/u.xml", "t1", "t1:2", TestResult::Success, "", 5);
    assert_eq!(ctx.success_count + ctx.failure_count, ctx.report.len());
    assert_eq!(ctx.success_count, 3);
    assert_eq!(ctx.failure_count, 2);
    let summary = ctx.display_tests_summary();
    assert_eq!(summary, Summary { total_count: 5, success_count: 3, failure_count: 2 });
}

#[test]
fn evaluations_are_counted_per_directory_in_order() {
    let mut ctx = context();
    ctx.write_line("/root/b/u.xml", "t1", "t1", TestResult::Success, "", 3);
    ctx.write_line("/root/a/t.xml", "t1", "t1", TestResult::Success, "", 1);
    ctx.write_line("/root/b/v.xml", "t1", "t1", TestResult::Failure, "y", 4);
    ctx.write_line("/root/t.xml", "t1", "t1", TestResult::Failure, "y", 4);
    let counts: Vec<(&str, usize)> =
        ctx.test_case_count_per_file.entries.iter().map(|e| (e.0.as_str(), e.1)).collect();
    assert_eq!(counts, vec![("/root", 1), ("a", 1), ("b", 2)]);
}

#[test]
fn the_last_duration_of_a_test_case_is_kept() {
    let mut ctx = context();
    ctx.write_line("/root/a/t.xml", "t1", "t1", TestResult::Success, "", 100);
    ctx.write_line("/root/a/t.xml", "t1", "t1:1", TestResult::Success, "", 7);
    assert_eq!(ctx.test_case_duration.len(), 1);
    assert_eq!(ctx.test_case_duration.get(&key("a", "t", "t1")), Some(&7));
}

#[test]
fn mixed_test_case_is_in_both_sets_and_ignored_in_the_compatibility_report() {
    let mut ctx = context();
    ctx.write_line("/root/a/t.xml", "t1", "t1", TestResult::Success, "", 1);
    ctx.write_line("/root/a/t.xml", "t1", "t1:1", TestResult::Failure, "differs", 2);
    assert!(ctx.test_case_success.get(&key("a", "t", "t1")).is_some());
    assert!(ctx.test_case_failure.get(&key("a", "t", "t1")).is_some());
    let summary = ctx.display_test_cases_summary();
    assert_eq!(lines(&summary.rows), vec!["\"a\",\"t\",\"t1\",\"IGNORED\",\"\""]);
    assert_eq!(summary.counts, Summary { total_count: 1, success_count: 0, failure_count: 1 });
}

#[test]
fn compatibility_report_has_one_row_per_test_case_in_key_order() {
    let mut ctx = context();
    ctx.write_line("/root/b/u.xml", "t2", "t2", TestResult::Failure, "x", 1);
    ctx.write_line("/root/b/u.xml", "t1", "t1", TestResult::Success, "", 1);
    ctx.write_line("/root/a/t.xml", "t9", "t9", TestResult::Success, "", 1);
    ctx.write_line("/root/a/t.xml", "t9", "t9:1", TestResult::Success, "", 1);
    ctx.write_line("/root/a/s.xml", "", "", TestResult::Failure, "x", 1);
    ctx.write_line("/root/a/s.xml", "", ":1", TestResult::Failure, "y", 1);
    ctx.write_line("/root/c/w.xml", "t0", "t0", TestResult::Ignored, "", 1);
    let summary = ctx.display_test_cases_summary();
    assert_eq!(
        lines(&summary.rows),
        vec![
            "\"a\",\"s\",\"\",\"IGNORED\",\"\"",
            "\"a\",\"t\",\"t9\",\"SUCCESS\",\"\"",
            "\"b\",\"u\",\"t1\",\"SUCCESS\",\"\"",
            "\"b\",\"u\",\"t2\",\"IGNORED\",\"\"",
        ]
    );
    assert_eq!(summary.counts, Summary { total_count: 4, success_count: 2, failure_count: 2 });
    assert_eq!(summary.counts.failure_count, ctx.test_case_failure.len());
}

#[test]
fn empty_context_has_empty_summaries() {
    let ctx = context();
    assert_eq!(ctx.display_tests_summary(), Summary { total_count: 0, success_count: 0, failure_count: 0 });
    let summary = ctx.display_test_cases_summary();
    assert!(summary.rows.is_empty());
    assert_eq!(summary.counts, Summary { total_count: 0, success_count: 0, failure_count: 0 });
    assert_eq!(ctx.timings().len(), 0);
}

#[test]
fn timings_are_listed_by_duration_and_equal_durations_keep_the_last_key() {
    let mut ctx = context();
    ctx.write_line("/root/a/t.xml", "t1", "t1", TestResult::Success, "", 30);
    ctx.write_line("/root/a/t.xml", "t2", "t2", TestResult::Success, "", 10);
    ctx.write_line("/root/a/t.xml", "t3", "t3", TestResult::Success, "", 30);
    ctx.write_line("/root/a/t.xml", "t0", "t0", TestResult::Success, "", 20);
    let listing = ctx.timings();
    let shown: Vec<(u128, &str)> =
        listing.entries.iter().map(|e| (e.0, e.1.test_case_id.as_str())).collect();
    assert_eq!(shown, vec![(10, "t2"), (20, "t0"), (30, "t3")]);
}

#[test]
fn record_refuses_a_file_name_without_parent_or_stem() {
    let mut ctx = context();
    assert!(!ctx.record("", "t1", "t1", TestResult::Success, "", 1));
    assert!(!ctx.record("/", "t1", "t1", TestResult::Success, "", 1));
    assert!(ctx.report.is_empty());
    assert_eq!(ctx.success_count, 0);
    assert!(ctx.record("/root/a/t.xml", "t1", "t1", TestResult::Success, "", 1));
    assert_eq!(ctx.report.len(), 1);
    assert_eq!(ctx.success_count, 1);
}

#[test]
fn model_is_registered_with_name_rdnn_and_workspace() {
    let mut ctx = context();
    let content = "<definitions name=\"Greet\" namespace=\"http://a.b/ns\" id=\"x\"/>";
    assert!(!ctx.has_model("m.dmn"));
    assert_eq!(ctx.process_model_definitions("/root", "/root/ws/m.dmn", "m.dmn", content), Ok(()));
    assert!(ctx.has_model("m.dmn"));
    assert_eq!(ctx.get_model_name("m.dmn"), "Greet");
    assert_eq!(ctx.get_model_rdnn("m.dmn"), "b/a/ns");
    assert_eq!(ctx.get_workspace_name("m.dmn"), "ws");
    assert!(!ctx.has_model("other.dmn"));
}

#[test]
fn a_later_model_of_the_same_file_name_replaces_the_earlier() {
    let mut ctx = context();
    let first = "<definitions name=\"One\" namespace=\"http://a.b/one\"/>";
    let second = "<definitions name=\"Two\" namespace=\"http://c.d/two\"/>";
    assert_eq!(ctx.process_model_definitions("/root", "/root/x/m.dmn", "m.dmn", first), Ok(()));
    assert_eq!(ctx.process_model_definitions("/root", "/root/m.dmn", "m.dmn", second), Ok(()));
    assert_eq!(ctx.get_model_name("m.dmn"), "Two");
    assert_eq!(ctx.get_model_rdnn("m.dmn"), "d/c/two");
    assert_eq!(ctx.get_workspace_name("m.dmn"), "");
}

#[test]
fn model_without_name_is_refused() {
    let mut ctx = context();
    assert_eq!(
        ctx.process_model_definitions("/root", "/root/m.dmn", "m.dmn", "<definitions namespace=\"http://a.b/ns\"/>"),
        Err(ModelError::MissingName)
    );
    assert_eq!(
        ctx.process_model_definitions("/root", "/root/m.dmn", "m.dmn", "this is no xml"),
        Err(ModelError::MissingName)
    );
    assert!(!ctx.has_model("m.dmn"));
}

#[test]
fn model_without_namespace_is_refused() {
    let mut ctx = context();
    assert_eq!(
        ctx.process_model_definitions("/root", "/root/m.dmn", "m.dmn", "<definitions name=\"Greet\"/>"),
        Err(ModelError::MissingNamespace)
    );
    assert!(!ctx.has_model("m.dmn"));
}

#[test]
fn model_with_a_namespace_that_is_no_url_is_refused() {
    let mut ctx = context();
    assert_eq!(
        ctx.process_model_definitions(
            "/root",
            "/root/m.dmn",
            "m.dmn",
            "<definitions name=\"Greet\" namespace=\"urn:uuid:1234\"/>"
        ),
        Err(ModelError::InvalidNamespace)
    );
    assert!(!ctx.has_model("m.dmn"));
}

#[test]
fn model_outside_the_root_is_refused() {
    let mut ctx = context();
    assert_eq!(
        ctx.process_model_definitions(
            "/root",
            "/elsewhere/m.dmn",
            "m.dmn",
            "<definitions name=\"Greet\" namespace=\"http://a.b/ns\"/>"
        ),
        Err(ModelError::OutsideRoot)
    );
    assert!(!ctx.has_model("m.dmn"));
}

#[test]
fn register_model_files_the_three_texts() {
    let mut ctx = context();
    ctx.register_model("m.dmn", "Greet".to_string(), "b/a/ns".to_string(), "ws".to_string());
    assert!(ctx.has_model("m.dmn"));
    assert_eq!(ctx.get_model_name("m.dmn"), "Greet");
    assert_eq!(ctx.get_model_rdnn("m.dmn"), "b/a/ns");
    assert_eq!(ctx.get_workspace_name("m.dmn"), "ws");
    assert!(ctx.report.is_empty());
}
