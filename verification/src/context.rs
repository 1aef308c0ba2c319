//! Context of a test run: the model registry, the counters and the
//! per-test-case outcomes that the reports are made from.

use crate::dto::optional_text;
use crate::ordered::{lemma_ordered_keys_distinct, OrderedKey, OrderedMap};
use crate::paths::{
    parent_of, path_file_stem, path_parent, rdnn_text, stem_of, to_rdnn, workspace_name,
    workspace_of,
};
use crate::report::{
    count_directory, count_result, key_views, lemma_count_directory_bound,
    lemma_results_cover_rows, lemma_tck_rows_count, lemma_tck_rows_ignored,
    lemma_tck_rows_one_per_key, lemma_tck_rows_success, remarks_view, row_key, rows_view,
    tck_row, tck_rows, timings_of, ReportRow, RowView, Summary, TestCasesSummary,
};
use crate::text::{
    compare_text, lemma_text_order_equal, lemma_text_order_flip, lemma_text_order_transitive,
    strip_prefix, text_order, texts, without_prefix, Order,
};
use vstd::hash_map::StringHashMap;
use vstd::prelude::*;
use vstd::string::StringExecFns;

verus! {

/// Test results.
#[derive(Clone, Copy, Debug, PartialEq, Eq, Structural)]
pub enum TestResult {
    Success,
    Failure,
    Ignored,
}

/// The word that a report shows for a test result.
pub open spec fn result_text(result: TestResult) -> Seq<char> {
    match result {
        TestResult::Success => "SUCCESS"@,
        TestResult::Failure => "ERROR"@,
        TestResult::Ignored => "IGNORED"@,
    }
}

impl TestResult {
    /// The word that a report shows for this result.
    pub fn to_string(&self) -> (r: String)
        ensures
            r@ == result_text(*self),
    {
        match self {
            TestResult::Success => String::from_str("SUCCESS"),
            TestResult::Failure => String::from_str("ERROR"),
            TestResult::Ignored => String::from_str("IGNORED"),
        }
    }
}

/// Retrieves the parent path without file name from given `name`.
pub fn dir_name(name: &str) -> (r: String)
    requires
        path_parent(name@) is Some,
    ensures
        Some(r@) == path_parent(name@),
{
    match parent_of(name) {
        Some(parent) => parent,
        None => String::new(),
    }
}

/// Retrieves the file name without extension.
pub fn file_stem(name: &str) -> (r: String)
    requires
        path_file_stem(name@) is Some,
    ensures
        Some(r@) == path_file_stem(name@),
{
    match stem_of(name) {
        Some(stem) => stem,
        None => String::new(),
    }
}

/// The parent path and the file name without extension of `name`, where it
/// has both.
pub fn dir_name_and_file_stem(name: &str) -> (r: Option<(String, String)>)
    ensures
        r is Some == (path_parent(name@) is Some && path_file_stem(name@) is Some),
        r matches Some(pair) ==> Some(pair.0@) == path_parent(name@) && Some(pair.1@)
            == path_file_stem(name@),
{
    if parent_of(name).is_some() && stem_of(name).is_some() {
        Some((dir_name(name), file_stem(name)))
    } else {
        None
    }
}

/// Removes the root directory name from the full directory path.
pub fn dir_name_stripped_prefix(full_name: &str, root_dir_name: &str) -> (r: String)
    ensures
        r@ == without_prefix(full_name@, root_dir_name@),
{
    strip_prefix(full_name, root_dir_name)
}

/// Identifies a test case across the whole run: the directory of its test
/// file relative to the root, the stem of the test file and the identifier
/// of the test case.
#[derive(Debug, Clone)]
pub struct TestCaseKey {
    pub directory: String,
    pub file_stem: String,
    pub test_case_id: String,
}

/// View of a test-case key: directory, file stem and test-case identifier.
pub type KeyView = (Seq<char>, Seq<char>, Seq<char>);

impl View for TestCaseKey {
    type V = KeyView;

    open spec fn view(&self) -> KeyView {
        (self.directory@, self.file_stem@, self.test_case_id@)
    }
}

/// The order of test-case keys: by directory, then by file stem, then by
/// test-case identifier.
pub open spec fn key_order(a: KeyView, b: KeyView) -> Order {
    match text_order(a.0, b.0) {
        Order::Equal => match text_order(a.1, b.1) {
            Order::Equal => text_order(a.2, b.2),
            other => other,
        },
        other => other,
    }
}

impl OrderedKey for TestCaseKey {
    open spec fn order(a: KeyView, b: KeyView) -> Order {
        key_order(a, b)
    }

    fn compare_with(&self, other: &TestCaseKey) -> (r: Order) {
        match compare_text(self.directory.as_str(), other.directory.as_str()) {
            Order::Equal => match compare_text(
                self.file_stem.as_str(),
                other.file_stem.as_str(),
            ) {
                Order::Equal => compare_text(
                    self.test_case_id.as_str(),
                    other.test_case_id.as_str(),
                ),
                other => other,
            },
            other => other,
        }
    }

    fn duplicate(&self) -> (r: TestCaseKey) {
        TestCaseKey {
            directory: self.directory.clone(),
            file_stem: self.file_stem.clone(),
            test_case_id: self.test_case_id.clone(),
        }
    }

    proof fn lemma_order_equal(a: KeyView, b: KeyView) {
        lemma_text_order_equal(a.0, b.0);
        lemma_text_order_equal(a.1, b.1);
        lemma_text_order_equal(a.2, b.2);
    }

    proof fn lemma_order_flip(a: KeyView, b: KeyView) {
        lemma_text_order_flip(a.0, b.0);
        lemma_text_order_flip(a.1, b.1);
        lemma_text_order_flip(a.2, b.2);
    }

    proof fn lemma_order_transitive(a: KeyView, b: KeyView, c: KeyView) {
        lemma_text_order_equal(a.0, b.0);
        lemma_text_order_equal(b.0, c.0);
        lemma_text_order_equal(a.0, c.0);
        lemma_text_order_equal(a.1, b.1);
        lemma_text_order_equal(b.1, c.1);
        lemma_text_order_equal(a.1, c.1);
        lemma_text_order_flip(a.0, b.0);
        lemma_text_order_flip(b.0, c.0);
        lemma_text_order_flip(a.1, b.1);
        lemma_text_order_flip(b.1, c.1);
        lemma_text_order_flip(a.2, b.2);
        lemma_text_order_flip(b.2, c.2);
        if text_order(a.0, b.0) == Order::Less {
            lemma_text_order_transitive(a.0, b.0, c.0);
        } else if text_order(b.0, c.0) == Order::Less {
            assert(a.0 == b.0);
        } else if text_order(a.1, b.1) == Order::Less {
            lemma_text_order_transitive(a.1, b.1, c.1);
        } else if text_order(b.1, c.1) == Order::Less {
            assert(a.1 == b.1);
        } else {
            lemma_text_order_transitive(a.2, b.2, c.2);
        }
    }
}

/// What `roxmltree` gives as the value of an attribute of the root element
/// of an XML document, `None` where the text is no XML document or its
/// root element has no such attribute.
pub uninterp spec fn xml_root_attribute(content: Seq<char>, name: Seq<char>) -> Option<Seq<char>>;

/// Calls `roxmltree::Document::parse`, and on the document `root_element`
/// and `attribute`.
#[verifier::external_body]
fn root_attribute(content: &str, name: &str) -> (r: Option<String>)
    ensures
        optional_text(r) == xml_root_attribute(content@, name@),
{
    match roxmltree::Document::parse(content) {
        Ok(document) => document.root_element().attribute(name).map(String::from),
        Err(_) => None,
    }
}

/// Why a model file cannot be registered.
#[derive(Clone, Copy, Debug, PartialEq, Eq, Structural)]
pub enum ModelError {
    /// The file is no XML document whose root element has a `name`.
    MissingName,
    /// The root element has no `namespace`.
    MissingNamespace,
    /// The namespace is no URL with a domain and a path.
    InvalidNamespace,
    /// The file has no parent directory under the root directory.
    OutsideRoot,
}

/// What is registered for a model file: its name, its RDNN and its
/// workspace name.
pub struct ModelEntry {
    pub model_name: Seq<char>,
    pub rdnn: Seq<char>,
    pub workspace_name: Seq<char>,
}

/// What a model file's content and place give to register, or why the file
/// cannot be registered.
pub open spec fn model_entry(
    canonical_root: Seq<char>,
    canonical_file: Seq<char>,
    content: Seq<char>,
) -> Result<ModelEntry, ModelError> {
    match xml_root_attribute(content, "name"@) {
        None => Err(ModelError::MissingName),
        Some(model_name) => match xml_root_attribute(content, "namespace"@) {
            None => Err(ModelError::MissingNamespace),
            Some(namespace) => match rdnn_text(namespace) {
                None => Err(ModelError::InvalidNamespace),
                Some(rdnn) => match workspace_of(canonical_root, canonical_file) {
                    None => Err(ModelError::OutsideRoot),
                    Some(workspace_name) => Ok(ModelEntry { model_name, rdnn, workspace_name }),
                },
            },
        },
    }
}

/// The map `after` is the map `before` with the text filed under the key.
pub open spec fn filed(
    after: Map<Seq<char>, String>,
    before: Map<Seq<char>, String>,
    key: Seq<char>,
    text: Seq<char>,
) -> bool {
    &&& after.dom() == before.dom().insert(key)
    &&& after[key]@ == text
    &&& forall|k: Seq<char>| k != key && before.dom().contains(k) ==> after[k] == #[trigger] before[k]
}

/// Context used during testing process.
pub struct Context {
    /// Model RDNNs indexed by file name.
    pub model_rdnns: StringHashMap<String>,
    /// Model names indexed by file name.
    pub model_names: StringHashMap<String>,
    /// Workspace names indexed by file name.
    pub workspace_names: StringHashMap<String>,
    /// Rows of the test report, in the order of the evaluations.
    pub report: Vec<ReportRow>,
    /// Number of tests that have passed.
    pub success_count: usize,
    /// Number of tests that have failed.
    pub failure_count: usize,
    /// Total endpoint execution time in nanoseconds.
    pub execution_time: u128,
    /// Flag indicating if testing should be stopped after first test failure.
    pub stop_on_failure: bool,
    /// Pattern for filtering files to be tested.
    pub file_search_pattern: String,
    /// Tests root directory.
    pub root_dir_path: String,
    /// Test cases that have succeeded.
    pub test_case_success: OrderedMap<TestCaseKey, ()>,
    /// Test cases that have failed.
    pub test_case_failure: OrderedMap<TestCaseKey, Vec<String>>,
    /// Number of test cases per file.
    pub test_case_count_per_file: OrderedMap<String, usize>,
    /// Execution duration per test case, in nanoseconds.
    pub test_case_duration: OrderedMap<TestCaseKey, u128>,
}

/// What `write_line` records of one evaluation.
pub struct Evaluation {
    /// The directory of the test file, relative to the root.
    pub directory: Seq<char>,
    /// The test file's name without its extension.
    pub file_stem: Seq<char>,
    /// The identifier of the test case.
    pub test_case_id: Seq<char>,
    /// The identifier of the test.
    pub test_id: Seq<char>,
    pub result: TestResult,
    pub remarks: Seq<char>,
    /// The execution time in nanoseconds.
    pub duration: u128,
}

impl Evaluation {
    /// The key of the test case.
    pub open spec fn key(self) -> KeyView {
        (self.directory, self.file_stem, self.test_case_id)
    }

    /// The row of the test report: the remarks stand only beside a failure.
    pub open spec fn row(self) -> RowView {
        RowView {
            directory: self.directory,
            file_stem: self.file_stem,
            test_id: self.test_id,
            result: self.result,
            remarks: if self.result == TestResult::Failure {
                self.remarks
            } else {
                Seq::empty()
            },
        }
    }
}

/// The evaluation that is recorded for a test of the given file: the
/// directory is the file's parent without the root directory, the stem is
/// the file's name without its extension.
pub open spec fn evaluation_of(
    root_dir_path: Seq<char>,
    test_file_name: Seq<char>,
    test_case_id: Seq<char>,
    test_id: Seq<char>,
    result: TestResult,
    remarks: Seq<char>,
    duration: u128,
) -> Evaluation {
    Evaluation {
        directory: without_prefix(path_parent(test_file_name)->0, root_dir_path),
        file_stem: path_file_stem(test_file_name)->0,
        test_case_id,
        test_id,
        result,
        remarks,
        duration,
    }
}

/// The test file's name has a parent and a stem, so that its tests have a
/// key.
pub open spec fn has_report_key(test_file_name: Seq<char>) -> bool {
    path_parent(test_file_name) is Some && path_file_stem(test_file_name) is Some
}

impl Context {
    /// The rows of the test report.
    pub open spec fn rows(&self) -> Seq<RowView> {
        rows_view(self.report@)
    }

    /// A model was registered under the file name.
    pub open spec fn is_registered(&self, file_name: Seq<char>) -> bool {
        &&& self.model_names@.dom().contains(file_name)
        &&& self.workspace_names@.dom().contains(file_name)
        &&& self.model_rdnns@.dom().contains(file_name)
    }

    /// The keys of the test cases that have succeeded.
    pub open spec fn success_keys(&self) -> Set<KeyView> {
        self.test_case_success@.dom()
    }

    /// The remarks of the test cases that have failed.
    pub open spec fn failure_remarks(&self) -> Map<KeyView, Seq<Seq<char>>> {
        remarks_view(self.test_case_failure@)
    }

    /// The counters agree with the rows of the test report, the maps are in
    /// order, and each test case with an outcome has a duration.
    pub open spec fn wf(&self) -> bool {
        &&& self.test_case_success.wf()
        &&& self.test_case_failure.wf()
        &&& self.test_case_count_per_file.wf()
        &&& self.test_case_duration.wf()
        &&& self.success_count == count_result(self.rows(), TestResult::Success)
        &&& self.failure_count == count_result(self.rows(), TestResult::Failure)
        &&& forall|d: Seq<char>| #[trigger]
            self.test_case_count_per_file@.dom().contains(d)
                ==> self.test_case_count_per_file@[d] == count_directory(self.rows(), d)
        &&& forall|d: Seq<char>|
            !(#[trigger] self.test_case_count_per_file@.dom().contains(d)) ==> count_directory(
                self.rows(),
                d,
            ) == 0
        &&& self.test_case_success@.dom().subset_of(self.test_case_duration@.dom())
        &&& self.test_case_failure@.dom().subset_of(self.test_case_duration@.dom())
    }

    /// The state after one more evaluation: the row is appended, the
    /// counters and the maps take the evaluation in, the rest but the
    /// execution time stays.
    pub open spec fn recorded(&self, before: &Context, e: Evaluation) -> bool {
        &&& self.rows() == before.rows().push(e.row())
        &&& self.success_count == before.success_count + if e.result == TestResult::Success {
            1int
        } else {
            0int
        }
        &&& self.failure_count == before.failure_count + if e.result == TestResult::Failure {
            1int
        } else {
            0int
        }
        &&& self.test_case_count_per_file@.dom() == before.test_case_count_per_file@.dom().insert(
            e.directory,
        )
        &&& self.test_case_count_per_file@[e.directory] == count_directory(
            before.rows(),
            e.directory,
        ) + 1
        &&& forall|d: Seq<char>|
            d != e.directory && before.test_case_count_per_file@.dom().contains(d)
                ==> self.test_case_count_per_file@[d] == #[trigger] before.test_case_count_per_file@[d]
        &&& self.test_case_duration@ == before.test_case_duration@.insert(e.key(), e.duration)
        &&& self.success_keys() == if e.result == TestResult::Success {
            before.success_keys().insert(e.key())
        } else {
            before.success_keys()
        }
        &&& self.failure_remarks() == if e.result == TestResult::Failure {
            before.failure_remarks().insert(
                e.key(),
                if before.failure_remarks().dom().contains(e.key()) {
                    before.failure_remarks()[e.key()].push(e.remarks)
                } else {
                    seq![e.remarks]
                },
            )
        } else {
            before.failure_remarks()
        }
        &&& self.stop_on_failure == before.stop_on_failure
        &&& self.file_search_pattern@ == before.file_search_pattern@
        &&& self.root_dir_path@ == before.root_dir_path@
        &&& self.model_names@ == before.model_names@
        &&& self.model_rdnns@ == before.model_rdnns@
        &&& self.workspace_names@ == before.workspace_names@
    }

    /// Creates a new testing context: nothing is recorded yet, and the root
    /// directory ends with a separator.
    pub fn new(stop_on_failure: bool, file_search_pattern: String, root_dir: String) -> (r: Self)
        ensures
            r.wf(),
            r.rows().len() == 0,
            r.success_count == 0,
            r.failure_count == 0,
            r.execution_time == 0,
            r.stop_on_failure == stop_on_failure,
            r.file_search_pattern@ == file_search_pattern@,
            r.root_dir_path@ == root_dir@ + "/"@,
            r.test_case_success@ == Map::<KeyView, ()>::empty(),
            r.test_case_failure@ == Map::<KeyView, Vec<String>>::empty(),
            r.test_case_duration@ == Map::<KeyView, u128>::empty(),
            r.test_case_count_per_file@ == Map::<Seq<char>, usize>::empty(),
            r.model_names@ == Map::<Seq<char>, String>::empty(),
            r.model_rdnns@ == Map::<Seq<char>, String>::empty(),
            r.workspace_names@ == Map::<Seq<char>, String>::empty(),
    {
        let mut root_dir_path = root_dir;
        root_dir_path.append("/");
        let r = Context {
            model_rdnns: StringHashMap::new(),
            model_names: StringHashMap::new(),
            workspace_names: StringHashMap::new(),
            report: Vec::new(),
            success_count: 0,
            failure_count: 0,
            execution_time: 0,
            stop_on_failure,
            file_search_pattern,
            root_dir_path,
            test_case_success: OrderedMap::new(),
            test_case_failure: OrderedMap::new(),
            test_case_count_per_file: OrderedMap::new(),
            test_case_duration: OrderedMap::new(),
        };
        r
    }

    /// Records one evaluation: appends its row to the test report, counts
    /// it, and files its outcome and its duration under the key of its test
    /// case.
    pub fn write_line(
        &mut self,
        test_file_name: &str,
        test_case_id: &str,
        test_id: &str,
        test_result: TestResult,
        remarks: &str,
        execution_duration: u128,
    )
        requires
            old(self).wf(),
            path_parent(test_file_name@) is Some,
            path_file_stem(test_file_name@) is Some,
        ensures
            final(self).wf(),
            final(self).execution_time == old(self).execution_time,
            final(self).recorded(
                old(self),
                evaluation_of(
                    old(self).root_dir_path@,
                    test_file_name@,
                    test_case_id@,
                    test_id@,
                    test_result,
                    remarks@,
                    execution_duration,
                ),
            ),
    {
        let ghost before = *self;
        let parent = dir_name(test_file_name);
        let test_file_directory = dir_name_stripped_prefix(
            parent.as_str(),
            self.root_dir_path.as_str(),
        );
        let test_file_stem = file_stem(test_file_name);
        let ghost e = Evaluation {
            directory: test_file_directory@,
            file_stem: test_file_stem@,
            test_case_id: test_case_id@,
            test_id: test_id@,
            result: test_result,
            remarks: remarks@,
            duration: execution_duration,
        };
        let test_case_key = TestCaseKey {
            directory: test_file_directory.clone(),
            file_stem: test_file_stem.clone(),
            test_case_id: test_case_id.to_owned(),
        };
        let is_failure = match test_result {
            TestResult::Failure => true,
            _ => false,
        };
        let row = ReportRow {
            directory: test_file_directory.clone(),
            file_stem: test_file_stem,
            test_id: test_id.to_owned(),
            result: test_result,
            remarks: if is_failure {
                remarks.to_owned()
            } else {
                String::new()
            },
        };
        self.report.push(row);
        let rows_now = self.report.len();
        proof {
            assert(self.rows() =~= before.rows().push(e.row()));
            assert(self.rows().drop_last() =~= before.rows());
            lemma_count_directory_bound(before.rows(), e.directory);
            lemma_results_cover_rows(before.rows());
        }
        let count: usize = match self.test_case_count_per_file.get(&test_file_directory) {
            Some(count) => *count + 1,
            None => 1,
        };
        self.test_case_count_per_file.insert(test_file_directory, count);
        self.test_case_duration.insert(test_case_key.duplicate(), execution_duration);
        match test_result {
            TestResult::Success => {
                self.success_count = self.success_count + 1;
                self.test_case_success.insert(test_case_key, ());
            },
            TestResult::Failure => {
                self.failure_count = self.failure_count + 1;
                let ghost failures_before = self.test_case_failure@;
                let mut failures = match self.test_case_failure.remove(&test_case_key) {
                    Some(list) => list,
                    None => Vec::new(),
                };
                let ghost list_before = failures@;
                failures.push(remarks.to_owned());
                proof {
                    assert(texts(failures@) =~= texts(list_before).push(remarks@));
                    assert(texts(Seq::<String>::empty()).push(remarks@) =~= seq![remarks@]);
                }
                self.test_case_failure.insert(test_case_key, failures);
                proof {
                    assert(self.test_case_failure@ =~= failures_before.insert(e.key(), failures));
                    assert(self.failure_remarks() =~= before.failure_remarks().insert(
                        e.key(),
                        texts(failures@),
                    ));
                }
            },
            TestResult::Ignored => {},
        }
        proof {
            assert forall|d: Seq<char>| #[trigger]
                self.test_case_count_per_file@.dom().contains(d)
                    implies self.test_case_count_per_file@[d] == count_directory(self.rows(), d) by {
                if d != e.directory {
                    assert(before.test_case_count_per_file@.dom().contains(d));
                }
            }
            assert forall|d: Seq<char>|
                !(#[trigger] self.test_case_count_per_file@.dom().contains(d))
                    implies count_directory(self.rows(), d) == 0 by {
                assert(!before.test_case_count_per_file@.dom().contains(d));
            }
        }
    }

    /// The counts of the tests: those that passed, those that failed, and
    /// both together.
    pub fn display_tests_summary(&self) -> (r: Summary)
        requires
            self.wf(),
        ensures
            r.success_count == self.success_count,
            r.failure_count == self.failure_count,
            r.total_count == self.success_count + self.failure_count,
    {
        let rows = self.report.len();
        proof {
            lemma_results_cover_rows(self.rows());
        }
        Summary {
            total_count: self.success_count + self.failure_count,
            success_count: self.success_count,
            failure_count: self.failure_count,
        }
    }

    /// The summary of the test cases. A test case with any failure counts
    /// as failed and gets an `IGNORED` row; one that only succeeded counts as
    /// passed and gets a `SUCCESS` row; the rows stand in the order of the
    /// keys.
    pub fn display_test_cases_summary(&self) -> (r: TestCasesSummary)
        requires
            self.wf(),
        ensures
            rows_view(r.rows@) == tck_rows(
                self.test_case_duration.keys(),
                self.test_case_success@.dom(),
                self.test_case_failure@.dom(),
            ),
            r.counts.total_count == r.rows@.len(),
            r.counts.success_count == count_result(rows_view(r.rows@), TestResult::Success),
            r.counts.failure_count == count_result(rows_view(r.rows@), TestResult::Ignored),
    {
        let ghost keys = self.test_case_duration.keys();
        let ghost success = self.test_case_success@.dom();
        let ghost failure = self.test_case_failure@.dom();
        let mut rows: Vec<ReportRow> = Vec::new();
        let mut success_count: usize = 0;
        let mut failure_count: usize = 0;
        let mut i: usize = 0;
        while i < self.test_case_duration.entries.len()
            invariant
                i <= self.test_case_duration.entries@.len(),
                self.wf(),
                keys == self.test_case_duration.keys(),
                success == self.test_case_success@.dom(),
                failure == self.test_case_failure@.dom(),
                rows_view(rows@) == tck_rows(keys.take(i as int), success, failure),
                success_count == count_result(rows_view(rows@), TestResult::Success),
                failure_count == count_result(rows_view(rows@), TestResult::Ignored),
                rows@.len() <= i,
            decreases self.test_case_duration.entries@.len() - i,
        {
            let key = &self.test_case_duration.entries[i].0;
            let ghost rows_before = rows_view(rows@);
            proof {
                assert(keys.take(i + 1).drop_last() =~= keys.take(i as int));
                assert(keys.take(i + 1).last() == key@);
                lemma_results_cover_rows(rows_before);
            }
            let outcome = if self.test_case_failure.get(key).is_some() {
                Some(TestResult::Ignored)
            } else if self.test_case_success.get(key).is_some() {
                Some(TestResult::Success)
            } else {
                None
            };
            match outcome {
                Some(result) => {
                    rows.push(
                        ReportRow {
                            directory: key.directory.clone(),
                            file_stem: key.file_stem.clone(),
                            test_id: key.test_case_id.clone(),
                            result,
                            remarks: String::new(),
                        },
                    );
                    proof {
                        assert(rows_view(rows@) =~= rows_before.push(tck_row(key@, result)));
                        assert(rows_view(rows@).drop_last() =~= rows_before);
                    }
                    match result {
                        TestResult::Success => {
                            success_count = success_count + 1;
                        },
                        _ => {
                            failure_count = failure_count + 1;
                        },
                    }
                },
                None => {},
            }
            i = i + 1;
        }
        proof {
            assert(keys.take(i as int) =~= keys);
        }
        let total_count = rows.len();
        TestCasesSummary { counts: Summary { total_count, success_count, failure_count }, rows }
    }

    /// As long as no evaluation was recorded as ignored, the two counters
    /// together count the rows of the test report.
    pub proof fn lemma_counters_count_rows(&self)
        requires
            self.wf(),
            count_result(self.rows(), TestResult::Ignored) == 0,
        ensures
            self.success_count + self.failure_count == self.rows().len(),
    {
        lemma_results_cover_rows(self.rows());
    }

    /// Records one evaluation as `write_line` does, where the test file's
    /// name has a parent and a stem; leaves the context as it is and says so
    /// where it has not.
    pub fn record(
        &mut self,
        test_file_name: &str,
        test_case_id: &str,
        test_id: &str,
        test_result: TestResult,
        remarks: &str,
        execution_duration: u128,
    ) -> (r: bool)
        requires
            old(self).wf(),
        ensures
            final(self).wf(),
            r == has_report_key(test_file_name@),
            final(self).execution_time == old(self).execution_time,
            r ==> final(self).recorded(
                old(self),
                evaluation_of(
                    old(self).root_dir_path@,
                    test_file_name@,
                    test_case_id@,
                    test_id@,
                    test_result,
                    remarks@,
                    execution_duration,
                ),
            ),
            !r ==> *final(self) == *old(self),
    {
        if dir_name_and_file_stem(test_file_name).is_some() {
            self.write_line(
                test_file_name,
                test_case_id,
                test_id,
                test_result,
                remarks,
                execution_duration,
            );
            true
        } else {
            false
        }
    }

    /// Whether a model was registered under the file name.
    pub fn has_model(&self, file_name: &str) -> (r: bool)
        ensures
            r == self.is_registered(file_name@),
    {
        self.model_names.contains_key(file_name) && self.workspace_names.contains_key(file_name)
            && self.model_rdnns.contains_key(file_name)
    }

    /// The name of the model that was registered under the file name.
    pub fn get_model_name(&self, file_name: &str) -> (r: String)
        requires
            self.model_names@.dom().contains(file_name@),
        ensures
            r@ == self.model_names@[file_name@]@,
    {
        match self.model_names.get(file_name) {
            Some(name) => name.clone(),
            None => String::new(),
        }
    }

    /// The workspace name of the model that was registered under the file
    /// name.
    pub fn get_workspace_name(&self, file_name: &str) -> (r: String)
        requires
            self.workspace_names@.dom().contains(file_name@),
        ensures
            r@ == self.workspace_names@[file_name@]@,
    {
        match self.workspace_names.get(file_name) {
            Some(name) => name.clone(),
            None => String::new(),
        }
    }

    /// The RDNN of the model that was registered under the file name.
    pub fn get_model_rdnn(&self, file_name: &str) -> (r: String)
        requires
            self.model_rdnns@.dom().contains(file_name@),
        ensures
            r@ == self.model_rdnns@[file_name@]@,
    {
        match self.model_rdnns.get(file_name) {
            Some(name) => name.clone(),
            None => String::new(),
        }
    }

    /// Files a model under its file name: its name, its RDNN and its
    /// workspace name. What was filed under that file name before is
    /// replaced.
    pub fn register_model(
        &mut self,
        file_name: &str,
        model_name: String,
        rdnn: String,
        workspace_name: String,
    )
        requires
            old(self).wf(),
        ensures
            final(self).wf(),
            filed(final(self).model_names@, old(self).model_names@, file_name@, model_name@),
            filed(final(self).model_rdnns@, old(self).model_rdnns@, file_name@, rdnn@),
            filed(
                final(self).workspace_names@,
                old(self).workspace_names@,
                file_name@,
                workspace_name@,
            ),
            final(self).is_registered(file_name@),
            *final(self) == (Context {
                model_names: final(self).model_names,
                model_rdnns: final(self).model_rdnns,
                workspace_names: final(self).workspace_names,
                ..*old(self)
            }),
    {
        self.model_names.insert(file_name.to_owned(), model_name);
        self.model_rdnns.insert(file_name.to_owned(), rdnn);
        self.workspace_names.insert(file_name.to_owned(), workspace_name);
    }

    /// Registers a model file under its file name: the model's name and the
    /// RDNN of its namespace, both read from the root element of the file's
    /// content, and its workspace name. Nothing is registered where one of
    /// them cannot be had.
    pub fn process_model_definitions(
        &mut self,
        canonical_root: &str,
        canonical_file: &str,
        file_name: &str,
        content: &str,
    ) -> (r: Result<(), ModelError>)
        requires
            old(self).wf(),
        ensures
            final(self).wf(),
            match model_entry(canonical_root@, canonical_file@, content@) {
                Ok(entry) => {
                    &&& r is Ok
                    &&& filed(
                        final(self).model_names@,
                        old(self).model_names@,
                        file_name@,
                        entry.model_name,
                    )
                    &&& filed(
                        final(self).model_rdnns@,
                        old(self).model_rdnns@,
                        file_name@,
                        entry.rdnn,
                    )
                    &&& filed(
                        final(self).workspace_names@,
                        old(self).workspace_names@,
                        file_name@,
                        entry.workspace_name,
                    )
                    &&& final(self).is_registered(file_name@)
                    &&& *final(self) == (Context {
                        model_names: final(self).model_names,
                        model_rdnns: final(self).model_rdnns,
                        workspace_names: final(self).workspace_names,
                        ..*old(self)
                    })
                },
                Err(error) => r == Err::<(), ModelError>(error) && *final(self) == *old(self),
            },
    {
        let model_name = match root_attribute(content, "name") {
            Some(model_name) => model_name,
            None => {
                return Err(ModelError::MissingName);
            },
        };
        let namespace = match root_attribute(content, "namespace") {
            Some(namespace) => namespace,
            None => {
                return Err(ModelError::MissingNamespace);
            },
        };
        let rdnn = match to_rdnn(namespace.as_str()) {
            Some(rdnn) => rdnn,
            None => {
                return Err(ModelError::InvalidNamespace);
            },
        };
        let workspace = match workspace_name(canonical_root, canonical_file) {
            Some(workspace) => workspace,
            None => {
                return Err(ModelError::OutsideRoot);
            },
        };
        self.register_model(file_name, model_name, rdnn, workspace);
        Ok(())
    }

    /// The timings listing: the durations in ascending order, each with its
    /// test case.
    pub fn timings(&self) -> (r: OrderedMap<u128, TestCaseKey>)
        requires
            self.wf(),
        ensures
            r.wf(),
            key_views(r@) == timings_of(
                self.test_case_duration.keys(),
                self.test_case_duration@,
                self.test_case_duration.keys().len() as int,
            ),
    {
        let mut listing: OrderedMap<u128, TestCaseKey> = OrderedMap::new();
        let mut i: usize = 0;
        assert(key_views(listing@) =~= Map::<u128, KeyView>::empty());
        while i < self.test_case_duration.entries.len()
            invariant
                i <= self.test_case_duration.entries@.len(),
                self.wf(),
                listing.wf(),
                key_views(listing@) == timings_of(
                    self.test_case_duration.keys(),
                    self.test_case_duration@,
                    i as int,
                ),
            decreases self.test_case_duration.entries@.len() - i,
        {
            let ghost before = listing@;
            let duration = self.test_case_duration.entries[i].1;
            let key = self.test_case_duration.entries[i].0.duplicate();
            proof {
                self.test_case_duration.lemma_index_of(i as int);
            }
            listing.insert(duration, key);
            assert(key_views(listing@) =~= key_views(before).insert(duration, key@));
            i = i + 1;
        }
        listing
    }

    /// Every test case that succeeded or failed has exactly one row in the
    /// compatibility report, and the report has no other row.
    pub proof fn lemma_tck_report_covers_outcomes(&self)
        requires
            self.wf(),
        ensures
            ({
                let rows = tck_rows(
                    self.test_case_duration.keys(),
                    self.test_case_success@.dom(),
                    self.test_case_failure@.dom(),
                );
                &&& forall|k: KeyView|
                    #[trigger] self.test_case_success@.dom().contains(k)
                        || self.test_case_failure@.dom().contains(k) ==> exists|i: int|
                        0 <= i < rows.len() && row_key(#[trigger] rows[i]) == k
                &&& forall|i: int, j: int|
                    0 <= i < j < rows.len() ==> row_key(#[trigger] rows[i]) != row_key(
                        #[trigger] rows[j],
                    )
                &&& forall|i: int|
                    0 <= i < rows.len() ==> self.test_case_success@.dom().contains(
                        row_key(#[trigger] rows[i]),
                    ) || self.test_case_failure@.dom().contains(row_key(rows[i]))
            }),
    {
        let keys = self.test_case_duration.keys();
        let success = self.test_case_success@.dom();
        let failure = self.test_case_failure@.dom();
        let rows = tck_rows(keys, success, failure);
        lemma_ordered_keys_distinct::<TestCaseKey>(keys);
        lemma_tck_rows_one_per_key(keys, success, failure);
        assert forall|k: KeyView| #[trigger] success.contains(k) || failure.contains(k) implies exists|
            i: int,
        |
            0 <= i < rows.len() && row_key(#[trigger] rows[i]) == k by {
            assert(self.test_case_duration@.dom().contains(k));
            let p = self.test_case_duration.index_of(k);
            assert(keys[p] == k);
            assert(keys.contains(k));
        }
    }

    /// The counts of the summary of the test cases are the numbers of the
    /// test cases with an outcome, of those that only succeeded, and of
    /// those that failed.
    pub proof fn lemma_summary_counts(&self)
        requires
            self.wf(),
        ensures
            ({
                let rows = tck_rows(
                    self.test_case_duration.keys(),
                    self.test_case_success@.dom(),
                    self.test_case_failure@.dom(),
                );
                &&& rows.len() == self.test_case_success@.dom().union(
                    self.test_case_failure@.dom(),
                ).len()
                &&& count_result(rows, TestResult::Success)
                    == self.test_case_success@.dom().difference(
                    self.test_case_failure@.dom(),
                ).len()
                &&& count_result(rows, TestResult::Ignored) == self.test_case_failure@.dom().len()
            }),
    {
        let keys = self.test_case_duration.keys();
        let success = self.test_case_success@.dom();
        let failure = self.test_case_failure@.dom();
        let nothing = Set::<KeyView>::empty();
        lemma_ordered_keys_distinct::<TestCaseKey>(keys);
        assert forall|k: KeyView| self.test_case_duration@.dom().contains(k) implies keys.to_set().contains(
            k,
        ) by {
            let p = self.test_case_duration.index_of(k);
            assert(keys[p] == k);
        }
        lemma_tck_rows_count(keys, success, failure);
        lemma_tck_rows_ignored(keys, success, failure);
        lemma_tck_rows_count(keys, nothing, failure);
        assert(nothing.union(failure) =~= failure);
        lemma_tck_rows_success(keys, success, failure);
        lemma_tck_rows_count(keys, success.difference(failure), nothing);
        assert(success.difference(failure).union(nothing) =~= success.difference(failure));
    }
}

} // verus!
