//! Rows of the two reports, their counts, and the rows of the
//! compatibility report.

use crate::context::{result_text, KeyView, TestCaseKey, TestResult};
use crate::text::texts;
use vstd::prelude::*;
use vstd::string::StringExecFns;

verus! {

/// A row of a report.
#[derive(Debug, Clone)]
pub struct ReportRow {
    pub directory: String,
    pub file_stem: String,
    pub test_id: String,
    pub result: TestResult,
    pub remarks: String,
}

/// View of a row of a report.
pub struct RowView {
    pub directory: Seq<char>,
    pub file_stem: Seq<char>,
    pub test_id: Seq<char>,
    pub result: TestResult,
    pub remarks: Seq<char>,
}

impl View for ReportRow {
    type V = RowView;

    open spec fn view(&self) -> RowView {
        RowView {
            directory: self.directory@,
            file_stem: self.file_stem@,
            test_id: self.test_id@,
            result: self.result,
            remarks: self.remarks@,
        }
    }
}

/// The line of a row: its five fields, each in double quotes, separated by
/// commas.
pub open spec fn row_line(row: RowView) -> Seq<char> {
    "\""@ + row.directory + "\",\""@ + row.file_stem + "\",\""@ + row.test_id + "\",\""@
        + result_text(row.result) + "\",\""@ + row.remarks + "\""@
}

impl ReportRow {
    /// The line that stands for this row in a report file, without the line
    /// end.
    pub fn line(&self) -> (r: String)
        ensures
            r@ == row_line(self@),
    {
        let mut out = String::from_str("\"");
        out.append(self.directory.as_str());
        out.append("\",\"");
        out.append(self.file_stem.as_str());
        out.append("\",\"");
        out.append(self.test_id.as_str());
        out.append("\",\"");
        out.append(self.result.to_string().as_str());
        out.append("\",\"");
        out.append(self.remarks.as_str());
        out.append("\"");
        out
    }
}

/// The views of a sequence of rows.
pub open spec fn rows_view(rows: Seq<ReportRow>) -> Seq<RowView> {
    Seq::new(rows.len(), |i: int| rows[i]@)
}

/// The number of rows with the given result.
pub open spec fn count_result(rows: Seq<RowView>, result: TestResult) -> nat
    decreases rows.len(),
{
    if rows.len() == 0 {
        0
    } else {
        count_result(rows.drop_last(), result) + if rows.last().result == result {
            1nat
        } else {
            0nat
        }
    }
}

/// The number of rows with the given directory.
pub open spec fn count_directory(rows: Seq<RowView>, directory: Seq<char>) -> nat
    decreases rows.len(),
{
    if rows.len() == 0 {
        0
    } else {
        count_directory(rows.drop_last(), directory) + if rows.last().directory == directory {
            1nat
        } else {
            0nat
        }
    }
}

/// Each row has one of the three results.
pub proof fn lemma_results_cover_rows(rows: Seq<RowView>)
    ensures
        count_result(rows, TestResult::Success) + count_result(rows, TestResult::Failure)
            + count_result(rows, TestResult::Ignored) == rows.len(),
    decreases rows.len(),
{
    if rows.len() > 0 {
        lemma_results_cover_rows(rows.drop_last());
    }
}

/// No directory has more rows than there are rows.
pub proof fn lemma_count_directory_bound(rows: Seq<RowView>, directory: Seq<char>)
    ensures
        count_directory(rows, directory) <= rows.len(),
    decreases rows.len(),
{
    if rows.len() > 0 {
        lemma_count_directory_bound(rows.drop_last(), directory);
    }
}

/// The remarks of the failed test cases, as texts.
pub open spec fn remarks_view(failures: Map<KeyView, Vec<String>>) -> Map<KeyView, Seq<Seq<char>>> {
    failures.map_values(|list: Vec<String>| texts(list@))
}

/// The keys that the rows of the compatibility report stand for.
pub open spec fn row_keys(rows: Seq<RowView>) -> Seq<KeyView> {
    Seq::new(rows.len(), |i: int| row_key(rows[i]))
}

/// The compatibility report has as many rows as there are test cases with
/// an outcome.
pub proof fn lemma_tck_rows_count(keys: Seq<KeyView>, success: Set<KeyView>, failure: Set<KeyView>)
    requires
        keys.no_duplicates(),
        success.subset_of(keys.to_set()),
        failure.subset_of(keys.to_set()),
    ensures
        tck_rows(keys, success, failure).len() == success.union(failure).len(),
{
    let rows = tck_rows(keys, success, failure);
    let stood_for = row_keys(rows);
    lemma_tck_rows_one_per_key(keys, success, failure);
    assert(stood_for.no_duplicates());
    stood_for.unique_seq_to_set();
    assert forall|k: KeyView| stood_for.to_set().contains(k) == success.union(failure).contains(
        k,
    ) by {
        if stood_for.to_set().contains(k) {
            let i = choose|i: int| 0 <= i < stood_for.len() && stood_for[i] == k;
            assert(row_key(rows[i]) == k);
        }
        if success.union(failure).contains(k) {
            assert(keys.to_set().contains(k));
            assert(keys.contains(k));
            let i = choose|i: int| 0 <= i < rows.len() && row_key(#[trigger] rows[i]) == k;
            assert(stood_for[i] == k);
        }
    }
    assert(stood_for.to_set() =~= success.union(failure));
}

/// The rows that show `IGNORED` are those of the test cases that failed.
pub proof fn lemma_tck_rows_ignored(keys: Seq<KeyView>, success: Set<KeyView>, failure: Set<KeyView>)
    ensures
        count_result(tck_rows(keys, success, failure), TestResult::Ignored) == tck_rows(
            keys,
            Set::empty(),
            failure,
        ).len(),
        count_result(tck_rows(keys, success, failure), TestResult::Failure) == 0,
    decreases keys.len(),
{
    if keys.len() > 0 {
        lemma_tck_rows_ignored(keys.drop_last(), success, failure);
        let rest = tck_rows(keys.drop_last(), success, failure);
        let row = tck_row(keys.last(), TestResult::Ignored);
        assert(rest.push(row).drop_last() =~= rest);
        let other = tck_row(keys.last(), TestResult::Success);
        assert(rest.push(other).drop_last() =~= rest);
    }
}

/// The rows that show `SUCCESS` are those of the test cases that succeeded
/// and did not fail.
pub proof fn lemma_tck_rows_success(keys: Seq<KeyView>, success: Set<KeyView>, failure: Set<KeyView>)
    ensures
        count_result(tck_rows(keys, success, failure), TestResult::Success) == tck_rows(
            keys,
            success.difference(failure),
            Set::empty(),
        ).len(),
    decreases keys.len(),
{
    if keys.len() > 0 {
        lemma_tck_rows_success(keys.drop_last(), success, failure);
        let rest = tck_rows(keys.drop_last(), success, failure);
        let row = tck_row(keys.last(), TestResult::Ignored);
        assert(rest.push(row).drop_last() =~= rest);
        let other = tck_row(keys.last(), TestResult::Success);
        assert(rest.push(other).drop_last() =~= rest);
    }
}

/// The test case that stands for each duration among the first `upto`
/// entries of the durations: where several test cases took equally long,
/// the last of them in the order of the keys.
pub open spec fn timings_of(keys: Seq<KeyView>, durations: Map<KeyView, u128>, upto: int) -> Map<
    u128,
    KeyView,
>
    decreases upto,
{
    if upto <= 0 {
        Map::empty()
    } else {
        timings_of(keys, durations, upto - 1).insert(durations[keys[upto - 1]], keys[upto - 1])
    }
}

/// The views of the keys that a map holds as values.
pub open spec fn key_views(timings: Map<u128, TestCaseKey>) -> Map<u128, KeyView> {
    timings.map_values(|key: TestCaseKey| key@)
}

/// Counts of a summary table.
#[derive(Clone, Copy, Debug, PartialEq, Eq, Structural)]
pub struct Summary {
    pub total_count: usize,
    pub success_count: usize,
    pub failure_count: usize,
}

/// The summary of the test cases: the counts, and the rows of the
/// compatibility report.
#[derive(Debug)]
pub struct TestCasesSummary {
    pub counts: Summary,
    pub rows: Vec<ReportRow>,
}

/// The row of the compatibility report for a test case.
pub open spec fn tck_row(key: KeyView, result: TestResult) -> RowView {
    RowView {
        directory: key.0,
        file_stem: key.1,
        test_id: key.2,
        result,
        remarks: Seq::empty(),
    }
}

/// The rows of the compatibility report: the keys in order, one row for
/// each key that failed (`IGNORED`) or only succeeded (`SUCCESS`), none for
/// a key with neither outcome.
pub open spec fn tck_rows(keys: Seq<KeyView>, success: Set<KeyView>, failure: Set<KeyView>) -> Seq<
    RowView,
>
    decreases keys.len(),
{
    if keys.len() == 0 {
        Seq::empty()
    } else {
        let rest = tck_rows(keys.drop_last(), success, failure);
        if failure.contains(keys.last()) {
            rest.push(tck_row(keys.last(), TestResult::Ignored))
        } else if success.contains(keys.last()) {
            rest.push(tck_row(keys.last(), TestResult::Success))
        } else {
            rest
        }
    }
}

/// The key that a row of the compatibility report stands for.
pub open spec fn row_key(row: RowView) -> KeyView {
    (row.directory, row.file_stem, row.test_id)
}

/// The compatibility report holds one row for each test case with an
/// outcome and no other row: each row stands for a key with an outcome and
/// shows `IGNORED` where the test case failed and `SUCCESS` where it only
/// succeeded, no two rows stand for the same key, and every key with an
/// outcome has its row.
pub proof fn lemma_tck_rows_one_per_key(
    keys: Seq<KeyView>,
    success: Set<KeyView>,
    failure: Set<KeyView>,
)
    requires
        keys.no_duplicates(),
    ensures
        forall|i: int|
            0 <= i < tck_rows(keys, success, failure).len() ==> {
                let row = #[trigger] tck_rows(keys, success, failure)[i];
                &&& keys.contains(row_key(row))
                &&& success.contains(row_key(row)) || failure.contains(row_key(row))
                &&& row.result == if failure.contains(row_key(row)) {
                    TestResult::Ignored
                } else {
                    TestResult::Success
                }
                &&& row.remarks == Seq::<char>::empty()
            },
        forall|i: int, j: int|
            0 <= i < j < tck_rows(keys, success, failure).len() ==> row_key(
                #[trigger] tck_rows(keys, success, failure)[i],
            ) != row_key(#[trigger] tck_rows(keys, success, failure)[j]),
        forall|k: KeyView|
            #[trigger] keys.contains(k) && (success.contains(k) || failure.contains(k))
                ==> exists|i: int|
                0 <= i < tck_rows(keys, success, failure).len() && row_key(
                    #[trigger] tck_rows(keys, success, failure)[i],
                ) == k,
    decreases keys.len(),
{
    if keys.len() > 0 {
        let front = keys.drop_last();
        let last = keys.last();
        let rest = tck_rows(front, success, failure);
        let rows = tck_rows(keys, success, failure);
        assert(front.no_duplicates());
        lemma_tck_rows_one_per_key(front, success, failure);
        assert forall|k: KeyView| front.contains(k) implies keys.contains(k) && k != last by {
            let i = choose|i: int| 0 <= i < front.len() && front[i] == k;
            assert(keys[i] == k);
        }
        assert(keys[keys.len() - 1] == last);
        assert forall|i: int| 0 <= i < rows.len() implies {
            let row = #[trigger] rows[i];
            &&& keys.contains(row_key(row))
            &&& success.contains(row_key(row)) || failure.contains(row_key(row))
            &&& row.result == if failure.contains(row_key(row)) {
                TestResult::Ignored
            } else {
                TestResult::Success
            }
            &&& row.remarks == Seq::<char>::empty()
        } by {
            if i < rest.len() {
                assert(rows[i] == rest[i]);
            }
        }
        assert forall|i: int, j: int| 0 <= i < j < rows.len() implies row_key(#[trigger] rows[i])
            != row_key(#[trigger] rows[j]) by {
            assert(rows[i] == rest[i]);
            if j < rest.len() {
                assert(rows[j] == rest[j]);
            } else {
                assert(front.contains(row_key(rest[i])));
            }
        }
        assert forall|k: KeyView|
            #[trigger] keys.contains(k) && (success.contains(k) || failure.contains(k))
                implies exists|i: int|
            0 <= i < rows.len() && row_key(#[trigger] rows[i]) == k by {
            if k == last {
                assert(row_key(rows[rows.len() - 1]) == k);
            } else {
                let p = choose|p: int| 0 <= p < keys.len() && keys[p] == k;
                assert(front[p] == k);
                assert(front.contains(k));
                let i = choose|i: int| 0 <= i < rest.len() && row_key(#[trigger] rest[i]) == k;
                assert(rows[i] == rest[i]);
            }
        }
    }
}

} // verus!
