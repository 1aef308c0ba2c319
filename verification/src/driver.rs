//! The test driver's decisions: which evaluations a test file asks for,
//! and what the answer to each of them means.

use crate::context::{
    evaluation_of, has_report_key, Context, TestResult,
};
use crate::dto::{
    errors_text, InputNodeDto, InputNodeView, OptionalValueDto, ResultDto, ValueDto,
};
use crate::equivalence::{value_outcome, Fatal};
use crate::model::{InputNode, TestCase, TestFile, Value};
use crate::text::{chars_of, numeral, to_numeral};
use vstd::prelude::*;
use vstd::string::StringExecFns;

verus! {

/// What came back from the evaluator for one request.
#[derive(Debug)]
pub enum Response {
    /// The request failed in transport, with the error's message.
    TransportError(String),
    /// The answer could not be decoded, with the error's message.
    DecodeError(String),
    /// The decoded answer.
    Decoded(ResultDto<OptionalValueDto>),
}

/// The outcome of one evaluation and the remark that goes with it.
#[derive(Debug, Clone)]
pub struct Verdict {
    pub result: TestResult,
    pub remarks: String,
}

/// The outcome and the remark for an answer of the evaluator, given the
/// expected value; or the fatal condition that the comparison met.
pub open spec fn verdict_of(response: Response, expected: Option<Value>) -> Result<
    (TestResult, Seq<char>),
    Fatal,
> {
    match response {
        Response::TransportError(message) => Ok((TestResult::Failure, message@)),
        Response::DecodeError(message) => Ok((TestResult::Failure, message@)),
        Response::Decoded(result) => match result.data {
            Some(data) => match data.value {
                Some(actual) => match expected {
                    Some(value) => match value_outcome(actual@, value@) {
                        Ok(true) => Ok((TestResult::Success, ""@)),
                        Ok(false) => Ok(
                            (TestResult::Failure, "actual result differs from expected"@),
                        ),
                        Err(fatal) => Err(fatal),
                    },
                    None => Ok((TestResult::Failure, "no expected value"@)),
                },
                None => Ok((TestResult::Failure, "no actual value"@)),
            },
            None => match result.errors {
                Some(_) => Ok((TestResult::Failure, errors_text(result.errors))),
                None => Ok((TestResult::Failure, "ResultDto { data: None, errors: None }"@)),
            },
        },
    }
}

/// Classifies an answer of the evaluator against the expected value.
pub fn classify(response: &Response, expected: &Option<Value>) -> (r: Result<Verdict, Fatal>)
    ensures
        match r {
            Ok(verdict) => verdict_of(*response, *expected) == Ok::<(TestResult, Seq<char>), Fatal>(
                (verdict.result, verdict.remarks@),
            ),
            Err(fatal) => verdict_of(*response, *expected) == Err::<(TestResult, Seq<char>), Fatal>(
                fatal,
            ),
        },
{
    match response {
        Response::TransportError(message) => Ok(
            Verdict { result: TestResult::Failure, remarks: message.clone() },
        ),
        Response::DecodeError(message) => Ok(
            Verdict { result: TestResult::Failure, remarks: message.clone() },
        ),
        Response::Decoded(result) => match &result.data {
            Some(data) => match &data.value {
                Some(actual) => match expected {
                    Some(value) => {
                        let expected_dto = ValueDto::from(value);
                        match actual.compare(&expected_dto) {
                            Ok(true) => Ok(
                                Verdict {
                                    result: TestResult::Success,
                                    remarks: String::from_str(""),
                                },
                            ),
                            Ok(false) => Ok(
                                Verdict {
                                    result: TestResult::Failure,
                                    remarks: String::from_str("actual result differs from expected"),
                                },
                            ),
                            Err(fatal) => Err(fatal),
                        }
                    },
                    None => Ok(
                        Verdict {
                            result: TestResult::Failure,
                            remarks: String::from_str("no expected value"),
                        },
                    ),
                },
                None => Ok(
                    Verdict {
                        result: TestResult::Failure,
                        remarks: String::from_str("no actual value"),
                    },
                ),
            },
            None => match &result.errors {
                Some(_) => Ok(Verdict { result: TestResult::Failure, remarks: result.to_string() }),
                None => Ok(
                    Verdict {
                        result: TestResult::Failure,
                        remarks: String::from_str("ResultDto { data: None, errors: None }"),
                    },
                ),
            },
        },
    }
}

/// Why an answer of the evaluator could not be recorded.
#[derive(Clone, Copy, Debug, PartialEq, Eq, Structural)]
pub enum RunError {
    /// The comparison met a fatal condition: the run ends.
    Fatal(Fatal),
    /// The test file's name has no parent or no stem.
    NoReportKey,
}

/// What was recorded for an answer, and whether the run stops here.
#[derive(Debug)]
pub struct Recorded {
    pub verdict: Verdict,
    pub stop: bool,
}

impl Context {
    /// Takes in the answer to one evaluation: adds the execution time,
    /// classifies the answer, records the outcome, and says whether the run
    /// stops, which it does after a failure where the context is set to
    /// stop on failure. A fatal condition of the comparison is handed back
    /// with nothing recorded.
    pub fn record_response(
        &mut self,
        test_file_name: &str,
        test_case_id: &str,
        test_id: &str,
        response: &Response,
        expected: &Option<Value>,
        execution_duration: u128,
    ) -> (r: Result<Recorded, RunError>)
        requires
            old(self).wf(),
            old(self).execution_time + execution_duration <= u128::MAX,
        ensures
            final(self).wf(),
            final(self).execution_time == old(self).execution_time + execution_duration,
            match verdict_of(*response, *expected) {
                Err(fatal) => r matches Err(error) && error == RunError::Fatal(fatal),
                Ok((result, remarks)) => if has_report_key(test_file_name@) {
                    &&& r matches Ok(recorded)
                    &&& recorded.verdict.result == result
                    &&& recorded.verdict.remarks@ == remarks
                    &&& recorded.stop == (old(self).stop_on_failure && result
                        == TestResult::Failure)
                    &&& final(self).recorded(
                        old(self),
                        evaluation_of(
                            old(self).root_dir_path@,
                            test_file_name@,
                            test_case_id@,
                            test_id@,
                            result,
                            remarks,
                            execution_duration,
                        ),
                    )
                } else {
                    r matches Err(error) && error == RunError::NoReportKey
                },
            },
            r is Err ==> *final(self) == (Context {
                execution_time: final(self).execution_time,
                ..*old(self)
            }),
    {
        self.execution_time = self.execution_time + execution_duration;
        let ghost timed = *self;
        let verdict = match classify(response, expected) {
            Ok(verdict) => verdict,
            Err(fatal) => {
                return Err(RunError::Fatal(fatal));
            },
        };
        let recorded = self.record(
            test_file_name,
            test_case_id,
            test_id,
            verdict.result,
            verdict.remarks.as_str(),
            execution_duration,
        );
        if !recorded {
            return Err(RunError::NoReportKey);
        }
        let failed = match verdict.result {
            TestResult::Failure => true,
            _ => false,
        };
        let stop = self.stop_on_failure && failed;
        Ok(Recorded { verdict, stop })
    }
}

/// The two texts have a character at `index`, and these differ.
pub open spec fn differ_at(a: Seq<char>, b: Seq<char>, index: int) -> bool {
    0 <= index < a.len() && index < b.len() && a[index] != b[index]
}

/// Where the display of a difference starts: sixty characters before the
/// difference, or at the beginning.
pub open spec fn window_start(index: int) -> int {
    if index > 60 {
        index - 60
    } else {
        0
    }
}

/// Finds the first character at which the actual and the expected text
/// differ, and where the display of that difference starts.
pub fn diff_window(actual: &str, expected: &str) -> (r: Option<(usize, usize)>)
    ensures
        match r {
            Some((start, index)) => {
                &&& differ_at(actual@, expected@, index as int)
                &&& forall|j: int| 0 <= j < index ==> !differ_at(actual@, expected@, j)
                &&& start == window_start(index as int)
            },
            None => forall|j: int| !differ_at(actual@, expected@, j),
        },
{
    let left = chars_of(actual);
    let right = chars_of(expected);
    let mut index: usize = 0;
    while index < left.len() && index < right.len()
        invariant
            left@ == actual@,
            right@ == expected@,
            forall|j: int| 0 <= j < index ==> !differ_at(actual@, expected@, j),
        decreases left.len() - index,
    {
        if left[index] != right[index] {
            let start = if index > 60 {
                index - 60
            } else {
                0
            };
            return Some((start, index));
        }
        index = index + 1;
    }
    None
}

/// The payload of an evaluation request.
#[derive(Debug)]
pub struct EvaluateParams {
    pub invocable_path: String,
    pub input_values: Vec<InputNodeDto>,
}

/// One evaluation that a test file asks for: a result node of a test case.
#[derive(Debug)]
pub struct PlannedTest {
    /// The index of the test case in the test file.
    pub case_index: usize,
    /// The index of the result node in the test case.
    pub result_index: usize,
    pub test_case_id: String,
    pub test_id: String,
    pub invocable_name: String,
    pub params: EvaluateParams,
}

/// View of a planned evaluation.
pub struct PlannedView {
    pub case_index: int,
    pub result_index: int,
    pub test_case_id: Seq<char>,
    pub test_id: Seq<char>,
    pub invocable_name: Seq<char>,
    pub invocable_path: Seq<char>,
    pub input_values: Seq<InputNodeView>,
}

/// The views of the transfer objects of input nodes.
pub open spec fn inputs_dto_view(inputs: Seq<InputNodeDto>) -> Seq<InputNodeView> {
    Seq::new(inputs.len(), |i: int| inputs[i]@)
}

/// The views of input nodes.
pub open spec fn inputs_view(inputs: Seq<InputNode>) -> Seq<InputNodeView> {
    Seq::new(inputs.len(), |i: int| inputs[i]@)
}

impl View for PlannedTest {
    type V = PlannedView;

    open spec fn view(&self) -> PlannedView {
        PlannedView {
            case_index: self.case_index as int,
            result_index: self.result_index as int,
            test_case_id: self.test_case_id@,
            test_id: self.test_id@,
            invocable_name: self.invocable_name@,
            invocable_path: self.params.invocable_path@,
            input_values: inputs_dto_view(self.params.input_values@),
        }
    }
}

/// The views of planned evaluations.
pub open spec fn plan_view(plan: Seq<PlannedTest>) -> Seq<PlannedView> {
    Seq::new(plan.len(), |i: int| plan[i]@)
}

/// The identifier of the test for the result node at `index`: the
/// identifier of the test case for the first result node, with a colon and
/// the index behind it for the others.
pub open spec fn test_id_text(test_case_id: Seq<char>, index: nat) -> Seq<char> {
    if index == 0 {
        test_case_id
    } else {
        test_case_id + ":"@ + numeral(index)
    }
}

/// The path of an invocable: workspace name, where it is not empty, RDNN,
/// model name and invocable name, separated by slashes.
pub open spec fn invocable_path_text(
    workspace_name: Seq<char>,
    rdnn: Seq<char>,
    model_name: Seq<char>,
    invocable_name: Seq<char>,
) -> Seq<char> {
    (if workspace_name.len() == 0 {
        Seq::<char>::empty()
    } else {
        workspace_name + "/"@
    }) + rdnn + "/"@ + model_name + "/"@ + invocable_name
}

/// The identifier of a test case: empty where the test case has none.
pub open spec fn case_id_text(test_case: TestCase) -> Seq<char> {
    match test_case.id {
        Some(id) => id@,
        None => Seq::empty(),
    }
}

/// The name of the invocable for a result node: that of the test case, or
/// where it has none, the name of the result node.
pub open spec fn invocable_name_text(test_case: TestCase, result_index: int) -> Seq<char> {
    match test_case.invocable_name {
        Some(name) => name@,
        None => test_case.result_nodes@[result_index].name@,
    }
}

/// The evaluation for the result node at `result_index` of a test case.
pub open spec fn planned_test(
    workspace_name: Seq<char>,
    rdnn: Seq<char>,
    model_name: Seq<char>,
    test_case: TestCase,
    case_index: int,
    result_index: int,
) -> PlannedView {
    PlannedView {
        case_index,
        result_index,
        test_case_id: case_id_text(test_case),
        test_id: test_id_text(case_id_text(test_case), result_index as nat),
        invocable_name: invocable_name_text(test_case, result_index),
        invocable_path: invocable_path_text(
            workspace_name,
            rdnn,
            model_name,
            invocable_name_text(test_case, result_index),
        ),
        input_values: inputs_view(test_case.input_nodes@),
    }
}

/// The evaluations for the first `upto` result nodes of a test case, in
/// order.
pub open spec fn planned_case(
    workspace_name: Seq<char>,
    rdnn: Seq<char>,
    model_name: Seq<char>,
    test_case: TestCase,
    case_index: int,
    upto: int,
) -> Seq<PlannedView>
    decreases upto,
{
    if upto <= 0 {
        Seq::empty()
    } else {
        planned_case(workspace_name, rdnn, model_name, test_case, case_index, upto - 1).push(
            planned_test(workspace_name, rdnn, model_name, test_case, case_index, upto - 1),
        )
    }
}

/// The evaluations for the first `upto` test cases, in order, each with all
/// its result nodes.
pub open spec fn planned_cases(
    workspace_name: Seq<char>,
    rdnn: Seq<char>,
    model_name: Seq<char>,
    test_cases: Seq<TestCase>,
    upto: int,
) -> Seq<PlannedView>
    decreases upto,
{
    if upto <= 0 {
        Seq::empty()
    } else {
        planned_cases(workspace_name, rdnn, model_name, test_cases, upto - 1) + planned_case(
            workspace_name,
            rdnn,
            model_name,
            test_cases[upto - 1],
            upto - 1,
            test_cases[upto - 1].result_nodes@.len() as int,
        )
    }
}

/// The identifier of the test for the result node at `index`.
pub fn test_id(test_case_id: &str, index: usize) -> (r: String)
    ensures
        r@ == test_id_text(test_case_id@, index as nat),
{
    let mut out = test_case_id.to_owned();
    if index > 0 {
        out.append(":");
        out.append(to_numeral(index).as_str());
    }
    out
}

/// The path of an invocable.
pub fn invocable_path(
    workspace_name: &str,
    rdnn: &str,
    model_name: &str,
    invocable_name: &str,
) -> (r: String)
    ensures
        r@ == invocable_path_text(workspace_name@, rdnn@, model_name@, invocable_name@),
{
    let mut out = String::new();
    if !workspace_name.is_empty() {
        out.append(workspace_name);
        out.append("/");
    }
    assert(out@ =~= if workspace_name@.len() == 0 {
        Seq::<char>::empty()
    } else {
        workspace_name@ + "/"@
    });
    out.append(rdnn);
    out.append("/");
    out.append(model_name);
    out.append("/");
    out.append(invocable_name);
    out
}

/// The transfer objects of the input nodes, in order.
pub fn input_values(input_nodes: &Vec<InputNode>) -> (r: Vec<InputNodeDto>)
    ensures
        inputs_dto_view(r@) == inputs_view(input_nodes@),
{
    let mut out: Vec<InputNodeDto> = Vec::new();
    let mut i: usize = 0;
    while i < input_nodes.len()
        invariant
            i <= input_nodes.len(),
            out@.len() == i,
            forall|k: int| 0 <= k < i ==> out@[k]@ == input_nodes@[k]@,
        decreases input_nodes.len() - i,
    {
        out.push(InputNodeDto::from(&input_nodes[i]));
        i = i + 1;
    }
    assert(inputs_dto_view(out@) =~= inputs_view(input_nodes@));
    out
}

/// Why the evaluations of a test file cannot be planned.
#[derive(Clone, Copy, Debug, PartialEq, Eq, Structural)]
pub enum PlanError {
    /// The test file does not name its model file.
    MissingModelName,
    /// No model was registered under the model file's name.
    UnknownModel,
}

/// The evaluations that a test file asks for, given what is registered for
/// its model; or why there are none.
pub open spec fn planned(ctx: &Context, test_file: &TestFile) -> Result<
    Seq<PlannedView>,
    PlanError,
> {
    match test_file.model_name {
        None => Err(PlanError::MissingModelName),
        Some(file_name) => if ctx.is_registered(file_name@) {
            Ok(
                planned_cases(
                    ctx.workspace_names@[file_name@]@,
                    ctx.model_rdnns@[file_name@]@,
                    ctx.model_names@[file_name@]@,
                    test_file.test_cases@,
                    test_file.test_cases@.len() as int,
                ),
            )
        } else {
            Err(PlanError::UnknownModel)
        },
    }
}

/// Plans the evaluations of a test file: one for each result node of each
/// test case, in the order of the file.
pub fn execute_tests(ctx: &Context, test_file: &TestFile) -> (r: Result<
    Vec<PlannedTest>,
    PlanError,
>)
    ensures
        match r {
            Ok(plan) => planned(ctx, test_file) == Ok::<Seq<PlannedView>, PlanError>(
                plan_view(plan@),
            ),
            Err(error) => planned(ctx, test_file) == Err::<Seq<PlannedView>, PlanError>(error),
        },
{
    let model_file_name = match &test_file.model_name {
        Some(name) => name,
        None => {
            return Err(PlanError::MissingModelName);
        },
    };
    if !ctx.has_model(model_file_name.as_str()) {
        return Err(PlanError::UnknownModel);
    }
    let workspace_name = ctx.get_workspace_name(model_file_name.as_str());
    let model_namespace = ctx.get_model_rdnn(model_file_name.as_str());
    let model_name = ctx.get_model_name(model_file_name.as_str());
    let mut plan: Vec<PlannedTest> = Vec::new();
    let mut c: usize = 0;
    while c < test_file.test_cases.len()
        invariant
            c <= test_file.test_cases.len(),
            plan_view(plan@) == planned_cases(
                workspace_name@,
                model_namespace@,
                model_name@,
                test_file.test_cases@,
                c as int,
            ),
        decreases test_file.test_cases.len() - c,
    {
        let test_case = &test_file.test_cases[c];
        let ghost done = plan_view(plan@);
        let test_case_id = match &test_case.id {
            Some(id) => id.clone(),
            None => String::new(),
        };
        let mut i: usize = 0;
        while i < test_case.result_nodes.len()
            invariant
                i <= test_case.result_nodes.len(),
                test_case_id@ == case_id_text(*test_case),
                plan_view(plan@) == done + planned_case(
                    workspace_name@,
                    model_namespace@,
                    model_name@,
                    *test_case,
                    c as int,
                    i as int,
                ),
            decreases test_case.result_nodes.len() - i,
        {
            let ghost before = plan_view(plan@);
            let invocable_name = match &test_case.invocable_name {
                Some(name) => name.clone(),
                None => test_case.result_nodes[i].name.clone(),
            };
            let test = PlannedTest {
                case_index: c,
                result_index: i,
                test_case_id: test_case_id.clone(),
                test_id: test_id(test_case_id.as_str(), i),
                params: EvaluateParams {
                    invocable_path: invocable_path(
                        workspace_name.as_str(),
                        model_namespace.as_str(),
                        model_name.as_str(),
                        invocable_name.as_str(),
                    ),
                    input_values: input_values(&test_case.input_nodes),
                },
                invocable_name,
            };
            plan.push(test);
            proof {
                assert(plan_view(plan@) =~= before.push(
                    planned_test(
                        workspace_name@,
                        model_namespace@,
                        model_name@,
                        *test_case,
                        c as int,
                        i as int,
                    ),
                ));
                assert(plan_view(plan@) =~= done + planned_case(
                    workspace_name@,
                    model_namespace@,
                    model_name@,
                    *test_case,
                    c as int,
                    i + 1,
                ));
            }
            i = i + 1;
        }
        c = c + 1;
    }
    Ok(plan)
}

} // verus!
