//! The outcome of one test of the client, and the tally over all tests.

use vstd::prelude::*;
use vstd::string::StringExecFns;

verus! {

/// How a test of the client ended.
#[derive(Debug, PartialEq, Eq, Structural, Clone, Copy)]
pub enum ReportResult {
    Success,
    Failure,
    Inconclusive,
}

/// The report of one test: what was tested, under which normative statement
/// of the MQTT specification, how it ended, and what the client wrote to
/// its error output, if that was collected.
#[derive(Debug)]
pub struct Report {
    pub name: String,
    pub description: String,
    pub normative_statement_number: String,
    pub result: ReportResult,
    pub output: Option<Vec<u8>>,
}

impl Report {
    /// A report with the given texts, result and collected output.
    pub fn new(
        name: &str,
        description: &str,
        normative_statement_number: &str,
        result: ReportResult,
        output: Option<Vec<u8>>,
    ) -> (res: Report)
        ensures
            res.name@ == name@,
            res.description@ == description@,
            res.normative_statement_number@ == normative_statement_number@,
            res.result == result,
            res.output == output,
    {
        Report {
            name: String::from_str(name),
            description: String::from_str(description),
            normative_statement_number: String::from_str(normative_statement_number),
            result,
            output,
        }
    }
}

/// How many tests ended in each way.
#[derive(Debug, PartialEq, Eq, Structural, Clone, Copy)]
pub struct ReportSummary {
    pub successes: usize,
    pub failures: usize,
    pub inconclusive: usize,
}

/// How many of `results` are `r`.
pub open spec fn count_of(results: Seq<ReportResult>, r: ReportResult) -> nat
    decreases results.len(),
{
    if results.len() == 0 {
        0
    } else {
        count_of(results.drop_last(), r) + if results.last() == r {
            1nat
        } else {
            0nat
        }
    }
}

/// Tallies the results of all tests.
pub fn summarize(results: &[ReportResult]) -> (res: ReportSummary)
    ensures
        res.successes == count_of(results@, ReportResult::Success),
        res.failures == count_of(results@, ReportResult::Failure),
        res.inconclusive == count_of(results@, ReportResult::Inconclusive),
        res.successes + res.failures + res.inconclusive == results@.len(),
{
    let mut summary = ReportSummary { successes: 0, failures: 0, inconclusive: 0 };
    let mut i: usize = 0;
    while i < results.len()
        invariant
            i <= results@.len(),
            summary.successes == count_of(results@.subrange(0, i as int), ReportResult::Success),
            summary.failures == count_of(results@.subrange(0, i as int), ReportResult::Failure),
            summary.inconclusive == count_of(results@.subrange(0, i as int), ReportResult::Inconclusive),
            summary.successes + summary.failures + summary.inconclusive == i,
        decreases results@.len() - i,
    {
        let ghost prefix = results@.subrange(0, i + 1);
        assert(prefix.drop_last() =~= results@.subrange(0, i as int));
        match results[i] {
            ReportResult::Success => summary.successes = summary.successes + 1,
            ReportResult::Failure => summary.failures = summary.failures + 1,
            ReportResult::Inconclusive => summary.inconclusive = summary.inconclusive + 1,
        }
        i = i + 1;
    }
    assert(results@.subrange(0, results@.len() as int) =~= results@);
    summary
}

/// Whether every test succeeded.
pub fn all_succeeded(results: &[ReportResult]) -> (res: bool)
    ensures
        res == forall|i: int| 0 <= i < results@.len() ==> results@[i] == ReportResult::Success,
{
    let mut i: usize = 0;
    while i < results.len()
        invariant
            i <= results@.len(),
            forall|j: int| 0 <= j < i ==> results@[j] == ReportResult::Success,
        decreases results@.len() - i,
    {
        if results[i] != ReportResult::Success {
            return false;
        }
        i = i + 1;
    }
    true
}

} // verus!
