//! Key generation: one unit of work per party, all of them awaited, their
//! outcomes partitioned into the payloads that succeeded and a diagnostic
//! for each unit that did not.

use crate::text::{append_decimal, decimal};
use vstd::prelude::*;
use vstd::string::*;

verus! {

/// How the unit of work of one party ended.
#[derive(Debug, PartialEq, Eq)]
pub enum PartyOutcome {
    /// The protocol returned a payload.
    Success(String),
    /// The protocol itself reported an error.
    ProtocolFailure(String),
    /// The unit did not run to completion.
    ExecutionFault(String),
}

/// What a [`PartyOutcome`] holds, as mathematical values.
pub enum PartyOutcomeView {
    Success(Seq<char>),
    ProtocolFailure(Seq<char>),
    ExecutionFault(Seq<char>),
}

impl View for PartyOutcome {
    type V = PartyOutcomeView;

    open spec fn view(&self) -> PartyOutcomeView {
        match self {
            PartyOutcome::Success(payload) => PartyOutcomeView::Success(payload@),
            PartyOutcome::ProtocolFailure(reason) => PartyOutcomeView::ProtocolFailure(reason@),
            PartyOutcome::ExecutionFault(reason) => PartyOutcomeView::ExecutionFault(reason@),
        }
    }
}

/// How a unit ended, by what came back from it: the outer result tells
/// whether the unit ran to completion, the inner one what the protocol
/// returned.
pub open spec fn classify_outcome(
    joined: Result<Result<Seq<char>, Seq<char>>, Seq<char>>,
) -> PartyOutcomeView {
    match joined {
        Ok(Ok(payload)) => PartyOutcomeView::Success(payload),
        Ok(Err(reason)) => PartyOutcomeView::ProtocolFailure(reason),
        Err(reason) => PartyOutcomeView::ExecutionFault(reason),
    }
}

/// The view of what came back from a unit.
pub open spec fn joined_view(joined: Result<Result<String, String>, String>) -> Result<
    Result<Seq<char>, Seq<char>>,
    Seq<char>,
> {
    match joined {
        Ok(Ok(payload)) => Ok(Ok(payload@)),
        Ok(Err(reason)) => Ok(Err(reason@)),
        Err(reason) => Err(reason@),
    }
}

impl PartyOutcome {
    /// Classifies what came back from a unit as exactly one of the three
    /// outcomes: a payload, an error of the protocol, or a unit that did
    /// not run to completion.
    pub fn classify(joined: Result<Result<String, String>, String>) -> (outcome: PartyOutcome)
        ensures
            outcome@ == classify_outcome(joined_view(joined)),
    {
        match joined {
            Ok(Ok(payload)) => PartyOutcome::Success(payload),
            Ok(Err(reason)) => PartyOutcome::ProtocolFailure(reason),
            Err(reason) => PartyOutcome::ExecutionFault(reason),
        }
    }
}

/// The outcome of the unit with index `party_index`.
#[derive(Debug, PartialEq, Eq)]
pub struct PartyReport {
    pub party_index: u16,
    pub outcome: PartyOutcome,
}

/// What a [`PartyReport`] holds, as mathematical values.
pub struct PartyReportView {
    pub party_index: u16,
    pub outcome: PartyOutcomeView,
}

impl View for PartyReport {
    type V = PartyReportView;

    open spec fn view(&self) -> PartyReportView {
        PartyReportView { party_index: self.party_index, outcome: self.outcome@ }
    }
}

/// The views of a sequence of reports, in the same order.
pub open spec fn report_views(reports: Seq<PartyReport>) -> Seq<PartyReportView> {
    Seq::new(reports.len(), |i: int| reports[i]@)
}

/// The views of a sequence of strings, in the same order.
pub open spec fn text_views(texts: Seq<String>) -> Seq<Seq<char>> {
    Seq::new(texts.len(), |i: int| texts[i]@)
}

/// Which of the two ways of failing a diagnostic records.
#[derive(Clone, Copy, Debug, PartialEq, Eq, Structural)]
pub enum FailureKind {
    /// The protocol reported an error.
    Protocol,
    /// The unit did not run to completion.
    Execution,
}

/// The record of one unit that did not succeed, tagged with its index.
#[derive(Debug, PartialEq, Eq)]
pub struct Diagnostic {
    pub party_index: u16,
    pub kind: FailureKind,
    pub reason: String,
}

/// What a [`Diagnostic`] holds, as mathematical values.
pub struct DiagnosticView {
    pub party_index: u16,
    pub kind: FailureKind,
    pub reason: Seq<char>,
}

impl View for Diagnostic {
    type V = DiagnosticView;

    open spec fn view(&self) -> DiagnosticView {
        DiagnosticView { party_index: self.party_index, kind: self.kind, reason: self.reason@ }
    }
}

/// The views of a sequence of diagnostics, in the same order.
pub open spec fn diagnostic_views(diagnostics: Seq<Diagnostic>) -> Seq<DiagnosticView> {
    Seq::new(diagnostics.len(), |i: int| diagnostics[i]@)
}

impl DiagnosticView {
    /// The line of text of a diagnostic: how the unit failed, the index of
    /// its party in decimal, and the reason.
    pub open spec fn describe(self) -> Seq<char> {
        match self.kind {
            FailureKind::Protocol => "Error in party "@ + decimal(self.party_index as nat) + ": "@
                + self.reason,
            FailureKind::Execution => "Task error in party "@ + decimal(self.party_index as nat)
                + ": "@ + self.reason,
        }
    }
}

impl Diagnostic {
    /// The line of text of the diagnostic.
    pub fn describe(&self) -> (line: String)
        ensures
            line@ == self@.describe(),
    {
        let mut line = match self.kind {
            FailureKind::Protocol => String::from_str("Error in party "),
            FailureKind::Execution => String::from_str("Task error in party "),
        };
        append_decimal(&mut line, self.party_index);
        line.append(": ");
        line.append(self.reason.as_str());
        line
    }
}

impl PartyReportView {
    /// Whether the unit returned a payload.
    pub open spec fn succeeded(self) -> bool {
        self.outcome is Success
    }

    /// The diagnostic of the unit, if it did not succeed.
    pub open spec fn diagnostic(self) -> Option<DiagnosticView> {
        match self.outcome {
            PartyOutcomeView::Success(_) => None,
            PartyOutcomeView::ProtocolFailure(reason) => Some(
                DiagnosticView { party_index: self.party_index, kind: FailureKind::Protocol, reason },
            ),
            PartyOutcomeView::ExecutionFault(reason) => Some(
                DiagnosticView { party_index: self.party_index, kind: FailureKind::Execution, reason },
            ),
        }
    }
}

/// The payloads of the units that succeeded, in the order of the reports.
pub open spec fn successes_of(reports: Seq<PartyReportView>) -> Seq<Seq<char>>
    decreases reports.len(),
{
    if reports.len() == 0 {
        Seq::empty()
    } else {
        let earlier = successes_of(reports.drop_last());
        match reports.last().outcome {
            PartyOutcomeView::Success(payload) => earlier.push(payload),
            _ => earlier,
        }
    }
}

/// The diagnostics of the units that did not succeed, in the order of the
/// reports.
pub open spec fn diagnostics_of(reports: Seq<PartyReportView>) -> Seq<DiagnosticView>
    decreases reports.len(),
{
    if reports.len() == 0 {
        Seq::empty()
    } else {
        let earlier = diagnostics_of(reports.drop_last());
        match reports.last().diagnostic() {
            Some(diagnostic) => earlier.push(diagnostic),
            None => earlier,
        }
    }
}

/// The lines of text of a sequence of diagnostics, in the same order.
pub open spec fn diagnostic_lines(diagnostics: Seq<DiagnosticView>) -> Seq<Seq<char>> {
    Seq::new(diagnostics.len(), |i: int| diagnostics[i].describe())
}

/// Partitions the outcomes of the units: the payloads of those that
/// succeeded, and a diagnostic for each of the others. Both keep the order
/// of the reports.
pub fn partition_outcomes(reports: &Vec<PartyReport>) -> (parts: (Vec<String>, Vec<Diagnostic>))
    ensures
        text_views(parts.0@) == successes_of(report_views(reports@)),
        diagnostic_views(parts.1@) == diagnostics_of(report_views(reports@)),
{
    let mut successes: Vec<String> = Vec::new();
    let mut diagnostics: Vec<Diagnostic> = Vec::new();
    let mut i: usize = 0;
    assert(report_views(reports@).take(0) =~= Seq::<PartyReportView>::empty());
    while i < reports.len()
        invariant
            i <= reports.len(),
            text_views(successes@) =~= successes_of(report_views(reports@).take(i as int)),
            diagnostic_views(diagnostics@) =~= diagnostics_of(
                report_views(reports@).take(i as int),
            ),
        decreases reports.len() - i,
    {
        let ghost seen = report_views(reports@).take(i as int);
        let ghost next = report_views(reports@).take(i + 1);
        let ghost old_successes = text_views(successes@);
        let ghost old_diagnostics = diagnostic_views(diagnostics@);
        proof {
            assert(next.drop_last() =~= seen);
            assert(next.last() == reports@[i as int]@);
        }
        let report = &reports[i];
        match &report.outcome {
            PartyOutcome::Success(payload) => {
                successes.push(payload.clone());
                assert(text_views(successes@) =~= old_successes.push(payload@));
            },
            PartyOutcome::ProtocolFailure(reason) => {
                diagnostics.push(
                    Diagnostic {
                        party_index: report.party_index,
                        kind: FailureKind::Protocol,
                        reason: reason.clone(),
                    },
                );
                assert(diagnostic_views(diagnostics@) =~= old_diagnostics.push(
                    next.last().diagnostic().unwrap(),
                ));
            },
            PartyOutcome::ExecutionFault(reason) => {
                diagnostics.push(
                    Diagnostic {
                        party_index: report.party_index,
                        kind: FailureKind::Execution,
                        reason: reason.clone(),
                    },
                );
                assert(diagnostic_views(diagnostics@) =~= old_diagnostics.push(
                    next.last().diagnostic().unwrap(),
                ));
            },
        }
        i = i + 1;
    }
    assert(report_views(reports@).take(reports@.len() as int) =~= report_views(reports@));
    (successes, diagnostics)
}

/// The lines of text of `diagnostics`, in the same order.
pub fn describe_all(diagnostics: &Vec<Diagnostic>) -> (lines: Vec<String>)
    ensures
        text_views(lines@) == diagnostic_lines(diagnostic_views(diagnostics@)),
{
    let mut lines: Vec<String> = Vec::new();
    let mut i: usize = 0;
    while i < diagnostics.len()
        invariant
            i <= diagnostics.len(),
            lines@.len() == i,
            forall|k: int| 0 <= k < i ==> lines@[k]@ == diagnostics@[k]@.describe(),
        decreases diagnostics.len() - i,
    {
        lines.push(diagnostics[i].describe());
        i = i + 1;
    }
    assert(text_views(lines@) =~= diagnostic_lines(diagnostic_views(diagnostics@)));
    lines
}

} // verus!
