use tss_manager::keygen::{
    describe_all, partition_outcomes, Diagnostic, FailureKind, PartyOutcome, PartyReport,
};

fn success(index: u16, payload: &str) -> PartyReport {
    PartyReport { party_index: index, outcome: PartyOutcome::Success(String::from(payload)) }
}

fn protocol_failure(index: u16, reason: &str) -> PartyReport {
    PartyReport { party_index: index, outcome: PartyOutcome::ProtocolFailure(String::from(reason)) }
}

fn execution_fault(index: u16, reason: &str) -> PartyReport {
    PartyReport { party_index: index, outcome: PartyOutcome::ExecutionFault(String::from(reason)) }
}

#[test]
fn classify_a_payload_as_success() {
    let outcome = PartyOutcome::classify(Ok(Ok(String::from("{\"key\":1}"))));
    assert_eq!(outcome, PartyOutcome::Success(String::from("{\"key\":1}")));
}

#[test]
fn classify_an_error_of_the_protocol() {
    let outcome = PartyOutcome::classify(Ok(Err(String::from("round 2 rejected"))));
    assert_eq!(outcome, PartyOutcome::ProtocolFailure(String::from("round 2 rejected")));
}

#[test]
fn classify_a_unit_that_did_not_complete() {
    let outcome = PartyOutcome::classify(Err(String::from("task was cancelled")));
    assert_eq!(outcome, PartyOutcome::ExecutionFault(String::from("task was cancelled")));
}

#[test]
fn partition_of_no_reports_is_empty() {
    let (successes, diagnostics) = partition_outcomes(&Vec::new());
    assert!(successes.is_empty());
    assert!(diagnostics.is_empty());
}

#[test]
fn partition_keeps_the_order_of_the_reports() {
    let reports = vec![
        success(2, "c"),
        protocol_failure(0, "bad share"),
        success(3, "d"),
        execution_fault(1, "aborted"),
        success(4, "e"),
    ];
    let (successes, diagnostics) = partition_outcomes(&reports);
    assert_eq!(successes, vec!["c", "d", "e"]);
    assert_eq!(
        diagnostics,
        vec![
            Diagnostic {
                party_index: 0,
                kind: FailureKind::Protocol,
                reason: String::from("bad share"),
            },
            Diagnostic {
                party_index: 1,
                kind: FailureKind::Execution,
                reason: String::from("aborted"),
            },
        ]
    );
}

#[test]
fn partition_counts_add_up() {
    let reports = vec![
        success(0, "a"),
        execution_fault(1, "x"),
        protocol_failure(2, "y"),
        success(3, "b"),
        execution_fault(4, "z"),
    ];
    let (successes, diagnostics) = partition_outcomes(&reports);
    assert_eq!(successes.len(), 2);
    assert_eq!(diagnostics.len(), 3);
    assert_eq!(successes.len() + diagnostics.len(), reports.len());
}

#[test]
fn partition_of_failures_only_has_no_success() {
    let reports = vec![execution_fault(0, "x"), protocol_failure(1, "y")];
    let (successes, diagnostics) = partition_outcomes(&reports);
    assert!(successes.is_empty());
    assert_eq!(diagnostics.len(), 2);
}

#[test]
fn partition_of_successes_only_has_no_diagnostic() {
    let reports = vec![success(1, "b"), success(0, "a")];
    let (successes, diagnostics) = partition_outcomes(&reports);
    assert_eq!(successes, vec!["b", "a"]);
    assert!(diagnostics.is_empty());
}

#[test]
fn diagnostic_of_a_protocol_failure_reads() {
    let diagnostic = Diagnostic {
        party_index: 2,
        kind: FailureKind::Protocol,
        reason: String::from("invalid proof"),
    };
    assert_eq!(diagnostic.describe(), "Error in party 2: invalid proof");
}

#[test]
fn diagnostic_of_an_execution_fault_reads() {
    let diagnostic = Diagnostic {
        party_index: 2,
        kind: FailureKind::Execution,
        reason: String::from("task 7 panicked"),
    };
    assert_eq!(diagnostic.describe(), "Task error in party 2: task 7 panicked");
}

#[test]
fn diagnostic_writes_the_index_in_decimal() {
    for (index, numeral) in [(0u16, "0"), (10, "10"), (305, "305"), (65535, "65535")] {
        let diagnostic =
            Diagnostic { party_index: index, kind: FailureKind::Protocol, reason: String::new() };
        assert_eq!(diagnostic.describe(), format!("Error in party {}: ", numeral));
    }
}

#[test]
fn describe_all_keeps_the_order() {
    let diagnostics = vec![
        Diagnostic { party_index: 3, kind: FailureKind::Execution, reason: String::from("a") },
        Diagnostic { party_index: 1, kind: FailureKind::Protocol, reason: String::from("b") },
    ];
    assert_eq!(
        describe_all(&diagnostics),
        vec!["Task error in party 3: a", "Error in party 1: b"]
    );
    assert!(describe_all(&Vec::new()).is_empty());
}
