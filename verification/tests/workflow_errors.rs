use nimbus::args::DnsSubCommand;
use nimbus::errors::{entry_report_line, status_report_line, status_report_line_plain};
use nimbus::text::u64_to_string;
use nimbus::workflow::{workflow_step, WorkflowEvent, WorkflowState};

#[test]
fn decimal_strings_are_exact() {
    assert_eq!(u64_to_string(0), "0");
    assert_eq!(u64_to_string(7), "7");
    assert_eq!(u64_to_string(10), "10");
    assert_eq!(u64_to_string(255), "255");
    assert_eq!(u64_to_string(1003), "1003");
    assert_eq!(u64_to_string(18446744073709551615), "18446744073709551615");
}

#[test]
fn failure_status_line_carries_a_colon_for_the_detailed_report() {
    assert_eq!(status_report_line(403), "HTTP 403:");
    assert_eq!(status_report_line(500), "HTTP 500:");
}

#[test]
fn failure_status_line_for_the_json_report_has_no_colon() {
    assert_eq!(status_report_line_plain(403), "HTTP 403");
    assert_eq!(status_report_line_plain(404), "HTTP 404");
}

#[test]
fn failure_entry_lines_are_exact() {
    assert_eq!(
        entry_report_line(9109, "Invalid access token"),
        "Error 9109: Invalid access token"
    );
    assert_eq!(
        entry_report_line(7003, "No route for that URI"),
        "Error 7003: No route for that URI"
    );
}

#[test]
fn workflow_resolves_then_operates_then_finishes() {
    let s = workflow_step(WorkflowState::Init, WorkflowEvent::ResolveSucceeded);
    assert_eq!(s, WorkflowState::ZoneResolved);
    let s = workflow_step(s, WorkflowEvent::CommandChosen(DnsSubCommand::Delete));
    assert_eq!(s, WorkflowState::Deleting);
    let s = workflow_step(s, WorkflowEvent::OperationFinished);
    assert_eq!(s, WorkflowState::Done);
}

#[test]
fn workflow_each_subcommand_selects_its_operation() {
    let cases = [
        (DnsSubCommand::List, WorkflowState::Listing),
        (DnsSubCommand::Create, WorkflowState::Creating),
        (DnsSubCommand::Delete, WorkflowState::Deleting),
        (DnsSubCommand::Update, WorkflowState::Updating),
    ];
    for (cmd, expected) in cases {
        assert_eq!(
            workflow_step(WorkflowState::ZoneResolved, WorkflowEvent::CommandChosen(cmd)),
            expected
        );
    }
}

#[test]
fn workflow_resolution_failure_is_terminal() {
    let s = workflow_step(WorkflowState::Init, WorkflowEvent::ResolveFailed);
    assert_eq!(s, WorkflowState::Failed);
    let s = workflow_step(s, WorkflowEvent::CommandChosen(DnsSubCommand::List));
    assert_eq!(s, WorkflowState::Failed);
    assert_eq!(
        workflow_step(WorkflowState::Done, WorkflowEvent::ResolveSucceeded),
        WorkflowState::Done
    );
}
