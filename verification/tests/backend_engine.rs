use agent_pipeline::agent_backend::{
    AgentBackendDeveloper, BackendAction, CodeRequestKind, ProbeOutcome,
};
use agent_pipeline::agent_traits::{AgentError, FactSheet};
use agent_pipeline::basic_agents::AgentState;

fn fresh_factsheet() -> FactSheet {
    FactSheet::new("build a website that returns current time.".to_string())
}

/// Drives a fresh agent up to the operator gate: initial generation, one
/// improvement pass, then the safety confirmation request.
fn drive_to_operator_gate(agent: &mut AgentBackendDeveloper, fs: &mut FactSheet) {
    let a = agent.start(fs, "template code");
    assert!(matches!(
        a,
        BackendAction::RequestCode { kind: CodeRequestKind::Initial, .. }
    ));
    let a = agent.on_code_generated(fs, "draft code".to_string());
    assert!(matches!(
        a,
        BackendAction::RequestCode { kind: CodeRequestKind::Improve, .. }
    ));
    let a = agent.on_code_generated(fs, "improved code".to_string());
    assert!(matches!(a, BackendAction::ConfirmSafeCode));
    assert_eq!(fs.backend_code, Some("improved code".to_string()));
}

/// Runs one failing build cycle: confirm, build, failure report, and the
/// retry request. Returns the action that followed the failure.
fn one_failing_build(
    agent: &mut AgentBackendDeveloper,
    fs: &mut FactSheet,
    stderr: &str,
) -> Result<BackendAction, AgentError> {
    let a = agent.on_operator_decision(true).unwrap();
    assert!(matches!(a, BackendAction::BuildProject));
    agent.on_build_completed(fs, false, stderr.to_string())
}

#[test]
fn always_failing_build_aborts_after_three_attempts() {
    let mut agent = AgentBackendDeveloper::new();
    let mut fs = fresh_factsheet();
    drive_to_operator_gate(&mut agent, &mut fs);

    // First attempt fails: one retry is granted.
    let a = one_failing_build(&mut agent, &mut fs, "error one").unwrap();
    assert!(matches!(
        a,
        BackendAction::RequestCode { kind: CodeRequestKind::Fix, .. }
    ));
    assert_eq!(agent.bug_count, 1);
    assert_eq!(agent.bug_errors, Some("error one".to_string()));

    // Second attempt fails: the last retry is granted.
    let a = agent.on_code_generated(&mut fs, "fix one".to_string());
    assert!(matches!(a, BackendAction::ConfirmSafeCode));
    let a = one_failing_build(&mut agent, &mut fs, "error two").unwrap();
    assert!(matches!(
        a,
        BackendAction::RequestCode { kind: CodeRequestKind::Fix, .. }
    ));
    assert_eq!(agent.bug_count, 2);

    // Third attempt fails: fatal abort, with the third stderr recorded.
    let a = agent.on_code_generated(&mut fs, "fix two".to_string());
    assert!(matches!(a, BackendAction::ConfirmSafeCode));
    let err = one_failing_build(&mut agent, &mut fs, "error three").unwrap_err();
    assert_eq!(err, AgentError::ExcessiveBuildFailures);
    assert_eq!(agent.bug_count, 2);
    assert_eq!(agent.bug_errors, Some("error three".to_string()));
}

#[test]
fn successful_build_resets_failure_counter() {
    let mut agent = AgentBackendDeveloper::new();
    let mut fs = fresh_factsheet();
    drive_to_operator_gate(&mut agent, &mut fs);

    let a = one_failing_build(&mut agent, &mut fs, "error one").unwrap();
    assert!(matches!(a, BackendAction::RequestCode { .. }));
    assert_eq!(agent.bug_count, 1);

    let a = agent.on_code_generated(&mut fs, "fix".to_string());
    assert!(matches!(a, BackendAction::ConfirmSafeCode));
    let a = agent.on_operator_decision(true).unwrap();
    assert!(matches!(a, BackendAction::BuildProject));
    let a = agent
        .on_build_completed(&fs, true, String::new())
        .unwrap();
    assert!(matches!(a, BackendAction::RequestEndpoints { .. }));
    assert_eq!(agent.bug_count, 0);
}

#[test]
fn empty_route_list_skips_the_probe_loop() {
    let mut agent = AgentBackendDeveloper::new();
    let mut fs = fresh_factsheet();
    drive_to_operator_gate(&mut agent, &mut fs);

    let a = agent.on_operator_decision(true).unwrap();
    assert!(matches!(a, BackendAction::BuildProject));
    let a = agent
        .on_build_completed(&fs, true, String::new())
        .unwrap();
    assert!(matches!(a, BackendAction::RequestEndpoints { .. }));

    let a = agent
        .on_endpoints_extracted(&mut fs, "[]".to_string())
        .unwrap();
    assert!(matches!(a, BackendAction::StartServer));
    assert_eq!(fs.api_endpoint_schema.as_ref().unwrap().len(), 0);

    // With nothing to probe, the run goes straight to persistence.
    let a = agent.on_server_started(true).unwrap();
    match a {
        BackendAction::SaveSchemaAndStopServer { raw_schema } => {
            assert_eq!(raw_schema, "[]".to_string());
        }
        other => panic!("expected persistence, got {:?}", other),
    }
    assert_eq!(agent.attributes.state, AgentState::Finishing);
    assert!(agent.probe_issues.is_empty());
}

const TWO_GET_ROUTES: &str = "[{\"route\":\"/alpha\",\"method\":\"get\",\"is_route_dynamic\":\"false\"},{\"route\":\"/beta\",\"method\":\"get\",\"is_route_dynamic\":\"false\"}]";

#[test]
fn one_bad_status_yields_exactly_one_probe_issue() {
    let mut agent = AgentBackendDeveloper::new();
    let mut fs = fresh_factsheet();
    drive_to_operator_gate(&mut agent, &mut fs);

    let a = agent.on_operator_decision(true).unwrap();
    assert!(matches!(a, BackendAction::BuildProject));
    let a = agent
        .on_build_completed(&fs, true, String::new())
        .unwrap();
    assert!(matches!(a, BackendAction::RequestEndpoints { .. }));

    let a = agent
        .on_endpoints_extracted(&mut fs, TWO_GET_ROUTES.to_string())
        .unwrap();
    assert!(matches!(a, BackendAction::StartServer));
    assert_eq!(fs.api_endpoint_schema.as_ref().unwrap().len(), 2);

    let a = agent.on_server_started(true).unwrap();
    match a {
        BackendAction::ProbeEndpoint { url } => {
            assert_eq!(url, "http://localhost:8080/alpha".to_string());
        }
        other => panic!("expected first probe, got {:?}", other),
    }

    let a = agent.on_probe_completed(ProbeOutcome::Status(200));
    match a {
        BackendAction::ProbeEndpoint { url } => {
            assert_eq!(url, "http://localhost:8080/beta".to_string());
        }
        other => panic!("expected second probe, got {:?}", other),
    }

    let a = agent.on_probe_completed(ProbeOutcome::Status(404));
    assert!(matches!(a, BackendAction::SaveSchemaAndStopServer { .. }));

    // Exactly one non-fatal issue, and the stored schema is untouched.
    assert_eq!(agent.probe_issues.len(), 1);
    assert_eq!(
        agent.probe_issues[0],
        "Failed to call the endpoint: /beta".to_string()
    );
    let schema = fs.api_endpoint_schema.as_ref().unwrap();
    assert_eq!(schema.len(), 2);
    assert_eq!(schema[0].route, "/alpha".to_string());
    assert_eq!(schema[1].route, "/beta".to_string());
    assert_eq!(agent.attributes.state, AgentState::Finishing);
}

#[test]
fn transport_failure_stops_server_but_probing_goes_on() {
    let mut agent = AgentBackendDeveloper::new();
    let mut fs = fresh_factsheet();
    drive_to_operator_gate(&mut agent, &mut fs);

    agent.on_operator_decision(true).unwrap();
    agent.on_build_completed(&fs, true, String::new()).unwrap();
    agent
        .on_endpoints_extracted(&mut fs, TWO_GET_ROUTES.to_string())
        .unwrap();
    agent.on_server_started(true).unwrap();

    let a = agent.on_probe_completed(ProbeOutcome::TransportFailure);
    match a {
        BackendAction::StopServerThenProbe { url } => {
            assert_eq!(url, "http://localhost:8080/beta".to_string());
        }
        other => panic!("expected kill-then-probe, got {:?}", other),
    }
    assert_eq!(agent.probe_issues.len(), 1);

    let a = agent.on_probe_completed(ProbeOutcome::Status(200));
    assert!(matches!(a, BackendAction::SaveSchemaAndStopServer { .. }));
    assert_eq!(agent.probe_issues.len(), 1);
}

#[test]
fn operator_rejection_aborts_before_any_build() {
    let mut agent = AgentBackendDeveloper::new();
    let mut fs = fresh_factsheet();
    // Start directly at the validation state, as a rerun over already
    // generated code would.
    agent.attributes.state = AgentState::UnitTesting;
    let a = agent.start(&fs, "");
    assert!(matches!(a, BackendAction::ConfirmSafeCode));

    let err = agent.on_operator_decision(false).unwrap_err();
    assert_eq!(err, AgentError::OperatorRejection);
    // The engine never asked for a build, and nothing was recorded.
    assert_eq!(agent.bug_count, 0);
    assert!(agent.bug_errors.is_none());
    assert!(fs.api_endpoint_schema.is_none());
}

#[test]
fn malformed_endpoint_schema_is_fatal() {
    let mut agent = AgentBackendDeveloper::new();
    let mut fs = fresh_factsheet();
    drive_to_operator_gate(&mut agent, &mut fs);
    agent.on_operator_decision(true).unwrap();
    agent.on_build_completed(&fs, true, String::new()).unwrap();

    let err = agent
        .on_endpoints_extracted(&mut fs, "not json at all".to_string())
        .unwrap_err();
    assert_eq!(err, AgentError::Decode);
    assert!(fs.api_endpoint_schema.is_none());
}

#[test]
fn failed_server_spawn_is_fatal() {
    let mut agent = AgentBackendDeveloper::new();
    let mut fs = fresh_factsheet();
    drive_to_operator_gate(&mut agent, &mut fs);
    agent.on_operator_decision(true).unwrap();
    agent.on_build_completed(&fs, true, String::new()).unwrap();
    agent
        .on_endpoints_extracted(&mut fs, TWO_GET_ROUTES.to_string())
        .unwrap();

    let err = agent.on_server_started(false).unwrap_err();
    assert_eq!(err, AgentError::Process);
}

#[test]
fn description_is_never_rewritten_by_the_engine() {
    let mut agent = AgentBackendDeveloper::new();
    let mut fs = fresh_factsheet();
    let description = fs.project_description.clone();
    drive_to_operator_gate(&mut agent, &mut fs);
    agent.on_operator_decision(true).unwrap();
    agent.on_build_completed(&fs, true, String::new()).unwrap();
    agent
        .on_endpoints_extracted(&mut fs, TWO_GET_ROUTES.to_string())
        .unwrap();
    agent.on_server_started(true).unwrap();
    agent.on_probe_completed(ProbeOutcome::Status(200));
    agent.on_probe_completed(ProbeOutcome::Status(200));
    assert_eq!(fs.project_description, description);
}
