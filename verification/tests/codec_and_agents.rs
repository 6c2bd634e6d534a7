use agent_pipeline::agent_architect::{AgentSolutionArchitect, ArchitectAction};
use agent_pipeline::agent_backend::{
    endpoints_context, filter_checkable_routes, fix_context, improve_context, initial_context,
    probe_url, record_context, route_is_checkable, AgentBackendDeveloper, BackendAction,
    CodeRequestKind,
};
use agent_pipeline::agent_traits::{AgentError, FactSheet, ProjectScope, RouteObject};
use agent_pipeline::basic_agents::AgentState;
use agent_pipeline::general::extend_ai_function;
use agent_pipeline::managing_agent::{AgentKind, ManagingAgent};
use agent_pipeline::route_json::{encode_routes, parse_routes};
use agent_pipeline::scope_json::{parse_scope, parse_string_array};

fn route(route: &str, method: &str, dynamic: &str) -> RouteObject {
    RouteObject {
        route: route.to_string(),
        method: method.to_string(),
        is_route_dynamic: dynamic.to_string(),
    }
}

#[test]
fn tests_extending_function() {
    let res = extend_ai_function("fn convert_user_input_to_goal(_user_input: &str)", "dummy variable");
    assert_eq!(res.role, "system".to_string());
    assert!(res.content.contains("dummy variable"));
}

#[test]
fn encoding_is_canonical() {
    let empty: Vec<RouteObject> = vec![];
    assert_eq!(encode_routes(&empty), "[]".to_string());

    let routes = vec![route("/ok", "get", "false")];
    assert_eq!(
        encode_routes(&routes),
        "[{\"route\":\"/ok\",\"method\":\"get\",\"is_route_dynamic\":\"false\"}]".to_string()
    );
}

#[test]
fn encoding_escapes_quotes_and_backslashes() {
    let routes = vec![route("/a\"b\\c", "get", "false")];
    assert_eq!(
        encode_routes(&routes),
        "[{\"route\":\"/a\\\"b\\\\c\",\"method\":\"get\",\"is_route_dynamic\":\"false\"}]"
            .to_string()
    );
}

#[test]
fn endpoint_schema_round_trips() {
    let routes = vec![
        route("/plain", "get", "false"),
        route("/quote\"inside", "post", "true"),
        route("/back\\slash", "get", "true"),
    ];
    let text = encode_routes(&routes);
    let back = parse_routes(&text).expect("canonical text must parse");
    assert_eq!(back.len(), routes.len());
    for (a, b) in routes.iter().zip(back.iter()) {
        assert_eq!(a.route, b.route);
        assert_eq!(a.method, b.method);
        assert_eq!(a.is_route_dynamic, b.is_route_dynamic);
    }
}

#[test]
fn parser_accepts_whitespace_between_tokens() {
    let text = " [ {\"route\" : \"/x\" , \"method\" : \"get\" , \"is_route_dynamic\" : \"false\"} ] ";
    let routes = parse_routes(text).expect("spaced text must parse");
    assert_eq!(routes.len(), 1);
    assert_eq!(routes[0].route, "/x".to_string());
    assert_eq!(routes[0].method, "get".to_string());
    assert_eq!(routes[0].is_route_dynamic, "false".to_string());
}

#[test]
fn parser_rejects_malformed_schemas() {
    assert!(parse_routes("").is_none());
    assert!(parse_routes("{}").is_none());
    assert!(parse_routes("[{\"route\":\"/x\"}]").is_none());
    assert!(parse_routes("[{\"route\":\"/x\",\"method\":\"get\",\"is_route_dynamic\":\"false\"}] trailing").is_none());
    assert!(parse_routes("[{\"route\":\"/x\",\"method\":\"get\",\"is_route_dynamic\":\"false\"},]").is_none());
}

#[test]
fn only_plain_get_routes_survive_the_filter() {
    let routes = vec![
        route("/keep", "get", "false"),
        route("/post", "post", "false"),
        route("/dynamic", "get", "true"),
        route("/also-keep", "get", "false"),
    ];
    assert!(route_is_checkable(&routes[0]));
    assert!(!route_is_checkable(&routes[1]));
    assert!(!route_is_checkable(&routes[2]));

    let kept = filter_checkable_routes(&routes);
    assert_eq!(kept.len(), 2);
    assert_eq!(kept[0].route, "/keep".to_string());
    assert_eq!(kept[1].route, "/also-keep".to_string());
}

#[test]
fn probe_urls_use_the_fixed_local_port() {
    assert_eq!(
        probe_url(&"/forecast".to_string()),
        "http://localhost:8080/forecast".to_string()
    );
}

#[test]
fn scope_text_with_whitespace_parses() {
    let text = "{\n    \"is_crud_required\": false,\n    \"is_user_login_and_logout\": false,\n    \"is_external_urls_required\": true\n}";
    let scope = parse_scope(text).expect("scope must parse");
    assert_eq!(
        scope,
        ProjectScope {
            is_crud_required: false,
            is_user_login_and_logout: false,
            is_external_urls_required: true,
        }
    );
    assert!(parse_scope("{\"is_crud_required\": maybe}").is_none());
}

#[test]
fn url_arrays_parse() {
    let urls = parse_string_array("[\"https://one.example\", \"https://two.example\"]")
        .expect("array must parse");
    assert_eq!(
        urls,
        vec!["https://one.example".to_string(), "https://two.example".to_string()]
    );
    let empty = parse_string_array("[]").expect("empty array must parse");
    assert!(empty.is_empty());
    assert!(parse_string_array("[\"unterminated]").is_none());
}

#[test]
fn architect_stores_scope_and_finishes_without_urls() {
    let mut agent = AgentSolutionArchitect::new();
    let mut fs = FactSheet::new("track my fitness progress".to_string());
    let a = agent.start(&fs);
    match a {
        ArchitectAction::RequestScope { context } => {
            assert_eq!(context, "track my fitness progress".to_string());
        }
        other => panic!("expected a scope request, got {:?}", other),
    }
    let a = agent
        .on_scope_text(
            &mut fs,
            "{\"is_crud_required\":true,\"is_user_login_and_logout\":false,\"is_external_urls_required\":false}".to_string(),
        )
        .unwrap();
    assert!(matches!(a, ArchitectAction::Completed));
    assert_eq!(agent.attributes.state, AgentState::Finishing);
    let scope = fs.project_scope.unwrap();
    assert!(scope.is_crud_required);
    assert!(!scope.is_external_urls_required);
}

#[test]
fn architect_url_branch_stalls_in_unit_testing() {
    let mut agent = AgentSolutionArchitect::new();
    let mut fs = FactSheet::new("compare currency prices".to_string());
    agent.start(&fs);
    let a = agent
        .on_scope_text(
            &mut fs,
            "{\"is_crud_required\":false,\"is_user_login_and_logout\":false,\"is_external_urls_required\":true}".to_string(),
        )
        .unwrap();
    assert!(matches!(a, ArchitectAction::RequestUrls { .. }));

    let a = agent
        .on_urls_text(&mut fs, "[\"https://rates.example/api\"]".to_string())
        .unwrap();
    // The url branch parks the agent in a state with no behavior: the run
    // cannot finish from here (a limitation kept from the original design).
    assert!(matches!(a, ArchitectAction::Stalled));
    assert_eq!(agent.attributes.state, AgentState::UnitTesting);
    assert_eq!(
        fs.external_urls,
        Some(vec!["https://rates.example/api".to_string()])
    );
}

#[test]
fn architect_decode_failure_is_fatal() {
    let mut agent = AgentSolutionArchitect::new();
    let mut fs = FactSheet::new("anything".to_string());
    agent.start(&fs);
    let err = agent
        .on_scope_text(&mut fs, "no scope here".to_string())
        .unwrap_err();
    assert_eq!(err, AgentError::Decode);
    assert!(fs.project_scope.is_none());
}

#[test]
fn manager_sets_description_once_and_registers_the_architect() {
    let mut manager = ManagingAgent::new("need a full stack app the tracks my fitness progress".to_string());
    assert_eq!(
        manager.factsheet.project_description,
        "need a full stack app the tracks my fitness progress".to_string()
    );
    assert!(manager.agents.is_empty());

    manager.create_agents();
    assert_eq!(manager.agents.len(), 1);
    assert!(matches!(manager.agents[0], AgentKind::Architect(_)));

    manager.add_agent(AgentKind::Backend(
        agent_pipeline::agent_backend::AgentBackendDeveloper::new(),
    ));
    assert_eq!(manager.agents.len(), 2);

    // Driving the first agent against the shared record never touches the
    // description the manager fixed at construction.
    let description = manager.factsheet.project_description.clone();
    if let AgentKind::Architect(arch) = &mut manager.agents[0] {
        arch.start(&manager.factsheet);
        arch.on_scope_text(
            &mut manager.factsheet,
            "{\"is_crud_required\":false,\"is_user_login_and_logout\":false,\"is_external_urls_required\":false}".to_string(),
        )
        .unwrap();
    }
    assert_eq!(manager.factsheet.project_description, description);
    assert!(manager.factsheet.project_scope.is_some());
}

#[test]
fn error_messages_name_each_failure() {
    assert_eq!(
        AgentError::OperatorRejection.message(),
        "the operator rejected the generated code".to_string()
    );
    assert_eq!(
        AgentError::ExcessiveBuildFailures.message(),
        "too many bugs found in the generated code".to_string()
    );
    assert_eq!(
        AgentError::Decode.message(),
        "failed to decode a structured response".to_string()
    );
    assert_eq!(
        AgentError::Process.message(),
        "failed to manage the server process".to_string()
    );
    assert_eq!(
        AgentError::TransientService.message(),
        "the prompted-function service is unavailable".to_string()
    );
}

#[test]
fn contexts_are_exact_concatenations() {
    assert_eq!(
        initial_context("T", &"D".to_string()),
        "CODE TEMPLATE: T \n PROJECT_DESCRIPTION: D \n".to_string()
    );
    let fs = FactSheet::new("D".to_string());
    assert_eq!(
        improve_context("C", &fs),
        "CODE TEMPLATE: C \n PROJECT_DESCRIPTION: { project_description: D, project_scope: None, external_urls: None, backend_code: None, api_endpoint_schema: None } \n"
            .to_string()
    );
    assert_eq!(
        fix_context("C", &"E".to_string()),
        "BROKEN_CODE: C \n ERROR_BUGS: E \n THIS FUNCTION ONLY OUTPUTS THE CODE. JUST THE WORKING CODE NOTHING MORE"
            .to_string()
    );
    assert_eq!(endpoints_context("C"), "CODE_INPUT: C".to_string());
}

#[test]
fn parser_understands_standard_string_escapes() {
    let text = "[{\"route\":\"\\/a\\nb\\tc\",\"method\":\"get\",\"is_route_dynamic\":\"false\"}]";
    let routes = parse_routes(text).expect("escaped text must parse");
    assert_eq!(routes[0].route, "/a\nb\tc".to_string());

    let text = "[{\"route\":\"\\u0041\\u00e9\",\"method\":\"get\",\"is_route_dynamic\":\"false\"}]";
    let routes = parse_routes(text).expect("unicode escapes must parse");
    assert_eq!(routes[0].route, "A\u{e9}".to_string());

    // A surrogate pair stands for one character above the basic plane.
    let text = "[{\"route\":\"\\ud83d\\ude00\",\"method\":\"get\",\"is_route_dynamic\":\"false\"}]";
    let routes = parse_routes(text).expect("surrogate pairs must parse");
    assert_eq!(routes[0].route, "\u{1F600}".to_string());

    // A lone surrogate or an unknown escape is malformed.
    assert!(parse_routes(
        "[{\"route\":\"\\ud83d\",\"method\":\"get\",\"is_route_dynamic\":\"false\"}]"
    )
    .is_none());
    assert!(parse_routes(
        "[{\"route\":\"\\q\",\"method\":\"get\",\"is_route_dynamic\":\"false\"}]"
    )
    .is_none());
    assert!(parse_routes(
        "[{\"route\":\"\\u00zz\",\"method\":\"get\",\"is_route_dynamic\":\"false\"}]"
    )
    .is_none());
}

#[test]
fn record_rendering_carries_every_field() {
    let mut fs = FactSheet::new("a weather site".to_string());
    fs.project_scope = Some(ProjectScope {
        is_crud_required: true,
        is_user_login_and_logout: false,
        is_external_urls_required: true,
    });
    fs.external_urls = Some(vec!["https://w.example".to_string()]);
    fs.backend_code = Some("fn main() {}".to_string());
    assert_eq!(
        record_context(&fs),
        "{ project_description: a weather site, project_scope: { is_crud_required: true, is_user_login_and_logout: false, is_external_urls_required: true }, external_urls: [\"https://w.example\"], backend_code: fn main() {}, api_endpoint_schema: None }"
            .to_string()
    );
}

#[test]
fn improve_pass_context_carries_scope_and_urls() {
    let mut fs = FactSheet::new("a currency site".to_string());
    fs.project_scope = Some(ProjectScope {
        is_crud_required: false,
        is_user_login_and_logout: false,
        is_external_urls_required: true,
    });
    fs.external_urls = Some(vec!["https://rates.example/api".to_string()]);

    let mut agent = AgentBackendDeveloper::new();
    let a = agent.start(&fs, "template");
    assert!(matches!(
        a,
        BackendAction::RequestCode { kind: CodeRequestKind::Initial, .. }
    ));
    let a = agent.on_code_generated(&mut fs, "draft".to_string());
    match a {
        BackendAction::RequestCode { kind, context } => {
            assert_eq!(kind, CodeRequestKind::Improve);
            assert!(context.contains("is_external_urls_required: true"));
            assert!(context.contains("https://rates.example/api"));
            assert!(context.contains("backend_code: draft"));
            assert!(context.contains("a currency site"));
        }
        other => panic!("expected the improvement request, got {:?}", other),
    }
}
