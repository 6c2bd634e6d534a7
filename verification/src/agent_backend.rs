use vstd::prelude::*;

use crate::agent_traits::{
    description_kept, AgentError, FactSheet, ProjectScope, RouteObject, RouteView,
    SpecialFunctions,
};
use crate::basic_agents::{AgentState, BasicAgent};
use crate::route_json::{
    append_quoted, encode_routes, parse_routes, quoted, routes_json, spec_parse_routes,
};

verus! {

// ---------------------------------------------------------------------------
// Contexts handed to the prompted-function service. Each is a plain
// concatenation of a fixed directive and fields of the shared record.
// ---------------------------------------------------------------------------
/// The generated code currently on the record, or nothing.
pub open spec fn spec_code_of(fs: FactSheet) -> Seq<char> {
    match fs.backend_code {
        Some(c) => c@,
        None => Seq::<char>::empty(),
    }
}

pub open spec fn spec_initial_context(template: Seq<char>, description: Seq<char>) -> Seq<char> {
    "CODE TEMPLATE: "@ + template + " \n PROJECT_DESCRIPTION: "@ + description + " \n"@
}

/// A boolean as the record rendering writes it.
pub open spec fn bool_text(b: bool) -> Seq<char> {
    if b {
        "true"@
    } else {
        "false"@
    }
}

/// The scope as the record rendering writes it.
pub open spec fn scope_text(scope: Option<ProjectScope>) -> Seq<char> {
    match scope {
        None => "None"@,
        Some(sc) => "{ is_crud_required: "@ + bool_text(sc.is_crud_required)
            + ", is_user_login_and_logout: "@ + bool_text(sc.is_user_login_and_logout)
            + ", is_external_urls_required: "@ + bool_text(sc.is_external_urls_required) + " }"@,
    }
}

/// The URL list as the record rendering writes it: each URL quoted,
/// comma-separated.
pub open spec fn urls_body_text(urls: Seq<Seq<char>>) -> Seq<char>
    decreases urls.len(),
{
    if urls.len() == 0 {
        Seq::empty()
    } else if urls.len() == 1 {
        quoted(urls[0])
    } else {
        quoted(urls[0]) + ", "@ + urls_body_text(urls.skip(1))
    }
}

pub open spec fn urls_text(urls: Option<Vec<String>>) -> Seq<char> {
    match urls {
        None => "None"@,
        Some(u) => "["@ + urls_body_text(u.deep_view()) + "]"@,
    }
}

pub open spec fn code_text(code: Option<String>) -> Seq<char> {
    match code {
        None => "None"@,
        Some(c) => c@,
    }
}

pub open spec fn schema_text(schema: Option<Vec<RouteObject>>) -> Seq<char> {
    match schema {
        None => "None"@,
        Some(rs) => routes_json(rs.deep_view()),
    }
}

/// The whole shared record, rendered field by field. The improvement pass
/// sends this rendering, so everything earlier agents put on the record —
/// the scope and the external URLs included — reaches code generation.
pub open spec fn spec_record_text(fs: FactSheet) -> Seq<char> {
    "{ project_description: "@ + fs.project_description@ + ", project_scope: "@ + scope_text(
        fs.project_scope,
    ) + ", external_urls: "@ + urls_text(fs.external_urls) + ", backend_code: "@ + code_text(
        fs.backend_code,
    ) + ", api_endpoint_schema: "@ + schema_text(fs.api_endpoint_schema) + " }"@
}

/// The improvement pass carries the current code and the whole record.
pub open spec fn spec_improve_context(code: Seq<char>, record: Seq<char>) -> Seq<char> {
    "CODE TEMPLATE: "@ + code + " \n PROJECT_DESCRIPTION: "@ + record + " \n"@
}

pub open spec fn spec_fix_context(code: Seq<char>, errors: Seq<char>) -> Seq<char> {
    "BROKEN_CODE: "@ + code + " \n ERROR_BUGS: "@ + errors
        + " \n THIS FUNCTION ONLY OUTPUTS THE CODE. JUST THE WORKING CODE NOTHING MORE"@
}

pub open spec fn spec_endpoints_context(code: Seq<char>) -> Seq<char> {
    "CODE_INPUT: "@ + code
}

/// The generated code currently on the record, or the empty string.
pub fn code_of(fs: &FactSheet) -> (code: &str)
    ensures
        code@ == spec_code_of(*fs),
{
    match &fs.backend_code {
        Some(c) => c.as_str(),
        None => {
            proof {
                reveal_strlit("");
                assert(""@ =~= Seq::<char>::empty());
            }
            ""
        },
    }
}

pub fn initial_context(template: &str, description: &String) -> (ctx: String)
    ensures
        ctx@ == spec_initial_context(template@, description@),
{
    let mut ctx: String = String::from_str("CODE TEMPLATE: ");
    ctx.append(template);
    ctx.append(" \n PROJECT_DESCRIPTION: ");
    ctx.append(description.as_str());
    ctx.append(" \n");
    ctx
}

fn append_bool(out: &mut String, b: bool)
    ensures
        final(out)@ == old(out)@ + bool_text(b),
{
    if b {
        out.append("true");
    } else {
        out.append("false");
    }
}

proof fn lemma_urls_body_push(urls: Seq<Seq<char>>, u: Seq<char>)
    ensures
        urls.len() == 0 ==> urls_body_text(urls.push(u)) == quoted(u),
        urls.len() > 0 ==> urls_body_text(urls.push(u)) == urls_body_text(urls) + ", "@ + quoted(
            u,
        ),
    decreases urls.len(),
{
    reveal_strlit(", ");
    if urls.len() == 0 {
        assert(urls.push(u)[0] == u);
    } else if urls.len() == 1 {
        assert(urls.push(u)[0] == urls[0]);
        assert(urls.push(u).skip(1) =~= seq![u]);
        assert(urls_body_text(seq![u]) == quoted(u));
        assert(urls_body_text(urls.push(u)) =~= urls_body_text(urls) + ", "@ + quoted(u));
    } else {
        lemma_urls_body_push(urls.skip(1), u);
        assert(urls.push(u)[0] == urls[0]);
        assert(urls.push(u).skip(1) =~= urls.skip(1).push(u));
        assert(urls_body_text(urls.push(u)) =~= urls_body_text(urls) + ", "@ + quoted(u));
    }
}

/// The whole record rendered as text, as `spec_record_text` says.
pub fn record_context(fs: &FactSheet) -> (out: String)
    ensures
        out@ == spec_record_text(*fs),
{
    let mut out: String = String::from_str("{ project_description: ");
    out.append(fs.project_description.as_str());
    out.append(", project_scope: ");
    match &fs.project_scope {
        None => out.append("None"),
        Some(sc) => {
            out.append("{ is_crud_required: ");
            append_bool(&mut out, sc.is_crud_required);
            out.append(", is_user_login_and_logout: ");
            append_bool(&mut out, sc.is_user_login_and_logout);
            out.append(", is_external_urls_required: ");
            append_bool(&mut out, sc.is_external_urls_required);
            out.append(" }");
        },
    }
    proof {
        assert(out@ =~= "{ project_description: "@ + fs.project_description@
            + ", project_scope: "@ + scope_text(fs.project_scope));
    }
    out.append(", external_urls: ");
    match &fs.external_urls {
        None => out.append("None"),
        Some(urls) => {
            out.append("[");
            let ghost pre = out@;
            let mut i: usize = 0;
            proof {
                assert(urls.deep_view().take(0) =~= Seq::<Seq<char>>::empty());
                assert(out@ =~= pre + urls_body_text(urls.deep_view().take(0)));
            }
            while i < urls.len()
                invariant
                    i <= urls@.len(),
                    urls.deep_view().len() == urls@.len(),
                    out@ == pre + urls_body_text(urls.deep_view().take(i as int)),
                decreases urls@.len() - i,
            {
                if i > 0 {
                    out.append(", ");
                }
                append_quoted(&mut out, &urls[i]);
                proof {
                    lemma_urls_body_push(urls.deep_view().take(i as int), urls@[i as int]@);
                    assert(urls.deep_view().take(i as int).push(urls@[i as int]@)
                        =~= urls.deep_view().take(i as int + 1));
                    assert(out@ =~= pre + urls_body_text(urls.deep_view().take(i as int + 1)));
                }
                i = i + 1;
            }
            proof {
                assert(urls.deep_view().take(urls@.len() as int) =~= urls.deep_view());
            }
            out.append("]");
        },
    }
    proof {
        assert(out@ =~= "{ project_description: "@ + fs.project_description@
            + ", project_scope: "@ + scope_text(fs.project_scope) + ", external_urls: "@
            + urls_text(fs.external_urls));
    }
    out.append(", backend_code: ");
    match &fs.backend_code {
        None => out.append("None"),
        Some(c) => out.append(c.as_str()),
    }
    proof {
        assert(out@ =~= "{ project_description: "@ + fs.project_description@
            + ", project_scope: "@ + scope_text(fs.project_scope) + ", external_urls: "@
            + urls_text(fs.external_urls) + ", backend_code: "@ + code_text(fs.backend_code));
    }
    out.append(", api_endpoint_schema: ");
    match &fs.api_endpoint_schema {
        None => out.append("None"),
        Some(rs) => {
            let encoded = encode_routes(rs);
            out.append(encoded.as_str());
        },
    }
    out.append(" }");
    proof {
        assert(out@ =~= spec_record_text(*fs));
    }
    out
}

/// The improvement-pass context: the current code and the whole record.
pub fn improve_context(code: &str, fs: &FactSheet) -> (ctx: String)
    ensures
        ctx@ == spec_improve_context(code@, spec_record_text(*fs)),
{
    let mut ctx: String = String::from_str("CODE TEMPLATE: ");
    ctx.append(code);
    ctx.append(" \n PROJECT_DESCRIPTION: ");
    let record = record_context(fs);
    ctx.append(record.as_str());
    ctx.append(" \n");
    ctx
}

pub fn fix_context(code: &str, errors: &String) -> (ctx: String)
    ensures
        ctx@ == spec_fix_context(code@, errors@),
{
    let mut ctx: String = String::from_str("BROKEN_CODE: ");
    ctx.append(code);
    ctx.append(" \n ERROR_BUGS: ");
    ctx.append(errors.as_str());
    ctx.append(" \n THIS FUNCTION ONLY OUTPUTS THE CODE. JUST THE WORKING CODE NOTHING MORE");
    ctx
}

pub fn endpoints_context(code: &str) -> (ctx: String)
    ensures
        ctx@ == spec_endpoints_context(code@),
{
    let mut ctx: String = String::from_str("CODE_INPUT: ");
    ctx.append(code);
    ctx
}

// ---------------------------------------------------------------------------
// Which extracted routes are probed: only plain GET endpoints.
// ---------------------------------------------------------------------------
/// A route is probed when its method is exactly "get" and it takes no
/// path parameters (the wire schema writes that flag as text).
pub open spec fn checkable(r: RouteView) -> bool {
    r.method == "get"@ && r.is_route_dynamic == "false"@
}

/// The sub-sequence of probed routes, in order.
pub open spec fn checkable_filter(rs: Seq<RouteView>) -> Seq<RouteView>
    decreases rs.len(),
{
    if rs.len() == 0 {
        Seq::empty()
    } else if checkable(rs.last()) {
        checkable_filter(rs.drop_last()).push(rs.last())
    } else {
        checkable_filter(rs.drop_last())
    }
}

proof fn lemma_checkable_filter_take_step(rs: Seq<RouteView>, i: int)
    requires
        0 <= i < rs.len(),
    ensures
        checkable(rs[i]) ==> checkable_filter(rs.take(i + 1)) == checkable_filter(
            rs.take(i),
        ).push(rs[i]),
        !checkable(rs[i]) ==> checkable_filter(rs.take(i + 1)) == checkable_filter(rs.take(i)),
{
    assert(rs.take(i + 1).drop_last() =~= rs.take(i));
    assert(rs.take(i + 1).last() == rs[i]);
}

/// Everything the filter keeps is a plain GET endpoint: a route violating
/// either predicate never appears in the filtered set.
pub proof fn lemma_checkable_filter_sound(rs: Seq<RouteView>)
    ensures
        forall|k: int|
            0 <= k < checkable_filter(rs).len() ==> checkable(#[trigger] checkable_filter(rs)[k]),
    decreases rs.len(),
{
    if rs.len() > 0 {
        lemma_checkable_filter_sound(rs.drop_last());
        assert(rs.drop_last() =~= rs.take(rs.len() - 1));
        lemma_checkable_filter_take_step(rs, rs.len() - 1);
        assert(rs.take(rs.len() as int) =~= rs);
    }
}

/// Every plain GET endpoint of the input is kept by the filter.
pub proof fn lemma_checkable_filter_complete(rs: Seq<RouteView>)
    ensures
        forall|k: int|
            0 <= k < rs.len() && checkable(#[trigger] rs[k]) ==> checkable_filter(rs).contains(
                rs[k],
            ),
    decreases rs.len(),
{
    if rs.len() > 0 {
        let n = rs.len() as int;
        lemma_checkable_filter_complete(rs.drop_last());
        assert(rs.drop_last() =~= rs.take(n - 1));
        lemma_checkable_filter_take_step(rs, n - 1);
        assert(rs.take(n) =~= rs);
        assert forall|k: int| 0 <= k < n && checkable(#[trigger] rs[k]) implies checkable_filter(
            rs,
        ).contains(rs[k]) by {
            if k < n - 1 {
                assert(rs.drop_last()[k] == rs[k]);
                assert(checkable_filter(rs.drop_last()).contains(rs[k]));
                let j = choose|j: int|
                    0 <= j < checkable_filter(rs.drop_last()).len() && checkable_filter(
                        rs.drop_last(),
                    )[j] == rs[k];
                if checkable(rs[n - 1]) {
                    assert(checkable_filter(rs)[j] == rs[k]);
                } else {
                    assert(checkable_filter(rs)[j] == rs[k]);
                }
            } else {
                assert(checkable(rs[n - 1]));
                let m = checkable_filter(rs).len() as int;
                assert(checkable_filter(rs) == checkable_filter(rs.take(n - 1)).push(rs[n - 1]));
                assert(checkable_filter(rs)[m - 1] == rs[k]);
            }
        }
    }
}

fn string_eq_lit(s: &String, lit: &str) -> (b: bool)
    ensures
        b == (s@ == lit@),
{
    let other: String = String::from_str(lit);
    s.eq(&other)
}

/// The probing decision for one route.
pub fn route_is_checkable(r: &RouteObject) -> (b: bool)
    ensures
        b == checkable(r@),
{
    string_eq_lit(&r.method, "get") && string_eq_lit(&r.is_route_dynamic, "false")
}

/// An exact copy of one route.
pub fn duplicate_route(r: &RouteObject) -> (c: RouteObject)
    ensures
        c@ == r@,
{
    RouteObject {
        route: r.route.clone(),
        method: r.method.clone(),
        is_route_dynamic: r.is_route_dynamic.clone(),
    }
}

/// An exact copy of a route list.
pub fn duplicate_routes(rs: &Vec<RouteObject>) -> (c: Vec<RouteObject>)
    ensures
        c.deep_view() == rs.deep_view(),
        c@.len() == rs@.len(),
{
    let mut c: Vec<RouteObject> = Vec::new();
    let mut i: usize = 0;
    while i < rs.len()
        invariant
            i <= rs@.len(),
            c@.len() == i,
            c.deep_view() == rs.deep_view().take(i as int),
        decreases rs@.len() - i,
    {
        c.push(duplicate_route(&rs[i]));
        proof {
            assert(c.deep_view() =~= rs.deep_view().take(i as int + 1));
        }
        i = i + 1;
    }
    proof {
        assert(rs.deep_view().take(rs@.len() as int) =~= rs.deep_view());
    }
    c
}

/// The sub-list of routes worth probing, in their original order.
pub fn filter_checkable_routes(routes: &Vec<RouteObject>) -> (out: Vec<RouteObject>)
    ensures
        out.deep_view() == checkable_filter(routes.deep_view()),
{
    let mut out: Vec<RouteObject> = Vec::new();
    let mut i: usize = 0;
    proof {
        assert(routes.deep_view().take(0) =~= Seq::<RouteView>::empty());
        assert(out.deep_view() =~= checkable_filter(routes.deep_view().take(0)));
    }
    while i < routes.len()
        invariant
            i <= routes@.len(),
            routes.deep_view().len() == routes@.len(),
            out.deep_view() == checkable_filter(routes.deep_view().take(i as int)),
        decreases routes@.len() - i,
    {
        proof {
            lemma_checkable_filter_take_step(routes.deep_view(), i as int);
        }
        if route_is_checkable(&routes[i]) {
            out.push(duplicate_route(&routes[i]));
            proof {
                assert(out.deep_view() =~= checkable_filter(
                    routes.deep_view().take(i as int),
                ).push(routes.deep_view()[i as int]));
            }
        }
        i = i + 1;
    }
    proof {
        assert(routes.deep_view().take(routes@.len() as int) =~= routes.deep_view());
    }
    out
}

/// The fixed local address a route is probed at.
pub open spec fn spec_probe_url(route: Seq<char>) -> Seq<char> {
    "http://localhost:8080"@ + route
}

pub fn probe_url(route: &String) -> (url: String)
    ensures
        url@ == spec_probe_url(route@),
{
    let mut url: String = String::from_str("http://localhost:8080");
    url.append(route.as_str());
    url
}

// ---------------------------------------------------------------------------
// The build/validate engine itself, as an event-driven state machine. The
// embedding program performs each returned action (a prompted-function
// call, the build command, the server spawn, one HTTP probe) and feeds the
// outcome back through the matching `on_*` method.
// ---------------------------------------------------------------------------
/// Which generation pass a `RequestCode` action asks for.
#[derive(Clone, Copy, Debug, PartialEq, Eq, Structural)]
pub enum CodeRequestKind {
    Initial,
    Improve,
    Fix,
}

/// What the embedding program must do next.
#[derive(Debug)]
pub enum BackendAction {
    /// Send `context` to the prompted-function service asking for server
    /// code, persist the answer to the execution path, then report it
    /// through `on_code_generated`.
    RequestCode { kind: CodeRequestKind, context: String },
    /// Ask the operator whether the generated code is safe to execute,
    /// then report the answer through `on_operator_decision`.
    ConfirmSafeCode,
    /// Run the build command in the project directory, then report exit
    /// status and captured stderr through `on_build_completed`.
    BuildProject,
    /// Send `context` to the prompted-function service asking for the
    /// endpoint schema, then report the raw answer through
    /// `on_endpoints_extracted`.
    RequestEndpoints { context: String },
    /// Spawn the built server, wait the warm-up delay, then report
    /// through `on_server_started`.
    StartServer,
    /// Issue one GET against `url`, then report through
    /// `on_probe_completed`.
    ProbeEndpoint { url: String },
    /// Terminate the server first (the previous probe failed at transport
    /// level), then probe `url` anyway and report as usual.
    StopServerThenProbe { url: String },
    /// Persist `raw_schema` to the artifacts path and terminate the
    /// server: the run is complete.
    SaveSchemaAndStopServer { raw_schema: String },
    /// Nothing left to do.
    Completed,
}

/// What one endpoint probe came back with.
#[derive(Clone, Copy, Debug, PartialEq, Eq, Structural)]
pub enum ProbeOutcome {
    /// The endpoint answered with this HTTP status.
    Status(u16),
    /// The request failed below HTTP (connection refused, timeout).
    TransportFailure,
}

/// Which answer the engine is waiting for.
#[derive(Debug)]
pub enum BackendPhase {
    /// Not started, or stopped by a fatal error.
    Idle,
    AwaitingInitialCode,
    AwaitingRevisedCode,
    AwaitingOperator,
    AwaitingBuild,
    AwaitingEndpoints,
    AwaitingServer { raw_schema: String, routes: Vec<RouteObject> },
    Probing { raw_schema: String, routes: Vec<RouteObject>, next: usize },
    /// The run ended, normally or fatally.
    Done,
}

/// The retry budget: a third consecutive build failure is fatal.
pub const MAX_BUG_COUNT: u8 = 2;

/// The agent that generates, rebuilds, validates and probes backend code.
#[derive(Debug)]
pub struct AgentBackendDeveloper {
    pub attributes: BasicAgent,
    pub bug_errors: Option<String>,
    pub bug_count: u8,
    pub phase: BackendPhase,
    /// Non-fatal issues found while probing endpoints, in probe order.
    pub probe_issues: Vec<String>,
}

impl AgentBackendDeveloper {
    /// The failure counter never passes the budget, and the waiting phase
    /// always agrees with the coarse agent state. Past a successful build
    /// (endpoint extraction onward) the counter is zero and stays zero for
    /// the rest of the run, so a run that completes ends with a zero
    /// counter.
    pub open spec fn inv(&self) -> bool {
        &&& self.bug_count <= MAX_BUG_COUNT
        &&& match self.phase {
            BackendPhase::Idle => true,
            BackendPhase::AwaitingInitialCode => self.attributes.state == AgentState::Discovery,
            BackendPhase::AwaitingRevisedCode => self.attributes.state == AgentState::Working,
            BackendPhase::AwaitingOperator => self.attributes.state == AgentState::UnitTesting,
            BackendPhase::AwaitingBuild => self.attributes.state == AgentState::UnitTesting,
            BackendPhase::AwaitingEndpoints => self.attributes.state == AgentState::UnitTesting
                && self.bug_count == 0,
            BackendPhase::AwaitingServer { .. } => self.attributes.state
                == AgentState::UnitTesting && self.bug_count == 0,
            BackendPhase::Probing { routes, next, .. } => self.attributes.state
                == AgentState::UnitTesting && next < routes@.len() && self.bug_count == 0,
            BackendPhase::Done => true,
        }
    }

    /// The failure counter never passes the retry budget: the bound is
    /// part of the engine's invariant, which every step of the machine
    /// requires and re-establishes, so it holds throughout any run.
    pub proof fn lemma_bug_count_bounded(&self)
        requires
            self.inv(),
        ensures
            self.bug_count <= 2,
    {
    }

    pub fn new() -> (agent: AgentBackendDeveloper)
        ensures
            agent.inv(),
            agent.attributes.objective@ == "Develops code for backend server and the json database"@,
            agent.attributes.position@ == "Backend developer"@,
            agent.attributes.state == AgentState::Discovery,
            agent.attributes.memory@.len() == 0,
            agent.bug_errors is None,
            agent.bug_count == 0,
            agent.phase is Idle,
            agent.probe_issues@.len() == 0,
    {
        let attributes = BasicAgent::new(
            String::from_str("Develops code for backend server and the json database"),
            String::from_str("Backend developer"),
        );
        AgentBackendDeveloper {
            attributes,
            bug_errors: None,
            bug_count: 0,
            phase: BackendPhase::Idle,
            probe_issues: Vec::new(),
        }
    }

    /// Begins (or resumes) the run from the agent's current coarse state
    /// and returns the first action to perform.
    pub fn start(&mut self, fs: &FactSheet, code_template: &str) -> (a: BackendAction)
        requires
            old(self).inv(),
            old(self).phase is Idle,
        ensures
            final(self).inv(),
            final(self).bug_count == old(self).bug_count,
            final(self).bug_errors == old(self).bug_errors,
            final(self).probe_issues == old(self).probe_issues,
            final(self).attributes.state == old(self).attributes.state,
            old(self).attributes.state == AgentState::Discovery ==> {
                &&& a matches BackendAction::RequestCode { kind, context }
                &&& kind == CodeRequestKind::Initial
                &&& context@ == spec_initial_context(code_template@, fs.project_description@)
                &&& final(self).phase is AwaitingInitialCode
            },
            old(self).attributes.state == AgentState::Working ==> {
                &&& a matches BackendAction::RequestCode { kind, context }
                &&& (old(self).bug_count == 0 ==> kind == CodeRequestKind::Improve && context@
                    == spec_improve_context(spec_code_of(*fs), spec_record_text(*fs)))
                &&& (old(self).bug_count > 0 ==> kind == CodeRequestKind::Fix && context@
                    == spec_fix_context(
                    spec_code_of(*fs),
                    match old(self).bug_errors {
                        Some(e) => e@,
                        None => Seq::<char>::empty(),
                    },
                ))
                &&& final(self).phase is AwaitingRevisedCode
            },
            old(self).attributes.state == AgentState::UnitTesting ==> a
                is ConfirmSafeCode && final(self).phase is AwaitingOperator,
            old(self).attributes.state == AgentState::Finishing ==> a is Completed && final(self).phase is Done,
    {
        match self.attributes.state {
            AgentState::Discovery => {
                let context = initial_context(code_template, &fs.project_description);
                self.phase = BackendPhase::AwaitingInitialCode;
                BackendAction::RequestCode { kind: CodeRequestKind::Initial, context }
            },
            AgentState::Working => {
                self.phase = BackendPhase::AwaitingRevisedCode;
                if self.bug_count == 0 {
                    let context = improve_context(code_of(fs), fs);
                    BackendAction::RequestCode { kind: CodeRequestKind::Improve, context }
                } else {
                    let errors: String = match &self.bug_errors {
                        Some(e) => e.clone(),
                        None => String::new(),
                    };
                    let context = fix_context(code_of(fs), &errors);
                    BackendAction::RequestCode { kind: CodeRequestKind::Fix, context }
                }
            },
            AgentState::UnitTesting => {
                self.phase = BackendPhase::AwaitingOperator;
                BackendAction::ConfirmSafeCode
            },
            AgentState::Finishing => {
                self.phase = BackendPhase::Done;
                BackendAction::Completed
            },
        }
    }

    /// A generation pass came back: the code is recorded on the shared
    /// record (the embedding program has already persisted it), and the
    /// engine moves on — to the improvement pass after the first draft, or
    /// to the safety gate after a revision.
    pub fn on_code_generated(&mut self, fs: &mut FactSheet, code: String) -> (a: BackendAction)
        requires
            old(self).inv(),
            old(self).phase is AwaitingInitialCode || old(self).phase is AwaitingRevisedCode,
        ensures
            final(self).inv(),
            final(fs).backend_code == Some(code),
            description_kept(*old(fs), *final(fs)),
            final(fs).project_scope == old(fs).project_scope,
            final(fs).external_urls == old(fs).external_urls,
            final(fs).api_endpoint_schema == old(fs).api_endpoint_schema,
            old(fs).wf() ==> final(fs).wf(),
            final(self).bug_count == old(self).bug_count,
            final(self).bug_errors == old(self).bug_errors,
            final(self).probe_issues == old(self).probe_issues,
            old(self).phase is AwaitingInitialCode ==> {
                &&& final(self).attributes.state == AgentState::Working
                &&& final(self).phase is AwaitingRevisedCode
                &&& a matches BackendAction::RequestCode { kind, context }
                &&& (old(self).bug_count == 0 ==> kind == CodeRequestKind::Improve && context@
                    == spec_improve_context(code@, spec_record_text(*final(fs))))
                &&& (old(self).bug_count > 0 ==> kind == CodeRequestKind::Fix && context@
                    == spec_fix_context(
                    code@,
                    match old(self).bug_errors {
                        Some(e) => e@,
                        None => Seq::<char>::empty(),
                    },
                ))
            },
            old(self).phase is AwaitingRevisedCode ==> {
                &&& final(self).attributes.state == AgentState::UnitTesting
                &&& final(self).phase is AwaitingOperator
                &&& a is ConfirmSafeCode
            },
    {
        let initial = matches!(self.phase, BackendPhase::AwaitingInitialCode);
        if initial {
            self.attributes.update_state(AgentState::Working);
            self.phase = BackendPhase::AwaitingRevisedCode;
            fs.backend_code = Some(code);
            if self.bug_count == 0 {
                let context = improve_context(code_of(fs), fs);
                BackendAction::RequestCode { kind: CodeRequestKind::Improve, context }
            } else {
                let errors: String = match &self.bug_errors {
                    Some(e) => e.clone(),
                    None => String::new(),
                };
                let context = fix_context(code_of(fs), &errors);
                BackendAction::RequestCode { kind: CodeRequestKind::Fix, context }
            }
        } else {
            fs.backend_code = Some(code);
            self.attributes.update_state(AgentState::UnitTesting);
            self.phase = BackendPhase::AwaitingOperator;
            BackendAction::ConfirmSafeCode
        }
    }

    /// The operator's answer to the safety gate. A veto is fatal: the run
    /// stops here, and in particular no build command is ever issued.
    pub fn on_operator_decision(&mut self, decision: bool) -> (a: Result<
        BackendAction,
        AgentError,
    >)
        requires
            old(self).inv(),
            old(self).phase is AwaitingOperator,
        ensures
            final(self).inv(),
            final(self).bug_count == old(self).bug_count,
            final(self).bug_errors == old(self).bug_errors,
            final(self).probe_issues == old(self).probe_issues,
            final(self).attributes.state == old(self).attributes.state,
            decision ==> {
                &&& a matches Ok(act) && act is BuildProject
                &&& final(self).phase is AwaitingBuild
            },
            !decision ==> {
                &&& a matches Err(e) && e == AgentError::OperatorRejection
                &&& final(self).phase is Done
            },
    {
        if decision {
            self.phase = BackendPhase::AwaitingBuild;
            Ok(BackendAction::BuildProject)
        } else {
            self.phase = BackendPhase::Done;
            Err(AgentError::OperatorRejection)
        }
    }

    /// The build finished. Success resets the failure counter to zero and
    /// moves on to endpoint extraction; a failure records the captured
    /// stderr and either retries (the one backward edge of the state
    /// machine) or, on the third consecutive failure, aborts fatally.
    pub fn on_build_completed(&mut self, fs: &FactSheet, success: bool, stderr: String) -> (a:
        Result<BackendAction, AgentError>)
        requires
            old(self).inv(),
            old(self).phase is AwaitingBuild,
        ensures
            final(self).inv(),
            final(self).bug_count <= MAX_BUG_COUNT,
            final(self).probe_issues == old(self).probe_issues,
            success ==> {
                &&& final(self).bug_count == 0
                &&& final(self).bug_errors == old(self).bug_errors
                &&& final(self).attributes.state == AgentState::UnitTesting
                &&& final(self).phase is AwaitingEndpoints
                &&& a matches Ok(act) && act matches BackendAction::RequestEndpoints { context }
                    && context@ == spec_endpoints_context(spec_code_of(*fs))
            },
            !success ==> final(self).bug_errors == Some(stderr),
            !success && old(self).bug_count < MAX_BUG_COUNT ==> {
                &&& final(self).bug_count == old(self).bug_count + 1
                &&& final(self).attributes.state == AgentState::Working
                &&& final(self).phase is AwaitingRevisedCode
                &&& a matches Ok(act) && act matches BackendAction::RequestCode { kind, context }
                    && kind == CodeRequestKind::Fix && context@ == spec_fix_context(
                    spec_code_of(*fs),
                    stderr@,
                )
            },
            !success && old(self).bug_count == MAX_BUG_COUNT ==> {
                &&& final(self).bug_count == MAX_BUG_COUNT
                &&& final(self).phase is Done
                &&& a matches Err(e) && e == AgentError::ExcessiveBuildFailures
            },
    {
        if success {
            self.bug_count = 0;
            let context = endpoints_context(code_of(fs));
            self.phase = BackendPhase::AwaitingEndpoints;
            Ok(BackendAction::RequestEndpoints { context })
        } else {
            if self.bug_count >= MAX_BUG_COUNT {
                self.bug_errors = Some(stderr);
                self.phase = BackendPhase::Done;
                Err(AgentError::ExcessiveBuildFailures)
            } else {
                let context = fix_context(code_of(fs), &stderr);
                self.bug_errors = Some(stderr);
                self.bug_count = self.bug_count + 1;
                self.attributes.update_state(AgentState::Working);
                self.phase = BackendPhase::AwaitingRevisedCode;
                Ok(BackendAction::RequestCode { kind: CodeRequestKind::Fix, context })
            }
        }
    }

    /// The endpoint schema came back as raw text. Text that does not parse
    /// is fatal (malformed structured output is not retried); otherwise the
    /// filtered plain-GET routes are stored on the record and the server is
    /// started for probing.
    pub fn on_endpoints_extracted(&mut self, fs: &mut FactSheet, raw_schema: String) -> (a: Result<
        BackendAction,
        AgentError,
    >)
        requires
            old(self).inv(),
            old(self).phase is AwaitingEndpoints,
        ensures
            final(self).inv(),
            description_kept(*old(fs), *final(fs)),
            final(fs).project_scope == old(fs).project_scope,
            final(fs).external_urls == old(fs).external_urls,
            final(fs).backend_code == old(fs).backend_code,
            old(fs).wf() && old(fs).backend_code is Some ==> final(fs).wf(),
            final(self).bug_count == old(self).bug_count,
            final(self).bug_errors == old(self).bug_errors,
            final(self).probe_issues == old(self).probe_issues,
            spec_parse_routes(raw_schema@) is None ==> {
                &&& a matches Err(e) && e == AgentError::Decode
                &&& final(self).phase is Done
                &&& *final(fs) == *old(fs)
            },
            spec_parse_routes(raw_schema@) matches Some(rvs) ==> {
                &&& final(fs).api_endpoint_schema matches Some(schema) && schema.deep_view()
                    == checkable_filter(rvs)
                &&& final(self).attributes.state == AgentState::UnitTesting
                &&& final(self).phase matches BackendPhase::AwaitingServer { raw_schema: rw, routes }
                    && rw == raw_schema && routes.deep_view() == checkable_filter(rvs)
                &&& a matches Ok(act) && act is StartServer
            },
    {
        match parse_routes(raw_schema.as_str()) {
            None => {
                self.phase = BackendPhase::Done;
                Err(AgentError::Decode)
            },
            Some(routes) => {
                let filtered = filter_checkable_routes(&routes);
                let kept = duplicate_routes(&filtered);
                fs.api_endpoint_schema = Some(filtered);
                self.phase = BackendPhase::AwaitingServer { raw_schema, routes: kept };
                Ok(BackendAction::StartServer)
            },
        }
    }

    /// The server spawn finished. A failed spawn is fatal. With nothing to
    /// probe, the run goes straight to artifact persistence; otherwise the
    /// first filtered route is probed.
    pub fn on_server_started(&mut self, ok: bool) -> (a: Result<BackendAction, AgentError>)
        requires
            old(self).inv(),
            old(self).phase is AwaitingServer,
        ensures
            final(self).inv(),
            final(self).bug_count == old(self).bug_count,
            final(self).bug_errors == old(self).bug_errors,
            final(self).probe_issues == old(self).probe_issues,
            !ok ==> {
                &&& a matches Err(e) && e == AgentError::Process
                &&& final(self).phase is Done
            },
            ok ==> (old(self).phase matches BackendPhase::AwaitingServer { raw_schema, routes }
                ==> {
                &&& (routes@.len() == 0 ==> {
                    &&& a matches Ok(act) && act matches BackendAction::SaveSchemaAndStopServer {
                        raw_schema: rw,
                    } && rw == raw_schema
                    &&& final(self).attributes.state == AgentState::Finishing
                    &&& final(self).phase is Done
                    &&& final(self).bug_count == 0
                })
                &&& (routes@.len() > 0 ==> {
                    &&& a matches Ok(act) && act matches BackendAction::ProbeEndpoint { url }
                        && url@ == spec_probe_url(routes.deep_view()[0].route)
                    &&& final(self).attributes.state == AgentState::UnitTesting
                    &&& final(self).phase matches BackendPhase::Probing {
                        raw_schema: rw,
                        routes: rt,
                        next,
                    } && rw == raw_schema && rt.deep_view() == routes.deep_view() && next == 0
                })
            }),
    {
        if !ok {
            self.phase = BackendPhase::Done;
            return Err(AgentError::Process);
        }
        let (raw, routes) = match &self.phase {
            BackendPhase::AwaitingServer { raw_schema, routes } => {
                (raw_schema.clone(), duplicate_routes(routes))
            },
            _ => (String::new(), Vec::new()),
        };
        if routes.len() == 0 {
            self.attributes.update_state(AgentState::Finishing);
            self.phase = BackendPhase::Done;
            Ok(BackendAction::SaveSchemaAndStopServer { raw_schema: raw })
        } else {
            let url = probe_url(&routes[0].route);
            self.phase = BackendPhase::Probing { raw_schema: raw, routes, next: 0 };
            Ok(BackendAction::ProbeEndpoint { url })
        }
    }

    /// One probe finished. Anything but a 200 answer is recorded as a
    /// non-fatal issue; a transport-level failure additionally has the
    /// server terminated before the next probe, but probing itself goes
    /// on. After the last route the raw schema is persisted and the run
    /// completes.
    pub fn on_probe_completed(&mut self, outcome: ProbeOutcome) -> (a: BackendAction)
        requires
            old(self).inv(),
            old(self).phase is Probing,
        ensures
            final(self).inv(),
            final(self).bug_count == old(self).bug_count,
            final(self).bug_errors == old(self).bug_errors,
            outcome matches ProbeOutcome::Status(code) && code == 200 ==> final(self).probe_issues
                == old(self).probe_issues,
            !(outcome matches ProbeOutcome::Status(code) && code == 200) ==> final(self).probe_issues@.len() == old(self).probe_issues@.len() + 1,
            old(self).phase matches BackendPhase::Probing { raw_schema, routes, next } ==> {
                &&& (outcome matches ProbeOutcome::Status(code) && code != 200 ==> {
                    &&& final(self).probe_issues@.drop_last() == old(self).probe_issues@
                    &&& final(self).probe_issues@.last()@ == "Failed to call the endpoint: "@
                        + routes.deep_view()[next as int].route
                })
                &&& (outcome is TransportFailure ==> {
                    &&& final(self).probe_issues@.drop_last() == old(self).probe_issues@
                    &&& final(self).probe_issues@.last()@ == "Failed to reach the endpoint: "@
                        + routes.deep_view()[next as int].route
                })
                &&& (next + 1 < routes@.len() ==> {
                    &&& final(self).phase matches BackendPhase::Probing {
                        raw_schema: rw,
                        routes: rt,
                        next: n2,
                    } && rw == raw_schema && rt.deep_view() == routes.deep_view() && n2 == next + 1
                    &&& final(self).attributes.state == old(self).attributes.state
                    &&& (outcome is TransportFailure ==> {
                        &&& a matches BackendAction::StopServerThenProbe { url }
                        &&& url@ == spec_probe_url(routes.deep_view()[next + 1].route)
                    })
                    &&& (outcome matches ProbeOutcome::Status(c) ==> {
                        &&& a matches BackendAction::ProbeEndpoint { url }
                        &&& url@ == spec_probe_url(routes.deep_view()[next + 1].route)
                    })
                })
                &&& (next + 1 == routes@.len() ==> {
                    &&& a matches BackendAction::SaveSchemaAndStopServer { raw_schema: rw } && rw
                        == raw_schema
                    &&& final(self).attributes.state == AgentState::Finishing
                    &&& final(self).phase is Done
                    &&& final(self).bug_count == 0
                })
            },
    {
        let (raw, routes, next) = match &self.phase {
            BackendPhase::Probing { raw_schema, routes, next } => {
                (raw_schema.clone(), duplicate_routes(routes), *next)
            },
            _ => (String::new(), Vec::new(), 0),
        };
        let rlen: usize = routes.len();
        proof {
            assert(next < rlen);
        }
        let transport = matches!(outcome, ProbeOutcome::TransportFailure);
        match outcome {
            ProbeOutcome::Status(code) => {
                if code != 200 {
                    let mut msg: String = String::from_str("Failed to call the endpoint: ");
                    msg.append(routes[next].route.as_str());
                    self.probe_issues.push(msg);
                    proof {
                        assert(routes.deep_view()[next as int] == routes@[next as int]@);
                        assert(self.probe_issues@.drop_last() =~= old(self).probe_issues@);
                    }
                }
            },
            ProbeOutcome::TransportFailure => {
                let mut msg: String = String::from_str("Failed to reach the endpoint: ");
                msg.append(routes[next].route.as_str());
                self.probe_issues.push(msg);
                proof {
                    assert(routes.deep_view()[next as int] == routes@[next as int]@);
                    assert(self.probe_issues@.drop_last() =~= old(self).probe_issues@);
                }
            },
        }
        let n2 = next + 1;
        if n2 < routes.len() {
            let url = probe_url(&routes[n2].route);
            self.phase = BackendPhase::Probing { raw_schema: raw, routes, next: n2 };
            if transport {
                BackendAction::StopServerThenProbe { url }
            } else {
                BackendAction::ProbeEndpoint { url }
            }
        } else {
            self.attributes.update_state(AgentState::Finishing);
            self.phase = BackendPhase::Done;
            BackendAction::SaveSchemaAndStopServer { raw_schema: raw }
        }
    }
}

impl SpecialFunctions for AgentBackendDeveloper {
    fn get_attributes_from_agent(&self) -> &BasicAgent {
        &self.attributes
    }
}

} // verus!
