use vstd::prelude::*;

use crate::basic_agents::BasicAgent;

verus! {

/// What the solution-scoping pass decided about the requested project.
#[derive(Clone, Copy, Debug, PartialEq, Eq, Structural)]
pub struct ProjectScope {
    pub is_crud_required: bool,
    pub is_user_login_and_logout: bool,
    pub is_external_urls_required: bool,
}

/// One HTTP endpoint extracted from generated source.
///
/// The dynamic flag travels as the literal text "true"/"false" rather than a
/// boolean: that is the wire schema the generation step is asked to emit, and
/// it is kept as-is so both sides of the wire stay in lockstep.
#[derive(Clone, Debug)]
pub struct RouteObject {
    pub route: String,
    pub method: String,
    pub is_route_dynamic: String,
}

/// The mathematical value of a `RouteObject`: its three fields as
/// character sequences.
pub struct RouteView {
    pub route: Seq<char>,
    pub method: Seq<char>,
    pub is_route_dynamic: Seq<char>,
}

impl View for RouteObject {
    type V = RouteView;

    open spec fn view(&self) -> RouteView {
        RouteView {
            route: self.route@,
            method: self.method@,
            is_route_dynamic: self.is_route_dynamic@,
        }
    }
}

impl DeepView for RouteObject {
    type V = RouteView;

    open spec fn deep_view(&self) -> RouteView {
        self.view()
    }
}

/// The single shared document describing the project under generation,
/// threaded through the whole pipeline.
#[derive(Clone, Debug)]
pub struct FactSheet {
    pub project_description: String,
    pub project_scope: Option<ProjectScope>,
    pub external_urls: Option<Vec<String>>,
    pub backend_code: Option<String>,
    pub api_endpoint_schema: Option<Vec<RouteObject>>,
}

impl FactSheet {
    /// Fields are populated in strict dependency order: external URLs only
    /// after a scope exists, and an endpoint schema only after code exists.
    pub open spec fn wf(&self) -> bool {
        &&& self.external_urls is Some ==> self.project_scope is Some
        &&& self.api_endpoint_schema is Some ==> self.backend_code is Some
    }

    /// A fresh record: the description is fixed here, once, and every
    /// library function that mutates a `FactSheet` leaves it unchanged.
    pub fn new(project_description: String) -> (fs: FactSheet)
        ensures
            fs.project_description == project_description,
            fs.project_scope is None,
            fs.external_urls is None,
            fs.backend_code is None,
            fs.api_endpoint_schema is None,
            fs.wf(),
    {
        FactSheet {
            project_description,
            project_scope: None,
            external_urls: None,
            backend_code: None,
            api_endpoint_schema: None,
        }
    }
}

/// The description is written by the record's constructor, once, and never
/// rewritten: every function of this library that takes the record `&mut`
/// promises this predicate about it.
pub open spec fn description_kept(pre: FactSheet, post: FactSheet) -> bool {
    post.project_description == pre.project_description
}

/// The error taxonomy of one pipeline run. Only a build failure and a
/// single endpoint probe failure are handled locally; each variant here
/// ends the run.
#[derive(Clone, Copy, Debug, PartialEq, Eq, Structural)]
pub enum AgentError {
    /// The prompted-function service failed even after the local retry.
    TransientService,
    /// A structured response did not match the expected schema.
    Decode,
    /// The generated server process could not be spawned.
    Process,
    /// The operator vetoed executing the generated code.
    OperatorRejection,
    /// A third consecutive build failure exhausted the retry budget.
    ExcessiveBuildFailures,
}

impl AgentError {
    pub open spec fn spec_message(self) -> Seq<char> {
        match self {
            AgentError::TransientService => "the prompted-function service is unavailable"@,
            AgentError::Decode => "failed to decode a structured response"@,
            AgentError::Process => "failed to manage the server process"@,
            AgentError::OperatorRejection => "the operator rejected the generated code"@,
            AgentError::ExcessiveBuildFailures => "too many bugs found in the generated code"@,
        }
    }

    /// A short description of the error, for the caller to report.
    pub fn message(&self) -> (msg: String)
        ensures
            msg@ == self.spec_message(),
    {
        match self {
            AgentError::TransientService => {
                String::from_str("the prompted-function service is unavailable")
            },
            AgentError::Decode => String::from_str("failed to decode a structured response"),
            AgentError::Process => String::from_str("failed to manage the server process"),
            AgentError::OperatorRejection => {
                String::from_str("the operator rejected the generated code")
            },
            AgentError::ExcessiveBuildFailures => {
                String::from_str("too many bugs found in the generated code")
            },
        }
    }
}

/// The capability every concrete agent offers besides running its own
/// state machine: a read-only descriptor for observability.
pub trait SpecialFunctions {
    fn get_attributes_from_agent(&self) -> &BasicAgent;
}

} // verus!
