use vstd::prelude::*;

use crate::agent_traits::{description_kept, AgentError, FactSheet, SpecialFunctions};
use crate::basic_agents::{AgentState, BasicAgent};
use crate::scope_json::{parse_scope, parse_string_array, spec_parse_scope, spec_parse_string_array};

verus! {

/// What the embedding program must do next for the scoping agent.
#[derive(Debug)]
pub enum ArchitectAction {
    /// Send `context` to the prompted-function service asking for a
    /// structured scope, then report the raw answer through
    /// `on_scope_text`.
    RequestScope { context: String },
    /// Send `context` to the prompted-function service asking for a list
    /// of external URLs, then report the raw answer through
    /// `on_urls_text`.
    RequestUrls { context: String },
    /// Nothing left to do.
    Completed,
    /// The agent sits in `UnitTesting` with no behavior defined for it:
    /// the run can make no further progress. This reproduces a known
    /// limitation of the pipeline rather than silently repairing it.
    Stalled,
}

/// Which answer the scoping agent is waiting for.
#[derive(Clone, Copy, Debug, PartialEq, Eq, Structural)]
pub enum ArchitectPhase {
    Idle,
    AwaitingScope,
    AwaitingUrls,
    /// See `ArchitectAction::Stalled`.
    Stalled,
    Done,
}

/// The agent that resolves the project's scope and, when the scope calls
/// for them, its external URLs.
#[derive(Debug)]
pub struct AgentSolutionArchitect {
    pub attributes: BasicAgent,
    pub phase: ArchitectPhase,
}

impl AgentSolutionArchitect {
    /// The waiting phase always agrees with the coarse agent state. The
    /// urls request is issued after the scope pass has already moved the
    /// agent to `Finishing`; storing the urls then parks it in
    /// `UnitTesting`, for which no behavior exists.
    pub open spec fn inv(&self) -> bool {
        match self.phase {
            ArchitectPhase::Idle => true,
            ArchitectPhase::AwaitingScope => self.attributes.state == AgentState::Discovery,
            ArchitectPhase::AwaitingUrls => self.attributes.state == AgentState::Finishing,
            ArchitectPhase::Stalled => self.attributes.state == AgentState::UnitTesting,
            ArchitectPhase::Done => true,
        }
    }

    pub fn new() -> (agent: AgentSolutionArchitect)
        ensures
            agent.inv(),
            agent.attributes.objective@
                == "Gathers information and design solutions for website development"@,
            agent.attributes.position@ == "Solutions Architect"@,
            agent.attributes.state == AgentState::Discovery,
            agent.attributes.memory@.len() == 0,
            agent.phase is Idle,
    {
        let attributes = BasicAgent::new(
            String::from_str("Gathers information and design solutions for website development"),
            String::from_str("Solutions Architect"),
        );
        AgentSolutionArchitect { attributes, phase: ArchitectPhase::Idle }
    }

    /// Begins the run from the agent's current coarse state and returns
    /// the first action to perform.
    pub fn start(&mut self, fs: &FactSheet) -> (a: ArchitectAction)
        requires
            old(self).inv(),
            old(self).phase is Idle,
        ensures
            final(self).inv(),
            old(self).attributes.state == AgentState::Discovery ==> {
                &&& a matches ArchitectAction::RequestScope { context } && context@
                    == fs.project_description@
                &&& final(self).phase is AwaitingScope
                &&& final(self).attributes.state == AgentState::Discovery
            },
            old(self).attributes.state == AgentState::UnitTesting ==> a is Stalled && final(self).phase is Stalled && final(self).attributes.state == AgentState::UnitTesting,
            old(self).attributes.state == AgentState::Working || old(self).attributes.state
                == AgentState::Finishing ==> {
                &&& a is Completed
                &&& final(self).phase is Done
                &&& final(self).attributes.state == AgentState::Finishing
            },
    {
        match self.attributes.state {
            AgentState::Discovery => {
                let context = fs.project_description.clone();
                self.phase = ArchitectPhase::AwaitingScope;
                ArchitectAction::RequestScope { context }
            },
            AgentState::UnitTesting => {
                self.phase = ArchitectPhase::Stalled;
                ArchitectAction::Stalled
            },
            _ => {
                self.attributes.update_state(AgentState::Finishing);
                self.phase = ArchitectPhase::Done;
                ArchitectAction::Completed
            },
        }
    }

    /// The scope answer came back as raw text. Text that does not parse is
    /// fatal. A parsed scope is stored on the record; when it asks for
    /// external URLs those are requested next, otherwise the agent is
    /// finished.
    pub fn on_scope_text(&mut self, fs: &mut FactSheet, response: String) -> (a: Result<
        ArchitectAction,
        AgentError,
    >)
        requires
            old(self).inv(),
            old(self).phase is AwaitingScope,
        ensures
            final(self).inv(),
            description_kept(*old(fs), *final(fs)),
            final(fs).external_urls == old(fs).external_urls,
            final(fs).backend_code == old(fs).backend_code,
            final(fs).api_endpoint_schema == old(fs).api_endpoint_schema,
            spec_parse_scope(response@) is None ==> {
                &&& a matches Err(e) && e == AgentError::Decode
                &&& final(self).phase is Done
                &&& *final(fs) == *old(fs)
            },
            spec_parse_scope(response@) matches Some(scope) ==> {
                &&& final(fs).project_scope == Some(scope)
                &&& old(fs).wf() ==> final(fs).wf()
                &&& (!scope.is_external_urls_required ==> {
                    &&& a matches Ok(act) && act is Completed
                    &&& final(self).attributes.state == AgentState::Finishing
                    &&& final(self).phase is Done
                })
                &&& (scope.is_external_urls_required ==> {
                    &&& a matches Ok(act) && act matches ArchitectAction::RequestUrls { context }
                        && context@ == old(fs).project_description@
                    &&& final(self).attributes.state == AgentState::Finishing
                    &&& final(self).phase is AwaitingUrls
                })
            },
    {
        match parse_scope(response.as_str()) {
            None => {
                self.phase = ArchitectPhase::Done;
                Err(AgentError::Decode)
            },
            Some(scope) => {
                let needs_urls = scope.is_external_urls_required;
                fs.project_scope = Some(scope);
                self.attributes.update_state(AgentState::Finishing);
                if needs_urls {
                    let context = fs.project_description.clone();
                    self.phase = ArchitectPhase::AwaitingUrls;
                    Ok(ArchitectAction::RequestUrls { context })
                } else {
                    self.phase = ArchitectPhase::Done;
                    Ok(ArchitectAction::Completed)
                }
            },
        }
    }

    /// The URL list came back as raw text. Text that does not parse is
    /// fatal. A parsed list is stored on the record; the agent then moves
    /// to `UnitTesting`, a state it defines no behavior for, so the run
    /// stalls (a known limitation that is reproduced, not repaired).
    pub fn on_urls_text(&mut self, fs: &mut FactSheet, response: String) -> (a: Result<
        ArchitectAction,
        AgentError,
    >)
        requires
            old(self).inv(),
            old(self).phase is AwaitingUrls,
        ensures
            final(self).inv(),
            description_kept(*old(fs), *final(fs)),
            final(fs).project_scope == old(fs).project_scope,
            final(fs).backend_code == old(fs).backend_code,
            final(fs).api_endpoint_schema == old(fs).api_endpoint_schema,
            spec_parse_string_array(response@) is None ==> {
                &&& a matches Err(e) && e == AgentError::Decode
                &&& final(self).phase is Done
                &&& *final(fs) == *old(fs)
            },
            spec_parse_string_array(response@) matches Some(urls) ==> {
                &&& final(fs).external_urls matches Some(u) && u.deep_view() == urls
                &&& (old(fs).wf() && old(fs).project_scope is Some ==> final(fs).wf())
                &&& a matches Ok(act) && act is Stalled
                &&& final(self).attributes.state == AgentState::UnitTesting
                &&& final(self).phase is Stalled
            },
    {
        match parse_string_array(response.as_str()) {
            None => {
                self.phase = ArchitectPhase::Done;
                Err(AgentError::Decode)
            },
            Some(urls) => {
                fs.external_urls = Some(urls);
                self.attributes.update_state(AgentState::UnitTesting);
                self.phase = ArchitectPhase::Stalled;
                Ok(ArchitectAction::Stalled)
            },
        }
    }
}

impl SpecialFunctions for AgentSolutionArchitect {
    fn get_attributes_from_agent(&self) -> &BasicAgent {
        &self.attributes
    }
}

} // verus!
