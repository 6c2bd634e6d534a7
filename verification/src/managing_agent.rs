use vstd::prelude::*;

use crate::agent_architect::AgentSolutionArchitect;
use crate::agent_backend::AgentBackendDeveloper;
use crate::agent_traits::{FactSheet, SpecialFunctions};
use crate::basic_agents::{AgentState, BasicAgent};

verus! {

/// The closed set of agent kinds the manager can register. New kinds are
/// added here (and by implementing `SpecialFunctions`), not by changing
/// the manager itself.
#[derive(Debug)]
pub enum AgentKind {
    Architect(AgentSolutionArchitect),
    Backend(AgentBackendDeveloper),
}

impl SpecialFunctions for AgentKind {
    fn get_attributes_from_agent(&self) -> &BasicAgent {
        match self {
            AgentKind::Architect(a) => a.get_attributes_from_agent(),
            AgentKind::Backend(a) => a.get_attributes_from_agent(),
        }
    }
}

/// Builds the ordered agent pipeline for one user request and owns the
/// shared record the agents work on. The record's description is fixed at
/// construction; no function of this library ever rewrites it.
#[derive(Debug)]
pub struct ManagingAgent {
    pub attributes: BasicAgent,
    pub factsheet: FactSheet,
    pub agents: Vec<AgentKind>,
}

impl ManagingAgent {
    /// A fresh pipeline around a derived project description. The
    /// embedding program obtains the description with one
    /// prompted-function call on the raw user request.
    pub fn new(project_description: String) -> (m: ManagingAgent)
        ensures
            m.attributes.objective@ == "Manage agents who is building a website for the user"@,
            m.attributes.position@ == "Manager"@,
            m.attributes.state == AgentState::Discovery,
            m.attributes.memory@.len() == 0,
            m.factsheet.project_description == project_description,
            m.factsheet.project_scope is None,
            m.factsheet.external_urls is None,
            m.factsheet.backend_code is None,
            m.factsheet.api_endpoint_schema is None,
            m.factsheet.wf(),
            m.agents@.len() == 0,
    {
        let attributes = BasicAgent::new(
            String::from_str("Manage agents who is building a website for the user"),
            String::from_str("Manager"),
        );
        ManagingAgent { attributes, factsheet: FactSheet::new(project_description), agents: Vec::new() }
    }

    /// Appends one agent to the pipeline; agents run in registration
    /// order, and nothing else about the manager changes.
    pub fn add_agent(&mut self, agent: AgentKind)
        ensures
            final(self).agents@ == old(self).agents@.push(agent),
            final(self).factsheet == old(self).factsheet,
            final(self).attributes == old(self).attributes,
    {
        self.agents.push(agent);
    }

    /// The current pipeline composition: one fresh solution-scoping agent
    /// and nothing else.
    pub fn create_agents(&mut self)
        ensures
            final(self).agents@.len() == old(self).agents@.len() + 1,
            final(self).agents@.subrange(0, old(self).agents@.len() as int) == old(self).agents@,
            final(self).agents@.last() matches AgentKind::Architect(a) && a.phase is Idle
                && a.attributes.state == AgentState::Discovery && a.attributes.memory@.len() == 0
                && a.attributes.objective@
                == "Gathers information and design solutions for website development"@
                && a.attributes.position@ == "Solutions Architect"@,
            final(self).factsheet == old(self).factsheet,
            final(self).attributes == old(self).attributes,
    {
        self.add_agent(AgentKind::Architect(AgentSolutionArchitect::new()));
        proof {
            assert(self.agents@.subrange(0, old(self).agents@.len() as int) =~= old(self).agents@);
        }
    }
}

} // verus!
