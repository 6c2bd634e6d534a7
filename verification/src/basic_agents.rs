use vstd::prelude::*;

verus! {

/// One entry in an agent's conversation log.
#[derive(Clone, Debug)]
pub struct Message {
    pub role: String,
    pub content: String,
}

/// Lifecycle position of an agent.
///
/// Every agent starts in `Discovery` and ends in `Finishing`; the only
/// backward edge ever taken is `UnitTesting -> Working`, used to retry a
/// failed validation while the retry budget lasts.
#[derive(Clone, Copy, Debug, PartialEq, Eq, Structural)]
pub enum AgentState {
    Discovery,
    Working,
    UnitTesting,
    Finishing,
}

/// Identity, lifecycle state and conversation memory shared by all agents.
#[derive(Clone, Debug)]
pub struct BasicAgent {
    pub objective: String,
    pub position: String,
    pub state: AgentState,
    pub memory: Vec<Message>,
}

impl BasicAgent {
    /// A fresh descriptor: the agent starts in `Discovery` with empty memory.
    pub fn new(objective: String, position: String) -> (agent: BasicAgent)
        ensures
            agent.objective == objective,
            agent.position == position,
            agent.state == AgentState::Discovery,
            agent.memory@ == Seq::<Message>::empty(),
    {
        BasicAgent { objective, position, state: AgentState::Discovery, memory: Vec::new() }
    }

    /// Moves the agent to `new_state`; everything else is untouched.
    pub fn update_state(&mut self, new_state: AgentState)
        ensures
            final(self).state == new_state,
            final(self).objective == old(self).objective,
            final(self).position == old(self).position,
            final(self).memory == old(self).memory,
    {
        self.state = new_state;
    }
}

} // verus!
