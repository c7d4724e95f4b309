//! The interfaces between a simulation, the problem it belongs to and a search strategy.

use vstd::prelude::*;

verus! {

/// A simulation state that a search can step forward and take back.
pub trait State {
    type Action;

    type ReverseAction;

    /// Whether the state is one that the simulation can be in.
    spec fn valid(&self) -> bool;

    /// The number of agents.
    spec fn agents(&self) -> nat;

    /// Whether nothing is left to do.
    spec fn done(&self) -> bool;

    /// Whether the rules let the agent take the action.
    spec fn permits(&self, agent_id: u32, action: Self::Action) -> bool;

    /// Whether the action keeps every number of the state within its machine type.
    spec fn affords(&self, agent_id: u32, action: Self::Action) -> bool;

    /// Whether the record of a step can be taken back in this state.
    spec fn reverts(&self, agent_id: u32, reverse_action: &Self::ReverseAction) -> bool;

    /// A short description of the state.
    fn info(&self) -> String
        requires
            self.valid(),
    ;

    fn complete(&self) -> (b: bool)
        requires
            self.valid(),
        ensures
            b == self.done(),
    ;

    fn agents_count(&self) -> (n: u32)
        requires
            self.valid(),
        ensures
            n == self.agents(),
    ;

    fn can_apply(&self, agent_id: u32, action: Self::Action) -> (b: bool)
        requires
            self.valid(),
            agent_id < self.agents(),
        ensures
            b == self.permits(agent_id, action),
    ;

    /// Takes one step and returns the record that takes it back.
    fn apply(&mut self, agent_id: u32, action: Self::Action) -> (reverse_action:
        Self::ReverseAction)
        requires
            old(self).valid(),
            agent_id < old(self).agents(),
            old(self).permits(agent_id, action),
            old(self).affords(agent_id, action),
        ensures
            final(self).valid(),
            final(self).reverts(agent_id, &reverse_action),
    ;

    /// Takes back the step that the record describes and returns its action.
    fn unapply(&mut self, agent_id: u32, reverse_action: Self::ReverseAction) -> (action:
        Self::Action)
        requires
            old(self).valid(),
            old(self).reverts(agent_id, &reverse_action),
        ensures
            final(self).valid(),
    ;
}

/// A problem: how its states are read and how a solution is written and scored.
pub trait Problem {
    type State: State;

    type Error;

    fn load_state(data: Vec<u8>) -> Self::State;

    fn save_solution(solution: Vec<<Self::State as State>::Action>) -> Vec<u8>;

    fn score_solution(solution: Vec<<Self::State as State>::Action>) -> Result<u64, Self::Error>;
}

/// A search strategy: it explores a state and hands each finished sequence of actions
/// to the callback.
pub trait Strategy {
    type State: State;

    fn name() -> String;

    fn run<F: Fn(Vec<<Self::State as State>::Action>)>(state: Self::State, callback: F);
}

} // verus!
