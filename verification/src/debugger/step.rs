//! Stepping the machine one instruction at a time.
use vstd::prelude::*;

use super::parser_data::ParserData;
use super::{DebuggerState, InvalidDbgArgError};

verus! {

/// The stepping state of the debugger.
pub struct StepData {
    pub addresses: ParserData,
    pub is_stepping: bool,
    pub steps_to_run: usize,
}

impl StepData {
    /// Not stepping, with no steps to run and no addresses.
    pub open spec fn is_idle(&self) -> bool {
        &&& self.addresses.is_empty()
        &&& !self.is_stepping
        &&& self.steps_to_run == 0
    }

    /// Not stepping.
    pub fn new() -> (s: Self)
        ensures
            s.is_idle(),
    {
        Self { addresses: ParserData::new(), is_stepping: false, steps_to_run: 0 }
    }
}

/// The subcommands of the step command.
#[derive(Clone, PartialEq, Eq, Structural, Debug, Copy)]
pub enum StepSubCommandTypes {
    Step,
}

impl StepSubCommandTypes {
    /// Every word names the plain step.
    pub fn from_word(value: &str) -> (c: Self)
        ensures
            c == StepSubCommandTypes::Step,
    {
        StepSubCommandTypes::Step
    }
}

/// Step one instruction: set one step to run, and start stepping.
pub fn step_op(debug: &mut DebuggerState) -> (r: Result<(), InvalidDbgArgError>)
    ensures
        r is Ok,
        final(debug).breakpoint_state == old(debug).breakpoint_state,
        final(debug).step_state.addresses == old(debug).step_state.addresses,
        final(debug).step_state.steps_to_run == 1,
        final(debug).step_state.is_stepping,
{
    debug.step_state.steps_to_run = 1;
    debug.step_state.is_stepping = true;
    Ok(())
}

/// The step command: its first argument selects the subcommand, which always steps.
/// There must be at least one argument.
pub fn step_command(args: &Vec<String>, debug: &mut DebuggerState) -> (r: Result<(), InvalidDbgArgError>)
    requires
        args@.len() >= 1,
    ensures
        r is Ok,
        final(debug).breakpoint_state == old(debug).breakpoint_state,
        final(debug).step_state.addresses == old(debug).step_state.addresses,
        final(debug).step_state.steps_to_run == 1,
        final(debug).step_state.is_stepping,
{
    let sub = StepSubCommandTypes::from_word(args[0].as_str());
    match sub {
        StepSubCommandTypes::Step => step_op(debug),
    }
}

} // verus!
