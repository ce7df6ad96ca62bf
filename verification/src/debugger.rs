//! The debugger: its state, its commands, and the decisions of its run loop.
use vstd::prelude::*;

pub mod breakpoints;
pub mod input;
pub mod parser_data;
pub mod step;
pub mod utils;

use breakpoints::{
    route_break_command, spec_breakpoint_subcommand, tag_word, tag_word_check, BreakpointData,
    BreakpointSubCommandTypes,
};
use parser_data::{table_names, table_text};
use step::{step_command, StepData};
use crate::emu::{spec_tick, step_cpu, tick_ready, tick_ready_check, CpuTick, VirtualMachine};
use crate::emu::misc::{concat_all, dbg_print, print_args_ready, print_ready, print_text};
use crate::memory::{dump_text, DUMP_DEFAULT_ADDR};
use input::texts;
use utils::{address_literal, address_literal_check, literal_value, spec_remove_value, string_to_hex};
use crate::numfmt::{hex_string, hex_text};

verus! {

/// Error for a bad argument passed to the debugger.
#[derive(Debug, Clone)]
pub struct InvalidDbgArgError {
    value: String,
}

impl View for InvalidDbgArgError {
    type V = Seq<char>;

    closed spec fn view(&self) -> Seq<char> {
        self.value@
    }
}

impl InvalidDbgArgError {
    /// An error with the given text.
    pub fn new(value: String) -> (e: Self)
        ensures
            e@ == value@,
    {
        Self { value }
    }

    /// The text of this error.
    pub fn message(&self) -> (s: &String)
        ensures
            s@ == self@,
    {
        &self.value
    }

    /// The error with the given text.
    pub closed spec fn spec_from_text(value: String) -> Self {
        Self { value }
    }

    /// The view of an error made from a text is that text.
    pub proof fn lemma_from_text(value: String)
        ensures
            Self::spec_from_text(value)@ == value@,
    {
    }
}

impl From<String> for InvalidDbgArgError {
    fn from(value: String) -> (e: Self) {
        Self { value }
    }
}

impl vstd::std_specs::convert::FromSpecImpl<String> for InvalidDbgArgError {
    open spec fn obeys_from_spec() -> bool {
        true
    }

    open spec fn from_spec(v: String) -> Self {
        InvalidDbgArgError::spec_from_text(v)
    }
}

/// The state of the debugger: its breakpoints and its stepping.
pub struct DebuggerState {
    pub breakpoint_state: BreakpointData,
    pub step_state: StepData,
}

impl DebuggerState {
    /// No breakpoints, not stepping.
    pub fn new() -> (d: Self)
        ensures
            d.breakpoint_state.is_empty(),
            d.step_state.is_idle(),
    {
        Self { breakpoint_state: BreakpointData::new(), step_state: StepData::new() }
    }
}

/// The commands of the debugger.
#[derive(Debug, PartialEq, Eq, Structural, Clone, Copy)]
pub enum DebugCommandTypes {
    Help,
    Break,
    Continue,
    Step,
    Dump,
    Print,
    Watch,
    Exit,
    Invalid,
}

/// The command that a word names: h/help, c/r, q/quit/exit, b/break, p/print, d/dump,
/// s/step; anything else is invalid.
pub open spec fn spec_command(s: Seq<char>) -> DebugCommandTypes {
    if s == "h"@ || s == "help"@ {
        DebugCommandTypes::Help
    } else if s == "c"@ || s == "r"@ {
        DebugCommandTypes::Continue
    } else if s == "q"@ || s == "quit"@ || s == "exit"@ {
        DebugCommandTypes::Exit
    } else if s == "b"@ || s == "break"@ {
        DebugCommandTypes::Break
    } else if s == "p"@ || s == "print"@ {
        DebugCommandTypes::Print
    } else if s == "d"@ || s == "dump"@ {
        DebugCommandTypes::Dump
    } else if s == "s"@ || s == "step"@ {
        DebugCommandTypes::Step
    } else {
        DebugCommandTypes::Invalid
    }
}

/// Whether `word` is the text `lit`.
pub fn word_is(word: &String, lit: &str) -> (b: bool)
    ensures
        b == (word@ == lit@),
{
    let l = String::from_str(lit);
    *word == l
}

impl DebugCommandTypes {
    /// The command that a word names.
    pub fn from_word(value: &str) -> (c: Self)
        ensures
            c == spec_command(value@),
    {
        let w = String::from_str(value);
        if word_is(&w, "h") || word_is(&w, "help") {
            DebugCommandTypes::Help
        } else if word_is(&w, "c") || word_is(&w, "r") {
            DebugCommandTypes::Continue
        } else if word_is(&w, "q") || word_is(&w, "quit") || word_is(&w, "exit") {
            DebugCommandTypes::Exit
        } else if word_is(&w, "b") || word_is(&w, "break") {
            DebugCommandTypes::Break
        } else if word_is(&w, "p") || word_is(&w, "print") {
            DebugCommandTypes::Print
        } else if word_is(&w, "d") || word_is(&w, "dump") {
            DebugCommandTypes::Dump
        } else if word_is(&w, "s") || word_is(&w, "step") {
            DebugCommandTypes::Step
        } else {
            DebugCommandTypes::Invalid
        }
    }
}

/// What the run loop of the debugger does next.
#[derive(Debug, PartialEq, Eq, Structural, Clone, Copy)]
pub enum DebuggerAction {
    /// Stop the machine: there is a breakpoint at this address.
    Halt(usize),
    /// Run one CPU step.
    Run,
    /// Run one CPU step of a counted run of steps.
    StepCounted,
    /// Ask the user for a command.
    Prompt,
}

/// The next action of the run loop: a running machine (not stepping) halts at a
/// breakpoint on the PC or else runs; a stepping debugger runs a counted step; otherwise
/// the user is asked.
pub open spec fn spec_next_action(debug: &DebuggerState, vm_running: bool, pc: usize) -> DebuggerAction {
    if vm_running && !debug.step_state.is_stepping {
        if debug.breakpoint_state.addresses@.contains(pc) {
            DebuggerAction::Halt(pc)
        } else {
            DebuggerAction::Run
        }
    } else if debug.step_state.is_stepping {
        DebuggerAction::StepCounted
    } else {
        DebuggerAction::Prompt
    }
}

/// The next action of the run loop.
pub fn next_action(debug: &DebuggerState, vm_running: bool, pc: usize) -> (a: DebuggerAction)
    ensures
        a == spec_next_action(debug, vm_running, pc),
{
    if vm_running && !debug.step_state.is_stepping {
        match debug.breakpoint_state.get(pc) {
            Some(value) => DebuggerAction::Halt(value),
            None => DebuggerAction::Run,
        }
    } else if debug.step_state.is_stepping {
        DebuggerAction::StepCounted
    } else {
        DebuggerAction::Prompt
    }
}

/// After a counted step that left the machine `running`: one step fewer to run; when
/// none is left, stepping ends and the machine stops. Returns whether the machine runs.
pub fn finish_counted_step(debug: &mut DebuggerState, running: bool) -> (vm_running: bool)
    requires
        old(debug).step_state.steps_to_run >= 1,
    ensures
        final(debug).breakpoint_state == old(debug).breakpoint_state,
        final(debug).step_state.addresses == old(debug).step_state.addresses,
        final(debug).step_state.steps_to_run == old(debug).step_state.steps_to_run - 1,
        final(debug).step_state.is_stepping == (old(debug).step_state.is_stepping
            && final(debug).step_state.steps_to_run != 0),
        vm_running == (running && final(debug).step_state.steps_to_run != 0),
{
    debug.step_state.steps_to_run = debug.step_state.steps_to_run - 1;
    if debug.step_state.steps_to_run == 0 {
        debug.step_state.is_stepping = false;
        false
    } else {
        running
    }
}

/// The error that an invalid command gives, after the help text.
pub fn invalid_command_error() -> (e: InvalidDbgArgError)
    ensures
        e@ == "Invalid Command."@,
{
    InvalidDbgArgError::new(String::from_str("Invalid Command."))
}

/// What the breakpoint command shows after deleting the breakpoint at `a`.
pub open spec fn deleted_text(a: usize) -> Seq<char> {
    "Deleted 0x"@ + hex_text(a as nat, 6, true) + " from breakpoints"@
}

/// The error for deleting a breakpoint at `a` where there is none.
pub open spec fn missing_text(a: usize) -> Seq<char> {
    "Breakpoint 0x"@ + hex_text(a as nat, 6, true) + " does not exist"@
}

/// What the breakpoint command shows after naming `a` by the new tag `tag`.
pub open spec fn tag_set_text(tag: Seq<char>, a: usize) -> Seq<char> {
    "Set tag "@ + tag + " at address 0x"@ + hex_text(a as nat, 6, true)
}

/// What the breakpoint command shows after moving the tag `tag` to `a`.
pub open spec fn tag_updated_text(tag: Seq<char>, a: usize) -> Seq<char> {
    "Updated tag "@ + tag + " to address 0x"@ + hex_text(a as nat, 6, true)
}

/// What the breakpoint command shows after deleting the tag `tag` and its address `a`.
pub open spec fn tag_deleted_text(tag: Seq<char>, a: usize) -> Seq<char> {
    deleted_text(a) + "\nDeleted "@ + tag + " from tags"@
}

/// The error for deleting a tag that is not in the table.
pub open spec fn missing_tag_text(tag: Seq<char>) -> Seq<char> {
    "Tag "@ + tag + " does not exist."@
}


/// What the front end shows after a debugger command.
#[derive(Debug, Clone)]
pub enum DebugOutput {
    /// Nothing.
    Quiet,
    /// The help text.
    Help,
    /// This text.
    Text(String),
    /// Nothing: the program ends.
    Exit,
    /// The command takes an address expression other than a literal address or a plain
    /// tag name, which this debugger cannot read.
    Unsupported,
}

/// Set a breakpoint at the PC (the breakpoint command without arguments).
pub fn set_breakpoint_here(debug: &mut DebuggerState, vm: &VirtualMachine) -> (r: Result<(), InvalidDbgArgError>)
    requires
        old(debug).breakpoint_state.wf(),
    ensures
        final(debug).step_state == old(debug).step_state,
        final(debug).breakpoint_state.tag_db == old(debug).breakpoint_state.tag_db,
        r is Ok <==> !old(debug).breakpoint_state.addresses@.contains(vm.cpu.spec_pc() as usize),
        r is Ok ==> final(debug).breakpoint_state.addresses@ == old(
            debug,
        ).breakpoint_state.addresses@.push(vm.cpu.spec_pc() as usize),
        r is Err ==> final(debug).breakpoint_state.addresses@ == old(debug).breakpoint_state.addresses@,
{
    let pc = vm.cpu.get_pc();
    debug.breakpoint_state.insert(pc)
}

/// Whether the command `cmd` can run on `args`: the breakpoint and step commands read a
/// first argument, print reads an address of at most eight hex digits, and the dump and
/// watch commands are not written.
pub open spec fn debug_op_args_ready(cmd: DebugCommandTypes, args: Seq<String>) -> bool {
    &&& (cmd == DebugCommandTypes::Break || cmd == DebugCommandTypes::Step) ==> args.len() >= 1
    &&& (cmd == DebugCommandTypes::Print && args.len() >= 1) ==> print_ready(concat_all(texts(args)))
    &&& cmd != DebugCommandTypes::Dump
    &&& cmd != DebugCommandTypes::Watch
}

/// Whether `debug_op` can run the command `cmd` on `args` (see `debug_op_args_ready`),
/// with well-formed breakpoints and memory.
pub open spec fn debug_op_ready(cmd: DebugCommandTypes, args: Seq<String>, debug: &DebuggerState, vm: &VirtualMachine) -> bool {
    &&& debug.breakpoint_state.wf()
    &&& vm.memory.wf()
    &&& debug_op_args_ready(cmd, args)
}

/// Whether the command `cmd` can run on `args` (see `debug_op_args_ready`).
pub fn debug_op_args_check(cmd: DebugCommandTypes, args: &Vec<String>) -> (b: bool)
    ensures
        b == debug_op_args_ready(cmd, args@),
{
    match cmd {
        DebugCommandTypes::Break => args.len() >= 1,
        DebugCommandTypes::Step => args.len() >= 1,
        DebugCommandTypes::Print => args.len() == 0 || print_args_ready(args),
        DebugCommandTypes::Dump => false,
        DebugCommandTypes::Watch => false,
        _ => true,
    }
}

/// Run a debugger command on its arguments: help shows the help text; continue sets
/// the machine running; step runs one step; print shows the byte and the word at the
/// address that its arguments give (see `print_text`), or without arguments a memory
/// dump from the first LoRom bank; exit ends the program; an invalid command shows the help text and fails;
/// the breakpoint command lists the breakpoints, sets one at a literal address
/// (`b $XXXXXX`) and deletes the one at a literal address (`b del $XXXXXX`); a plain tag
/// name sets that tag at the PC (`b tag`), and deletes the tag with the breakpoint at its
/// address (`b del tag`); other address expressions (sums, offsets) are not read by this
/// debugger.
pub fn debug_op(
    cmd: DebugCommandTypes,
    args: &Vec<String>,
    debug: &mut DebuggerState,
    vm: &mut VirtualMachine,
) -> (r: (DebugOutput, Result<(), InvalidDbgArgError>))
    requires
        debug_op_ready(cmd, args@, old(debug), old(vm)),
    ensures
        cmd != DebugCommandTypes::Break ==> final(debug).breakpoint_state == old(debug).breakpoint_state,
        final(debug).breakpoint_state.wf(),
        final(vm).cpu == old(vm).cpu,
        final(vm).memory == old(vm).memory,
        final(vm).romdata == old(vm).romdata,
        final(vm).clocks == old(vm).clocks,
        cmd != DebugCommandTypes::Step ==> final(debug).step_state == old(debug).step_state,
        final(vm).is_running == (old(vm).is_running || cmd == DebugCommandTypes::Continue),
        match cmd {
            DebugCommandTypes::Help => r.0 is Help && r.1 is Ok,
            DebugCommandTypes::Continue => r.0 is Quiet && r.1 is Ok,
            DebugCommandTypes::Step => r.0 is Quiet && r.1 is Ok && final(debug).step_state.steps_to_run
                == 1 && final(debug).step_state.is_stepping && final(debug).step_state.addresses
                == old(debug).step_state.addresses,
            DebugCommandTypes::Print => r.1 is Ok && (r.0 matches DebugOutput::Text(t) && t@ == if args@.len()
                == 0 {
                dump_text(old(vm).memory@, DUMP_DEFAULT_ADDR as int)
            } else {
                print_text(old(vm).memory@, concat_all(texts(args@)))
            }),
            DebugCommandTypes::Exit => r.0 is Exit && r.1 is Ok,
            DebugCommandTypes::Invalid => r.0 is Help && (r.1 matches Err(e) && e@ == "Invalid Command."@),
            DebugCommandTypes::Break => match spec_breakpoint_subcommand(args@[0]@) {
                BreakpointSubCommandTypes::List => r.1 is Ok && (r.0 matches DebugOutput::Text(t)
                    && t@ == table_text(
                    old(debug).breakpoint_state.addresses@,
                    table_names(old(debug).breakpoint_state.tag_db, old(debug).breakpoint_state.addresses@),
                ))
                    && final(debug).breakpoint_state == old(debug).breakpoint_state,
                BreakpointSubCommandTypes::Add => if args@.len() == 1 && address_literal(args@[0]@) {
                    let a = literal_value(args@[0]@);
                    &&& r.0 is Quiet
                    &&& final(debug).breakpoint_state.tag_db == old(debug).breakpoint_state.tag_db
                    &&& (r.1 is Ok <==> !old(debug).breakpoint_state.addresses@.contains(a))
                    &&& r.1 is Ok ==> final(debug).breakpoint_state.addresses@ == old(
                        debug,
                    ).breakpoint_state.addresses@.push(a)
                    &&& r.1 is Err ==> final(debug).breakpoint_state.addresses@ == old(
                        debug,
                    ).breakpoint_state.addresses@
                } else if args@.len() == 1 && tag_word(args@[0]@) {
                    let tag = args@[0]@;
                    let pc = old(vm).cpu.spec_pc() as usize;
                    let tags = old(debug).breakpoint_state.tag_db@;
                    &&& r.1 is Ok
                    &&& final(debug).breakpoint_state.tag_db@ == tags.insert(tag, pc)
                    &&& tags.contains_key(tag) ==> {
                        &&& final(debug).breakpoint_state.addresses@ == spec_remove_value(
                            old(debug).breakpoint_state.addresses@,
                            tags[tag],
                        ).push(pc)
                        &&& r.0 matches DebugOutput::Text(t) && t@ == tag_updated_text(tag, pc)
                    }
                    &&& !tags.contains_key(tag) ==> {
                        &&& final(debug).breakpoint_state.addresses@ == old(
                            debug,
                        ).breakpoint_state.addresses@.push(pc)
                        &&& r.0 matches DebugOutput::Text(t) && t@ == tag_set_text(tag, pc)
                    }
                } else {
                    r.0 is Unsupported && r.1 is Ok && final(debug).breakpoint_state == old(
                        debug,
                    ).breakpoint_state
                },
                BreakpointSubCommandTypes::Delete => if args@.len() == 2 && address_literal(args@[1]@) {
                    let a = literal_value(args@[1]@);
                    &&& final(debug).breakpoint_state.tag_db == old(debug).breakpoint_state.tag_db
                    &&& old(debug).breakpoint_state.addresses@.contains(a) ==> {
                        &&& r.1 is Ok
                        &&& final(debug).breakpoint_state.addresses@ == spec_remove_value(
                            old(debug).breakpoint_state.addresses@,
                            a,
                        )
                        &&& r.0 matches DebugOutput::Text(t) && t@ == deleted_text(a)
                    }
                    &&& !old(debug).breakpoint_state.addresses@.contains(a) ==> {
                        &&& r.0 is Quiet
                        &&& final(debug).breakpoint_state.addresses@ == old(
                            debug,
                        ).breakpoint_state.addresses@
                        &&& r.1 matches Err(e) && e@ == missing_text(a)
                    }
                } else if args@.len() == 2 && tag_word(args@[1]@) {
                    let tag = args@[1]@;
                    let tags = old(debug).breakpoint_state.tag_db@;
                    &&& tags.contains_key(tag) && old(debug).breakpoint_state.addresses@.contains(
                        tags[tag],
                    ) ==> {
                        &&& r.1 is Ok
                        &&& final(debug).breakpoint_state.tag_db@ == tags.remove(tag)
                        &&& final(debug).breakpoint_state.addresses@ == spec_remove_value(
                            old(debug).breakpoint_state.addresses@,
                            tags[tag],
                        )
                        &&& r.0 matches DebugOutput::Text(t) && t@ == tag_deleted_text(tag, tags[tag])
                    }
                    &&& tags.contains_key(tag) && !old(debug).breakpoint_state.addresses@.contains(
                        tags[tag],
                    ) ==> {
                        &&& r.0 is Quiet
                        &&& final(debug).breakpoint_state == old(debug).breakpoint_state
                        &&& r.1 matches Err(e) && e@ == missing_text(tags[tag])
                    }
                    &&& !tags.contains_key(tag) ==> {
                        &&& r.0 is Quiet
                        &&& final(debug).breakpoint_state == old(debug).breakpoint_state
                        &&& r.1 matches Err(e) && e@ == missing_tag_text(tag)
                    }
                } else {
                    r.0 is Unsupported && r.1 is Ok && final(debug).breakpoint_state == old(
                        debug,
                    ).breakpoint_state
                },
            },
            _ => false,
        },
{
    match cmd {
        DebugCommandTypes::Help => (DebugOutput::Help, Ok(())),
        DebugCommandTypes::Continue => {
            vm.is_running = true;
            (DebugOutput::Quiet, Ok(()))
        },
        DebugCommandTypes::Step => {
            let r = step_command(args, debug);
            (DebugOutput::Quiet, r)
        },
        DebugCommandTypes::Print => {
            if args.len() == 0 {
                (DebugOutput::Text(vm.memory.bytes_text(None)), Ok(()))
            } else {
                (DebugOutput::Text(dbg_print(args, &vm.memory)), Ok(()))
            }
        },
        DebugCommandTypes::Exit => (DebugOutput::Exit, Ok(())),
        DebugCommandTypes::Invalid => (DebugOutput::Help, Err(invalid_command_error())),
        DebugCommandTypes::Break => {
            let (sub, _first) = route_break_command(args);
            match sub {
                BreakpointSubCommandTypes::List => (
                    DebugOutput::Text(debug.breakpoint_state.table_text()),
                    Ok(()),
                ),
                BreakpointSubCommandTypes::Add => {
                    if args.len() == 1 && address_literal_check(args[0].as_str()) {
                        match string_to_hex(args[0].as_str()) {
                            Ok(address) => (DebugOutput::Quiet, debug.breakpoint_state.insert(address)),
                            Err(_e) => (DebugOutput::Unsupported, Ok(())),
                        }
                    } else if args.len() == 1 && tag_word_check(args[0].as_str()) {
                        let tag = args[0].as_str();
                        let pc = vm.cpu.get_pc();
                        let digits = hex_string(pc, 6, true);
                        match debug.breakpoint_state.insert_tag(tag, pc) {
                            Some(_moved) => {
                                let mut t = String::from_str("Updated tag ");
                                t.append(tag);
                                t.append(" to address 0x");
                                t.append(digits.as_str());
                                (DebugOutput::Text(t), Ok(()))
                            },
                            None => {
                                let mut t = String::from_str("Set tag ");
                                t.append(tag);
                                t.append(" at address 0x");
                                t.append(digits.as_str());
                                (DebugOutput::Text(t), Ok(()))
                            },
                        }
                    } else {
                        (DebugOutput::Unsupported, Ok(()))
                    }
                },
                BreakpointSubCommandTypes::Delete => {
                    if args.len() == 2 && address_literal_check(args[1].as_str()) {
                        match string_to_hex(args[1].as_str()) {
                            Ok(address) => {
                                let digits = hex_string(address, 6, true);
                                match debug.breakpoint_state.get(address) {
                                    Some(_value) => {
                                        debug.breakpoint_state.delete(address);
                                        let mut t = String::from_str("Deleted 0x");
                                        t.append(digits.as_str());
                                        t.append(" from breakpoints");
                                        (DebugOutput::Text(t), Ok(()))
                                    },
                                    None => {
                                        let mut t = String::from_str("Breakpoint 0x");
                                        t.append(digits.as_str());
                                        t.append(" does not exist");
                                        (DebugOutput::Quiet, Err(InvalidDbgArgError::new(t)))
                                    },
                                }
                            },
                            Err(_e) => (DebugOutput::Unsupported, Ok(())),
                        }
                    } else if args.len() == 2 && tag_word_check(args[1].as_str()) {
                        let tag = args[1].as_str();
                        let found: Option<usize> = match debug.breakpoint_state.get_tag(tag) {
                            Some(v) => Some(*v),
                            None => None,
                        };
                        match found {
                            Some(address) => {
                                let digits = hex_string(address, 6, true);
                                match debug.breakpoint_state.get(address) {
                                    Some(_value) => {
                                        debug.breakpoint_state.delete_tag(tag);
                                        let mut t = String::from_str("Deleted 0x");
                                        t.append(digits.as_str());
                                        t.append(" from breakpoints");
                                        t.append("\nDeleted ");
                                        t.append(tag);
                                        t.append(" from tags");
                                        (DebugOutput::Text(t), Ok(()))
                                    },
                                    None => {
                                        let mut t = String::from_str("Breakpoint 0x");
                                        t.append(digits.as_str());
                                        t.append(" does not exist");
                                        (DebugOutput::Quiet, Err(InvalidDbgArgError::new(t)))
                                    },
                                }
                            },
                            None => {
                                let mut t = String::from_str("Tag ");
                                t.append(tag);
                                t.append(" does not exist.");
                                (DebugOutput::Quiet, Err(InvalidDbgArgError::new(t)))
                            },
                        }
                    } else {
                        (DebugOutput::Unsupported, Ok(()))
                    }
                },
            }
        },
        DebugCommandTypes::Dump => (DebugOutput::Quiet, Ok(())),
        DebugCommandTypes::Watch => (DebugOutput::Quiet, Ok(())),
    }
}

/// What one pass of the debugger's run loop did.
#[derive(Debug, PartialEq, Eq, Structural, Clone, Copy)]
pub enum RunTick {
    /// The machine stopped at a breakpoint at this address.
    Halted(usize),
    /// The CPU ticked.
    Ticked(CpuTick),
    /// The machine is stopped: the front end asks the user for a command.
    Prompt,
}

/// Whether the machine keeps running after a tick.
pub open spec fn tick_keeps_running(t: CpuTick) -> bool {
    match t {
        CpuTick::Executed(running) => running,
        CpuTick::Pended => true,
    }
}

/// Whether a pass of the run loop runs without a fault: a tick that it makes is ready,
/// and a stepping debugger has a step left to count.
pub open spec fn run_tick_ready(debug: &DebuggerState, vm: &VirtualMachine) -> bool {
    &&& vm.wf()
    &&& debug.step_state.is_stepping ==> debug.step_state.steps_to_run >= 1
    &&& match spec_next_action(debug, vm.is_running, vm.cpu.spec_pc() as usize) {
        DebuggerAction::Run => tick_ready(vm),
        DebuggerAction::StepCounted => tick_ready(vm),
        _ => true,
    }
}

/// Whether a pass of the run loop runs without a fault (see `run_tick_ready`).
pub fn run_tick_ready_check(debug: &DebuggerState, vm: &VirtualMachine) -> (b: bool)
    requires
        vm.wf(),
    ensures
        b == run_tick_ready(debug, vm),
{
    if debug.step_state.is_stepping && debug.step_state.steps_to_run == 0 {
        return false;
    }
    match next_action(debug, vm.is_running, vm.cpu.get_pc()) {
        DebuggerAction::Run => tick_ready_check(vm),
        DebuggerAction::StepCounted => tick_ready_check(vm),
        _ => true,
    }
}

/// One pass of the debugger's run loop (see `spec_next_action`): a running machine halts
/// at a breakpoint on the PC, or else ticks; a stepping debugger ticks and counts the
/// step, stopping the machine after the last one; otherwise nothing changes and the
/// front end prompts.
pub fn run_tick(debug: &mut DebuggerState, vm: &mut VirtualMachine) -> (t: RunTick)
    requires
        run_tick_ready(old(debug), old(vm)),
    ensures
        final(vm).wf(),
        final(vm).memory == old(vm).memory,
        final(vm).romdata == old(vm).romdata,
        final(debug).breakpoint_state == old(debug).breakpoint_state,
        final(debug).step_state.addresses == old(debug).step_state.addresses,
        match spec_next_action(old(debug), old(vm).is_running, old(vm).cpu.spec_pc() as usize) {
            DebuggerAction::Halt(a) => {
                &&& t == RunTick::Halted(a)
                &&& !final(vm).is_running
                &&& final(vm).cpu == old(vm).cpu
                &&& final(vm).clocks == old(vm).clocks
                &&& final(debug).step_state == old(debug).step_state
            },
            DebuggerAction::Run => {
                let (c, k, tick) = spec_tick(old(vm));
                &&& t == RunTick::Ticked(tick)
                &&& final(vm).cpu == c
                &&& final(vm).clocks == k
                &&& final(vm).is_running == tick_keeps_running(tick)
                &&& final(debug).step_state == old(debug).step_state
            },
            DebuggerAction::StepCounted => {
                let (c, k, tick) = spec_tick(old(vm));
                let left = old(debug).step_state.steps_to_run - 1;
                &&& t == RunTick::Ticked(tick)
                &&& final(vm).cpu == c
                &&& final(vm).clocks == k
                &&& final(debug).step_state.steps_to_run == left
                &&& final(debug).step_state.is_stepping == (left != 0)
                &&& final(vm).is_running == (tick_keeps_running(tick) && left != 0)
            },
            DebuggerAction::Prompt => {
                &&& t == RunTick::Prompt
                &&& *final(vm) == *old(vm)
                &&& *final(debug) == *old(debug)
            },
        },
{
    let pc = vm.cpu.get_pc();
    match next_action(debug, vm.is_running, pc) {
        DebuggerAction::Halt(value) => {
            vm.is_running = false;
            RunTick::Halted(value)
        },
        DebuggerAction::Run => {
            let tick = step_cpu(vm);
            vm.is_running = match tick {
                CpuTick::Executed(running) => running,
                CpuTick::Pended => true,
            };
            RunTick::Ticked(tick)
        },
        DebuggerAction::StepCounted => {
            let tick = step_cpu(vm);
            let running = match tick {
                CpuTick::Executed(running) => running,
                CpuTick::Pended => true,
            };
            vm.is_running = finish_counted_step(debug, running);
            RunTick::Ticked(tick)
        },
        DebuggerAction::Prompt => RunTick::Prompt,
    }
}

/// A running machine that is not being stepped halts at a breakpoint on its PC, and
/// after halting it waits for the user.
pub proof fn lemma_breakpoint_halts(debug: DebuggerState, pc: usize)
    requires
        !debug.step_state.is_stepping,
        debug.breakpoint_state.addresses@.contains(pc),
    ensures
        spec_next_action(&debug, true, pc) == DebuggerAction::Halt(pc),
        spec_next_action(&debug, false, pc) == DebuggerAction::Prompt,
{
}

/// The step command runs exactly one instruction: right after it the loop runs a
/// counted step, and once that step is counted the machine is stopped and the user is
/// asked again, wherever the PC is.
pub proof fn lemma_step_runs_one(debug: DebuggerState, running: bool, pc: usize, next_pc: usize)
    requires
        debug.step_state.is_stepping,
        debug.step_state.steps_to_run == 1,
    ensures
        spec_next_action(&debug, running, pc) == DebuggerAction::StepCounted,
        spec_next_action(
            &DebuggerState {
                step_state: StepData { steps_to_run: 0, is_stepping: false, ..debug.step_state },
                ..debug
            },
            false,
            next_pc,
        ) == DebuggerAction::Prompt,
{
}

/// The words "c" and "r", and no others, name the continue command.
pub proof fn lemma_continue_words(s: Seq<char>)
    ensures
        spec_command(s) == DebugCommandTypes::Continue <==> (s == "c"@ || s == "r"@),
{
    reveal_strlit("c");
    reveal_strlit("r");
    reveal_strlit("h");
    reveal_strlit("help");
    assert("c"@[0] != "h"@[0]);
    assert("r"@[0] != "h"@[0]);
    assert("c"@.len() != "help"@.len());
    assert("r"@.len() != "help"@.len());
    assert("c"@ != "r"@) by {
        assert("c"@[0] != "r"@[0]);
    }
}

/// What the run loop does next, for every state: a running machine that is not being
/// stepped runs a CPU step unless its PC holds a breakpoint, where it halts; a stepping
/// debugger runs a counted step; a stopped machine that is not stepping waits for the
/// user.
pub proof fn lemma_next_action_cases(debug: DebuggerState, running: bool, pc: usize)
    ensures
        running && !debug.step_state.is_stepping && !debug.breakpoint_state.addresses@.contains(pc)
            ==> spec_next_action(&debug, running, pc) == DebuggerAction::Run,
        running && !debug.step_state.is_stepping && debug.breakpoint_state.addresses@.contains(pc)
            ==> spec_next_action(&debug, running, pc) == DebuggerAction::Halt(pc),
        debug.step_state.is_stepping ==> spec_next_action(&debug, running, pc)
            == DebuggerAction::StepCounted,
        !running && !debug.step_state.is_stepping ==> spec_next_action(&debug, running, pc)
            == DebuggerAction::Prompt,
{
}

/// Each command has its words, and no two commands share one: h/help, c/r, q/quit/exit,
/// b/break, p/print, d/dump, s/step; every other word is invalid.
pub proof fn lemma_command_words(s: Seq<char>)
    ensures
        spec_command(s) == DebugCommandTypes::Help <==> (s == "h"@ || s == "help"@),
        spec_command(s) == DebugCommandTypes::Exit <==> (s == "q"@ || s == "quit"@ || s == "exit"@),
        spec_command(s) == DebugCommandTypes::Break <==> (s == "b"@ || s == "break"@),
        spec_command(s) == DebugCommandTypes::Print <==> (s == "p"@ || s == "print"@),
        spec_command(s) == DebugCommandTypes::Dump <==> (s == "d"@ || s == "dump"@),
        spec_command(s) == DebugCommandTypes::Step <==> (s == "s"@ || s == "step"@),
        spec_command(s) == DebugCommandTypes::Watch ==> false,
{
    reveal_strlit("h");
    reveal_strlit("help");
    reveal_strlit("c");
    reveal_strlit("r");
    reveal_strlit("q");
    reveal_strlit("quit");
    reveal_strlit("exit");
    reveal_strlit("b");
    reveal_strlit("break");
    reveal_strlit("p");
    reveal_strlit("print");
    reveal_strlit("d");
    reveal_strlit("dump");
    reveal_strlit("s");
    reveal_strlit("step");
    if s.len() == 1 {
        assert(s == seq![s[0]]);
    }
    if s.len() == 4 {
        assert(s == seq![s[0], s[1], s[2], s[3]]);
    }
    if s.len() == 5 {
        assert(s == seq![s[0], s[1], s[2], s[3], s[4]]);
    }
}

} // verus!
