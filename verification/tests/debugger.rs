use rusuper::debugger::debug_op_args_check;
use rusuper::debugger::run_tick_ready_check;
use rusuper::debugger::utils::hex_text_fits;
use rusuper::debugger::breakpoints::{route_break_command, BreakpointSubCommandTypes};
use rusuper::debugger::input::{parse_command_line, split_words};
use rusuper::debugger::step::{step_command, StepSubCommandTypes};
use rusuper::debugger::{
    debug_op, next_action, run_tick, set_breakpoint_here, DebugCommandTypes, DebugOutput, DebuggerAction,
    DebuggerState, InvalidDbgArgError, RunTick,
};
use rusuper::emu::{CpuTick, VirtualMachine};

#[test]
fn command_words() {
    assert_eq!(DebugCommandTypes::from_word("h"), DebugCommandTypes::Help);
    assert_eq!(DebugCommandTypes::from_word("help"), DebugCommandTypes::Help);
    assert_eq!(DebugCommandTypes::from_word("r"), DebugCommandTypes::Continue);
    assert_eq!(DebugCommandTypes::from_word("quit"), DebugCommandTypes::Exit);
    assert_eq!(DebugCommandTypes::from_word("b"), DebugCommandTypes::Break);
    assert_eq!(DebugCommandTypes::from_word("print"), DebugCommandTypes::Print);
    assert_eq!(DebugCommandTypes::from_word("dump"), DebugCommandTypes::Dump);
    assert_eq!(DebugCommandTypes::from_word("s"), DebugCommandTypes::Step);
    assert_eq!(DebugCommandTypes::from_word("w"), DebugCommandTypes::Invalid);
    assert_eq!(BreakpointSubCommandTypes::from_word("ls"), BreakpointSubCommandTypes::List);
    assert_eq!(BreakpointSubCommandTypes::from_word("rm"), BreakpointSubCommandTypes::Delete);
    assert_eq!(BreakpointSubCommandTypes::from_word("$808000"), BreakpointSubCommandTypes::Add);
    assert_eq!(StepSubCommandTypes::from_word("anything"), StepSubCommandTypes::Step);
}

#[test]
fn route_break_keeps_set_arguments() {
    let args = vec![String::from("$808000")];
    assert_eq!(route_break_command(&args), (BreakpointSubCommandTypes::Add, 0));
    let args = vec![String::from("del"), String::from("tag")];
    assert_eq!(route_break_command(&args), (BreakpointSubCommandTypes::Delete, 1));
}

#[test]
fn command_line_parsing() {
    assert_eq!(split_words("  b  $80\tx "), vec!["b", "$80", "x"]);
    assert!(split_words(" \n ").is_empty());
    let (cmd, args) = parse_command_line("B Show\n").unwrap();
    assert_eq!(cmd, DebugCommandTypes::Break);
    assert_eq!(args, vec![String::from("show")]);
    assert!(parse_command_line("   ").is_none());
}

#[test]
fn breakpoint_halts_running_machine() {
    let mut debug = DebuggerState::new();
    let mut vm = VirtualMachine::new();
    vm.memory.put_byte(0x808000, 0xEA).unwrap();
    assert!(set_breakpoint_here(&mut debug, &vm).is_ok());
    assert!(set_breakpoint_here(&mut debug, &vm).is_err());
    assert_eq!(next_action(&debug, true, vm.cpu.get_pc()), DebuggerAction::Halt(0x808000));
    vm.is_running = true;
    assert_eq!(run_tick(&mut debug, &mut vm), RunTick::Halted(0x808000));
    assert!(!vm.is_running);
    assert_eq!(run_tick(&mut debug, &mut vm), RunTick::Prompt);
}

#[test]
fn step_command_runs_one_instruction() {
    let mut debug = DebuggerState::new();
    let mut vm = VirtualMachine::new();
    vm.memory.put_byte(0x808000, 0xEA).unwrap();
    vm.memory.put_byte(0x808001, 0xEA).unwrap();
    assert!(step_command(&vec![String::from("s")], &mut debug).is_ok());
    assert!(debug.step_state.is_stepping);
    assert_eq!(run_tick(&mut debug, &mut vm), RunTick::Ticked(CpuTick::Executed(true)));
    assert!(!debug.step_state.is_stepping);
    assert!(!vm.is_running);
    assert_eq!(vm.cpu.get_pc(), 0x808001);
    assert_eq!(run_tick(&mut debug, &mut vm), RunTick::Prompt);
}

#[test]
fn debug_op_commands() {
    let mut debug = DebuggerState::new();
    let mut vm = VirtualMachine::new();
    let none: Vec<String> = vec![];

    let (out, r) = debug_op(DebugCommandTypes::Continue, &none, &mut debug, &mut vm);
    assert!(matches!(out, DebugOutput::Quiet));
    assert!(r.is_ok());
    assert!(vm.is_running);

    let (out, r) = debug_op(DebugCommandTypes::Invalid, &none, &mut debug, &mut vm);
    assert!(matches!(out, DebugOutput::Help));
    assert_eq!(r.unwrap_err().message(), "Invalid Command.");

    let (out, _r) = debug_op(DebugCommandTypes::Exit, &none, &mut debug, &mut vm);
    assert!(matches!(out, DebugOutput::Exit));

    debug.breakpoint_state.insert(0x10).unwrap();
    let (out, r) = debug_op(DebugCommandTypes::Break, &vec![String::from("list")], &mut debug, &mut vm);
    assert!(r.is_ok());
    match out {
        DebugOutput::Text(t) => assert!(t.contains("0x000010 |")),
        _ => panic!("expected the table"),
    }

    let (out, r) = debug_op(DebugCommandTypes::Break, &vec![String::from("$10")], &mut debug, &mut vm);
    assert!(matches!(out, DebugOutput::Quiet));
    assert_eq!(r.unwrap_err().message(), "A breakpoint was already set at 0x000010");

    let (out, r) = debug_op(DebugCommandTypes::Break, &vec![String::from("$808000")], &mut debug, &mut vm);
    assert!(matches!(out, DebugOutput::Quiet));
    assert!(r.is_ok());
    assert_eq!(debug.breakpoint_state.get(0x808000), Some(0x808000));

    let del = vec![String::from("del"), String::from("0x808000")];
    let (out, r) = debug_op(DebugCommandTypes::Break, &del, &mut debug, &mut vm);
    assert!(r.is_ok());
    match out {
        DebugOutput::Text(t) => assert_eq!(t, "Deleted 0x808000 from breakpoints"),
        _ => panic!("expected the deletion text"),
    }
    assert_eq!(debug.breakpoint_state.get(0x808000), None);
    let (_out, r) = debug_op(DebugCommandTypes::Break, &del, &mut debug, &mut vm);
    assert_eq!(r.unwrap_err().message(), "Breakpoint 0x808000 does not exist");

    let (out, r) = debug_op(DebugCommandTypes::Break, &vec![String::from("tag")], &mut debug, &mut vm);
    assert!(r.is_ok());
    match out {
        DebugOutput::Text(t) => assert_eq!(t, "Set tag tag at address 0x808000"),
        _ => panic!("expected the tag text"),
    }
    assert_eq!(debug.breakpoint_state.get(0x808000), Some(0x808000));
    assert_eq!(debug.breakpoint_state.get_tag("tag"), Some(&0x808000));

    let (out, r) = debug_op(DebugCommandTypes::Break, &vec![String::from("+4")], &mut debug, &mut vm);
    assert!(matches!(out, DebugOutput::Unsupported));
    assert!(r.is_ok());

    let (out, _r) = debug_op(DebugCommandTypes::Print, &none, &mut debug, &mut vm);
    match out {
        DebugOutput::Text(t) => assert!(t.starts_with("\n0x|00 01")),
        _ => panic!("expected a dump"),
    }

    let (out, _r) = debug_op(DebugCommandTypes::Print, &vec![String::from("$808000")], &mut debug, &mut vm);
    match out {
        DebugOutput::Text(t) => assert!(t.starts_with("Fetching value from address 0x808000\n")),
        _ => panic!("expected the values at the address"),
    }
}

#[test]
fn error_from_text() {
    let e = InvalidDbgArgError::from(String::from("bad"));
    assert_eq!(e.message(), "bad");
    assert_eq!(InvalidDbgArgError::new(String::from("x")).message(), "x");
}

#[test]
fn debug_op_argument_checks() {
    let none: Vec<String> = vec![];
    assert!(!debug_op_args_check(DebugCommandTypes::Break, &none));
    assert!(!debug_op_args_check(DebugCommandTypes::Dump, &none));
    assert!(debug_op_args_check(DebugCommandTypes::Print, &none));
    assert!(debug_op_args_check(DebugCommandTypes::Help, &none));
    assert!(hex_text_fits("0x12345678"));
    assert!(!hex_text_fits("0x123456789"));
    assert!(hex_text_fits("nothex123456789"));
    let debug = DebuggerState::new();
    let vm = VirtualMachine::new();
    assert!(run_tick_ready_check(&debug, &vm));
}

#[test]
fn breakpoints_test_dbg_breakpoint_delete() {
    let numeric_results: Vec<Option<usize>> = vec![
        Some(0x808000),
        Some(50),
        Some(0x80800A),
        Some(0x808032),
        None,
        None,
        Some(0x808000),
        Some(50),
        Some(0x80800A),
        Some(0x808032),
        None,
        None,
        Some(0x80800A),
        Some(0x808032),
        Some(0x808000),
        None,
        None,
        None,
        None,
    ];

    let mut test_debug = DebuggerState::new();
    let mut test_vm = VirtualMachine::new();
    let del = vec![String::from("del"), String::from("tag")];

    for expected_result in numeric_results {
        if let Some(result) = expected_result {
            test_debug.breakpoint_state.insert(result).unwrap();
            test_debug.breakpoint_state.insert_tag("tag", result);
            assert!(test_debug.breakpoint_state.get(result).is_some());
            assert_eq!(test_debug.breakpoint_state.get_tag("tag").unwrap(), &result);
            let (_out, r) = debug_op(DebugCommandTypes::Break, &del, &mut test_debug, &mut test_vm);
            r.unwrap();
            assert!(test_debug.breakpoint_state.get(result).is_none());
            assert_eq!(test_debug.breakpoint_state.get_tag("tag"), None)
        }
    }
}

#[test]
fn breakpoint_by_tag_at_pc() {
    let mut debug = DebuggerState::new();
    let mut vm = VirtualMachine::new();
    let (out, r) = debug_op(DebugCommandTypes::Break, &vec![String::from("loop_1")], &mut debug, &mut vm);
    assert!(r.is_ok());
    match out {
        DebugOutput::Text(t) => assert_eq!(t, "Set tag loop_1 at address 0x808000"),
        _ => panic!("expected the tag text"),
    }
    assert_eq!(debug.breakpoint_state.get(0x808000), Some(0x808000));
    assert_eq!(debug.breakpoint_state.get_tag_name(0x808000), Some("loop_1"));

    debug.breakpoint_state.insert_tag("start", 0x10);
    let (out, r) = debug_op(DebugCommandTypes::Break, &vec![String::from("start")], &mut debug, &mut vm);
    assert!(r.is_ok());
    match out {
        DebugOutput::Text(t) => assert_eq!(t, "Updated tag start to address 0x808000"),
        _ => panic!("expected the update text"),
    }
    assert_eq!(debug.breakpoint_state.get(0x10), None);
    assert_eq!(debug.breakpoint_state.get_tag("start"), Some(&0x808000));
}

#[test]
fn breakpoint_delete_by_tag_texts() {
    let mut debug = DebuggerState::new();
    let mut vm = VirtualMachine::new();
    debug.breakpoint_state.insert_tag("main", 0x8080AB);
    let del = vec![String::from("del"), String::from("main")];
    let (out, r) = debug_op(DebugCommandTypes::Break, &del, &mut debug, &mut vm);
    assert!(r.is_ok());
    match out {
        DebugOutput::Text(t) => assert_eq!(t, "Deleted 0x8080AB from breakpoints\nDeleted main from tags"),
        _ => panic!("expected the deletion text"),
    }
    let (out, r) = debug_op(DebugCommandTypes::Break, &del, &mut debug, &mut vm);
    assert!(matches!(out, DebugOutput::Quiet));
    assert_eq!(r.unwrap_err().message(), "Tag main does not exist.");

    debug.breakpoint_state.insert_tag("gone", 0x20);
    debug.breakpoint_state.delete(0x20);
    let del = vec![String::from("rm"), String::from("gone")];
    let (out, r) = debug_op(DebugCommandTypes::Break, &del, &mut debug, &mut vm);
    assert!(matches!(out, DebugOutput::Quiet));
    assert_eq!(r.unwrap_err().message(), "Breakpoint 0x000020 does not exist");
    assert_eq!(debug.breakpoint_state.get_tag("gone"), Some(&0x20));

    debug.breakpoint_state.insert(0x30).unwrap();
    debug.breakpoint_state.insert_tag("here", 0x30);
    let e = debug.breakpoint_state.insert(0x30).unwrap_err();
    assert_eq!(e.message(), "Breakpoint here already exists at 0x000030");
}

#[test]
fn tag_set_then_delete_restores_table() {
    let mut debug = DebuggerState::new();
    let mut vm = VirtualMachine::new();
    debug.breakpoint_state.insert(0x44).unwrap();
    let (_out, r) = debug_op(DebugCommandTypes::Break, &vec![String::from("t")], &mut debug, &mut vm);
    assert!(r.is_ok());
    let del = vec![String::from("delete"), String::from("t")];
    let (_out, r) = debug_op(DebugCommandTypes::Break, &del, &mut debug, &mut vm);
    assert!(r.is_ok());
    assert_eq!(debug.breakpoint_state.addresses, vec![0x44]);
    assert_eq!(debug.breakpoint_state.get_tag("t"), None);
}
