use gbcore::console::{parse_command, parse_hex_u16};
use gbcore::debug::{ArgError, Command, CommandResult, DebugConsole, Watch, WatchFn, WatchFnType, WatchType, WatchValueChange};
use gbcore::metrics::{DebugMetrics, JumpData, MetricsError, NO_SINGLE_DESTINATION};

#[test]
fn watches_detect_edges() {
    let mut w = Watch::new("rise", WatchType::Rising);
    assert!(!w.test(false));
    assert!(w.test(true));
    assert!(!w.test(true));
    assert_eq!(w.name(), "rise");
    let mut f = WatchFn::new("fall", WatchFnType::Falling);
    assert!(!f.test(true));
    assert!(f.test(false));
    let mut c = WatchFn::new("const", WatchFnType::Constant);
    assert!(c.test(true));
    assert!(c.test(true));
    let mut v = WatchValueChange::new("de");
    assert!(!v.test(5));
    assert!(!v.test(5));
    assert!(v.test(6));
}

#[test]
fn hex_arguments() {
    assert_eq!(parse_hex_u16(b"beef"), Ok(0xBEEF));
    assert_eq!(parse_hex_u16(b"+FF"), Ok(0xFF));
    assert_eq!(parse_hex_u16(b"10000"), Err(ArgError::NotHex));
    assert_eq!(parse_hex_u16(b"00001"), Ok(1));
    assert_eq!(parse_hex_u16(b"xyz"), Err(ArgError::NotHex));
    assert_eq!(parse_hex_u16(b""), Err(ArgError::NotHex));
}

#[test]
fn commands_parse() {
    assert!(matches!(parse_command("p\n"), Command::Pause));
    assert!(matches!(parse_command("  GO  "), Command::Go));
    assert!(matches!(parse_command("gt 150"), Command::GoTo(Ok(0x150))));
    assert!(matches!(parse_command("go_to"), Command::GoTo(Err(ArgError::Missing))));
    assert!(matches!(parse_command("break zz"), Command::Break(Err(ArgError::NotHex))));
    assert!(matches!(parse_command("w ff40"), Command::Watch(Ok(0xFF40))));
    assert!(matches!(parse_command("bogus"), Command::Unknown));
    assert!(matches!(parse_command("h"), Command::Help));
    match parse_command("j 100 200") {
        Command::Jumps(v) => assert_eq!(v, vec![0x100, 0x200]),
        _ => panic!("expected jumps"),
    }
}

#[test]
fn console_breaks_and_steps() {
    let mut c = DebugConsole::new();
    assert_eq!(c.apply(&Command::Break(Ok(0x200))), CommandResult::Continue);
    assert!(!c.before_instruction(0x100).pause);
    let b = c.before_instruction(0x200);
    assert!(b.pause && b.breakpoint_hit);
    assert_eq!(c.apply(&Command::GoTo(Ok(0x300))), CommandResult::ResumeGame);
    let b = c.before_instruction(0x300);
    assert!(b.pause && b.runto_reached);
    assert_eq!(c.runto_address, None);
    assert_eq!(c.apply(&Command::NextStatus), CommandResult::ResumeGame);
    let b = c.before_instruction(0x400);
    assert!(b.pause && b.print_status);
    assert_eq!(c.apply(&Command::Pause), CommandResult::PauseGame);
    assert_eq!(c.apply(&Command::BreakClear), CommandResult::Continue);
    assert!(!c.before_instruction(0x200).pause);
}

#[test]
fn jump_records() {
    let mut m = DebugMetrics::new();
    assert_eq!(m.jump_conditional(0x150, 0x160, "JR", "NZ", true), Ok(()));
    assert_eq!(m.jump_conditional(0x150, 0x160, "JR", "NZ", false), Ok(()));
    assert_eq!(
        m.jump_conditional(0x150, 0x170, "JR", "NZ", false),
        Err(MetricsError::ConditionalWithMultipleDestinations(0x150))
    );
    m.jump_not_conditional(0x200, 0x300, "JP");
    m.jump_not_conditional(0x200, 0x400, "JP");
    m.jumps.cache_keys();
    let j = m.jumps.get_or_next(&0x150).unwrap().unwrap();
    assert!(j.jump_taken && j.jump_skipped && j.conditional);
    let k = m.jumps.get_or_next(&0x151).unwrap().unwrap();
    assert!(k.multiple_destinations);
    assert_eq!(k.dest, NO_SINGLE_DESTINATION);
    assert_eq!(k.destinations, vec![0x300, 0x400]);
    m.clear_jumps();
    assert!(!m.jumps.contains_key(&0x150));
    let mut d = JumpData::new_not_conditional(1, 2, "JP");
    d.update_destinations(2);
    assert!(!d.multiple_destinations);
}

#[test]
fn unknown_command_keeps_console_state() {
    let mut c = DebugConsole::new();
    c.apply(&Command::GoTo(Ok(0x1234)));
    c.apply(&Command::NextStatus);
    c.apply(&Command::Watch(Ok(0xC000)));
    for cmd in [parse_command("bogus"), parse_command("status"), parse_command("help"), parse_command("r c000")] {
        assert_eq!(c.apply(&cmd), CommandResult::Continue);
        assert_eq!(c.runto_address, Some(0x1234));
        assert!(c.pause_next && c.stat_next);
        assert_eq!(c.watch_addrs, vec![0xC000]);
    }
}
