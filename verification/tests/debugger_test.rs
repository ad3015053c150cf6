use gameboy_emu::gameboy::debugger::{handle, Action, Debugger};

#[test]
fn handle_cmd() {
    assert_eq!(handle("Next"), Ok(Action::Next));
    assert_eq!(handle("Step,45"), Ok(Action::Step(45)));
    assert_eq!(handle("AddBreakPtn,678"), Ok(Action::AddBreakPtn(678)));
    assert_eq!(handle("DelBreakPtn,654"), Ok(Action::DelBreakPtn(654)));
    assert_eq!(handle("DelBreakPtn  , 67  "), Ok(Action::DelBreakPtn(67)));
    assert_eq!(handle("DelBreakPtn, coucou"), Err(()));

    assert_eq!(handle("Foo"), Err(()));
    assert_eq!(handle("Step,-45"), Err(()));
    assert_eq!(handle("AddBreakPtn"), Err(()));
    assert_eq!(handle("DelBreakPtn,0"), Err(()));
}

#[test]
fn handle_next_with_option() {
    assert_eq!(handle("Next,5"), Ok(Action::Next));
    assert_eq!(handle("Next,0"), Err(()));
    assert_eq!(handle("Next,"), Err(()));
    assert_eq!(handle(" Next "), Ok(Action::Next));
}

#[test]
fn handle_ignores_what_follows_a_second_comma() {
    assert_eq!(handle("Step,45,junk"), Ok(Action::Step(45)));
    assert_eq!(handle("Step,,45"), Err(()));
}

#[test]
fn handle_number_forms() {
    assert_eq!(handle("Step,+45"), Ok(Action::Step(45)));
    assert_eq!(handle("Step,0045"), Ok(Action::Step(45)));
    assert_eq!(handle("Step,+"), Err(()));
    assert_eq!(handle("Step, 4 5"), Err(()));
    assert_eq!(handle("Step,\u{a0}7\u{3000}"), Ok(Action::Step(7)));
    assert_eq!(handle("Step,18446744073709551615"), Ok(Action::Step(u64::MAX)));
    assert_eq!(handle("Step,18446744073709551616"), Err(()));
    assert_eq!(handle("Step,99999999999999999999999"), Err(()));
}

#[test]
fn handle_names_are_exact() {
    assert_eq!(handle(""), Err(()));
    assert_eq!(handle("step,4"), Err(()));
    assert_eq!(handle("Steps,4"), Err(()));
    assert_eq!(handle("Ste,4"), Err(()));
    assert_eq!(handle(",4"), Err(()));
}

#[test]
fn handle_agrees_with_std() {
    let names = ["Next", "Step", "AddBreakPtn", "DelBreakPtn", "Other", " Step\t"];
    let options = ["", "1", " 12 ", "+3", "-3", "0", "x", "00", "9 ", "18446744073709551615"];
    for name in names {
        for option in options {
            let text = format!("{},{}", name, option);
            let parsed = option.trim().parse::<u64>().ok().filter(|n| *n != 0);
            let expected = match (name.trim(), parsed) {
                ("Next", Some(_)) => Ok(Action::Next),
                ("Step", Some(n)) => Ok(Action::Step(n)),
                ("AddBreakPtn", Some(n)) => Ok(Action::AddBreakPtn(n)),
                ("DelBreakPtn", Some(n)) => Ok(Action::DelBreakPtn(n)),
                _ => Err(()),
            };
            assert_eq!(handle(&text), expected);
        }
    }
}

#[test]
fn debugger_pauses_until_told_to_run() {
    let mut debugger = Debugger::new();
    assert!(debugger.pauses_at(0x0100));

    debugger.apply(Action::Step(2));
    assert!(!debugger.pauses_at(0x0100));
    debugger.stepped();
    assert!(!debugger.pauses_at(0x0101));
    debugger.stepped();
    assert!(debugger.pauses_at(0x0102));
    debugger.stepped();
    assert_eq!(debugger.step, 0);

    debugger.apply(Action::Next);
    assert_eq!(debugger.step, 1);
}

#[test]
fn debugger_breakpoints() {
    let mut debugger = Debugger::new();
    debugger.apply(Action::Step(100));
    debugger.stepped();
    debugger.apply(Action::AddBreakPtn(0x0150));
    debugger.apply(Action::AddBreakPtn(0x0150));
    debugger.apply(Action::AddBreakPtn(0x0200));
    assert!(debugger.has_breakpoint(0x0150));
    assert!(debugger.pauses_at(0x0150));
    assert!(debugger.pauses_at(0x0200));
    assert!(!debugger.pauses_at(0x0151));

    debugger.apply(Action::DelBreakPtn(0x0150));
    assert!(!debugger.has_breakpoint(0x0150));
    assert!(!debugger.pauses_at(0x0150));
    assert!(debugger.pauses_at(0x0200));

    debugger.apply(Action::DelBreakPtn(0x0999));
    assert!(debugger.has_breakpoint(0x0200));
    assert!(!debugger.has_breakpoint(0x1_0150));
}

#[test]
fn debugger_leaves_a_breakpoint_when_told_to_run() {
    let mut debugger = Debugger::new();
    debugger.apply(Action::AddBreakPtn(0x0150));
    debugger.apply(Action::Step(3));
    assert!(!debugger.pauses_at(0x0150));
    debugger.stepped();
    assert_eq!(debugger.step, 2);
    assert!(debugger.pauses_at(0x0150));
    assert!(!debugger.pauses_at(0x0151));
    debugger.apply(Action::Next);
    assert!(!debugger.pauses_at(0x0150));
    debugger.stepped();
    assert!(debugger.pauses_at(0x0151));
}
