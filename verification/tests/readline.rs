use perry_passes::readline::{
    input_ended, js_readline_close, js_readline_create_interface, js_readline_has_active,
    js_readline_on, js_readline_process_pending, js_readline_question, new_readline,
    test_inject_line, Call, Readline, READLINE_HANDLE,
};

/// What a round asked for, as text, and how many callbacks it counted.
fn round(rl: &mut Readline) -> (Vec<String>, i32) {
    let mut calls = Vec::new();
    let mut tick = js_readline_process_pending(rl);
    while let Some(call) = tick.next_call(rl) {
        calls.push(match call {
            Call::Line { callback, line } => format!("{callback}({line})"),
            Call::Close { callback } => format!("{callback}()"),
        });
    }
    (calls, tick.fired)
}

#[test]
fn close_without_callbacks_is_noop() {
    let mut rl = new_readline();
    let h = js_readline_create_interface(&mut rl).handle;
    assert_eq!(h, READLINE_HANDLE);
    assert_eq!(js_readline_close(&mut rl), None);
    // The end is noted but nobody waits for it.
    assert_eq!(round(&mut rl).1, 0);
    assert_eq!(round(&mut rl).1, 0);
}

#[test]
fn injected_line_drains_via_test_helper() {
    let mut rl = new_readline();
    test_inject_line(&mut rl, "hello");
    // No callback registered: the line is dropped and none is counted.
    assert_eq!(round(&mut rl).1, 0);
    assert_eq!(rl.pending_lines.len(), 0);
}

#[test]
fn has_active_reflects_state() {
    let mut rl = new_readline();
    rl.eof_reached = true;
    rl.close_fired = true;
    assert_eq!(js_readline_has_active(&rl), 0);
    test_inject_line(&mut rl, "x");
    assert_eq!(js_readline_has_active(&rl), 1);
    rl.pending_lines.clear();
    assert_eq!(js_readline_has_active(&rl), 0);
}

#[test]
fn reader_starts_once() {
    let mut rl = new_readline();
    assert!(js_readline_create_interface(&mut rl).start_reader);
    assert!(!js_readline_create_interface(&mut rl).start_reader);
    assert!(!js_readline_question(&mut rl, None, 7).start_reader);
    assert_eq!(js_readline_has_active(&rl), 1);
    input_ended(&mut rl);
    assert_eq!(js_readline_has_active(&rl), 0);
}

#[test]
fn question_hears_one_line_then_line_callback() {
    let mut rl = new_readline();
    let asked = js_readline_question(&mut rl, Some(b"name? ".to_vec()), 7);
    assert_eq!(asked.write, Some(b"name? ".to_vec()));
    assert!(asked.start_reader);
    assert!(!js_readline_on(&mut rl, Some(&b"line".to_vec()), 8));
    for l in ["a", "b", "c"] {
        test_inject_line(&mut rl, l);
    }
    let (calls, fired) = round(&mut rl);
    assert_eq!(calls, vec!["7(a)", "8(b)", "8(c)"]);
    assert_eq!(fired, 3);
}

#[test]
fn a_second_question_replaces_the_first() {
    let mut rl = new_readline();
    js_readline_question(&mut rl, None, 7);
    js_readline_question(&mut rl, None, 9);
    test_inject_line(&mut rl, "a");
    test_inject_line(&mut rl, "b");
    assert_eq!(round(&mut rl), (vec!["9(a)".to_string()], 1));
}

#[test]
fn a_question_asked_inside_a_callback_hears_the_next_line() {
    let mut rl = new_readline();
    js_readline_on(&mut rl, Some(&b"line".to_vec()), 8);
    test_inject_line(&mut rl, "a");
    test_inject_line(&mut rl, "b");
    let mut tick = js_readline_process_pending(&mut rl);
    assert!(matches!(tick.next_call(&mut rl), Some(Call::Line { callback: 8, .. })));
    js_readline_question(&mut rl, None, 5);
    assert!(matches!(tick.next_call(&mut rl), Some(Call::Line { callback: 5, .. })));
    assert!(tick.next_call(&mut rl).is_none());
    assert_eq!(tick.fired, 2);
}

#[test]
fn close_callback_fires_once() {
    let mut rl = new_readline();
    assert!(!js_readline_on(&mut rl, Some(&b"close".to_vec()), 4));
    assert_eq!(js_readline_has_active(&rl), 1);
    assert_eq!(js_readline_close(&mut rl), Some(4));
    assert_eq!(js_readline_close(&mut rl), None);
    js_readline_on(&mut rl, Some(&b"close".to_vec()), 4);
    assert_eq!(round(&mut rl), (vec![], 0));
    assert_eq!(js_readline_has_active(&rl), 0);
}

#[test]
fn end_of_input_closes_behind_the_last_line() {
    let mut rl = new_readline();
    js_readline_on(&mut rl, Some(&b"line".to_vec()), 8);
    js_readline_on(&mut rl, Some(&b"close".to_vec()), 4);
    test_inject_line(&mut rl, "last");
    input_ended(&mut rl);
    assert_eq!(round(&mut rl), (vec!["8(last)".to_string(), "4()".to_string()], 2));
    assert_eq!(js_readline_close(&mut rl), None);
}

#[test]
fn other_events_are_ignored() {
    let mut rl = new_readline();
    assert!(!js_readline_on(&mut rl, Some(&b"pause".to_vec()), 1));
    assert!(!js_readline_on(&mut rl, Some(&vec![0xffu8, 0xfe]), 1));
    assert!(!js_readline_on(&mut rl, None, 1));
    assert_eq!(rl.line_callback, None);
    assert_eq!(rl.close_callback, None);
    assert!(!rl.reader_started);
}

#[test]
fn a_closed_interface_is_idle() {
    let mut rl = new_readline();
    js_readline_create_interface(&mut rl);
    js_readline_question(&mut rl, None, 1);
    js_readline_on(&mut rl, Some(&b"line".to_vec()), 2);
    js_readline_on(&mut rl, Some(&b"close".to_vec()), 3);
    assert_eq!(js_readline_has_active(&rl), 1);
    assert_eq!(js_readline_close(&mut rl), Some(3));
    assert_eq!(js_readline_has_active(&rl), 0);
    assert_eq!(js_readline_close(&mut rl), None);
}

#[test]
fn prompts_are_handed_on() {
    let mut rl = new_readline();
    let asked = js_readline_question(&mut rl, Some(b"name? ".to_vec()), 1);
    assert_eq!(asked.write, Some(b"name? ".to_vec()));
    assert!(asked.start_reader);
    let asked = js_readline_question(&mut rl, None, 2);
    assert_eq!(asked.write, None);
    assert!(!asked.start_reader);
}
