use esp_rs_pad::controller::{BusAction, BusEvent, ButtonPadController};
use esp_rs_pad::wire::wire_bits;

/// Drives the bus to its end, answering writes with success and reads from `levels`;
/// returns the bits clocked out and the final action.
fn drive(pad: &mut ButtonPadController, levels: &[bool]) -> (Vec<bool>, usize, BusAction) {
    let mut out = Vec::new();
    let mut read = 0usize;
    loop {
        match pad.bus_action() {
            BusAction::Lock | BusAction::Unlock => pad.bus_event(BusEvent::Done),
            BusAction::ClockOut(b) => {
                out.push(b);
                pad.bus_event(BusEvent::Done);
            }
            BusAction::ClockIn => {
                let level = levels[read];
                read += 1;
                pad.bus_event(BusEvent::Level(level));
            }
            done => return (out, read, done),
        }
    }
}

fn expected_out(red: [u8; 16], green: [u8; 16], blue: [u8; 16]) -> Vec<bool> {
    let mut v = wire_bits(&red);
    v.extend(wire_bits(&green));
    v.extend(wire_bits(&blue));
    v
}

#[test]
fn new_controller_is_idle_with_no_button() {
    let pad = ButtonPadController::new();
    assert_eq!(pad.buttons(), [false; 16]);
    assert_eq!(pad.bus_action(), BusAction::Idle);
}

#[test]
fn blackout_commit_sends_dark_frames_and_reads_buttons() {
    let mut pad = ButtonPadController::new();
    pad.blackout();
    assert_eq!(pad.bus_action(), BusAction::Lock);
    let (out, read, end) = drive(&mut pad, &vec![true; 128]);
    assert_eq!(out, vec![false; 384]);
    assert_eq!(read, 128);
    assert_eq!(end, BusAction::Idle);
    assert_eq!(pad.buttons(), [false; 16]);
}

#[test]
fn lightup_commit_sends_white_frames() {
    let mut pad = ButtonPadController::new();
    pad.lightup();
    let (out, _, end) = drive(&mut pad, &vec![true; 128]);
    assert_eq!(out, vec![true; 384]);
    assert_eq!(end, BusAction::Idle);
}

#[test]
fn red_green_blue_commits_send_one_full_channel() {
    let mut pad = ButtonPadController::new();
    pad.red();
    let (out, _, _) = drive(&mut pad, &vec![true; 128]);
    assert_eq!(out, expected_out([255; 16], [0; 16], [0; 16]));
    pad.green();
    let (out, _, _) = drive(&mut pad, &vec![true; 128]);
    assert_eq!(out, expected_out([0; 16], [255; 16], [0; 16]));
    pad.blue();
    let (out, _, _) = drive(&mut pad, &vec![true; 128]);
    assert_eq!(out, expected_out([0; 16], [0; 16], [255; 16]));
}

#[test]
fn write_matrix_splits_each_key_into_channels() {
    let mut pad = ButtonPadController::new();
    let mut matrix = [0u32; 16];
    matrix[0] = 0x123456;
    matrix[7] = 0xff00ff;
    matrix[15] = 0xabcdef01;
    pad.write_matrix(&matrix);
    let (out, _, _) = drive(&mut pad, &vec![true; 128]);
    let mut red = [0u8; 16];
    let mut green = [0u8; 16];
    let mut blue = [0u8; 16];
    red[0] = 0x12;
    green[0] = 0x34;
    blue[0] = 0x56;
    red[7] = 0xff;
    blue[7] = 0xff;
    red[15] = 0xcd;
    green[15] = 0xef;
    blue[15] = 0x01;
    assert_eq!(out, expected_out(red, green, blue));
}

#[test]
fn a_key_is_pressed_when_its_eight_bits_read_low() {
    let mut pad = ButtonPadController::new();
    pad.blackout();
    let mut levels = vec![true; 128];
    // The last eight bits read carry key 0, the first eight key 15.
    for j in 120..128 {
        levels[j] = false;
    }
    for j in 0..8 {
        levels[j] = false;
    }
    // Only one low bit for key 10: not pressed.
    levels[8 * 5 + 3] = false;
    let (_, _, end) = drive(&mut pad, &levels);
    assert_eq!(end, BusAction::Idle);
    let buttons = pad.buttons();
    for i in 0..16 {
        assert_eq!(buttons[i], i == 0 || i == 15, "key {}", i);
    }
}

#[test]
fn failure_while_writing_stops_and_keeps_buttons() {
    let mut pad = ButtonPadController::new();
    pad.blackout();
    pad.bus_event(BusEvent::Done);
    pad.bus_event(BusEvent::Done);
    pad.bus_event(BusEvent::Failed);
    assert_eq!(pad.bus_action(), BusAction::Failed);
    pad.bus_event(BusEvent::Done);
    assert_eq!(pad.bus_action(), BusAction::Failed);
    assert_eq!(pad.buttons(), [false; 16]);
}

#[test]
fn failure_while_locking_stops() {
    let mut pad = ButtonPadController::new();
    pad.lightup();
    pad.bus_event(BusEvent::Failed);
    assert_eq!(pad.bus_action(), BusAction::Failed);
}

#[test]
fn failure_while_reading_stops_and_keeps_last_read_buttons() {
    let mut pad = ButtonPadController::new();
    pad.blackout();
    let mut levels = vec![true; 128];
    for j in 120..128 {
        levels[j] = false;
    }
    drive(&mut pad, &levels);
    let before = pad.buttons();
    assert!(before[0]);
    pad.lightup();
    for _ in 0..385 {
        pad.bus_event(BusEvent::Done);
    }
    assert_eq!(pad.bus_action(), BusAction::ClockIn);
    pad.bus_event(BusEvent::Level(true));
    pad.bus_event(BusEvent::Failed);
    assert_eq!(pad.bus_action(), BusAction::Failed);
    assert_eq!(pad.buttons(), before);
    pad.bus_event(BusEvent::Done);
    assert_eq!(pad.bus_action(), BusAction::Failed);
}

#[test]
fn commit_outcome_does_not_depend_on_old_buttons() {
    let mut a = ButtonPadController::new();
    let mut b = ButtonPadController::new();
    b.blackout();
    drive(&mut b, &vec![false; 128]);
    assert_eq!(b.buttons(), [true; 16]);
    let mut levels = vec![true; 128];
    levels[3] = false;
    for j in 40..48 {
        levels[j] = false;
    }
    a.red();
    b.red();
    let (out_a, _, end_a) = drive(&mut a, &levels);
    let (out_b, _, end_b) = drive(&mut b, &levels);
    assert_eq!(out_a, out_b);
    assert_eq!(end_a, BusAction::Idle);
    assert_eq!(end_b, BusAction::Idle);
    assert_eq!(a.buttons(), b.buttons());
    let buttons = a.buttons();
    for i in 0..16 {
        assert_eq!(buttons[i], i == 10, "key {}", i);
    }
}

#[test]
fn failure_while_unlocking_keeps_new_buttons() {
    let mut pad = ButtonPadController::new();
    pad.blackout();
    for _ in 0..385 {
        pad.bus_event(BusEvent::Done);
    }
    for _ in 0..128 {
        pad.bus_event(BusEvent::Level(false));
    }
    assert_eq!(pad.bus_action(), BusAction::Unlock);
    pad.bus_event(BusEvent::Failed);
    assert_eq!(pad.bus_action(), BusAction::Failed);
    assert_eq!(pad.buttons(), [true; 16]);
}

#[test]
fn events_that_do_not_answer_are_ignored() {
    let mut pad = ButtonPadController::new();
    pad.blackout();
    pad.bus_event(BusEvent::Level(true));
    assert_eq!(pad.bus_action(), BusAction::Lock);
    for _ in 0..385 {
        pad.bus_event(BusEvent::Done);
    }
    pad.bus_event(BusEvent::Done);
    assert_eq!(pad.bus_action(), BusAction::ClockIn);
    let mut idle = ButtonPadController::new();
    idle.bus_event(BusEvent::Failed);
    assert_eq!(idle.bus_action(), BusAction::Idle);
}

#[test]
fn new_commit_restarts_the_transaction() {
    let mut pad = ButtonPadController::new();
    pad.lightup();
    pad.bus_event(BusEvent::Done);
    pad.bus_event(BusEvent::Done);
    pad.blackout();
    assert_eq!(pad.bus_action(), BusAction::Lock);
    let (out, _, end) = drive(&mut pad, &vec![true; 128]);
    assert_eq!(out, vec![false; 384]);
    assert_eq!(end, BusAction::Idle);
}
