use esp_rs_pad::keypad::{pressed_color, pressed_matrix, PressTracker};

#[test]
fn press_and_release_of_a_pad_key() {
    let mut t = PressTracker::new();
    assert_eq!(t.last(), 0);
    let mut pad = [false; 16];
    pad[4] = true;
    assert_eq!(t.poll([false; 4], pad), Some(5));
    assert_eq!(t.last(), 5);
    assert_eq!(t.poll([false; 4], pad), None);
    assert_eq!(t.poll([false; 4], [false; 16]), Some(0));
    assert_eq!(t.last(), 0);
    assert_eq!(t.poll([false; 4], [false; 16]), None);
}

#[test]
fn extra_buttons_come_first_in_order() {
    let mut pad = [false; 16];
    pad[0] = true;
    let mut t = PressTracker::new();
    assert_eq!(t.poll([false, false, true, true], pad), Some(19));
    let mut t = PressTracker::new();
    assert_eq!(t.poll([true, true, true, true], pad), Some(17));
    let mut t = PressTracker::new();
    assert_eq!(t.poll([false, true, false, false], pad), Some(18));
    let mut t = PressTracker::new();
    assert_eq!(t.poll([false, false, false, true], [false; 16]), Some(20));
}

#[test]
fn first_pad_key_wins() {
    let mut pad = [false; 16];
    pad[9] = true;
    pad[15] = true;
    let mut t = PressTracker::new();
    assert_eq!(t.poll([false; 4], pad), Some(10));
    let mut last = [false; 16];
    last[15] = true;
    let mut t = PressTracker::new();
    assert_eq!(t.poll([false; 4], last), Some(16));
}

#[test]
fn held_key_stays_reported_while_another_is_pressed() {
    let mut t = PressTracker::new();
    let mut pad = [false; 16];
    pad[2] = true;
    assert_eq!(t.poll([false; 4], pad), Some(3));
    pad[2] = false;
    pad[7] = true;
    assert_eq!(t.poll([false; 4], pad), None);
    assert_eq!(t.last(), 3);
    assert_eq!(t.poll([true, false, false, false], [false; 16]), None);
    assert_eq!(t.last(), 3);
    assert_eq!(t.poll([false; 4], [false; 16]), Some(0));
    assert_eq!(t.poll([false; 4], pad), Some(8));
}

#[test]
fn colors_of_pressed_keys() {
    assert_eq!(pressed_color(0), 0xffffff);
    assert_eq!(pressed_color(1), 0xffffff);
    assert_eq!(pressed_color(2), 0x0000ff);
    assert_eq!(pressed_color(3), 0x00ff00);
    assert_eq!(pressed_color(5), 0xff0000);
    assert_eq!(pressed_color(6), 0x00ffff);
    assert_eq!(pressed_color(7), 0xffffff);
    assert_eq!(pressed_color(10), 0xff00ff);
    assert_eq!(pressed_color(15), 0xffff00);
    for i in 0..16 {
        assert_ne!(pressed_color(i), 0);
    }
}

#[test]
fn matrix_lights_only_pressed_keys() {
    let mut buttons = [false; 16];
    buttons[3] = true;
    buttons[10] = true;
    let m = pressed_matrix(&buttons);
    for i in 0..16 {
        let expected = if i == 3 {
            0x00ff00
        } else if i == 10 {
            0xff00ff
        } else {
            0
        };
        assert_eq!(m[i], expected, "key {}", i);
    }
    assert_eq!(pressed_matrix(&[false; 16]), [0u32; 16]);
}
