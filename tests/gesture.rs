use baroboard::gesture::{GestureDetector, Key, KeyEvent, DOUBLE_ALT_COOLDOWN};

const MOD_DOWN: KeyEvent = KeyEvent::Press(Key::Modifier);
const MOD_UP: KeyEvent = KeyEvent::Release(Key::Modifier);

#[test]
fn second_tap_inside_window_fires_once() {
    let mut d = GestureDetector::new(500);
    assert!(!d.on_event(MOD_UP, 0, true));
    assert!(d.on_event(MOD_DOWN, 499, true));
    // The second tap's own release and a further press do not fire again.
    assert!(!d.on_event(MOD_UP, 520, true));
    assert!(!d.on_event(MOD_DOWN, 540, true));
}

#[test]
fn second_tap_after_window_does_not_fire() {
    let mut d = GestureDetector::new(500);
    assert!(!d.on_event(MOD_UP, 0, true));
    assert!(!d.on_event(MOD_DOWN, 501, true));
}

#[test]
fn second_tap_at_window_edge_fires() {
    let mut d = GestureDetector::new(500);
    d.on_event(MOD_UP, 1000, true);
    assert!(d.on_event(MOD_DOWN, 1500, true));
}

#[test]
fn intervening_key_press_cancels() {
    let mut d = GestureDetector::new(500);
    assert!(!d.on_event(MOD_UP, 0, true));
    assert!(!d.on_event(KeyEvent::Press(Key::Other), 100, true));
    assert!(!d.on_event(MOD_DOWN, 200, true));
}

#[test]
fn intervening_key_release_cancels() {
    let mut d = GestureDetector::new(500);
    d.on_event(MOD_UP, 0, true);
    d.on_event(KeyEvent::Release(Key::Other), 100, true);
    assert!(!d.on_event(MOD_DOWN, 200, true));
}

#[test]
fn cooldown_ignores_release_then_allows_fresh_cycle() {
    let mut d = GestureDetector::new(500);
    d.on_event(MOD_UP, 0, true);
    assert!(d.on_event(MOD_DOWN, 0, true));
    assert_eq!(d.cooldown_until, Some(500));
    // Ignored: nothing starts waiting for a second tap, and the cooldown ends.
    assert!(!d.on_event(MOD_UP, 300, true));
    assert_eq!(d.last_release, None);
    assert_eq!(d.cooldown_until, None);
    assert!(!d.on_event(MOD_DOWN, 350, true));
    // After the cooldown a release starts a new cycle.
    assert!(!d.on_event(MOD_UP, 600, true));
    assert_eq!(d.last_release, Some(600));
    assert!(d.on_event(MOD_DOWN, 700, true));
}

#[test]
fn stuck_awaiting_has_no_effect_until_next_key() {
    let mut d = GestureDetector::new(500);
    d.on_event(MOD_UP, 0, true);
    assert_eq!(d.last_release, Some(0));
    // Much later, the press comes too late and just returns to idle.
    assert!(!d.on_event(MOD_DOWN, 10_000, true));
    assert_eq!(d.last_release, None);
    assert_eq!(d.cooldown_until, None);
}

#[test]
fn disabled_delivery_still_moves_state() {
    let mut d = GestureDetector::new(500);
    d.on_event(MOD_UP, 0, false);
    assert!(!d.on_event(MOD_DOWN, 100, false));
    assert_eq!(d.cooldown_until, Some(600));
    assert_eq!(d.last_release, None);
}

#[test]
fn cooldown_end_saturates() {
    let mut d = GestureDetector::new(500);
    d.on_event(MOD_UP, u64::MAX - 10, true);
    assert!(d.on_event(MOD_DOWN, u64::MAX - 5, true));
    assert_eq!(d.cooldown_until, Some(u64::MAX));
}

#[test]
fn default_window_is_half_a_second() {
    assert_eq!(DOUBLE_ALT_COOLDOWN, 500);
    let d = GestureDetector::new(DOUBLE_ALT_COOLDOWN);
    assert_eq!(d.window_ms, 500);
    assert_eq!(d.last_release, None);
    assert_eq!(d.cooldown_until, None);
}

#[test]
fn only_the_first_release_in_cooldown_is_swallowed() {
    let mut d = GestureDetector::new(500);
    d.on_event(MOD_UP, 0, true);
    assert!(d.on_event(MOD_DOWN, 100, true));
    assert!(!d.on_event(MOD_UP, 150, true));
    assert_eq!(d.last_release, None);
    // The machine is idle again: the next tap starts a new cycle.
    assert!(!d.on_event(MOD_UP, 300, true));
    assert_eq!(d.last_release, Some(300));
    assert!(d.on_event(MOD_DOWN, 350, true));
}
