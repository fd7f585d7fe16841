use vos::io::timer::{Timer, CTRL_ENABLE, CTRL_INTERRUPT, REG_CONTROL, REG_RELOAD, REG_STATUS, STATUS_EXPIRED, TIMER_BASE, TIMER_SIZE};
use vos::traits::Device;

#[test]
fn test_timer_creation() {
    let timer = Timer::new();
    assert!(!timer.is_enabled());
    assert!(!timer.has_expired());
}

#[test]
fn test_set_reload() {
    let mut timer = Timer::new();

    timer.write_word(REG_RELOAD, 1000).unwrap();
    assert_eq!(timer.reload(), 1000);
}

#[test]
fn test_enable() {
    let mut timer = Timer::new();

    timer.write_word(REG_RELOAD, 100).unwrap();
    timer.write_byte(REG_CONTROL, CTRL_ENABLE).unwrap();

    assert!(timer.is_enabled());
    assert_eq!(timer.counter(), 100);
}

#[test]
fn test_countdown() {
    let mut timer = Timer::new();

    timer.write_word(REG_RELOAD, 10).unwrap();
    timer.write_byte(REG_CONTROL, CTRL_ENABLE).unwrap();

    // Tick 10 times
    for _ in 0..10 {
        timer.tick(1);
    }

    // Should have expired and reloaded
    assert!(timer.has_expired());
    assert_eq!(timer.counter(), 10);
}

#[test]
fn test_interrupt_flag() {
    let mut timer = Timer::new();

    timer.write_word(REG_RELOAD, 5).unwrap();
    timer
        .write_byte(REG_CONTROL, CTRL_ENABLE | CTRL_INTERRUPT)
        .unwrap();

    assert!(timer.interrupt_enabled());

    // Tick until expired
    timer.tick(5);

    assert!(timer.has_expired());
}

#[test]
fn test_clear_expired() {
    let mut timer = Timer::new();

    timer.write_word(REG_RELOAD, 1).unwrap();
    timer.write_byte(REG_CONTROL, CTRL_ENABLE).unwrap();

    timer.tick(1);
    assert!(timer.has_expired());

    // Clear by writing to status
    timer.write_byte(REG_STATUS, STATUS_EXPIRED).unwrap();
    assert!(!timer.has_expired());
}

#[test]
fn test_disabled_timer() {
    let mut timer = Timer::new();

    timer.write_word(REG_RELOAD, 10).unwrap();
    // Don't enable

    timer.tick(100);

    // Counter shouldn't change
    assert_eq!(timer.counter(), 0);
    assert!(!timer.has_expired());
}

#[test]
fn test_total_cycles() {
    let mut timer = Timer::new();

    timer.write_word(REG_RELOAD, 100).unwrap();
    timer.write_byte(REG_CONTROL, CTRL_ENABLE).unwrap();

    timer.tick(50);
    assert_eq!(timer.total_cycles(), 50);

    timer.tick(50);
    assert_eq!(timer.total_cycles(), 100);
}

#[test]
fn timer_test_base_address() {
    let timer = Timer::new();
    assert_eq!(timer.base_address(), TIMER_BASE);
    assert_eq!(timer.size(), TIMER_SIZE);
}

#[test]
fn timer_expires_after_reload_ticks_and_reloads() {
    let mut timer = Timer::new();
    timer.write_word(REG_RELOAD, 3).unwrap();
    timer.write_byte(REG_CONTROL, CTRL_ENABLE).unwrap();
    timer.tick(2);
    assert!(!timer.has_expired());
    assert_eq!(timer.counter(), 1);
    timer.tick(1);
    assert!(timer.has_expired());
    assert_eq!(timer.counter(), 3);
    timer.clear_expired();
    assert!(!timer.has_expired());
}
