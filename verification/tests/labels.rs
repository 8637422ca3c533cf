use native_gl_surface::app_state::{touches_line, AppState};
use native_gl_surface::text::u64_to_decimal;

#[test]
fn decimal_zero() {
    assert_eq!(u64_to_decimal(0), "0");
}

#[test]
fn decimal_single_digit() {
    assert_eq!(u64_to_decimal(7), "7");
}

#[test]
fn decimal_two_digits() {
    assert_eq!(u64_to_decimal(10), "10");
}

#[test]
fn decimal_slider_top() {
    assert_eq!(u64_to_decimal(120), "120");
}

#[test]
fn decimal_largest() {
    assert_eq!(u64_to_decimal(u64::MAX), "18446744073709551615");
}

#[test]
fn greeting_initial_state() {
    let state = AppState::new();
    assert_eq!(state.name, "Bob");
    assert_eq!(state.age, 69);
    assert_eq!(state.greeting_line(), "Hello 'Bob', age 69");
}

#[test]
fn greeting_after_increment() {
    let mut state = AppState::new();
    state.increment_age();
    assert_eq!(state.age, 70);
    assert_eq!(state.greeting_line(), "Hello 'Bob', age 70");
}

#[test]
fn greeting_with_edited_name() {
    let mut state = AppState::new();
    state.name = String::from("Ada");
    assert_eq!(state.greeting_line(), "Hello 'Ada', age 69");
}

#[test]
fn touches_caption() {
    assert_eq!(touches_line(0), "Current touches: 0");
    assert_eq!(touches_line(2), "Current touches: 2");
}
