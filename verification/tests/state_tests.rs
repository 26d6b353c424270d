use keylight::app::{kelvin_from_temperature, App, InputEvent};
use keylight::keylight::Light;

fn running_app(on: bool, brightness: i32, temperature: i32) -> App {
    let light = Light::new(on, brightness, temperature);
    let mut app = App::new(String::from("192.168.1.2"), light);
    app.start();
    app
}

#[test]
fn new_app_reflects_fetched_light() {
    let light = Light::new(false, 20, 300);
    let app = App::new(String::from("10.0.0.9"), light);
    assert!(!app.is_running());
    assert!(!app.is_on());
    assert_eq!(app.brightness(), 20);
    assert_eq!(app.temperature(), 300);
    assert_eq!(app.ip(), "10.0.0.9");
}

#[test]
fn new_app_clamps_out_of_range_fetch() {
    let light = Light {
        on: 1,
        brightness: 250,
        temperature: 10,
    };
    let app = App::new(String::from("10.0.0.9"), light);
    assert_eq!(app.brightness(), 100);
    assert_eq!(app.temperature(), 143);
}

#[test]
fn brightness_saturates_high() {
    let mut app = running_app(true, 95, 200);
    app.change_brightness(10);
    assert_eq!(app.brightness(), 100);
    app.change_brightness(1000000);
    assert_eq!(app.brightness(), 100);
}

#[test]
fn brightness_saturates_low() {
    let mut app = running_app(true, 5, 200);
    app.change_brightness(-10);
    assert_eq!(app.brightness(), 0);
    app.change_brightness(-2147483648);
    assert_eq!(app.brightness(), 0);
}

#[test]
fn brightness_plain_step_within_range() {
    let mut app = running_app(true, 50, 200);
    app.change_brightness(10);
    assert_eq!(app.brightness(), 60);
    app.change_brightness(-1);
    assert_eq!(app.brightness(), 59);
}

#[test]
fn temperature_saturates_both_ends() {
    let mut app = running_app(true, 50, 150);
    app.change_temperature(-1000);
    assert_eq!(app.temperature(), 143);
    app.change_temperature(2147483647);
    assert_eq!(app.temperature(), 344);
    app.change_temperature(-10);
    assert_eq!(app.temperature(), 334);
}

#[test]
fn toggle_twice_restores_power() {
    let mut app = running_app(true, 50, 200);
    app.on_event(InputEvent::ToggleOrConfirm);
    assert!(!app.is_on());
    app.on_event(InputEvent::ToggleOrConfirm);
    assert!(app.is_on());
    assert_eq!(app.brightness(), 50);
    assert_eq!(app.temperature(), 200);
}

#[test]
fn increase_at_95_pushes_full_state_with_100() {
    let mut app = running_app(true, 95, 200);
    let payload = app.on_event(InputEvent::IncreaseBrightness(10));
    assert_eq!(app.brightness(), 100);
    let expected =
        b"{\"numberOfLights\":1,\"lights\":[{\"on\":1,\"brightness\":100,\"temperature\":200}]}"
            .to_vec();
    assert_eq!(payload, Some(expected));
}

#[test]
fn fine_steps_move_by_one() {
    let mut app = running_app(true, 50, 200);
    app.on_event(InputEvent::DecreaseBrightness(1));
    assert_eq!(app.brightness(), 49);
    app.on_event(InputEvent::WarmerTemperature(1));
    assert_eq!(app.temperature(), 199);
    app.on_event(InputEvent::ColderTemperature(10));
    assert_eq!(app.temperature(), 209);
}

#[test]
fn quit_stops_loop_and_pushes_nothing() {
    let mut app = running_app(true, 50, 200);
    let payload = app.on_event(InputEvent::Quit);
    assert_eq!(payload, None);
    assert!(!app.is_running());
    assert_eq!(app.brightness(), 50);
    let after = app.on_event(InputEvent::IncreaseBrightness(10));
    assert_eq!(after, None);
    assert_eq!(app.set_light(), None);
}

#[test]
fn other_events_change_nothing() {
    let mut app = running_app(false, 42, 250);
    let payload = app.on_event(InputEvent::Other);
    assert_eq!(payload, None);
    assert!(!app.is_on());
    assert_eq!(app.brightness(), 42);
    assert_eq!(app.temperature(), 250);
    assert!(app.is_running());
}

#[test]
fn set_light_only_while_running() {
    let light = Light::new(true, 30, 220);
    let mut app = App::new(String::from("10.0.0.9"), light);
    assert_eq!(app.set_light(), None);
    app.start();
    let body = app.set_light().expect("running app must produce a payload");
    let expected =
        b"{\"numberOfLights\":1,\"lights\":[{\"on\":1,\"brightness\":30,\"temperature\":220}]}"
            .to_vec();
    assert_eq!(body, expected);
}

#[test]
fn kelvin_endpoints() {
    assert_eq!(kelvin_from_temperature(143), 7000);
    assert_eq!(kelvin_from_temperature(344), 2900);
}

#[test]
fn kelvin_midpoint_and_clamping() {
    assert_eq!(kelvin_from_temperature(243), 4960);
    assert_eq!(kelvin_from_temperature(0), 7000);
    assert_eq!(kelvin_from_temperature(1000), 2900);
}
