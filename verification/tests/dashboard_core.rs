use escale_core::button::ButtonEvent;
use escale_core::common::{AppMessage, InputEvent};
use escale_core::dashboard::{duration_parts, Dashboard, Stopwatch};
use escale_core::mq::MessageProcessingStatus;

#[test]
fn button_a_press_requests_tare() {
    let mut d = Dashboard::new();
    let (st, follow) = d.handle_input(
        0,
        &AppMessage::InputEvent(InputEvent::ButtonA(ButtonEvent::Press)),
    );
    assert!(matches!(st, MessageProcessingStatus::Processed));
    assert_eq!(follow, Some(AppMessage::Tare));
}

#[test]
fn button_a_long_press_requests_calibration() {
    let mut d = Dashboard::new();
    let (st, follow) = d.handle_input(
        0,
        &AppMessage::InputEvent(InputEvent::ButtonA(ButtonEvent::LongPress)),
    );
    assert!(matches!(st, MessageProcessingStatus::Processed));
    assert_eq!(follow, Some(AppMessage::Calibrate));
}

#[test]
fn button_b_press_toggles_the_stopwatch() {
    let mut d = Dashboard::new();
    assert!(d.stopwatch().is_none());

    let press = AppMessage::InputEvent(InputEvent::ButtonB(ButtonEvent::Press));
    let (st, follow) = d.handle_input(100, &press);
    assert!(matches!(st, MessageProcessingStatus::Processed));
    assert_eq!(follow, None);
    let w = d.stopwatch().as_ref().unwrap();
    assert!(w.is_running());
    assert_eq!(w.read(150), 50);

    let (st, _) = d.handle_input(175, &press);
    assert!(matches!(st, MessageProcessingStatus::Processed));
    let w = d.stopwatch().as_ref().unwrap();
    assert!(!w.is_running());
    assert_eq!(w.read(400), 75);

    // a third press starts a fresh watch
    let (st, _) = d.handle_input(500, &press);
    assert!(matches!(st, MessageProcessingStatus::Processed));
    let w = d.stopwatch().as_ref().unwrap();
    assert!(w.is_running());
    assert_eq!(w.read(510), 10);
}

#[test]
fn button_b_long_press_is_ignored() {
    let mut d = Dashboard::new();
    let (st, follow) = d.handle_input(
        0,
        &AppMessage::InputEvent(InputEvent::ButtonB(ButtonEvent::LongPress)),
    );
    assert!(matches!(st, MessageProcessingStatus::Ignored));
    assert_eq!(follow, None);
}

#[test]
fn non_input_messages_are_ignored() {
    let mut d = Dashboard::new();
    let (st, follow) = d.handle_input(0, &AppMessage::Tare);
    assert!(matches!(st, MessageProcessingStatus::Ignored));
    assert_eq!(follow, None);
    let (st, follow) = d.handle_input(0, &AppMessage::Calibrate);
    assert!(matches!(st, MessageProcessingStatus::Ignored));
    assert_eq!(follow, None);
}

#[test]
fn stopwatch_stop_freezes_the_reading() {
    let mut w = Stopwatch::new(1_000);
    assert!(w.is_running());
    assert_eq!(w.read(3_000), 2_000);
    w.stop(4_000);
    assert!(!w.is_running());
    assert_eq!(w.read(9_000), 3_000);
    // a second stop changes nothing
    w.stop(5_000);
    assert_eq!(w.read(9_000), 3_000);
}

#[test]
fn duration_parts_match_the_display_format() {
    // 1 minute, 23.45 seconds
    let us: u64 = 83_450_000;
    assert_eq!(duration_parts(us), (1, 23, 45));
    assert_eq!(duration_parts(0), (0, 0, 0));
    // 59.99 seconds stays under a minute
    assert_eq!(duration_parts(59_990_000), (0, 59, 99));
    // exactly one hour
    assert_eq!(duration_parts(3_600_000_000), (60, 0, 0));
}
