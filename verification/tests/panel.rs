use voice_roi::audio_detector::{AudioDetector, RecognitionState};
use voice_roi::channel::CommandChannel;
use voice_roi::command::{AppCommand, Command};
use voice_roi::gui::{Effect, Message, TestInterface, TICK_INTERVAL_MS};
use voice_roi::roi_controller::{ClickPlan, ROIController, Region};

fn region(name: &str, x: i32, y: i32, width: i32, height: i32) -> Region {
    Region { name: String::from(name), x, y, width, height }
}

fn controller() -> ROIController {
    let mut c = ROIController::new();
    assert!(c.add_region("start", region("start", 100, 200, 50, 80)).is_ok());
    assert!(c.add_region("stop", region("stop", 0, 0, 10, 10)).is_ok());
    c
}

#[test]
fn new_panel_waits() {
    let p = TestInterface::new();
    assert_eq!(p.status_text(), "Waiting for voice commands...");
    assert!(!p.is_on(Command::Power));
    assert!(!p.is_on(Command::Start));
    assert!(!p.is_on(Command::Stop));
    assert_eq!(p.title(), "Voice Control Test");
    assert_eq!(p.label(Command::Power), "Power OFF");
    assert_eq!(p.label(Command::Start), "Go OFF");
    assert_eq!(p.label(Command::Stop), "Stop OFF");
}

#[test]
fn tick_interval_is_a_tenth_of_a_second() {
    assert_eq!(TICK_INTERVAL_MS, 100);
}

#[test]
fn pressed_button_is_applied() {
    let c = controller();
    let mut ch = CommandChannel::new();
    ch.send(AppCommand::Click(Command::Stop));
    let mut p = TestInterface::new();
    let effects = p.update(Message::ButtonPressed(Command::Start), &mut ch, &c);
    assert_eq!(effects, vec![Effect::Click(ClickPlan { x: 125, y: 240, settle_ms: 100 })]);
    assert_eq!(p.status_text(), "Last command: start");
    assert!(p.is_on(Command::Start));
    assert_eq!(p.label(Command::Start), "Go ON");
    assert!(!p.is_on(Command::Stop));
    assert_eq!(ch.pending(), 1);
}

#[test]
fn pressing_twice_switches_back() {
    let c = controller();
    let mut ch = CommandChannel::new();
    let mut p = TestInterface::new();
    p.update(Message::ButtonPressed(Command::Power), &mut ch, &c);
    assert!(p.is_on(Command::Power));
    assert_eq!(p.label(Command::Power), "Power ON");
    p.update(Message::ButtonPressed(Command::Power), &mut ch, &c);
    assert!(!p.is_on(Command::Power));
    assert_eq!(p.status_text(), "Last command: power");
}

#[test]
fn exit_changes_nothing() {
    let c = controller();
    let mut ch = CommandChannel::new();
    ch.send(AppCommand::Click(Command::Stop));
    let mut p = TestInterface::new();
    assert_eq!(p.update(Message::Exit, &mut ch, &c), vec![Effect::Exit]);
    assert_eq!(p.status_text(), "Waiting for voice commands...");
    assert_eq!(ch.pending(), 1);
}

#[test]
fn tick_on_empty_channel_does_nothing() {
    let c = controller();
    let mut ch = CommandChannel::new();
    let mut p = TestInterface::new();
    assert_eq!(p.update(Message::Tick, &mut ch, &c), Vec::new());
    assert_eq!(p.status_text(), "Waiting for voice commands...");
}

#[test]
fn tick_applies_every_pending_event_in_order() {
    let c = controller();
    let mut ch = CommandChannel::new();
    ch.send(AppCommand::Click(Command::Start));
    ch.send(AppCommand::Click(Command::Power));
    ch.send(AppCommand::Click(Command::Stop));
    ch.send(AppCommand::Click(Command::Start));
    let mut p = TestInterface::new();
    let effects = p.update(Message::Tick, &mut ch, &c);
    assert_eq!(
        effects,
        vec![
            Effect::Click(ClickPlan { x: 125, y: 240, settle_ms: 100 }),
            Effect::NoRegion(Command::Power),
            Effect::Click(ClickPlan { x: 5, y: 5, settle_ms: 100 }),
            Effect::Click(ClickPlan { x: 125, y: 240, settle_ms: 100 }),
        ]
    );
    assert_eq!(ch.pending(), 0);
    assert_eq!(p.status_text(), "Last command: start");
    assert!(p.is_on(Command::Power));
    assert!(p.is_on(Command::Stop));
    assert!(!p.is_on(Command::Start));
    assert_eq!(p.update(Message::Tick, &mut ch, &c), Vec::new());
}

#[test]
fn apply_plans_one_click() {
    let c = controller();
    let mut p = TestInterface::new();
    assert_eq!(
        p.apply(Command::Stop, &c),
        Effect::Click(ClickPlan { x: 5, y: 5, settle_ms: 100 })
    );
    assert_eq!(p.apply(Command::Power, &c), Effect::NoRegion(Command::Power));
    assert_eq!(p.status_text(), "Last command: power");
}

#[test]
fn spoken_start_clicks_the_start_region() {
    let detector = AudioDetector::new();
    let c = controller();
    let mut ch = CommandChannel::new();
    let mut p = TestInterface::new();
    let state = RecognitionState::Finalized(String::from("please start now"));
    let event = detector.process_audio(&state);
    assert_eq!(event, Some(AppCommand::Click(Command::Start)));
    if let Some(e) = event {
        ch.send(e);
    }
    assert_eq!(
        p.update(Message::Tick, &mut ch, &c),
        vec![Effect::Click(ClickPlan { x: 125, y: 240, settle_ms: 100 })]
    );
}

#[test]
fn silence_clicks_nothing() {
    let detector = AudioDetector::new();
    let c = controller();
    let mut ch = CommandChannel::new();
    let mut p = TestInterface::new();
    let event = detector.process_audio(&RecognitionState::Finalized(String::new()));
    assert_eq!(event, None);
    if let Some(e) = event {
        ch.send(e);
    }
    assert_eq!(p.update(Message::Tick, &mut ch, &c), Vec::new());
    assert_eq!(p.status_text(), "Waiting for voice commands...");
}
