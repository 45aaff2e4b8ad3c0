use voice_roi::jitsi_controller::{
    next_step, JitsiController, PhoneController, PhoneStep, LAUNCH_WAIT_SECS, MEETING_URL_BASE,
};

#[test]
fn launch_script_activates_the_application() {
    let j = JitsiController::new();
    let expected = "\n        tell application \"System Events\"\n            if not (exists process \"Jitsi Meet\") then\n                tell application \"Jitsi Meet\" to activate\n                delay 3\n            end if\n            tell application \"Jitsi Meet\" to activate\n            delay 1\n        end tell\n        ";
    assert_eq!(j.ensure_jitsi_running(), expected);
}

#[test]
fn url_script_types_the_meeting_address() {
    let j = JitsiController::new();
    let expected = "\n            tell application \"System Events\"\n                tell process \"Jitsi Meet\"\n                    set frontmost to true\n                    delay 1\n                    keystroke \"l\" using {command down}\n                    delay 1\n                    keystroke \"https://meet.jit.si/room42\"\n                    delay 1\n                    keystroke return\n                end tell\n            end tell\n            ";
    assert_eq!(j.open_jitsi_url("room42"), expected);
}

#[test]
fn url_script_with_empty_number() {
    let j = JitsiController::new();
    let script = j.open_jitsi_url("");
    assert!(script.contains("keystroke \"https://meet.jit.si/\"\n"));
    assert_eq!(MEETING_URL_BASE, "https://meet.jit.si/");
}

#[test]
fn dialling_launches_waits_and_opens() {
    let j = JitsiController::new();
    let plan = j.dial("room42");
    assert_eq!(
        plan,
        vec![
            PhoneStep::Run(j.ensure_jitsi_running()),
            PhoneStep::Wait(3),
            PhoneStep::Run(j.open_jitsi_url("room42")),
        ]
    );
    assert_eq!(LAUNCH_WAIT_SECS, 3);
}

#[test]
fn answering_presses_a() {
    let j = JitsiController::new();
    let expected = "\n            tell application \"Jitsi Meet\"\n                activate\n                tell application \"System Events\"\n                    keystroke \"a\" using {command down}\n                end tell\n            end tell\n        ";
    assert_eq!(j.answer_call("ignored"), vec![PhoneStep::Run(String::from(expected))]);
}

#[test]
fn hanging_up_presses_h() {
    let j = JitsiController::new();
    let expected = "\n            tell application \"Jitsi Meet\"\n                activate\n                tell application \"System Events\"\n                    keystroke \"h\" using {command down}\n                end tell\n            end tell\n        ";
    assert_eq!(j.hangup_call("ignored"), vec![PhoneStep::Run(String::from(expected))]);
}

#[test]
fn tones_are_typed() {
    let j = JitsiController::new();
    let expected = "\n            tell application \"Jitsi Meet\"\n                activate\n                tell application \"System Events\"\n                    keystroke \"12#\"\n                end tell\n            end tell\n            ";
    assert_eq!(j.send_dtmf("ignored", "12#"), vec![PhoneStep::Run(String::from(expected))]);
}

#[test]
fn plan_goes_on_while_steps_succeed() {
    let plan = JitsiController::new().dial("room42");
    assert_eq!(next_step(&plan, 0, true), Some(0));
    assert_eq!(next_step(&plan, 1, true), Some(1));
    assert_eq!(next_step(&plan, 2, true), Some(2));
    assert_eq!(next_step(&plan, 3, true), None);
    assert_eq!(next_step(&plan, usize::MAX, true), None);
}

#[test]
fn failed_activation_ends_dialling() {
    let plan = JitsiController::new().dial("room42");
    // the activation script is step 0; after its failure nothing is typed
    assert_eq!(next_step(&plan, 1, false), None);
    assert_eq!(next_step(&plan, 2, false), None);
    assert_eq!(next_step(&plan, 0, false), None);
}

#[test]
fn walking_a_plan_stops_at_the_first_failure() {
    let plan = JitsiController::new().dial("room42");
    let outcomes = [true, false, true];
    let mut ran: Vec<usize> = Vec::new();
    let mut done: usize = 0;
    let mut last_ok = true;
    while let Some(i) = next_step(&plan, done, last_ok) {
        ran.push(i);
        last_ok = outcomes[i];
        done += 1;
    }
    assert_eq!(ran, vec![0, 1]);
    assert!(!last_ok);
}

#[test]
fn empty_plan_has_no_step() {
    assert_eq!(next_step(&Vec::new(), 0, true), None);
}
