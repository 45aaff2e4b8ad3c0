//! Dialling through a desktop video-call application that is driven by UI
//! scripts. The controller writes the scripts and the order in which they
//! run, and decides after each step whether the plan goes on; running a
//! step is left to the caller.

use vstd::prelude::*;

verus! {

/// Launches the application if it is not running, then brings it to the front.
pub const ENSURE_RUNNING_SCRIPT: &'static str = "\n        tell application \"System Events\"\n            if not (exists process \"Jitsi Meet\") then\n                tell application \"Jitsi Meet\" to activate\n                delay 3\n            end if\n            tell application \"Jitsi Meet\" to activate\n            delay 1\n        end tell\n        ";

/// Focuses the address field of the application and starts typing; the meeting address follows.
pub const OPEN_URL_SCRIPT_HEAD: &'static str = "\n            tell application \"System Events\"\n                tell process \"Jitsi Meet\"\n                    set frontmost to true\n                    delay 1\n                    keystroke \"l\" using {command down}\n                    delay 1\n                    keystroke \"";

/// Ends the typed address and confirms it.
pub const OPEN_URL_SCRIPT_TAIL: &'static str = "\"\n                    delay 1\n                    keystroke return\n                end tell\n            end tell\n            ";

/// Presses the key combination that answers a call.
pub const ANSWER_SCRIPT: &'static str = "\n            tell application \"Jitsi Meet\"\n                activate\n                tell application \"System Events\"\n                    keystroke \"a\" using {command down}\n                end tell\n            end tell\n        ";

/// Presses the key combination that ends a call.
pub const HANGUP_SCRIPT: &'static str = "\n            tell application \"Jitsi Meet\"\n                activate\n                tell application \"System Events\"\n                    keystroke \"h\" using {command down}\n                end tell\n            end tell\n        ";

/// Brings the application to the front and starts typing; the digits follow.
pub const DTMF_SCRIPT_HEAD: &'static str = "\n            tell application \"Jitsi Meet\"\n                activate\n                tell application \"System Events\"\n                    keystroke \"";

/// Ends the typed digits.
pub const DTMF_SCRIPT_TAIL: &'static str = "\"\n                end tell\n            end tell\n            ";

/// The address under which meetings are reached.
pub const MEETING_URL_BASE: &'static str = "https://meet.jit.si/";

/// How long the application is given to come up before it is typed into, in
/// seconds.
pub const LAUNCH_WAIT_SECS: u64 = 3;

/// One step of a plan that drives the application.
#[derive(Debug, PartialEq, Eq)]
pub enum PhoneStep {
    /// Run this UI script.
    Run(String),
    /// Wait this many seconds.
    Wait(u64),
}

/// The mathematical content of a [`PhoneStep`].
pub enum StepSpec {
    Run(Seq<char>),
    Wait(u64),
}

impl View for PhoneStep {
    type V = StepSpec;

    open spec fn view(&self) -> StepSpec {
        match self {
            PhoneStep::Run(script) => StepSpec::Run(script@),
            PhoneStep::Wait(secs) => StepSpec::Wait(*secs),
        }
    }
}

/// The content of a plan.
pub open spec fn steps_view(steps: Seq<PhoneStep>) -> Seq<StepSpec> {
    Seq::new(steps.len(), |i: int| steps[i]@)
}

/// The script that opens the meeting called `number`.
pub open spec fn open_url_script(number: Seq<char>) -> Seq<char> {
    OPEN_URL_SCRIPT_HEAD@ + (MEETING_URL_BASE@ + number) + OPEN_URL_SCRIPT_TAIL@
}

/// The script that types `digits` into the running call.
pub open spec fn dtmf_script(digits: Seq<char>) -> Seq<char> {
    DTMF_SCRIPT_HEAD@ + digits + DTMF_SCRIPT_TAIL@
}

/// The plan that dials `number`: bring the application up, give it time,
/// open the meeting.
pub open spec fn dial_plan(number: Seq<char>) -> Seq<StepSpec> {
    seq![
        StepSpec::Run(ENSURE_RUNNING_SCRIPT@),
        StepSpec::Wait(LAUNCH_WAIT_SECS),
        StepSpec::Run(open_url_script(number)),
    ]
}

/// Which step of a plan is carried out next, if any. `done` steps were
/// carried out so far and `last_ok` says whether the last of them succeeded
/// (before the first step it is `true`). A plan stops at its first failure:
/// nothing that stands behind a failed step is carried out.
pub open spec fn next_step_spec(len: nat, done: nat, last_ok: bool) -> Option<nat> {
    if last_ok && done < len {
        Some(done)
    } else {
        None
    }
}

/// How many steps of a plan are carried out when the steps succeed or fail
/// as `outcomes` says, starting with `done` steps behind it.
pub open spec fn steps_carried_out(len: nat, outcomes: Seq<bool>, done: nat, last_ok: bool) -> nat
    decreases len - done,
{
    match next_step_spec(len, done, last_ok) {
        Some(i) => if done < outcomes.len() {
            steps_carried_out(len, outcomes, done + 1, outcomes[done as int])
        } else {
            done
        },
        None => done,
    }
}

/// When step `failed` of a plan fails and every step before it succeeds,
/// exactly the steps up to and including `failed` are carried out.
pub proof fn law_plan_stops_at_first_failure(len: nat, outcomes: Seq<bool>, failed: nat)
    requires
        outcomes.len() == len,
        failed < len,
        !outcomes[failed as int],
        forall|i: int| 0 <= i < failed ==> outcomes[i],
    ensures
        steps_carried_out(len, outcomes, 0, true) == failed + 1,
{
    lemma_carried_out_from(len, outcomes, failed, 0);
}

proof fn lemma_carried_out_from(len: nat, outcomes: Seq<bool>, failed: nat, done: nat)
    requires
        outcomes.len() == len,
        failed < len,
        !outcomes[failed as int],
        forall|i: int| 0 <= i < failed ==> outcomes[i],
        done <= failed,
    ensures
        steps_carried_out(len, outcomes, done, true) == failed + 1,
    decreases failed - done,
{
    if done < failed {
        assert(outcomes[done as int]);
        lemma_carried_out_from(len, outcomes, failed, done + 1);
    } else {
        assert(steps_carried_out(len, outcomes, failed + 1, false) == failed + 1);
    }
}

/// A plan whose steps all succeed is carried out to its end.
pub proof fn law_plan_without_failure_completes(len: nat, outcomes: Seq<bool>)
    requires
        outcomes.len() == len,
        forall|i: int| 0 <= i < len ==> outcomes[i],
    ensures
        steps_carried_out(len, outcomes, 0, true) == len,
{
    lemma_carried_out_all(len, outcomes, 0);
}

proof fn lemma_carried_out_all(len: nat, outcomes: Seq<bool>, done: nat)
    requires
        outcomes.len() == len,
        forall|i: int| 0 <= i < len ==> outcomes[i],
        done <= len,
    ensures
        steps_carried_out(len, outcomes, done, true) == len,
    decreases len - done,
{
    if done < len {
        assert(outcomes[done as int]);
        lemma_carried_out_all(len, outcomes, done + 1);
    }
}

/// Executable form of [`next_step_spec`]: the index of the step to carry out
/// next, or none when the plan is finished or its last step failed.
pub fn next_step(steps: &Vec<PhoneStep>, done: usize, last_ok: bool) -> (r: Option<usize>)
    ensures
        r == if last_ok && done < steps@.len() {
            Some(done)
        } else {
            None
        },
        match r {
            Some(i) => next_step_spec(steps@.len(), done as nat, last_ok) == Some(i as nat),
            None => next_step_spec(steps@.len(), done as nat, last_ok) == None::<nat>,
        },
{
    if last_ok && done < steps.len() {
        Some(done)
    } else {
        None
    }
}

/// Something that can place, answer and end calls. Each method gives the
/// plan to carry out.
pub trait PhoneController {
    fn dial(&self, number: &str) -> Vec<PhoneStep>;

    fn answer_call(&self, call_id: &str) -> Vec<PhoneStep>;

    fn hangup_call(&self, call_id: &str) -> Vec<PhoneStep>;

    fn send_dtmf(&self, call_id: &str, digits: &str) -> Vec<PhoneStep>;
}

/// Drives the Jitsi Meet desktop application.
#[derive(Clone, Copy, Debug)]
pub struct JitsiController;

impl JitsiController {
    /// A controller; it holds no state of its own.
    pub fn new() -> (r: Self)
        ensures
            r == JitsiController,
    {
        JitsiController
    }

    /// The script that brings the application to the front, launching it
    /// first if it is not running.
    pub fn ensure_jitsi_running(&self) -> (r: String)
        ensures
            r@ == ENSURE_RUNNING_SCRIPT@,
    {
        ENSURE_RUNNING_SCRIPT.to_owned()
    }

    /// The script that opens the meeting called `number` in the running
    /// application.
    pub fn open_jitsi_url(&self, number: &str) -> (r: String)
        ensures
            r@ == open_url_script(number@),
    {
        let mut url = MEETING_URL_BASE.to_owned();
        url.append(number);
        let mut script = OPEN_URL_SCRIPT_HEAD.to_owned();
        script.append(url.as_str());
        script.append(OPEN_URL_SCRIPT_TAIL);
        script
    }
}

impl PhoneController for JitsiController {
    fn dial(&self, number: &str) -> (r: Vec<PhoneStep>)
        ensures
            steps_view(r@) == dial_plan(number@),
    {
        let mut steps: Vec<PhoneStep> = Vec::new();
        steps.push(PhoneStep::Run(self.ensure_jitsi_running()));
        steps.push(PhoneStep::Wait(LAUNCH_WAIT_SECS));
        steps.push(PhoneStep::Run(self.open_jitsi_url(number)));
        assert(steps_view(steps@) =~= dial_plan(number@));
        steps
    }

    fn answer_call(&self, call_id: &str) -> (r: Vec<PhoneStep>)
        ensures
            steps_view(r@) == seq![StepSpec::Run(ANSWER_SCRIPT@)],
    {
        let mut steps: Vec<PhoneStep> = Vec::new();
        steps.push(PhoneStep::Run(ANSWER_SCRIPT.to_owned()));
        assert(steps_view(steps@) =~= seq![StepSpec::Run(ANSWER_SCRIPT@)]);
        steps
    }

    fn hangup_call(&self, call_id: &str) -> (r: Vec<PhoneStep>)
        ensures
            steps_view(r@) == seq![StepSpec::Run(HANGUP_SCRIPT@)],
    {
        let mut steps: Vec<PhoneStep> = Vec::new();
        steps.push(PhoneStep::Run(HANGUP_SCRIPT.to_owned()));
        assert(steps_view(steps@) =~= seq![StepSpec::Run(HANGUP_SCRIPT@)]);
        steps
    }

    fn send_dtmf(&self, call_id: &str, digits: &str) -> (r: Vec<PhoneStep>)
        ensures
            steps_view(r@) == seq![StepSpec::Run(dtmf_script(digits@))],
    {
        let mut script = DTMF_SCRIPT_HEAD.to_owned();
        script.append(digits);
        script.append(DTMF_SCRIPT_TAIL);
        let mut steps: Vec<PhoneStep> = Vec::new();
        steps.push(PhoneStep::Run(script));
        assert(steps_view(steps@) =~= seq![StepSpec::Run(dtmf_script(digits@))]);
        steps
    }
}

} // verus!
