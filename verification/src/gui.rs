//! The state of the control panel and its reaction to messages. On every
//! tick the panel drains the command channel and applies each pending event
//! in arrival order; what has to happen on screen comes back as a list of
//! effects for the caller to carry out.

use vstd::prelude::*;
use crate::audio_detector::{emitted, RecognitionState};
use crate::channel::CommandChannel;
use crate::classifier::classify_spec;
use crate::command::{AppCommand, Command};
use crate::roi_controller::{dispatch_spec, plan_for, ClickPlan, ROIController, RegionSpec};
use crate::text::trimmed;

verus! {

/// What the panel reacts to.
#[derive(Clone, Copy, Debug, PartialEq, Eq, Structural)]
pub enum Message {
    /// A button of the panel was pressed.
    ButtonPressed(Command),
    /// The exit button was pressed.
    Exit,
    /// The polling interval has passed.
    Tick,
}

/// What the caller has to do after a message.
#[derive(Clone, Copy, Debug, PartialEq, Eq, Structural)]
pub enum Effect {
    /// Carry out the click plan.
    Click(ClickPlan),
    /// The command has no region; nothing is clicked.
    NoRegion(Command),
    /// Leave the program.
    Exit,
}

/// The polling interval of the panel, in milliseconds.
pub const TICK_INTERVAL_MS: u64 = 100;

/// The mathematical content of a [`TestInterface`].
pub struct InterfaceState {
    pub status: Seq<char>,
    pub power: bool,
    pub start: bool,
    pub stop: bool,
}

/// The state of a panel that has seen no command yet.
pub open spec fn initial_state() -> InterfaceState {
    InterfaceState {
        status: "Waiting for voice commands..."@,
        power: false,
        start: false,
        stop: false,
    }
}

/// The state after one command: its indicator flips and the status line
/// names it.
pub open spec fn applied(state: InterfaceState, command: Command) -> InterfaceState {
    InterfaceState {
        status: "Last command: "@ + command.token_spec(),
        power: if command == Command::Power {
            !state.power
        } else {
            state.power
        },
        start: if command == Command::Start {
            !state.start
        } else {
            state.start
        },
        stop: if command == Command::Stop {
            !state.stop
        } else {
            state.stop
        },
    }
}

/// The state after a run of events, applied oldest first.
pub open spec fn applied_all(state: InterfaceState, events: Seq<AppCommand>) -> InterfaceState
    decreases events.len(),
{
    if events.len() == 0 {
        state
    } else {
        applied(applied_all(state, events.drop_last()), events.last().command_spec())
    }
}

/// The effect of one command against the registry content `regions`.
pub open spec fn effect_of(regions: Map<Seq<char>, RegionSpec>, command: Command) -> Effect {
    match dispatch_spec(regions, command) {
        Ok(plan) => Effect::Click(plan),
        Err(_) => Effect::NoRegion(command),
    }
}

/// The effects of a run of events: one per event, in the same order.
pub open spec fn effects_of(regions: Map<Seq<char>, RegionSpec>, events: Seq<AppCommand>) -> Seq<
    Effect,
> {
    Seq::new(events.len(), |i: int| effect_of(regions, events[i].command_spec()))
}

/// A tick applies every pending event once: there are as many effects as
/// there were events, and each effect belongs to the event at its own place.
pub proof fn law_tick_applies_each_event_once(
    regions: Map<Seq<char>, RegionSpec>,
    events: Seq<AppCommand>,
)
    ensures
        effects_of(regions, events).len() == events.len(),
        forall|i: int|
            0 <= i < events.len() ==> #[trigger] effects_of(regions, events)[i] == effect_of(
                regions,
                events[i].command_spec(),
            ),
{
}

/// Dispatching the same command against the same registry content always
/// aims at the same point.
pub proof fn law_dispatch_is_repeatable(
    regions: Map<Seq<char>, RegionSpec>,
    command: Command,
    times: nat,
)
    ensures
        effects_of(regions, Seq::new(times, |i: int| AppCommand::Click(command))) == Seq::new(
            times,
            |i: int| effect_of(regions, command),
        ),
{
    assert(effects_of(regions, Seq::new(times, |i: int| AppCommand::Click(command))) =~= Seq::new(
        times,
        |i: int| effect_of(regions, command),
    ));
}

/// From utterance to click: when the trimmed text of a finished utterance is
/// classified as a command whose region the registry holds, the event that
/// the detector emits makes the next tick plan exactly one click, on the
/// centre of that region. When the text is classified as nothing, no event
/// is emitted at all.
pub proof fn law_utterance_reaches_its_region(
    rules: Seq<(Seq<char>, Command)>,
    text: String,
    regions: Map<Seq<char>, RegionSpec>,
)
    ensures
        match classify_spec(rules, trimmed(text@)) {
            Some(command) => {
                &&& emitted(rules, RecognitionState::Finalized(text)) == Some(
                    AppCommand::Click(command),
                )
                &&& regions.contains_key(command.token_spec()) ==> effects_of(
                    regions,
                    seq![AppCommand::Click(command)],
                ) == seq![Effect::Click(plan_for(regions[command.token_spec()]))]
                &&& !regions.contains_key(command.token_spec()) ==> effects_of(
                    regions,
                    seq![AppCommand::Click(command)],
                ) == seq![Effect::NoRegion(command)]
            },
            None => emitted(rules, RecognitionState::Finalized(text)) == None::<AppCommand>,
        },
{
    match classify_spec(rules, trimmed(text@)) {
        Some(command) => {
            let events = seq![AppCommand::Click(command)];
            assert(events[0].command_spec() == command);
            if regions.contains_key(command.token_spec()) {
                assert(effects_of(regions, events) =~= seq![
                    Effect::Click(plan_for(regions[command.token_spec()])),
                ]);
            } else {
                assert(effects_of(regions, events) =~= seq![Effect::NoRegion(command)]);
            }
        },
        None => {},
    }
}

/// The control panel: a status line and one indicator per command.
pub struct TestInterface {
    status_text: String,
    power_state: bool,
    start_state: bool,
    stop_state: bool,
}

impl View for TestInterface {
    type V = InterfaceState;

    closed spec fn view(&self) -> InterfaceState {
        InterfaceState {
            status: self.status_text@,
            power: self.power_state,
            start: self.start_state,
            stop: self.stop_state,
        }
    }
}

impl TestInterface {
    /// A panel that has seen no command yet.
    pub fn new() -> (r: Self)
        ensures
            r@ == initial_state(),
    {
        TestInterface {
            status_text: "Waiting for voice commands...".to_owned(),
            power_state: false,
            start_state: false,
            stop_state: false,
        }
    }

    /// The window title.
    pub fn title(&self) -> (r: String)
        ensures
            r@ == "Voice Control Test"@,
    {
        "Voice Control Test".to_owned()
    }

    /// The status line.
    pub fn status_text(&self) -> (r: &str)
        ensures
            r@ == self@.status,
    {
        self.status_text.as_str()
    }

    /// Whether the indicator of `command` is lit.
    pub fn is_on(&self, command: Command) -> (r: bool)
        ensures
            r == match command {
                Command::Power => self@.power,
                Command::Start => self@.start,
                Command::Stop => self@.stop,
            },
    {
        match command {
            Command::Power => self.power_state,
            Command::Start => self.start_state,
            Command::Stop => self.stop_state,
        }
    }

    /// The caption of the button of `command`, which shows its indicator.
    pub fn label(&self, command: Command) -> (r: &'static str)
        ensures
            r@ == match command {
                Command::Power => if self@.power {
                    "Power ON"@
                } else {
                    "Power OFF"@
                },
                Command::Start => if self@.start {
                    "Go ON"@
                } else {
                    "Go OFF"@
                },
                Command::Stop => if self@.stop {
                    "Stop ON"@
                } else {
                    "Stop OFF"@
                },
            },
    {
        match command {
            Command::Power => if self.power_state {
                "Power ON"
            } else {
                "Power OFF"
            },
            Command::Start => if self.start_state {
                "Go ON"
            } else {
                "Go OFF"
            },
            Command::Stop => if self.stop_state {
                "Stop ON"
            } else {
                "Stop OFF"
            },
        }
    }

    /// Applies one command: the status line and the indicator change, and the
    /// click on the command's region is planned.
    pub fn apply(&mut self, command: Command, controller: &ROIController) -> (r: Effect)
        requires
            controller.wf(),
        ensures
            final(self)@ == applied(old(self)@, command),
            r == effect_of(controller@, command),
    {
        let mut status = "Last command: ".to_owned();
        status.append(command.token());
        self.status_text = status;
        match command {
            Command::Power => {
                self.power_state = !self.power_state;
            },
            Command::Start => {
                self.start_state = !self.start_state;
            },
            Command::Stop => {
                self.stop_state = !self.stop_state;
            },
        }
        match controller.dispatch(command) {
            Ok(plan) => Effect::Click(plan),
            Err(_) => Effect::NoRegion(command),
        }
    }

    /// Reacts to a message. A pressed button is applied at once. A tick takes
    /// everything that is pending on the channel and applies it oldest first,
    /// one effect per event. Exit changes nothing and asks the caller to
    /// leave.
    pub fn update(
        &mut self,
        message: Message,
        channel: &mut CommandChannel,
        controller: &ROIController,
    ) -> (r: Vec<Effect>)
        requires
            controller.wf(),
        ensures
            match message {
                Message::ButtonPressed(command) => {
                    &&& final(self)@ == applied(old(self)@, command)
                    &&& r@ == seq![effect_of(controller@, command)]
                    &&& final(channel)@ == old(channel)@
                },
                Message::Exit => {
                    &&& final(self)@ == old(self)@
                    &&& r@ == seq![Effect::Exit]
                    &&& final(channel)@ == old(channel)@
                },
                Message::Tick => {
                    &&& final(self)@ == applied_all(old(self)@, old(channel)@)
                    &&& r@ == effects_of(controller@, old(channel)@)
                    &&& final(channel)@ == Seq::<AppCommand>::empty()
                },
            },
    {
        let mut effects: Vec<Effect> = Vec::new();
        match message {
            Message::ButtonPressed(command) => {
                let effect = self.apply(command, controller);
                effects.push(effect);
                assert(effects@ =~= seq![effect_of(controller@, command)]);
            },
            Message::Exit => {
                effects.push(Effect::Exit);
                assert(effects@ =~= seq![Effect::Exit]);
            },
            Message::Tick => {
                let events = channel.drain();
                let mut i: usize = 0;
                while i < events.len()
                    invariant
                        i <= events@.len(),
                        controller.wf(),
                        self@ == applied_all(old(self)@, events@.take(i as int)),
                        effects@ == effects_of(controller@, events@.take(i as int)),
                    decreases events.len() - i,
                {
                    let effect = self.apply(events[i].command(), controller);
                    effects.push(effect);
                    proof {
                        let upto = events@.take(i + 1);
                        assert(upto.drop_last() =~= events@.take(i as int));
                        assert(upto.last() == events@[i as int]);
                        assert(effects@ =~= effects_of(controller@, upto));
                    }
                    i += 1;
                }
                assert(events@.take(i as int) =~= events@);
            },
        }
        effects
    }
}

} // verus!
