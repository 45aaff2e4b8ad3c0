//! The speech decoder adapter: what the recogniser reports for a frame is
//! turned into at most one command event, and the 16-bit samples the
//! recogniser takes are produced from scaled amplitudes.

use vstd::prelude::*;
use crate::classifier::{classify_spec, default_rules, Classifier};
use crate::command::{AppCommand, Command};
use crate::error::PipelineError;
use crate::text::{trim_str, trimmed};

verus! {

/// What the recogniser says after a frame.
#[derive(Debug, PartialEq, Eq)]
pub enum RecognitionState {
    /// The utterance is still going on; a partial hypothesis may be known.
    Running(Option<String>),
    /// The utterance has ended; the text is the best hypothesis and may be
    /// empty.
    Finalized(String),
    /// The recogniser failed on this utterance.
    Failed,
}

impl RecognitionState {
    /// Whether the current utterance is over. The one after it starts with
    /// the next frame, without anything being reset.
    pub open spec fn terminal(self) -> bool {
        !(self is Running)
    }

    /// Executable form of [`RecognitionState::terminal`].
    pub fn is_terminal(&self) -> (r: bool)
        ensures
            r == self.terminal(),
    {
        match self {
            RecognitionState::Running(_) => false,
            _ => true,
        }
    }

    /// The partial hypothesis of a running utterance, for display only.
    pub fn partial(&self) -> (r: Option<&str>)
        ensures
            match *self {
                RecognitionState::Running(Some(hint)) => r.is_some() && r.unwrap()@ == hint@,
                _ => r.is_none(),
            },
    {
        match self {
            RecognitionState::Running(Some(hint)) => Some(hint.as_str()),
            _ => None,
        }
    }
}

/// How long the simulated recogniser lets an utterance run, in milliseconds.
pub const SIMULATION_INTERVAL_MS: u64 = 5000;

/// The text that the simulated recogniser hears, by the seconds on its
/// clock: it goes round the vocabulary.
pub open spec fn simulated_text(clock_secs: u64) -> Seq<char> {
    if clock_secs % 3 == 0 {
        "power"@
    } else if clock_secs % 3 == 1 {
        "start"@
    } else {
        "stop"@
    }
}

/// The event that a recognition state gives rise to under `rules`: only a
/// finished utterance whose trimmed text is classified emits one.
pub open spec fn emitted(rules: Seq<(Seq<char>, Command)>, state: RecognitionState) -> Option<
    AppCommand,
> {
    match state {
        RecognitionState::Finalized(text) => match classify_spec(rules, trimmed(text@)) {
            Some(command) => Some(AppCommand::Click(command)),
            None => None,
        },
        _ => None,
    }
}

/// Where a value beyond the 16-bit range comes back in at the other end.
pub open spec fn wrap16(v: int) -> int {
    (v + 32768) % 65536 - 32768
}

/// The 16-bit sample for a scaled, rounded amplitude. A value within the
/// range is its own sample. Full scale on the positive side, 32768, is one
/// more than 16 bits hold and becomes the largest sample, 32767. Values
/// beyond full scale are not clamped: they wrap round.
pub open spec fn pcm_of(scaled: int) -> int {
    if -32768 <= scaled <= 32767 {
        scaled
    } else if scaled == 32768 {
        32767
    } else {
        wrap16(scaled)
    }
}

/// The magnitude of an integer.
pub open spec fn magnitude(v: int) -> int {
    if v < 0 {
        -v
    } else {
        v
    }
}

/// From negative to positive full scale, -32768 to 32768, conversion keeps
/// the sign: a positive value gives a positive sample, a negative value a
/// negative one, zero gives zero.
pub proof fn law_pcm_keeps_sign(a: int)
    requires
        -32768 <= a <= 32768,
    ensures
        (pcm_of(a) < 0) == (a < 0),
        (pcm_of(a) > 0) == (a > 0),
        (pcm_of(a) == 0) == (a == 0),
{
}

/// Over the same values conversion keeps the order of magnitudes, with one
/// exception that 16 bits force: negative full scale keeps its magnitude,
/// 32768, while positive full scale is held at 32767. So between these two,
/// and only there, the sample of the value that is no larger in magnitude
/// comes out larger, by one.
pub proof fn law_pcm_keeps_magnitude_order(a: int, b: int)
    requires
        -32768 <= a <= 32768,
        -32768 <= b <= 32768,
        magnitude(a) <= magnitude(b),
    ensures
        !(a == -32768 && b == 32768) ==> magnitude(pcm_of(a)) <= magnitude(pcm_of(b)),
        a == -32768 && b == 32768 ==> magnitude(pcm_of(a)) == magnitude(pcm_of(b)) + 1,
{
}

/// The 16-bit sample for a scaled, rounded amplitude, see [`pcm_of`].
pub fn pcm_sample(scaled: i64) -> (r: i16)
    ensures
        r as int == pcm_of(scaled as int),
        -32768 <= scaled <= 32767 ==> r as int == scaled as int,
        scaled == 32768 ==> r == 32767,
        -32768 <= scaled <= 32768 ==> (r < 0) == (scaled < 0) && (r > 0) == (scaled > 0),
{
    if scaled == 32768 {
        return 32767;
    }
    let low: i64 = scaled % 65536;
    let lifted: i64 = if low < 0 {
        low + 65536
    } else {
        low
    };
    let r: i64 = if lifted >= 32768 {
        lifted - 65536
    } else {
        lifted
    };
    r as i16
}

/// The 16-bit samples for a frame of scaled, rounded amplitudes: as many
/// samples as amplitudes, each converted by [`pcm_of`]. From negative to
/// positive full scale every sample has the sign of its amplitude.
pub fn pcm_frame(scaled: &Vec<i64>) -> (r: Vec<i16>)
    ensures
        r@.len() == scaled@.len(),
        forall|i: int| 0 <= i < scaled@.len() ==> r@[i] as int == pcm_of(scaled@[i] as int),
        forall|i: int|
            0 <= i < scaled@.len() && -32768 <= #[trigger] scaled@[i] <= 32768 ==> (r@[i] < 0) == (
            scaled@[i] < 0) && (r@[i] > 0) == (scaled@[i] > 0),
{
    let mut r: Vec<i16> = Vec::new();
    let mut i: usize = 0;
    while i < scaled.len()
        invariant
            i <= scaled@.len(),
            r@.len() == i,
            forall|j: int| 0 <= j < i ==> r@[j] as int == pcm_of(scaled@[j] as int),
        decreases scaled.len() - i,
    {
        r.push(pcm_sample(scaled[i]));
        i += 1;
    }
    r
}

/// A recogniser for development without a microphone. The caller reads the
/// clock; `waited_ms` is the time since the last utterance ended. Before
/// `interval_ms` have passed the utterance is running; from then on it ends,
/// with the text [`simulated_text`] gives for `clock_secs`.
pub fn simulate(waited_ms: u64, interval_ms: u64, clock_secs: u64) -> (r: RecognitionState)
    ensures
        waited_ms < interval_ms ==> r == RecognitionState::Running(None),
        waited_ms >= interval_ms ==> r is Finalized && r->Finalized_0@ == simulated_text(
            clock_secs,
        ),
{
    if waited_ms >= interval_ms {
        let text = if clock_secs % 3 == 0 {
            "power"
        } else if clock_secs % 3 == 1 {
            "start"
        } else {
            "stop"
        };
        RecognitionState::Finalized(text.to_owned())
    } else {
        RecognitionState::Running(None)
    }
}

/// Turns recognition states into command events.
pub struct AudioDetector {
    classifier: Classifier,
}

impl AudioDetector {
    /// The rules by which finished utterances are classified.
    pub closed spec fn rules(&self) -> Seq<(Seq<char>, Command)> {
        self.classifier@
    }

    /// A detector with the built-in vocabulary.
    pub fn new() -> (r: Self)
        ensures
            r.rules() == default_rules(),
    {
        AudioDetector { classifier: Classifier::new() }
    }

    /// Sets the detector up after the caller has tried to load the speech
    /// model, which happens once per process. Without a model no command can
    /// ever be recognised, so there is no detector either.
    pub fn initialize(model_loaded: bool) -> (r: Result<Self, PipelineError>)
        ensures
            match r {
                Ok(detector) => model_loaded && detector.rules() == default_rules(),
                Err(e) => !model_loaded && e == PipelineError::ModelLoadError,
            },
    {
        if model_loaded {
            Ok(AudioDetector::new())
        } else {
            Err(PipelineError::ModelLoadError)
        }
    }

    /// A detector with a vocabulary of the caller's.
    pub fn with_classifier(classifier: Classifier) -> (r: Self)
        ensures
            r.rules() == classifier@,
    {
        AudioDetector { classifier }
    }

    /// Decides what to emit for the state the recogniser reported. A running
    /// or failed utterance emits nothing; a finished one is trimmed and
    /// classified.
    pub fn process_audio(&self, state: &RecognitionState) -> (r: Option<AppCommand>)
        ensures
            r == emitted(self.rules(), *state),
    {
        match state {
            RecognitionState::Finalized(text) => {
                let core = trim_str(text.as_str());
                match self.classifier.classify(core) {
                    Some(command) => Some(AppCommand::Click(command)),
                    None => None,
                }
            },
            _ => None,
        }
    }
}

} // verus!
