//! The command classifier: an ordered list of substring rules applied to the
//! lower-cased text of an utterance. An empty text never gives a command.

use vstd::prelude::*;
use crate::command::Command;
use crate::text::{chars_of, contains, contains_chars, to_lowercase, unicode_lowercase};

verus! {

/// One rule of the vocabulary: a text that holds `pattern` means `command`.
#[derive(Debug, PartialEq, Eq)]
pub struct Rule {
    pub pattern: String,
    pub command: Command,
}

impl View for Rule {
    type V = (Seq<char>, Command);

    open spec fn view(&self) -> (Seq<char>, Command) {
        (self.pattern@, self.command)
    }
}

/// The content of a list of rules.
pub open spec fn rules_view(rules: Seq<Rule>) -> Seq<(Seq<char>, Command)> {
    Seq::new(rules.len(), |i: int| rules[i]@)
}

/// The command of the first rule, in list order, whose pattern stands in
/// `text`.
pub open spec fn first_match(rules: Seq<(Seq<char>, Command)>, text: Seq<char>) -> Option<Command>
    decreases rules.len(),
{
    if rules.len() == 0 {
        None
    } else if contains(text, rules[0].0) {
        Some(rules[0].1)
    } else {
        first_match(rules.drop_first(), text)
    }
}

/// What the rules make of a text that is already in lower case: nothing of
/// the empty text, and else what the first matching rule says.
pub open spec fn classify_lowered_spec(rules: Seq<(Seq<char>, Command)>, lowered: Seq<char>) -> Option<
    Command,
> {
    if lowered.len() == 0 {
        None
    } else {
        first_match(rules, lowered)
    }
}

/// What a classifier with the given rules makes of `text`: the empty text
/// gives nothing; any other text is lower-cased, then the first rule that
/// matches decides.
pub open spec fn classify_spec(rules: Seq<(Seq<char>, Command)>, text: Seq<char>) -> Option<
    Command,
> {
    if text.len() == 0 {
        None
    } else {
        classify_lowered_spec(rules, unicode_lowercase(text))
    }
}

/// The built-in vocabulary, in priority order.
pub open spec fn default_rules() -> Seq<(Seq<char>, Command)> {
    seq![
        ("power"@, Command::Power),
        ("start"@, Command::Start),
        ("go"@, Command::Start),
        ("stop"@, Command::Stop),
    ]
}

/// Rules before index `n` that do not match can be skipped.
proof fn lemma_first_match_skips(rules: Seq<(Seq<char>, Command)>, text: Seq<char>, n: int)
    requires
        0 <= n <= rules.len(),
        forall|j: int| 0 <= j < n ==> !contains(text, (#[trigger] rules[j]).0),
    ensures
        first_match(rules, text) == first_match(rules.subrange(n, rules.len() as int), text),
    decreases n,
{
    if n == 0 {
        assert(rules.subrange(0, rules.len() as int) =~= rules);
    } else {
        let rest = rules.drop_first();
        assert(!contains(text, rules[0].0));
        assert forall|j: int| 0 <= j < n - 1 implies !contains(text, (#[trigger] rest[j]).0) by {
            assert(rest[j] == rules[j + 1]);
        }
        lemma_first_match_skips(rest, text, n - 1);
        assert(rest.subrange(n - 1, rest.len() as int) =~= rules.subrange(n, rules.len() as int));
    }
}

/// A lower-case text that holds "start" or "go" and does not hold "power"
/// is classified as `Start` by the built-in vocabulary.
pub proof fn law_start_or_go_is_start(lowered: Seq<char>)
    requires
        contains(lowered, "start"@) || contains(lowered, "go"@),
        !contains(lowered, "power"@),
    ensures
        classify_lowered_spec(default_rules(), lowered) == Some(Command::Start),
{
    let rules = default_rules();
    assert(lowered.len() > 0) by {
        reveal_strlit("start");
        reveal_strlit("go");
    }
    let after_power = rules.drop_first();
    assert(after_power[0] == ("start"@, Command::Start));
    assert(first_match(rules, lowered) == first_match(after_power, lowered));
    if !contains(lowered, "start"@) {
        let after_start = after_power.drop_first();
        assert(after_start[0] == ("go"@, Command::Start));
        assert(first_match(after_power, lowered) == first_match(after_start, lowered));
    }
}

/// A text, in whatever case, whose lower-case form holds "start" or "go"
/// and does not hold "power" is classified as `Start` by the built-in
/// vocabulary.
pub proof fn law_text_with_start_or_go_is_start(text: Seq<char>)
    requires
        text.len() > 0,
        contains(unicode_lowercase(text), "start"@) || contains(unicode_lowercase(text), "go"@),
        !contains(unicode_lowercase(text), "power"@),
    ensures
        classify_spec(default_rules(), text) == Some(Command::Start),
{
    law_start_or_go_is_start(unicode_lowercase(text));
}

/// A lower-case text that holds the pattern of no rule gives no command.
pub proof fn law_no_pattern_no_command(rules: Seq<(Seq<char>, Command)>, lowered: Seq<char>)
    requires
        forall|i: int| 0 <= i < rules.len() ==> !contains(lowered, (#[trigger] rules[i]).0),
    ensures
        classify_lowered_spec(rules, lowered) == None::<Command>,
{
    lemma_first_match_skips(rules, lowered, rules.len() as int);
    assert(rules.subrange(rules.len() as int, rules.len() as int).len() == 0);
}

/// A text whose lower-case form holds the pattern of no rule gives no
/// command.
pub proof fn law_text_without_pattern_no_command(rules: Seq<(Seq<char>, Command)>, text: Seq<char>)
    requires
        forall|i: int|
            0 <= i < rules.len() ==> !contains(unicode_lowercase(text), (#[trigger] rules[i]).0),
    ensures
        classify_spec(rules, text) == None::<Command>,
{
    law_no_pattern_no_command(rules, unicode_lowercase(text));
}

/// The empty text gives no command, whatever the rules are, a rule with an
/// empty pattern included.
pub proof fn law_empty_text_no_command(rules: Seq<(Seq<char>, Command)>)
    ensures
        classify_spec(rules, Seq::<char>::empty()) == None::<Command>,
        classify_lowered_spec(rules, Seq::<char>::empty()) == None::<Command>,
{
}

/// A command is given exactly when some rule matches, and it is then the
/// command of the earliest rule that does.
pub proof fn law_first_match_is_earliest(rules: Seq<(Seq<char>, Command)>, text: Seq<char>)
    ensures
        match first_match(rules, text) {
            Some(c) => exists|i: int|
                0 <= i < rules.len() && contains(text, (#[trigger] rules[i]).0) && rules[i].1 == c
                    && forall|j: int| 0 <= j < i ==> !contains(text, (#[trigger] rules[j]).0),
            None => forall|i: int| 0 <= i < rules.len() ==> !contains(text, (#[trigger] rules[i]).0),
        },
    decreases rules.len(),
{
    if rules.len() == 0 {
    } else if contains(text, rules[0].0) {
        assert(contains(text, rules[0].0) && rules[0].1 == first_match(rules, text)->0);
    } else {
        let rest = rules.drop_first();
        law_first_match_is_earliest(rest, text);
        assert forall|j: int| 0 <= j < rest.len() implies #[trigger] rest[j] == rules[j + 1] by {}
        match first_match(rest, text) {
            Some(c) => {
                let i = choose|i: int|
                    0 <= i < rest.len() && contains(text, (#[trigger] rest[i]).0) && rest[i].1 == c
                        && forall|j: int| 0 <= j < i ==> !contains(text, (#[trigger] rest[j]).0);
                assert(rules[i + 1] == rest[i]);
                assert forall|j: int| 0 <= j < i + 1 implies !contains(
                    text,
                    (#[trigger] rules[j]).0,
                ) by {
                    if j > 0 {
                        assert(rest[j - 1] == rules[j]);
                    }
                }
                assert(contains(text, rules[i + 1].0) && rules[i + 1].1 == c);
            },
            None => {
                assert forall|i: int| 0 <= i < rules.len() implies !contains(
                    text,
                    (#[trigger] rules[i]).0,
                ) by {
                    if i > 0 {
                        assert(rest[i - 1] == rules[i]);
                    }
                }
            },
        }
    }
}

/// Maps the text of an utterance to a command, or to none.
pub struct Classifier {
    rules: Vec<Rule>,
}

impl View for Classifier {
    type V = Seq<(Seq<char>, Command)>;

    closed spec fn view(&self) -> Seq<(Seq<char>, Command)> {
        rules_view(self.rules@)
    }
}

impl Classifier {
    /// A classifier with the built-in vocabulary.
    pub fn new() -> (r: Self)
        ensures
            r@ == default_rules(),
    {
        let mut rules: Vec<Rule> = Vec::new();
        rules.push(Rule { pattern: "power".to_owned(), command: Command::Power });
        rules.push(Rule { pattern: "start".to_owned(), command: Command::Start });
        rules.push(Rule { pattern: "go".to_owned(), command: Command::Start });
        rules.push(Rule { pattern: "stop".to_owned(), command: Command::Stop });
        assert(rules_view(rules@) =~= default_rules());
        Classifier { rules }
    }

    /// A classifier with a vocabulary of the caller's; earlier rules win.
    pub fn with_rules(rules: Vec<Rule>) -> (r: Self)
        ensures
            r@ == rules_view(rules@),
    {
        Classifier { rules }
    }

    /// Classifies a text that is already in lower case: the command of the
    /// first rule whose pattern stands in it, or none. The empty text gives
    /// none.
    pub fn classify_lowered(&self, lowered: &str) -> (r: Option<Command>)
        ensures
            r == classify_lowered_spec(self@, lowered@),
    {
        let low = chars_of(lowered);
        if low.len() == 0 {
            return None;
        }
        let ghost all = rules_view(self.rules@);
        let mut i: usize = 0;
        while i < self.rules.len()
            invariant
                i <= self.rules@.len(),
                all == rules_view(self.rules@),
                low@ == lowered@,
                low@.len() > 0,
                forall|j: int| 0 <= j < i ==> !contains(low@, (#[trigger] all[j]).0),
            decreases self.rules.len() - i,
        {
            let pattern = chars_of(self.rules[i].pattern.as_str());
            if contains_chars(&low, &pattern) {
                proof {
                    lemma_first_match_skips(all, low@, i as int);
                    let rest = all.subrange(i as int, all.len() as int);
                    assert(rest[0] == all[i as int]);
                }
                return Some(self.rules[i].command);
            }
            i += 1;
        }
        proof {
            lemma_first_match_skips(all, low@, i as int);
            assert(all.subrange(i as int, all.len() as int).len() == 0);
        }
        None
    }

    /// Classifies the text of an utterance. The empty text gives no command.
    /// Any other text is lower-cased and handed to
    /// [`Classifier::classify_lowered`].
    pub fn classify(&self, text: &str) -> (r: Option<Command>)
        ensures
            r == classify_spec(self@, text@),
            text@.len() == 0 ==> r == None::<Command>,
    {
        if text.unicode_len() == 0 {
            return None;
        }
        let lowered = to_lowercase(text);
        self.classify_lowered(lowered.as_str())
    }
}

} // verus!
