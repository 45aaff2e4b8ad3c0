use voice_roi::classifier::{Classifier, Rule};
use voice_roi::command::{AppCommand, Command};

#[test]
fn start_in_a_sentence_is_start() {
    let c = Classifier::new();
    assert_eq!(c.classify("please start now"), Some(Command::Start));
}

#[test]
fn go_is_start() {
    let c = Classifier::new();
    assert_eq!(c.classify("go"), Some(Command::Start));
    assert_eq!(c.classify("let's go there"), Some(Command::Start));
}

#[test]
fn matching_ignores_ascii_case() {
    let c = Classifier::new();
    assert_eq!(c.classify("START"), Some(Command::Start));
    assert_eq!(c.classify("Go!"), Some(Command::Start));
    assert_eq!(c.classify("PoWeR"), Some(Command::Power));
    assert_eq!(c.classify("Stop"), Some(Command::Stop));
}

#[test]
fn empty_text_is_no_command() {
    let c = Classifier::new();
    assert_eq!(c.classify(""), None);
}

#[test]
fn unknown_text_is_no_command() {
    let c = Classifier::new();
    assert_eq!(c.classify("hello world"), None);
    assert_eq!(c.classify("sto p"), None);
    assert_eq!(c.classify("   "), None);
}

#[test]
fn earlier_rule_wins() {
    let c = Classifier::new();
    assert_eq!(c.classify("go stop"), Some(Command::Start));
    assert_eq!(c.classify("stop and go"), Some(Command::Start));
    assert_eq!(c.classify("start the power"), Some(Command::Power));
    assert_eq!(c.classify("power stop"), Some(Command::Power));
}

#[test]
fn garbled_phrases_still_match() {
    let c = Classifier::new();
    assert_eq!(c.classify("xxstopxx"), Some(Command::Stop));
    assert_eq!(c.classify("restarting"), Some(Command::Start));
    assert_eq!(c.classify("ergonomic"), Some(Command::Start));
}

#[test]
fn letters_beyond_ascii_are_folded_too() {
    let c = Classifier::new();
    assert_eq!(c.classify("ÉGO"), Some(Command::Start));
    let rules = vec![
        Rule { pattern: String::from("über"), command: Command::Power },
        Rule { pattern: String::from("k"), command: Command::Stop },
    ];
    let c = Classifier::with_rules(rules);
    assert_eq!(c.classify("ÜBER"), Some(Command::Power));
    assert_eq!(c.classify("Über alles"), Some(Command::Power));
    // U+212A KELVIN SIGN has the lower-case form "k"
    assert_eq!(c.classify("\u{212A}"), Some(Command::Stop));
    assert_eq!(c.classify("ÖL"), None);
}

#[test]
fn custom_rules_follow_their_own_order() {
    let rules = vec![
        Rule { pattern: String::from("stop"), command: Command::Stop },
        Rule { pattern: String::from("go"), command: Command::Start },
    ];
    let c = Classifier::with_rules(rules);
    assert_eq!(c.classify("go stop"), Some(Command::Stop));
    assert_eq!(c.classify("GO"), Some(Command::Start));
    assert_eq!(c.classify("power"), None);
}

#[test]
fn patterns_are_taken_as_written() {
    let rules = vec![Rule { pattern: String::from("Go"), command: Command::Start }];
    let c = Classifier::with_rules(rules);
    // the text is lower-cased, the pattern is not
    assert_eq!(c.classify("Go"), None);
}

#[test]
fn empty_pattern_matches_every_text_but_the_empty_one() {
    let rules = vec![Rule { pattern: String::new(), command: Command::Stop }];
    let c = Classifier::with_rules(rules);
    assert_eq!(c.classify(""), None);
    assert_eq!(c.classify_lowered(""), None);
    assert_eq!(c.classify("anything"), Some(Command::Stop));
    assert_eq!(c.classify(" "), Some(Command::Stop));
}

#[test]
fn no_rules_no_command() {
    let c = Classifier::with_rules(Vec::new());
    assert_eq!(c.classify("start"), None);
}

#[test]
fn classify_lowered_takes_the_text_as_it_is() {
    let c = Classifier::new();
    assert_eq!(c.classify_lowered("please stop"), Some(Command::Stop));
    assert_eq!(c.classify_lowered("go stop"), Some(Command::Start));
    assert_eq!(c.classify_lowered("Please STOP"), None);
    assert_eq!(c.classify_lowered(""), None);
    assert_eq!(c.classify("Please STOP"), c.classify_lowered("please stop"));
}

#[test]
fn tokens_name_the_regions() {
    assert_eq!(Command::Power.token(), "power");
    assert_eq!(Command::Start.token(), "start");
    assert_eq!(Command::Stop.token(), "stop");
}

#[test]
fn event_carries_its_command() {
    assert_eq!(AppCommand::Click(Command::Stop).command(), Command::Stop);
}
