use calc_rs::messages::{
    has_flag, FLAG_SERIOUS, FLAG_SILLY, FLAG_SUPPRESS_NOTICE, FLAG_SUPPRESS_NOTICE_SHORT,
};
use calc_rs::{get_messages, notice_suppressed, select_mode, Expression, Operation, Reply, TextMode};

fn owned(words: &[&str]) -> Vec<String> {
    words.iter().map(|w| w.to_string()).collect()
}

const LICENSE: &str = "calc.rs  Copyright (C) 2024  miiiiiyt
This program comes with ABSOLUTELY NO WARRANTY; for details type `info'.
This is free software, and you are welcome to redistribute it
under certain conditions; type `info' for details.";

#[test]
fn the_serious_texts() {
    let messages = get_messages(TextMode::Serious);
    assert_eq!(messages.license, LICENSE);
    assert_eq!(messages.welcome, "Welcome to calc.rs.\nMade by miiiiiyt.\nPlease note that of right now you can only supply two numbers.\nArguments need to be seperated by spaces.");
    assert_eq!(messages.goodbye, "Goodbye");
    assert_eq!(messages.error, "An error occured. Please check your input.\nIf you believe this to be a bug, please report it on the Github.\nType info for more info.");
    assert_eq!(messages.info, "calc.rs (c) 2024 miiiiiyt\nA basic commandline calculator written in Rust.\nGithub: https://github.com/miiiiiyt/calc.rs\nLicense: https://www.gnu.org/licenses/gpl-3.0\nNo fun allowed today.\n(see https://github.com/miiiiiYT/calc.rs/tree/master#flags for instructions on how to enable fun)");
}

#[test]
fn the_silly_texts() {
    let messages = get_messages(TextMode::Silly);
    assert_eq!(messages.license, LICENSE);
    assert_eq!(messages.welcome, "Welcome to calc.rs :3\nMade by miiiiiyt.\nPlease note that of right now you can only supply two numbers.\nArguments need to be seperated by spaces.");
    assert_eq!(messages.goodbye, "Take care love <3");
    assert_eq!(messages.error, "Oopsie :c");
    assert_eq!(messages.info, "calc.rs (c) 2024 miiiiiyt\nA basic commandline calculator written in Rust.\nGithub: https://github.com/miiiiiyt/calc.rs\nLicense: https://www.gnu.org/licenses/gpl-3.0\nNow with added fun! :3");
}

#[test]
fn each_reply_has_its_text() {
    for mode in [TextMode::Serious, TextMode::Silly] {
        let messages = get_messages(mode);
        assert_eq!(messages.text_for(&Reply::Goodbye), Some(messages.goodbye));
        assert_eq!(messages.text_for(&Reply::Info), Some(messages.info));
        assert_eq!(messages.text_for(&Reply::Error), Some(messages.error));
        assert_eq!(messages.text_for(&Reply::Nothing), None);
        let sum = Reply::Calculate(Expression {
            first: "1".to_string(),
            operation: Operation::Add,
            second: "2".to_string(),
        });
        assert_eq!(messages.text_for(&sum), None);
    }
}

#[test]
fn the_flags_are_fixed() {
    assert_eq!(FLAG_SERIOUS, "--serious");
    assert_eq!(FLAG_SILLY, "--silly");
    assert_eq!(FLAG_SUPPRESS_NOTICE, "--suppress-notice");
    assert_eq!(FLAG_SUPPRESS_NOTICE_SHORT, "-n");
}

#[test]
fn a_flag_is_found_as_a_whole_argument() {
    assert!(has_flag(&owned(&["calc", "--silly"]), "--silly"));
    assert!(has_flag(&owned(&["--silly", "calc"]), "--silly"));
    assert!(!has_flag(&owned(&["calc", "--silly-walk"]), "--silly"));
    assert!(!has_flag(&owned(&["calc", "--sill"]), "--silly"));
    assert!(!has_flag(&owned(&["calc", "--SILLY"]), "--silly"));
    assert!(!has_flag(&owned(&[]), "--silly"));
}

#[test]
fn the_tone_is_serious_unless_only_silly_is_asked_for() {
    assert_eq!(select_mode(&owned(&["calc"])), TextMode::Serious);
    assert_eq!(select_mode(&owned(&[])), TextMode::Serious);
    assert_eq!(select_mode(&owned(&["calc", "--serious"])), TextMode::Serious);
    assert_eq!(select_mode(&owned(&["calc", "--silly"])), TextMode::Silly);
    assert_eq!(select_mode(&owned(&["calc", "--silly", "--serious"])), TextMode::Serious);
    assert_eq!(select_mode(&owned(&["calc", "--serious", "--silly"])), TextMode::Serious);
    assert_eq!(select_mode(&owned(&["calc", "-n", "--silly"])), TextMode::Silly);
    assert_eq!(select_mode(&owned(&["calc", "--funny"])), TextMode::Serious);
}

#[test]
fn the_notice_is_suppressed_by_either_flag() {
    assert!(!notice_suppressed(&owned(&["calc"])));
    assert!(!notice_suppressed(&owned(&["calc", "--silly"])));
    assert!(notice_suppressed(&owned(&["calc", "--suppress-notice"])));
    assert!(notice_suppressed(&owned(&["calc", "-n"])));
    assert!(notice_suppressed(&owned(&["calc", "--silly", "-n"])));
    assert!(!notice_suppressed(&owned(&["calc", "-N"])));
    assert!(!notice_suppressed(&owned(&["calc", "--suppress"])));
}
