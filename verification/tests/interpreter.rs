use dotool::actions::{Action, ChordError, Warning};
use dotool::interp::{classify_line, Command, Fatal, Session};
use dotool::keys::KeyId;

fn press(k: KeyId) -> Action {
    Action::Press(k)
}

fn release(k: KeyId) -> Action {
    Action::Release(k)
}

#[test]
fn key_line_presses_and_releases_with_timing() {
    let mut s = Session::new();
    let acts = s.run_line("key ctrl+c").unwrap();
    assert_eq!(
        acts,
        vec![
            press(KeyId::LeftCtrl),
            press(KeyId::C),
            Action::Sync,
            Action::Sleep(8),
            release(KeyId::C),
            release(KeyId::LeftCtrl),
            Action::Sync,
            Action::Sleep(2),
        ]
    );
}

#[test]
fn type_line_translates_each_character() {
    let mut s = Session::new();
    let acts = s.run_line("type Hi!").unwrap();
    let expected = vec![
        // H: shift+h
        press(KeyId::LeftShift),
        press(KeyId::H),
        Action::Sync,
        Action::Sleep(8),
        release(KeyId::H),
        release(KeyId::LeftShift),
        Action::Sync,
        Action::Sleep(2),
        // i
        press(KeyId::I),
        Action::Sync,
        Action::Sleep(8),
        release(KeyId::I),
        Action::Sync,
        Action::Sleep(2),
        // !: shift+1
        press(KeyId::LeftShift),
        press(KeyId::Num1),
        Action::Sync,
        Action::Sleep(8),
        release(KeyId::Num1),
        release(KeyId::LeftShift),
        Action::Sync,
        Action::Sleep(2),
    ];
    assert_eq!(acts, expected);
}

#[test]
fn keydelay_changes_the_delay_of_later_keys() {
    let mut s = Session::new();
    assert_eq!(s.run_line("keydelay 50").unwrap(), vec![]);
    assert_eq!(s.keydelay_ms, 50);
    let acts = s.run_line("key a").unwrap();
    assert_eq!(
        acts,
        vec![
            press(KeyId::A),
            Action::Sync,
            Action::Sleep(8),
            release(KeyId::A),
            Action::Sync,
            Action::Sleep(50),
        ]
    );
}

#[test]
fn typedelay_changes_the_delay_of_later_typing() {
    let mut s = Session::new();
    assert_eq!(s.run_line("typedelay 25").unwrap(), vec![]);
    assert_eq!(s.typedelay_ms, 25);
    let acts = s.run_line("type a").unwrap();
    assert_eq!(
        acts,
        vec![
            press(KeyId::A),
            Action::Sync,
            Action::Sleep(8),
            release(KeyId::A),
            Action::Sync,
            Action::Sleep(25),
        ]
    );
}

#[test]
fn bad_modifier_warns_and_later_tokens_still_run() {
    let mut s = Session::new();
    let acts = s.run_line("key xyz+a b").unwrap();
    assert_eq!(
        acts,
        vec![
            Action::Warn(Warning::Chord(ChordError::UnknownModifier("xyz".to_string()))),
            press(KeyId::B),
            Action::Sync,
            Action::Sleep(8),
            release(KeyId::B),
            Action::Sync,
            Action::Sleep(2),
        ]
    );
}

#[test]
fn untypeable_character_warns_and_typing_goes_on() {
    let mut s = Session::new();
    let acts = s.run_line("type \u{e9}b").unwrap();
    assert_eq!(
        acts,
        vec![
            Action::Warn(Warning::Untypeable('\u{e9}')),
            press(KeyId::B),
            Action::Sync,
            Action::Sleep(8),
            release(KeyId::B),
            Action::Sync,
            Action::Sleep(2),
        ]
    );
}

#[test]
fn malformed_delay_warns_and_keeps_the_prior_value() {
    let mut s = Session::new();
    let acts = s.run_line("keydelay soon").unwrap();
    assert_eq!(acts, vec![Action::Warn(Warning::BadDelay)]);
    assert_eq!(s.keydelay_ms, 2);
}

#[test]
fn keydown_and_keyup_emit_one_direction_only() {
    let mut s = Session::new();
    let down = s.run_line("keydown leftctrl").unwrap();
    assert_eq!(down, vec![press(KeyId::LeftCtrl), Action::Sync, Action::Sleep(2)]);
    let up = s.run_line("keyup leftctrl").unwrap();
    assert_eq!(up, vec![release(KeyId::LeftCtrl), Action::Sync, Action::Sleep(2)]);
}

#[test]
fn blank_lines_do_nothing() {
    let mut s = Session::new();
    assert_eq!(s.run_line("").unwrap(), vec![]);
    assert_eq!(s.run_line("   \t ").unwrap(), vec![]);
    assert_eq!(s, Session::new());
}

#[test]
fn missing_payloads_and_unknown_opcodes_are_fatal() {
    assert_eq!(classify_line("keydelay"), Err(Fatal::DelayMissing));
    assert_eq!(classify_line("type"), Err(Fatal::TextMissing));
    assert_eq!(classify_line("typedelay"), Err(Fatal::TypeDelayMissing));
    assert_eq!(classify_line("bogus a b"), Err(Fatal::UnknownOperation));
    assert_eq!(classify_line("keyhold 10"), Err(Fatal::UnknownOperation));
    let mut s = Session::new();
    assert_eq!(s.run_line("bogus"), Err(Fatal::UnknownOperation));
    assert_eq!(s, Session::new());
}

#[test]
fn classification_splits_opcode_and_payload() {
    match classify_line("key a ctrl+b") {
        Ok(Command::Key(toks)) => assert_eq!(toks, vec!["a", "ctrl+b"]),
        other => panic!("wrong classification: {:?}", other.is_ok()),
    }
    match classify_line("type hello world") {
        Ok(Command::TypeText(rest)) => assert_eq!(rest, "hello world"),
        _ => panic!("wrong classification"),
    }
}

#[test]
fn type_keeps_extra_leading_space_in_the_payload() {
    // Only the first separator after the opcode is consumed: a second
    // space is typed.
    let mut s = Session::new();
    let acts = s.run_line("type  a").unwrap();
    assert_eq!(
        acts,
        vec![
            press(KeyId::Space),
            Action::Sync,
            Action::Sleep(8),
            release(KeyId::Space),
            Action::Sync,
            Action::Sleep(2),
            press(KeyId::A),
            Action::Sync,
            Action::Sleep(8),
            release(KeyId::A),
            Action::Sync,
            Action::Sleep(2),
        ]
    );
}

#[test]
fn empty_key_payload_emits_nothing() {
    let mut s = Session::new();
    assert_eq!(s.run_line("key").unwrap(), vec![]);
    assert_eq!(s.run_line("key   ").unwrap(), vec![]);
}
