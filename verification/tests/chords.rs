use dotool::actions::{Action, ChordError};
use dotool::chord::Chord;
use dotool::keys::{lookup_key, KeyId};
use dotool::parse::parse_chord;
use dotool::translate::translate_char;

fn plain(key: KeyId) -> Chord {
    Chord { super_key: false, altgr: false, ctrl: false, alt: false, shift: false, key }
}

#[test]
fn parse_sets_exactly_the_named_modifiers() {
    let c = parse_chord("super+altgr+ctrl+alt+shift+a").unwrap();
    assert!(c.super_key && c.altgr && c.ctrl && c.alt && c.shift);
    assert_eq!(c.key, KeyId::A);

    let c = parse_chord("ctrl+c").unwrap();
    assert_eq!(c, Chord { ctrl: true, ..plain(KeyId::C) });

    let c = parse_chord("Control+Shift+F5").unwrap();
    assert_eq!(c, Chord { ctrl: true, shift: true, ..plain(KeyId::F5) });

    let c = parse_chord("alt+tab").unwrap();
    assert_eq!(c, Chord { alt: true, ..plain(KeyId::Tab) });

    // Duplicates are idempotent.
    let c = parse_chord("ctrl+control+ctrl+x").unwrap();
    assert_eq!(c, Chord { ctrl: true, ..plain(KeyId::X) });
}

#[test]
fn single_uppercase_key_implies_shift() {
    let c = parse_chord("A").unwrap();
    assert_eq!(c, Chord { shift: true, ..plain(KeyId::A) });
    let c = parse_chord("shift+A").unwrap();
    assert_eq!(c, Chord { shift: true, ..plain(KeyId::A) });
    let c = parse_chord("a").unwrap();
    assert_eq!(c, plain(KeyId::A));
}

#[test]
fn empty_tokens_fail_as_empty_chords() {
    assert_eq!(parse_chord(""), Err(ChordError::EmptyChord));
    assert_eq!(parse_chord("+"), Err(ChordError::EmptyChord));
    assert_eq!(parse_chord("ctrl+"), Err(ChordError::EmptyChord));
}

#[test]
fn unknown_modifier_fails_even_with_a_good_key() {
    assert_eq!(lookup_key("a"), Some(KeyId::A));
    assert_eq!(
        parse_chord("foo+a"),
        Err(ChordError::UnknownModifier("foo".to_string()))
    );
}

#[test]
fn unresolved_key_carries_the_key_segment() {
    assert_eq!(
        parse_chord("ctrl+nosuchkey"),
        Err(ChordError::UnresolvedKey("nosuchkey".to_string()))
    );
}

#[test]
fn registry_lookup_is_case_insensitive_with_aliases() {
    assert_eq!(lookup_key("F12"), Some(KeyId::F12));
    assert_eq!(lookup_key("SPACE"), Some(KeyId::Space));
    assert_eq!(lookup_key("Return"), Some(KeyId::Enter));
    assert_eq!(lookup_key("enter"), Some(KeyId::Enter));
    assert_eq!(lookup_key("esc"), Some(KeyId::Esc));
    assert_eq!(lookup_key("escape"), Some(KeyId::Esc));
    assert_eq!(lookup_key("pause"), Some(KeyId::Pause));
    assert_eq!(lookup_key("semicolon"), Some(KeyId::SemiColon));
    assert_eq!(lookup_key("9"), Some(KeyId::Num9));
    assert_eq!(lookup_key("nosuch"), None);
    assert_eq!(lookup_key(""), None);
}

#[test]
fn uppercase_translates_to_the_lowercase_key_with_shift() {
    let lo = translate_char('a').unwrap();
    let up = translate_char('A').unwrap();
    assert_eq!(up.key, lo.key);
    assert!(up.shift && !lo.shift);

    let one = translate_char('1').unwrap();
    let bang = translate_char('!').unwrap();
    assert_eq!(bang.key, one.key);
    assert!(bang.shift && !one.shift);
}

#[test]
fn translation_covers_whitespace_and_punctuation() {
    assert_eq!(translate_char(' ').unwrap(), plain(KeyId::Space));
    assert_eq!(translate_char('\n').unwrap(), plain(KeyId::Enter));
    assert_eq!(translate_char('\t').unwrap(), plain(KeyId::Tab));
    assert_eq!(translate_char('-').unwrap(), plain(KeyId::Minus));
    assert_eq!(
        translate_char('{').unwrap(),
        Chord { shift: true, ..plain(KeyId::LeftBrace) }
    );
    assert_eq!(
        translate_char('?').unwrap(),
        Chord { shift: true, ..plain(KeyId::Slash) }
    );
    assert_eq!(
        translate_char('_').unwrap(),
        Chord { shift: true, ..plain(KeyId::Minus) }
    );
}

#[test]
fn characters_outside_the_table_do_not_translate() {
    assert_eq!(translate_char('\u{e9}'), None);
    assert_eq!(translate_char('\u{1f600}'), None);
    assert_eq!(translate_char('\r'), None);
    assert_eq!(translate_char('\u{0}'), None);
}

#[test]
fn release_order_reverses_press_order() {
    let c = Chord { ctrl: true, shift: true, ..plain(KeyId::C) };
    assert_eq!(
        c.down_actions(),
        vec![
            Action::Press(KeyId::LeftCtrl),
            Action::Press(KeyId::LeftShift),
            Action::Press(KeyId::C),
            Action::Sync,
        ]
    );
    assert_eq!(
        c.up_actions(),
        vec![
            Action::Release(KeyId::C),
            Action::Release(KeyId::LeftShift),
            Action::Release(KeyId::LeftCtrl),
            Action::Sync,
        ]
    );

    let all = Chord {
        super_key: true,
        altgr: true,
        ctrl: true,
        alt: true,
        shift: true,
        key: KeyId::Q,
    };
    assert_eq!(
        all.down_actions(),
        vec![
            Action::Press(KeyId::LeftMeta),
            Action::Press(KeyId::RightAlt),
            Action::Press(KeyId::LeftCtrl),
            Action::Press(KeyId::LeftAlt),
            Action::Press(KeyId::LeftShift),
            Action::Press(KeyId::Q),
            Action::Sync,
        ]
    );
    assert_eq!(
        all.up_actions(),
        vec![
            Action::Release(KeyId::Q),
            Action::Release(KeyId::LeftShift),
            Action::Release(KeyId::LeftAlt),
            Action::Release(KeyId::LeftCtrl),
            Action::Release(KeyId::RightAlt),
            Action::Release(KeyId::LeftMeta),
            Action::Sync,
        ]
    );
}

#[test]
fn bare_chord_has_no_modifiers() {
    let c = Chord::new(KeyId::Grave);
    assert_eq!(c, plain(KeyId::Grave));
    assert_eq!(
        c.down_actions(),
        vec![Action::Press(KeyId::Grave), Action::Sync]
    );
}
