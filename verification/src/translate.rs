//! The text translator: maps one character of a `type` payload to the chord
//! that produces it, over the fixed table of printable ASCII characters,
//! space, newline and tab.

use vstd::prelude::*;
use crate::keys::{KeyId, lower_char, spec_lookup_single};
use crate::chord::Chord;

verus! {

/// A chord of a bare key with at most the shift modifier.
pub open spec fn chord_of(k: KeyId, shift: bool) -> Chord {
    Chord { super_key: false, altgr: false, ctrl: false, alt: false, shift, key: k }
}

/// The table entries that are neither letters nor digits: whitespace,
/// unshifted punctuation, and the shifted symbols with the unshifted key
/// that shares their physical key.
pub open spec fn spec_punct(ch: char) -> Option<(KeyId, bool)> {
    match ch {
        ' ' => Some((KeyId::Space, false)),
        '\n' => Some((KeyId::Enter, false)),
        '\t' => Some((KeyId::Tab, false)),
        '-' => Some((KeyId::Minus, false)),
        '=' => Some((KeyId::Equal, false)),
        '[' => Some((KeyId::LeftBrace, false)),
        ']' => Some((KeyId::RightBrace, false)),
        ';' => Some((KeyId::SemiColon, false)),
        '\'' => Some((KeyId::Apostrophe, false)),
        '`' => Some((KeyId::Grave, false)),
        '\\' => Some((KeyId::BackSlash, false)),
        ',' => Some((KeyId::Comma, false)),
        '.' => Some((KeyId::Dot, false)),
        '/' => Some((KeyId::Slash, false)),
        '!' => Some((KeyId::Num1, true)),
        '@' => Some((KeyId::Num2, true)),
        '#' => Some((KeyId::Num3, true)),
        '$' => Some((KeyId::Num4, true)),
        '%' => Some((KeyId::Num5, true)),
        '^' => Some((KeyId::Num6, true)),
        '&' => Some((KeyId::Num7, true)),
        '*' => Some((KeyId::Num8, true)),
        '(' => Some((KeyId::Num9, true)),
        ')' => Some((KeyId::Num0, true)),
        '_' => Some((KeyId::Minus, true)),
        '+' => Some((KeyId::Equal, true)),
        '{' => Some((KeyId::LeftBrace, true)),
        '}' => Some((KeyId::RightBrace, true)),
        ':' => Some((KeyId::SemiColon, true)),
        '"' => Some((KeyId::Apostrophe, true)),
        '~' => Some((KeyId::Grave, true)),
        '|' => Some((KeyId::BackSlash, true)),
        '<' => Some((KeyId::Comma, true)),
        '>' => Some((KeyId::Dot, true)),
        '?' => Some((KeyId::Slash, true)),
        _ => None,
    }
}

/// The whole translation table: lowercase letters and digits type
/// themselves; uppercase letters type their lowercase key with shift; the
/// rest comes from `spec_punct`.
pub open spec fn spec_translate(ch: char) -> Option<Chord> {
    if ('a' <= ch && ch <= 'z') || ('0' <= ch && ch <= '9') {
        match spec_lookup_single(ch) {
            Some(k) => Some(chord_of(k, false)),
            None => None,
        }
    } else if 'A' <= ch && ch <= 'Z' {
        match spec_lookup_single(lower_char(ch)) {
            Some(k) => Some(chord_of(k, true)),
            None => None,
        }
    } else {
        match spec_punct(ch) {
            Some((k, shift)) => Some(chord_of(k, shift)),
            None => None,
        }
    }
}

/// The domain of the translation table.
pub open spec fn typeable(ch: char) -> bool {
    ('a' <= ch && ch <= 'z') || ('A' <= ch && ch <= 'Z') || ('0' <= ch && ch <= '9')
        || spec_punct(ch) is Some
}

/// Translates one character to the chord that types it, or nothing when the
/// character is outside the table.
pub fn translate_char(ch: char) -> (r: Option<Chord>)
    ensures
        r == spec_translate(ch),
{
    if ('a' <= ch && ch <= 'z') || ('0' <= ch && ch <= '9') {
        match crate::keys::lookup_single_char(ch) {
            Some(k) => Some(
                Chord { super_key: false, altgr: false, ctrl: false, alt: false, shift: false, key: k },
            ),
            None => None,
        }
    } else if 'A' <= ch && ch <= 'Z' {
        match crate::keys::lookup_single_char(ch) {
            Some(k) => Some(
                Chord { super_key: false, altgr: false, ctrl: false, alt: false, shift: true, key: k },
            ),
            None => None,
        }
    } else {
        match punct_entry(ch) {
            Some((k, shift)) => Some(
                Chord { super_key: false, altgr: false, ctrl: false, alt: false, shift, key: k },
            ),
            None => None,
        }
    }
}

/// Looks a character up in the punctuation part of the table.
fn punct_entry(ch: char) -> (r: Option<(KeyId, bool)>)
    ensures
        r == spec_punct(ch),
{
    match ch {
        ' ' => Some((KeyId::Space, false)),
        '\n' => Some((KeyId::Enter, false)),
        '\t' => Some((KeyId::Tab, false)),
        '-' => Some((KeyId::Minus, false)),
        '=' => Some((KeyId::Equal, false)),
        '[' => Some((KeyId::LeftBrace, false)),
        ']' => Some((KeyId::RightBrace, false)),
        ';' => Some((KeyId::SemiColon, false)),
        '\'' => Some((KeyId::Apostrophe, false)),
        '`' => Some((KeyId::Grave, false)),
        '\\' => Some((KeyId::BackSlash, false)),
        ',' => Some((KeyId::Comma, false)),
        '.' => Some((KeyId::Dot, false)),
        '/' => Some((KeyId::Slash, false)),
        '!' => Some((KeyId::Num1, true)),
        '@' => Some((KeyId::Num2, true)),
        '#' => Some((KeyId::Num3, true)),
        '$' => Some((KeyId::Num4, true)),
        '%' => Some((KeyId::Num5, true)),
        '^' => Some((KeyId::Num6, true)),
        '&' => Some((KeyId::Num7, true)),
        '*' => Some((KeyId::Num8, true)),
        '(' => Some((KeyId::Num9, true)),
        ')' => Some((KeyId::Num0, true)),
        '_' => Some((KeyId::Minus, true)),
        '+' => Some((KeyId::Equal, true)),
        '{' => Some((KeyId::LeftBrace, true)),
        '}' => Some((KeyId::RightBrace, true)),
        ':' => Some((KeyId::SemiColon, true)),
        '"' => Some((KeyId::Apostrophe, true)),
        '~' => Some((KeyId::Grave, true)),
        '|' => Some((KeyId::BackSlash, true)),
        '<' => Some((KeyId::Comma, true)),
        '>' => Some((KeyId::Dot, true)),
        '?' => Some((KeyId::Slash, true)),
        _ => None,
    }
}

/// Every uppercase letter types the same key as its lowercase form, with
/// shift held; the lowercase form types without shift.
pub proof fn lemma_translate_uppercase(ch: char)
    requires
        'A' <= ch && ch <= 'Z',
    ensures
        spec_translate(ch) matches Some(up) && spec_translate(lower_char(ch)) matches Some(lo)
            && up.key == lo.key && up.shift && !lo.shift,
{
}

/// Translation succeeds exactly on the characters of the table: every
/// character outside it yields nothing.
pub proof fn lemma_translate_domain(ch: char)
    ensures
        spec_translate(ch) is Some <==> typeable(ch),
{
}

} // verus!
