//! Actions are the interpreter's output: backend key events, timed sleeps,
//! and warnings about skipped input. The unverified shell performs them in
//! order; the library only ever computes them.

use vstd::prelude::*;
use crate::keys::KeyId;

verus! {

/// Why a chord token was rejected.
#[derive(Clone, PartialEq, Eq, Debug)]
pub enum ChordError {
    /// The token, or its key segment, was empty.
    EmptyChord,
    /// The key segment (carried here) is not in the registry.
    UnresolvedKey(String),
    /// A modifier segment (carried here) is not a known modifier name.
    UnknownModifier(String),
}

/// Mathematical image of a `ChordError`: the carried text as a `Seq<char>`.
pub enum ChordErrorSpec {
    EmptyChord,
    UnresolvedKey(Seq<char>),
    UnknownModifier(Seq<char>),
}

impl View for ChordError {
    type V = ChordErrorSpec;

    open spec fn view(&self) -> ChordErrorSpec {
        match self {
            ChordError::EmptyChord => ChordErrorSpec::EmptyChord,
            ChordError::UnresolvedKey(s) => ChordErrorSpec::UnresolvedKey(s@),
            ChordError::UnknownModifier(s) => ChordErrorSpec::UnknownModifier(s@),
        }
    }
}

/// A recoverable fault: the offending token or character is skipped and
/// the rest of the line goes on.
#[derive(Clone, PartialEq, Eq, Debug)]
pub enum Warning {
    /// A chord token failed to parse.
    Chord(ChordError),
    /// A character of a `type` payload is outside the translation table.
    Untypeable(char),
    /// The payload of `keydelay`/`typedelay` is not a number; the prior
    /// delay stays.
    BadDelay,
}

/// Mathematical image of a `Warning`.
pub enum WarningSpec {
    Chord(ChordErrorSpec),
    Untypeable(char),
    BadDelay,
}

impl View for Warning {
    type V = WarningSpec;

    open spec fn view(&self) -> WarningSpec {
        match self {
            Warning::Chord(e) => WarningSpec::Chord(e@),
            Warning::Untypeable(c) => WarningSpec::Untypeable(*c),
            Warning::BadDelay => WarningSpec::BadDelay,
        }
    }
}

/// One step of a command's effect, in execution order.
#[derive(Clone, PartialEq, Eq, Debug)]
pub enum Action {
    /// Press this key on the backend device.
    Press(KeyId),
    /// Release this key on the backend device.
    Release(KeyId),
    /// Flush the queued events on the backend device.
    Sync,
    /// Block for this many milliseconds.
    Sleep(u64),
    /// Report this fault on the diagnostic stream.
    Warn(Warning),
}

/// Mathematical image of an `Action`.
pub enum ActSpec {
    Press(KeyId),
    Release(KeyId),
    Sync,
    Sleep(u64),
    Warn(WarningSpec),
}

impl View for Action {
    type V = ActSpec;

    open spec fn view(&self) -> ActSpec {
        match self {
            Action::Press(k) => ActSpec::Press(*k),
            Action::Release(k) => ActSpec::Release(*k),
            Action::Sync => ActSpec::Sync,
            Action::Sleep(ms) => ActSpec::Sleep(*ms),
            Action::Warn(w) => ActSpec::Warn(w@),
        }
    }
}

/// The images of a whole action list.
pub open spec fn views(s: Seq<Action>) -> Seq<ActSpec> {
    s.map_values(|a: Action| a@)
}

} // verus!
