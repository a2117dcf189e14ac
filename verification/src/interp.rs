//! The command interpreter: one input line is classified into a command,
//! and the command is executed against the session's timing state, giving
//! the exact list of actions the shell must perform.

use vstd::prelude::*;
use crate::actions::{Action, ActSpec, Warning, WarningSpec, views};
use crate::parse::{parse_chord, spec_parse_chord, str_views};
use crate::translate::{translate_char, spec_translate};
use crate::delay::{parse_delay, spec_parse_delay};
use crate::scan::{spec_ltrim, lead_tok, after_tok, spec_tokens, spec_trim};

verus! {

/// One classified input line: the opcode with its payload.
#[derive(PartialEq, Eq, Debug)]
pub enum Command<'a> {
    /// A blank line: nothing to do.
    Empty,
    /// `key`: press and release each chord in turn.
    Key(Vec<&'a str>),
    /// `keydown`: press each chord and leave it held.
    KeyDown(Vec<&'a str>),
    /// `keyup`: release each chord.
    KeyUp(Vec<&'a str>),
    /// `keydelay`: set the delay after each discrete key action.
    KeyDelay(&'a str),
    /// `type`: type the payload character by character.
    TypeText(&'a str),
    /// `typedelay`: set the delay after each typed character.
    TypeDelay(&'a str),
}

/// Mathematical image of a `Command`.
pub enum CmdSpec {
    Empty,
    Key(Seq<Seq<char>>),
    KeyDown(Seq<Seq<char>>),
    KeyUp(Seq<Seq<char>>),
    KeyDelay(Seq<char>),
    TypeText(Seq<char>),
    TypeDelay(Seq<char>),
}

impl<'a> View for Command<'a> {
    type V = CmdSpec;

    open spec fn view(&self) -> CmdSpec {
        match self {
            Command::Empty => CmdSpec::Empty,
            Command::Key(ts) => CmdSpec::Key(str_views(ts@)),
            Command::KeyDown(ts) => CmdSpec::KeyDown(str_views(ts@)),
            Command::KeyUp(ts) => CmdSpec::KeyUp(str_views(ts@)),
            Command::KeyDelay(rem) => CmdSpec::KeyDelay(rem@),
            Command::TypeText(rem) => CmdSpec::TypeText(rem@),
            Command::TypeDelay(rem) => CmdSpec::TypeDelay(rem@),
        }
    }
}

/// A line-level fault: the session stops on it, where a bad token would
/// only have been skipped.
#[derive(Clone, Copy, PartialEq, Eq, Structural, Debug)]
pub enum Fatal {
    /// `keydelay` with no payload at all.
    DelayMissing,
    /// `type` with no payload at all.
    TextMissing,
    /// `typedelay` with no payload at all.
    TypeDelayMissing,
    /// The opcode is not in the dispatch table.
    UnknownOperation,
}

/// What classification returns, over the line's characters: blank lines
/// are empty commands; the first whitespace-separated token picks the
/// opcode; chord opcodes take the following tokens; remainder opcodes take
/// the raw rest of the line after one separator, and miss their payload
/// when the line ends at the opcode.
pub open spec fn spec_classify(line: Seq<char>) -> Result<CmdSpec, Fatal> {
    let t = spec_ltrim(line);
    if t.len() == 0 {
        Ok(CmdSpec::Empty)
    } else {
        let op = lead_tok(t);
        let rest = after_tok(t);
        if op == "key"@ {
            Ok(CmdSpec::Key(spec_tokens(rest)))
        } else if op == "keydown"@ {
            Ok(CmdSpec::KeyDown(spec_tokens(rest)))
        } else if op == "keyup"@ {
            Ok(CmdSpec::KeyUp(spec_tokens(rest)))
        } else if op == "keydelay"@ {
            if rest.len() == 0 {
                Err(Fatal::DelayMissing)
            } else {
                Ok(CmdSpec::KeyDelay(rest.drop_first()))
            }
        } else if op == "type"@ {
            if rest.len() == 0 {
                Err(Fatal::TextMissing)
            } else {
                Ok(CmdSpec::TypeText(rest.drop_first()))
            }
        } else if op == "typedelay"@ {
            if rest.len() == 0 {
                Err(Fatal::TypeDelayMissing)
            } else {
                Ok(CmdSpec::TypeDelay(rest.drop_first()))
            }
        } else {
            Err(Fatal::UnknownOperation)
        }
    }
}

/// Classifies one input line.
pub fn classify_line(line: &str) -> (r: Result<Command, Fatal>)
    ensures
        match r {
            Ok(c) => spec_classify(line@) == Ok::<CmdSpec, Fatal>(c@),
            Err(f) => spec_classify(line@) == Err::<CmdSpec, Fatal>(f),
        },
{
    let n = line.unicode_len();
    let a = crate::scan::skip_ws(line, 0);
    proof {
        assert(line@.subrange(0, n as int) =~= line@);
    }
    if a == n {
        proof {
            assert(line@.subrange(n as int, n as int) =~= Seq::<char>::empty());
        }
        return Ok(Command::Empty);
    }
    let j = crate::scan::skip_token(line, a);
    let ghost t = line@.subrange(a as int, n as int);
    let op = line.substring_char(a, j);
    proof {
        assert(op@ == lead_tok(t));
        assert(after_tok(t) == line@.subrange(j as int, n as int));
    }
    if crate::scan::str_eq(op, "key") {
        Ok(Command::Key(crate::scan::tokenize(line, j)))
    } else if crate::scan::str_eq(op, "keydown") {
        Ok(Command::KeyDown(crate::scan::tokenize(line, j)))
    } else if crate::scan::str_eq(op, "keyup") {
        Ok(Command::KeyUp(crate::scan::tokenize(line, j)))
    } else if crate::scan::str_eq(op, "keydelay") {
        if j == n {
            Err(Fatal::DelayMissing)
        } else {
            proof {
                assert(after_tok(t).drop_first() =~= line@.subrange(j + 1, n as int));
            }
            Ok(Command::KeyDelay(line.substring_char(j + 1, n)))
        }
    } else if crate::scan::str_eq(op, "type") {
        if j == n {
            Err(Fatal::TextMissing)
        } else {
            proof {
                assert(after_tok(t).drop_first() =~= line@.subrange(j + 1, n as int));
            }
            Ok(Command::TypeText(line.substring_char(j + 1, n)))
        }
    } else if crate::scan::str_eq(op, "typedelay") {
        if j == n {
            Err(Fatal::TypeDelayMissing)
        } else {
            proof {
                assert(after_tok(t).drop_first() =~= line@.subrange(j + 1, n as int));
            }
            Ok(Command::TypeDelay(line.substring_char(j + 1, n)))
        }
    } else {
        Err(Fatal::UnknownOperation)
    }
}

/// The session's timing state, in milliseconds. `keyhold_ms` and
/// `typehold_ms` are fixed at session start; the two delays are settable
/// by the `keydelay` and `typedelay` commands.
#[derive(Clone, Copy, PartialEq, Eq, Structural, Debug)]
pub struct Session {
    pub keydelay_ms: u64,
    pub keyhold_ms: u64,
    pub typedelay_ms: u64,
    pub typehold_ms: u64,
}

/// The actions of one `key` token: press, hold, release, delay; a token
/// that fails to parse is one warning.
pub open spec fn spec_key_once(tok: Seq<char>, st: Session) -> Seq<ActSpec> {
    match spec_parse_chord(tok) {
        Ok(c) => c.spec_down() + seq![ActSpec::Sleep(st.keyhold_ms)] + c.spec_up() + seq![
            ActSpec::Sleep(st.keydelay_ms),
        ],
        Err(e) => seq![ActSpec::Warn(WarningSpec::Chord(e))],
    }
}

/// The actions of one `keydown` token: press, delay; or one warning.
pub open spec fn spec_keydown_once(tok: Seq<char>, st: Session) -> Seq<ActSpec> {
    match spec_parse_chord(tok) {
        Ok(c) => c.spec_down() + seq![ActSpec::Sleep(st.keydelay_ms)],
        Err(e) => seq![ActSpec::Warn(WarningSpec::Chord(e))],
    }
}

/// The actions of one `keyup` token: release, delay; or one warning.
pub open spec fn spec_keyup_once(tok: Seq<char>, st: Session) -> Seq<ActSpec> {
    match spec_parse_chord(tok) {
        Ok(c) => c.spec_up() + seq![ActSpec::Sleep(st.keydelay_ms)],
        Err(e) => seq![ActSpec::Warn(WarningSpec::Chord(e))],
    }
}

/// The actions of one typed character: press, hold, release, delay; a
/// character outside the table is one warning.
pub open spec fn spec_type_once(ch: char, st: Session) -> Seq<ActSpec> {
    match spec_translate(ch) {
        Some(c) => c.spec_down() + seq![ActSpec::Sleep(st.typehold_ms)] + c.spec_up() + seq![
            ActSpec::Sleep(st.typedelay_ms),
        ],
        None => seq![ActSpec::Warn(WarningSpec::Untypeable(ch))],
    }
}

/// All `key` tokens, in order.
pub open spec fn spec_key_all(toks: Seq<Seq<char>>, st: Session) -> Seq<ActSpec>
    decreases toks.len(),
{
    if toks.len() == 0 {
        Seq::<ActSpec>::empty()
    } else {
        spec_key_once(toks[0], st) + spec_key_all(toks.drop_first(), st)
    }
}

/// All `keydown` tokens, in order.
pub open spec fn spec_keydown_all(toks: Seq<Seq<char>>, st: Session) -> Seq<ActSpec>
    decreases toks.len(),
{
    if toks.len() == 0 {
        Seq::<ActSpec>::empty()
    } else {
        spec_keydown_once(toks[0], st) + spec_keydown_all(toks.drop_first(), st)
    }
}

/// All `keyup` tokens, in order.
pub open spec fn spec_keyup_all(toks: Seq<Seq<char>>, st: Session) -> Seq<ActSpec>
    decreases toks.len(),
{
    if toks.len() == 0 {
        Seq::<ActSpec>::empty()
    } else {
        spec_keyup_once(toks[0], st) + spec_keyup_all(toks.drop_first(), st)
    }
}

/// All typed characters, in order.
pub open spec fn spec_type_all(text: Seq<char>, st: Session) -> Seq<ActSpec>
    decreases text.len(),
{
    if text.len() == 0 {
        Seq::<ActSpec>::empty()
    } else {
        spec_type_once(text[0], st) + spec_type_all(text.drop_first(), st)
    }
}

/// What a command does to the session and what actions it emits. Only the
/// delay commands change the state; a malformed delay is one warning and
/// leaves the prior value unchanged.
pub open spec fn spec_execute(cmd: CmdSpec, st: Session) -> (Seq<ActSpec>, Session) {
    match cmd {
        CmdSpec::Empty => (Seq::<ActSpec>::empty(), st),
        CmdSpec::Key(toks) => (spec_key_all(toks, st), st),
        CmdSpec::KeyDown(toks) => (spec_keydown_all(toks, st), st),
        CmdSpec::KeyUp(toks) => (spec_keyup_all(toks, st), st),
        CmdSpec::KeyDelay(rem) => match spec_parse_delay(spec_trim(rem)) {
            Some(ms) => (Seq::<ActSpec>::empty(), Session { keydelay_ms: ms, ..st }),
            None => (seq![ActSpec::Warn(WarningSpec::BadDelay)], st),
        },
        CmdSpec::TypeText(rem) => (spec_type_all(rem, st), st),
        CmdSpec::TypeDelay(rem) => match spec_parse_delay(spec_trim(rem)) {
            Some(ms) => (Seq::<ActSpec>::empty(), Session { typedelay_ms: ms, ..st }),
            None => (seq![ActSpec::Warn(WarningSpec::BadDelay)], st),
        },
    }
}

/// Emits one parsed chord token's actions for `key`.
fn key_once_actions(tok: &str, st: Session, out: &mut Vec<Action>)
    ensures
        views(final(out)@) == views(old(out)@) + spec_key_once(tok@, st),
{
    match parse_chord(tok) {
        Ok(c) => {
            let ghost before = views(out@);
            let mut d = c.down_actions();
            out.append(&mut d);
            out.push(Action::Sleep(st.keyhold_ms));
            let mut u = c.up_actions();
            out.append(&mut u);
            out.push(Action::Sleep(st.keydelay_ms));
            proof {
                assert(views(out@) =~= before + c.spec_down() + seq![
                    ActSpec::Sleep(st.keyhold_ms),
                ] + c.spec_up() + seq![ActSpec::Sleep(st.keydelay_ms)]);
                assert(views(out@) =~= views(old(out)@) + spec_key_once(tok@, st));
            }
        },
        Err(e) => {
            out.push(Action::Warn(Warning::Chord(e)));
            proof {
                assert(views(out@) =~= views(old(out)@) + spec_key_once(tok@, st));
            }
        },
    }
}

/// Emits one parsed chord token's actions for `keydown`.
fn keydown_once_actions(tok: &str, st: Session, out: &mut Vec<Action>)
    ensures
        views(final(out)@) == views(old(out)@) + spec_keydown_once(tok@, st),
{
    match parse_chord(tok) {
        Ok(c) => {
            let ghost before = views(out@);
            let mut d = c.down_actions();
            out.append(&mut d);
            out.push(Action::Sleep(st.keydelay_ms));
            proof {
                assert(views(out@) =~= before + c.spec_down() + seq![
                    ActSpec::Sleep(st.keydelay_ms),
                ]);
                assert(views(out@) =~= views(old(out)@) + spec_keydown_once(tok@, st));
            }
        },
        Err(e) => {
            out.push(Action::Warn(Warning::Chord(e)));
            proof {
                assert(views(out@) =~= views(old(out)@) + spec_keydown_once(tok@, st));
            }
        },
    }
}

/// Emits one parsed chord token's actions for `keyup`.
fn keyup_once_actions(tok: &str, st: Session, out: &mut Vec<Action>)
    ensures
        views(final(out)@) == views(old(out)@) + spec_keyup_once(tok@, st),
{
    match parse_chord(tok) {
        Ok(c) => {
            let ghost before = views(out@);
            let mut u = c.up_actions();
            out.append(&mut u);
            out.push(Action::Sleep(st.keydelay_ms));
            proof {
                assert(views(out@) =~= before + c.spec_up() + seq![
                    ActSpec::Sleep(st.keydelay_ms),
                ]);
                assert(views(out@) =~= views(old(out)@) + spec_keyup_once(tok@, st));
            }
        },
        Err(e) => {
            out.push(Action::Warn(Warning::Chord(e)));
            proof {
                assert(views(out@) =~= views(old(out)@) + spec_keyup_once(tok@, st));
            }
        },
    }
}

/// The actions of a whole `key` payload.
fn key_actions(toks: &Vec<&str>, st: Session) -> (r: Vec<Action>)
    ensures
        views(r@) == spec_key_all(str_views(toks@), st),
{
    let ghost sv = str_views(toks@);
    let mut out: Vec<Action> = Vec::new();
    let mut i: usize = 0;
    proof {
        assert(views(out@) =~= Seq::<ActSpec>::empty());
        assert(sv.skip(0) =~= sv);
    }
    while i < toks.len()
        invariant
            i <= toks.len(),
            sv == str_views(toks@),
            views(out@) + spec_key_all(sv.skip(i as int), st) == spec_key_all(sv, st),
        decreases toks.len() - i,
    {
        proof {
            assert(sv.skip(i as int)[0] == toks@[i as int]@);
            assert(sv.skip(i as int).drop_first() =~= sv.skip(i + 1));
        }
        key_once_actions(toks[i], st, &mut out);
        i += 1;
    }
    proof {
        assert(sv.skip(toks@.len() as int) =~= Seq::<Seq<char>>::empty());
        assert(views(out@) =~= spec_key_all(sv, st));
    }
    out
}

/// The actions of a whole `keydown` payload.
fn keydown_actions(toks: &Vec<&str>, st: Session) -> (r: Vec<Action>)
    ensures
        views(r@) == spec_keydown_all(str_views(toks@), st),
{
    let ghost sv = str_views(toks@);
    let mut out: Vec<Action> = Vec::new();
    let mut i: usize = 0;
    proof {
        assert(views(out@) =~= Seq::<ActSpec>::empty());
        assert(sv.skip(0) =~= sv);
    }
    while i < toks.len()
        invariant
            i <= toks.len(),
            sv == str_views(toks@),
            views(out@) + spec_keydown_all(sv.skip(i as int), st) == spec_keydown_all(sv, st),
        decreases toks.len() - i,
    {
        proof {
            assert(sv.skip(i as int)[0] == toks@[i as int]@);
            assert(sv.skip(i as int).drop_first() =~= sv.skip(i + 1));
        }
        keydown_once_actions(toks[i], st, &mut out);
        i += 1;
    }
    proof {
        assert(sv.skip(toks@.len() as int) =~= Seq::<Seq<char>>::empty());
        assert(views(out@) =~= spec_keydown_all(sv, st));
    }
    out
}

/// The actions of a whole `keyup` payload.
fn keyup_actions(toks: &Vec<&str>, st: Session) -> (r: Vec<Action>)
    ensures
        views(r@) == spec_keyup_all(str_views(toks@), st),
{
    let ghost sv = str_views(toks@);
    let mut out: Vec<Action> = Vec::new();
    let mut i: usize = 0;
    proof {
        assert(views(out@) =~= Seq::<ActSpec>::empty());
        assert(sv.skip(0) =~= sv);
    }
    while i < toks.len()
        invariant
            i <= toks.len(),
            sv == str_views(toks@),
            views(out@) + spec_keyup_all(sv.skip(i as int), st) == spec_keyup_all(sv, st),
        decreases toks.len() - i,
    {
        proof {
            assert(sv.skip(i as int)[0] == toks@[i as int]@);
            assert(sv.skip(i as int).drop_first() =~= sv.skip(i + 1));
        }
        keyup_once_actions(toks[i], st, &mut out);
        i += 1;
    }
    proof {
        assert(sv.skip(toks@.len() as int) =~= Seq::<Seq<char>>::empty());
        assert(views(out@) =~= spec_keyup_all(sv, st));
    }
    out
}

/// The actions of a whole `type` payload.
fn type_actions(text: &str, st: Session) -> (r: Vec<Action>)
    ensures
        views(r@) == spec_type_all(text@, st),
{
    let n = text.unicode_len();
    let mut out: Vec<Action> = Vec::new();
    let mut i: usize = 0;
    proof {
        assert(views(out@) =~= Seq::<ActSpec>::empty());
        assert(text@.skip(0) =~= text@);
    }
    while i < n
        invariant
            i <= n,
            n == text@.len(),
            views(out@) + spec_type_all(text@.skip(i as int), st) == spec_type_all(text@, st),
        decreases n - i,
    {
        let ghost before = views(out@);
        proof {
            assert(text@.skip(i as int)[0] == text@[i as int]);
            assert(text@.skip(i as int).drop_first() =~= text@.skip(i + 1));
        }
        let ch = text.get_char(i);
        match translate_char(ch) {
            Some(c) => {
                let mut d = c.down_actions();
                out.append(&mut d);
                out.push(Action::Sleep(st.typehold_ms));
                let mut u = c.up_actions();
                out.append(&mut u);
                out.push(Action::Sleep(st.typedelay_ms));
                proof {
                    assert(views(out@) =~= before + c.spec_down() + seq![
                        ActSpec::Sleep(st.typehold_ms),
                    ] + c.spec_up() + seq![ActSpec::Sleep(st.typedelay_ms)]);
                    assert(views(out@) =~= before + spec_type_once(ch, st));
                }
            },
            None => {
                out.push(Action::Warn(Warning::Untypeable(ch)));
                proof {
                    assert(views(out@) =~= before + spec_type_once(ch, st));
                }
            },
        }
        i += 1;
    }
    proof {
        assert(text@.skip(n as int) =~= Seq::<char>::empty());
        assert(views(out@) =~= spec_type_all(text@, st));
    }
    out
}

impl Session {
    /// The timing state at session start: 2 ms delays, 8 ms holds.
    pub fn new() -> (s: Session)
        ensures
            s == (Session { keydelay_ms: 2u64, keyhold_ms: 8u64, typedelay_ms: 2u64, typehold_ms: 8u64 }),
    {
        Session { keydelay_ms: 2, keyhold_ms: 8, typedelay_ms: 2, typehold_ms: 8 }
    }

    /// Executes one classified command against this session.
    pub fn execute(&mut self, cmd: Command) -> (r: Vec<Action>)
        ensures
            ({
                let (acts, st2) = spec_execute(cmd@, *old(self));
                views(r@) == acts && *final(self) == st2
            }),
    {
        let st = *self;
        match cmd {
            Command::Empty => {
                let out: Vec<Action> = Vec::new();
                proof {
                    assert(views(out@) =~= Seq::<ActSpec>::empty());
                }
                out
            },
            Command::Key(toks) => key_actions(&toks, st),
            Command::KeyDown(toks) => keydown_actions(&toks, st),
            Command::KeyUp(toks) => keyup_actions(&toks, st),
            Command::KeyDelay(rem) => {
                let trimmed = crate::scan::trim_ws(rem);
                match parse_delay(trimmed) {
                    Some(ms) => {
                        self.keydelay_ms = ms;
                        let out: Vec<Action> = Vec::new();
                        proof {
                            assert(views(out@) =~= Seq::<ActSpec>::empty());
                        }
                        out
                    },
                    None => {
                        let mut out: Vec<Action> = Vec::new();
                        out.push(Action::Warn(Warning::BadDelay));
                        proof {
                            assert(views(out@) =~= seq![ActSpec::Warn(WarningSpec::BadDelay)]);
                        }
                        out
                    },
                }
            },
            Command::TypeText(rem) => type_actions(rem, st),
            Command::TypeDelay(rem) => {
                let trimmed = crate::scan::trim_ws(rem);
                match parse_delay(trimmed) {
                    Some(ms) => {
                        self.typedelay_ms = ms;
                        let out: Vec<Action> = Vec::new();
                        proof {
                            assert(views(out@) =~= Seq::<ActSpec>::empty());
                        }
                        out
                    },
                    None => {
                        let mut out: Vec<Action> = Vec::new();
                        out.push(Action::Warn(Warning::BadDelay));
                        proof {
                            assert(views(out@) =~= seq![ActSpec::Warn(WarningSpec::BadDelay)]);
                        }
                        out
                    },
                }
            },
        }
    }

    /// Classifies and executes one input line: the actions to perform, in
    /// order, or the fatal fault the line holds. The session state changes
    /// exactly as the command says; a fatal line changes nothing.
    pub fn run_line(&mut self, line: &str) -> (r: Result<Vec<Action>, Fatal>)
        ensures
            match r {
                Ok(v) => spec_classify(line@) matches Ok(c) && ({
                    let (acts, st2) = spec_execute(c, *old(self));
                    views(v@) == acts && *final(self) == st2
                }),
                Err(f) => spec_classify(line@) == Err::<CmdSpec, Fatal>(f) && *final(self) == *old(
                    self,
                ),
            },
    {
        match classify_line(line) {
            Ok(cmd) => Ok(self.execute(cmd)),
            Err(f) => Err(f),
        }
    }
}

} // verus!
