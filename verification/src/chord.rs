//! The chord model: one base key plus up to five held modifiers, and the
//! exact order of the backend events that press and release it.

use vstd::prelude::*;
use crate::keys::KeyId;
use crate::actions::{Action, ActSpec, views};

verus! {

/// A key together with the modifiers held around it.
#[derive(Clone, Copy, PartialEq, Eq, Structural, Debug)]
pub struct Chord {
    pub super_key: bool,
    pub altgr: bool,
    pub ctrl: bool,
    pub alt: bool,
    pub shift: bool,
    pub key: KeyId,
}

/// The modifier keys of a chord, in press order:
/// super, altgr, ctrl, alt, shift.
pub open spec fn mod_keys(c: Chord) -> Seq<KeyId> {
    (if c.super_key {
        seq![KeyId::LeftMeta]
    } else {
        Seq::<KeyId>::empty()
    }) + (if c.altgr {
        seq![KeyId::RightAlt]
    } else {
        Seq::<KeyId>::empty()
    }) + (if c.ctrl {
        seq![KeyId::LeftCtrl]
    } else {
        Seq::<KeyId>::empty()
    }) + (if c.alt {
        seq![KeyId::LeftAlt]
    } else {
        Seq::<KeyId>::empty()
    }) + (if c.shift {
        seq![KeyId::LeftShift]
    } else {
        Seq::<KeyId>::empty()
    })
}

impl Chord {
    /// A bare chord: no modifiers, just the key.
    pub fn new(key: KeyId) -> (c: Chord)
        ensures
            c == (Chord {
                super_key: false,
                altgr: false,
                ctrl: false,
                alt: false,
                shift: false,
                key,
            }),
    {
        Chord { super_key: false, altgr: false, ctrl: false, alt: false, shift: false, key }
    }

    /// The event sequence that presses this chord: the active modifiers in
    /// press order, then the base key, then a synchronize.
    pub open spec fn spec_down(self) -> Seq<ActSpec> {
        mod_keys(self).map_values(|k: KeyId| ActSpec::Press(k)) + seq![
            ActSpec::Press(self.key),
            ActSpec::Sync,
        ]
    }

    /// The event sequence that releases this chord: the base key first,
    /// then the active modifiers in the reverse of press order, then a
    /// synchronize.
    pub open spec fn spec_up(self) -> Seq<ActSpec> {
        seq![ActSpec::Release(self.key)] + mod_keys(self).reverse().map_values(
            |k: KeyId| ActSpec::Release(k),
        ) + seq![ActSpec::Sync]
    }

    /// Computes the press sequence of this chord.
    pub fn down_actions(&self) -> (r: Vec<Action>)
        ensures
            views(r@) == self.spec_down(),
    {
        let mut r: Vec<Action> = Vec::new();
        if self.super_key {
            r.push(Action::Press(KeyId::LeftMeta));
        }
        if self.altgr {
            r.push(Action::Press(KeyId::RightAlt));
        }
        if self.ctrl {
            r.push(Action::Press(KeyId::LeftCtrl));
        }
        if self.alt {
            r.push(Action::Press(KeyId::LeftAlt));
        }
        if self.shift {
            r.push(Action::Press(KeyId::LeftShift));
        }
        proof {
            assert(views(r@) =~= mod_keys(*self).map_values(|k: KeyId| ActSpec::Press(k)));
        }
        r.push(Action::Press(self.key));
        r.push(Action::Sync);
        proof {
            assert(views(r@) =~= self.spec_down());
        }
        r
    }

    /// The release sequence written out flag by flag; equal to `spec_up`
    /// (see `lemma_up_explicit`), and the shape the executable code builds.
    pub open spec fn spec_up_explicit(self) -> Seq<ActSpec> {
        seq![ActSpec::Release(self.key)] + (if self.shift {
            seq![ActSpec::Release(KeyId::LeftShift)]
        } else {
            Seq::<ActSpec>::empty()
        }) + (if self.alt {
            seq![ActSpec::Release(KeyId::LeftAlt)]
        } else {
            Seq::<ActSpec>::empty()
        }) + (if self.ctrl {
            seq![ActSpec::Release(KeyId::LeftCtrl)]
        } else {
            Seq::<ActSpec>::empty()
        }) + (if self.altgr {
            seq![ActSpec::Release(KeyId::RightAlt)]
        } else {
            Seq::<ActSpec>::empty()
        }) + (if self.super_key {
            seq![ActSpec::Release(KeyId::LeftMeta)]
        } else {
            Seq::<ActSpec>::empty()
        }) + seq![ActSpec::Sync]
    }

    /// Computes the release sequence of this chord.
    #[verifier::rlimit(100)]
    pub fn up_actions(&self) -> (r: Vec<Action>)
        ensures
            views(r@) == self.spec_up(),
    {
        proof {
            lemma_up_explicit(*self);
        }
        let mut r: Vec<Action> = Vec::new();
        r.push(Action::Release(self.key));
        if self.shift {
            r.push(Action::Release(KeyId::LeftShift));
        }
        if self.alt {
            r.push(Action::Release(KeyId::LeftAlt));
        }
        if self.ctrl {
            r.push(Action::Release(KeyId::LeftCtrl));
        }
        if self.altgr {
            r.push(Action::Release(KeyId::RightAlt));
        }
        if self.super_key {
            r.push(Action::Release(KeyId::LeftMeta));
        }
        r.push(Action::Sync);
        proof {
            assert(views(r@) =~= self.spec_up_explicit());
        }
        r
    }
}

/// Reversal distributes over concatenation, exchanging the pieces.
proof fn lemma_reverse_concat(a: Seq<KeyId>, b: Seq<KeyId>)
    ensures
        (a + b).reverse() == b.reverse() + a.reverse(),
{
    assert((a + b).reverse() =~= b.reverse() + a.reverse());
}

/// Mapping a function distributes over concatenation.
proof fn lemma_map_concat(a: Seq<KeyId>, b: Seq<KeyId>, f: spec_fn(KeyId) -> ActSpec)
    ensures
        (a + b).map_values(f) == a.map_values(f) + b.map_values(f),
{
    assert((a + b).map_values(f) =~= a.map_values(f) + b.map_values(f));
}

/// `spec_up` and its written-out form agree.
#[verifier::rlimit(100)]
pub proof fn lemma_up_explicit(c: Chord)
    ensures
        c.spec_up() == c.spec_up_explicit(),
{
    let m1 = if c.super_key {
        seq![KeyId::LeftMeta]
    } else {
        Seq::<KeyId>::empty()
    };
    let m2 = if c.altgr {
        seq![KeyId::RightAlt]
    } else {
        Seq::<KeyId>::empty()
    };
    let m3 = if c.ctrl {
        seq![KeyId::LeftCtrl]
    } else {
        Seq::<KeyId>::empty()
    };
    let m4 = if c.alt {
        seq![KeyId::LeftAlt]
    } else {
        Seq::<KeyId>::empty()
    };
    let m5 = if c.shift {
        seq![KeyId::LeftShift]
    } else {
        Seq::<KeyId>::empty()
    };
    let f = |k: KeyId| ActSpec::Release(k);
    lemma_reverse_concat(m1 + m2 + m3 + m4, m5);
    lemma_reverse_concat(m1 + m2 + m3, m4);
    lemma_reverse_concat(m1 + m2, m3);
    lemma_reverse_concat(m1, m2);
    assert(m1.reverse() =~= m1);
    assert(m2.reverse() =~= m2);
    assert(m3.reverse() =~= m3);
    assert(m4.reverse() =~= m4);
    assert(m5.reverse() =~= m5);
    assert(mod_keys(c).reverse() == m5 + m4 + m3 + m2 + m1);
    lemma_map_concat(m5 + m4 + m3 + m2, m1, f);
    lemma_map_concat(m5 + m4 + m3, m2, f);
    lemma_map_concat(m5 + m4, m3, f);
    lemma_map_concat(m5, m4, f);
    assert(m1.map_values(f) =~= (if c.super_key {
        seq![ActSpec::Release(KeyId::LeftMeta)]
    } else {
        Seq::<ActSpec>::empty()
    }));
    assert(m2.map_values(f) =~= (if c.altgr {
        seq![ActSpec::Release(KeyId::RightAlt)]
    } else {
        Seq::<ActSpec>::empty()
    }));
    assert(m3.map_values(f) =~= (if c.ctrl {
        seq![ActSpec::Release(KeyId::LeftCtrl)]
    } else {
        Seq::<ActSpec>::empty()
    }));
    assert(m4.map_values(f) =~= (if c.alt {
        seq![ActSpec::Release(KeyId::LeftAlt)]
    } else {
        Seq::<ActSpec>::empty()
    }));
    assert(m5.map_values(f) =~= (if c.shift {
        seq![ActSpec::Release(KeyId::LeftShift)]
    } else {
        Seq::<ActSpec>::empty()
    }));
    assert(c.spec_up() =~= c.spec_up_explicit());
}

/// The keys pressed by an action sequence, in order.
pub open spec fn pressed_keys(s: Seq<ActSpec>) -> Seq<KeyId>
    decreases s.len(),
{
    if s.len() == 0 {
        Seq::<KeyId>::empty()
    } else {
        (match s[0] {
            ActSpec::Press(k) => seq![k],
            _ => Seq::<KeyId>::empty(),
        }) + pressed_keys(s.drop_first())
    }
}

/// The keys released by an action sequence, in order.
pub open spec fn released_keys(s: Seq<ActSpec>) -> Seq<KeyId>
    decreases s.len(),
{
    if s.len() == 0 {
        Seq::<KeyId>::empty()
    } else {
        (match s[0] {
            ActSpec::Release(k) => seq![k],
            _ => Seq::<KeyId>::empty(),
        }) + released_keys(s.drop_first())
    }
}

/// Releasing mirrors pressing: the press sequence presses the modifiers and
/// then the base key; the release sequence releases exactly the same keys in
/// the exact reverse of that order, and each sequence ends with a
/// synchronize.
pub proof fn lemma_release_reverses_press(c: Chord)
    ensures
        pressed_keys(c.spec_down()) == mod_keys(c) + seq![c.key],
        released_keys(c.spec_up()) == pressed_keys(c.spec_down()).reverse(),
        c.spec_down().last() == ActSpec::Sync,
        c.spec_up().last() == ActSpec::Sync,
{
    lemma_pressed_of_down(c);
    lemma_released_of_up(c);
    assert((seq![c.key] + mod_keys(c).reverse()) =~= (mod_keys(c) + seq![c.key]).reverse());
}

proof fn lemma_pressed_concat(a: Seq<ActSpec>, b: Seq<ActSpec>)
    ensures
        pressed_keys(a + b) == pressed_keys(a) + pressed_keys(b),
        released_keys(a + b) == released_keys(a) + released_keys(b),
    decreases a.len(),
{
    if a.len() == 0 {
        assert(a + b =~= b);
        assert(pressed_keys(a) + pressed_keys(b) =~= pressed_keys(b));
        assert(released_keys(a) + released_keys(b) =~= released_keys(b));
    } else {
        lemma_pressed_concat(a.drop_first(), b);
        assert((a + b).drop_first() =~= a.drop_first() + b);
        assert((a + b)[0] == a[0]);
        assert(pressed_keys(a + b) =~= pressed_keys(a) + pressed_keys(b));
        assert(released_keys(a + b) =~= released_keys(a) + released_keys(b));
    }
}

proof fn lemma_pressed_of_down(c: Chord)
    ensures
        pressed_keys(c.spec_down()) == mod_keys(c) + seq![c.key],
{
    let presses = mod_keys(c).map_values(|k: KeyId| ActSpec::Press(k));
    let tail = seq![ActSpec::Press(c.key), ActSpec::Sync];
    lemma_pressed_concat(presses, tail);
    reveal_with_fuel(pressed_keys, 4);
    assert(pressed_keys(tail) =~= seq![c.key]);
    lemma_pressed_of_mapped_presses(mod_keys(c));
    assert(pressed_keys(c.spec_down()) =~= mod_keys(c) + seq![c.key]);
}

proof fn lemma_pressed_of_mapped_presses(ks: Seq<KeyId>)
    ensures
        pressed_keys(ks.map_values(|k: KeyId| ActSpec::Press(k))) == ks,
    decreases ks.len(),
{
    let m = ks.map_values(|k: KeyId| ActSpec::Press(k));
    if ks.len() == 0 {
        assert(pressed_keys(m) =~= ks);
    } else {
        lemma_pressed_of_mapped_presses(ks.drop_first());
        assert(m.drop_first() =~= ks.drop_first().map_values(|k: KeyId| ActSpec::Press(k)));
        assert(pressed_keys(m) =~= ks);
    }
}

proof fn lemma_released_of_mapped_releases(ks: Seq<KeyId>)
    ensures
        released_keys(ks.map_values(|k: KeyId| ActSpec::Release(k))) == ks,
    decreases ks.len(),
{
    let m = ks.map_values(|k: KeyId| ActSpec::Release(k));
    if ks.len() == 0 {
        assert(released_keys(m) =~= ks);
    } else {
        lemma_released_of_mapped_releases(ks.drop_first());
        assert(m.drop_first() =~= ks.drop_first().map_values(|k: KeyId| ActSpec::Release(k)));
        assert(released_keys(m) =~= ks);
    }
}

proof fn lemma_released_of_up(c: Chord)
    ensures
        released_keys(c.spec_up()) == seq![c.key] + mod_keys(c).reverse(),
{
    let head = seq![ActSpec::Release(c.key)];
    let rels = mod_keys(c).reverse().map_values(|k: KeyId| ActSpec::Release(k));
    let tail = seq![ActSpec::Sync];
    lemma_pressed_concat(head + rels, tail);
    lemma_pressed_concat(head, rels);
    reveal_with_fuel(released_keys, 3);
    assert(released_keys(head) =~= seq![c.key]);
    assert(released_keys(tail) =~= Seq::<KeyId>::empty());
    lemma_released_of_mapped_releases(mod_keys(c).reverse());
    assert(c.spec_up() =~= (head + rels) + tail);
    assert(released_keys(c.spec_up()) =~= seq![c.key] + mod_keys(c).reverse());
}

} // verus!
