//! The chord parser: one token of the form `mod1+mod2+...+key` becomes a
//! `Chord`. Splitting, modifier matching and the implied-shift rule are all
//! stated over `Seq<char>`.

use vstd::prelude::*;
use crate::keys::{lower, spec_lookup, lookup_key};
use crate::chord::Chord;
use crate::actions::{ChordError, ChordErrorSpec};

verus! {

/// The views of a list of string slices.
pub open spec fn str_views(s: Seq<&str>) -> Seq<Seq<char>> {
    s.map_values(|t: &str| t@)
}

/// Splitting on `+`, as `split('+')` does it: an empty input gives one
/// empty segment, and every separator starts a new segment.
pub open spec fn spec_split_plus(s: Seq<char>) -> Seq<Seq<char>>
    decreases s.len(),
{
    if s.len() == 0 {
        seq![Seq::<char>::empty()]
    } else if s[0] == '+' {
        seq![Seq::<char>::empty()] + spec_split_plus(s.drop_first())
    } else {
        let rest = spec_split_plus(s.drop_first());
        seq![seq![s[0]] + rest[0]] + rest.drop_first()
    }
}

/// `u` holds no separator.
pub open spec fn plus_free(u: Seq<char>) -> bool {
    forall|i: int| 0 <= i < u.len() ==> u[i] != '+'
}

/// A split always has at least one segment.
pub proof fn lemma_split_plus_len(s: Seq<char>)
    ensures
        spec_split_plus(s).len() >= 1,
    decreases s.len(),
{
    if s.len() != 0 {
        lemma_split_plus_len(s.drop_first());
    }
}

/// A separator-free input is one whole segment.
proof fn lemma_split_plus_free(u: Seq<char>)
    ensures
        plus_free(u) ==> spec_split_plus(u) == seq![u],
    decreases u.len(),
{
    if plus_free(u) {
        if u.len() == 0 {
            assert(u =~= Seq::<char>::empty());
            assert(spec_split_plus(u) =~= seq![u]);
        } else {
            lemma_split_plus_free(u.drop_first());
            let rest = spec_split_plus(u.drop_first());
            assert(seq![u[0]] + rest[0] =~= u);
            assert(spec_split_plus(u) =~= seq![u]);
        }
    }
}

/// Peeling the segment before the first separator off a split.
proof fn lemma_split_plus_step(u: Seq<char>, v: Seq<char>)
    ensures
        plus_free(u) ==> spec_split_plus(u + seq!['+'] + v) == seq![u] + spec_split_plus(v),
    decreases u.len(),
{
    if plus_free(u) {
        let s = u + seq!['+'] + v;
        if u.len() == 0 {
            assert(s[0] == '+');
            assert(s.drop_first() =~= v);
            assert(u =~= Seq::<char>::empty());
            assert(spec_split_plus(s) =~= seq![u] + spec_split_plus(v));
        } else {
            lemma_split_plus_step(u.drop_first(), v);
            assert(s[0] == u[0] && s[0] != '+');
            assert(s.drop_first() =~= u.drop_first() + seq!['+'] + v);
            let rest = spec_split_plus(s.drop_first());
            assert(rest == seq![u.drop_first()] + spec_split_plus(v));
            assert(rest[0] == u.drop_first());
            assert(seq![s[0]] + rest[0] =~= u);
            assert(rest.drop_first() =~= spec_split_plus(v));
            assert(spec_split_plus(s) =~= seq![u] + spec_split_plus(v));
        }
    }
}

/// Splits a token on `+`, as the parser sees it.
pub fn split_plus(s: &str) -> (r: Vec<&str>)
    ensures
        str_views(r@) == spec_split_plus(s@),
        r@.len() >= 1,
{
    let n = s.unicode_len();
    let mut r: Vec<&str> = Vec::new();
    let mut start: usize = 0;
    let mut i: usize = 0;
    proof {
        assert(s@.subrange(0, n as int) =~= s@);
        assert(str_views(r@) =~= Seq::<Seq<char>>::empty());
        assert(str_views(r@) + spec_split_plus(s@) =~= spec_split_plus(s@));
    }
    while i < n
        invariant
            n == s@.len(),
            start <= i <= n,
            plus_free(s@.subrange(start as int, i as int)),
            spec_split_plus(s@) == str_views(r@) + spec_split_plus(
                s@.subrange(start as int, n as int),
            ),
        decreases n - i,
    {
        if s.get_char(i) == '+' {
            let seg = s.substring_char(start, i);
            proof {
                lemma_split_plus_step(
                    s@.subrange(start as int, i as int),
                    s@.subrange(i + 1, n as int),
                );
                assert(s@.subrange(start as int, n as int) =~= s@.subrange(start as int, i as int)
                    + seq!['+'] + s@.subrange(i + 1, n as int));
                assert(str_views(r@.push(seg)) =~= str_views(r@) + seq![seg@]);
                assert(str_views(r@) + spec_split_plus(s@.subrange(start as int, n as int))
                    =~= str_views(r@.push(seg)) + spec_split_plus(s@.subrange(i + 1, n as int)));
            }
            r.push(seg);
            start = i + 1;
            proof {
                assert(plus_free(s@.subrange(start as int, start as int)));
            }
        } else {
            proof {
                assert(s@.subrange(start as int, i + 1) =~= s@.subrange(start as int, i as int)
                    .push(s@[i as int]));
            }
        }
        i += 1;
    }
    let seg = s.substring_char(start, n);
    proof {
        lemma_split_plus_free(s@.subrange(start as int, n as int));
        assert(str_views(r@.push(seg)) =~= str_views(r@) + seq![seg@]);
        lemma_split_plus_len(s@);
    }
    r.push(seg);
    proof {
        assert(str_views(r@) =~= spec_split_plus(s@));
    }
    r
}

/// Folds the modifier segments, leftmost first, into the chord's flags.
/// The first segment outside the modifier vocabulary stops the fold.
pub open spec fn spec_apply_mods(c: Chord, mods: Seq<Seq<char>>) -> Result<Chord, ChordErrorSpec>
    decreases mods.len(),
{
    if mods.len() == 0 {
        Ok(c)
    } else {
        let m = lower(mods[0]);
        if m == "super"@ {
            spec_apply_mods(Chord { super_key: true, ..c }, mods.drop_first())
        } else if m == "altgr"@ {
            spec_apply_mods(Chord { altgr: true, ..c }, mods.drop_first())
        } else if m == "ctrl"@ || m == "control"@ {
            spec_apply_mods(Chord { ctrl: true, ..c }, mods.drop_first())
        } else if m == "alt"@ {
            spec_apply_mods(Chord { alt: true, ..c }, mods.drop_first())
        } else if m == "shift"@ {
            spec_apply_mods(Chord { shift: true, ..c }, mods.drop_first())
        } else {
            Err(ChordErrorSpec::UnknownModifier(mods[0]))
        }
    }
}

/// The implied-shift rule: a key segment that is exactly one uppercase
/// letter sets shift by itself.
pub open spec fn implied_shift(key_seg: Seq<char>) -> bool {
    key_seg.len() == 1 && 'A' <= key_seg[0] && key_seg[0] <= 'Z'
}

/// What `parse_chord` returns, over the token's characters: an empty token
/// or an empty key segment is an empty chord; a key segment missing from
/// the registry is unresolved; otherwise the modifier segments fold into
/// the flags over a chord of the key, with shift implied for a single
/// uppercase letter.
pub open spec fn spec_parse_chord(token: Seq<char>) -> Result<Chord, ChordErrorSpec> {
    if token.len() == 0 {
        Err(ChordErrorSpec::EmptyChord)
    } else {
        let segs = spec_split_plus(token);
        let key_seg = segs.last();
        if key_seg.len() == 0 {
            Err(ChordErrorSpec::EmptyChord)
        } else {
            match spec_lookup(lower(key_seg)) {
                None => Err(ChordErrorSpec::UnresolvedKey(key_seg)),
                Some(k) => spec_apply_mods(
                    Chord {
                        super_key: false,
                        altgr: false,
                        ctrl: false,
                        alt: false,
                        shift: implied_shift(key_seg),
                        key: k,
                    },
                    segs.drop_last(),
                ),
            }
        }
    }
}

/// Parses one chord token.
pub fn parse_chord(token: &str) -> (r: Result<Chord, ChordError>)
    ensures
        match r {
            Ok(c) => spec_parse_chord(token@) == Ok::<Chord, ChordErrorSpec>(c),
            Err(e) => spec_parse_chord(token@) == Err::<Chord, ChordErrorSpec>(e@),
        },
{
    if token.unicode_len() == 0 {
        return Err(ChordError::EmptyChord);
    }
    let segs = split_plus(token);
    let key_part = segs[segs.len() - 1];
    proof {
        assert(str_views(segs@).last() == key_part@);
    }
    if key_part.unicode_len() == 0 {
        return Err(ChordError::EmptyChord);
    }
    let key = match lookup_key(key_part) {
        None => {
            return Err(ChordError::UnresolvedKey(key_part.to_owned()));
        },
        Some(k) => k,
    };
    let shift0 = if key_part.unicode_len() == 1 {
        let c0 = key_part.get_char(0);
        'A' <= c0 && c0 <= 'Z'
    } else {
        false
    };
    let mut c = Chord {
        super_key: false,
        altgr: false,
        ctrl: false,
        alt: false,
        shift: shift0,
        key,
    };
    let ghost all_mods = spec_split_plus(token@).drop_last();
    proof {
        assert(all_mods =~= str_views(segs@).drop_last());
    }
    let mut i: usize = 0;
    let n_mods = segs.len() - 1;
    proof {
        assert(all_mods.skip(0) =~= all_mods);
    }
    while i < n_mods
        invariant
            n_mods == segs@.len() - 1,
            i <= n_mods,
            all_mods == str_views(segs@).drop_last(),
            all_mods.len() == n_mods,
            spec_apply_mods(c, all_mods.skip(i as int)) == spec_parse_chord(token@),
        decreases n_mods - i,
    {
        let seg = segs[i];
        proof {
            assert(all_mods.skip(i as int)[0] == seg@);
            assert(all_mods.skip(i as int).drop_first() =~= all_mods.skip(i + 1));
        }
        if crate::keys::eq_lowered(seg, "super") {
            c = Chord { super_key: true, ..c };
        } else if crate::keys::eq_lowered(seg, "altgr") {
            c = Chord { altgr: true, ..c };
        } else if crate::keys::eq_lowered(seg, "ctrl") || crate::keys::eq_lowered(seg, "control") {
            c = Chord { ctrl: true, ..c };
        } else if crate::keys::eq_lowered(seg, "alt") {
            c = Chord { alt: true, ..c };
        } else if crate::keys::eq_lowered(seg, "shift") {
            c = Chord { shift: true, ..c };
        } else {
            return Err(ChordError::UnknownModifier(seg.to_owned()));
        }
        i += 1;
    }
    proof {
        assert(all_mods.skip(n_mods as int) =~= Seq::<Seq<char>>::empty());
    }
    Ok(c)
}

/// Whether some modifier segment, lowercased, equals `name`.
pub open spec fn has_mod(mods: Seq<Seq<char>>, name: Seq<char>) -> bool {
    exists|i: int| 0 <= i < mods.len() && lower(mods[i]) == name
}

proof fn lemma_has_mod_unfold(mods: Seq<Seq<char>>, name: Seq<char>)
    requires
        mods.len() > 0,
    ensures
        has_mod(mods, name) <==> (lower(mods[0]) == name || has_mod(mods.drop_first(), name)),
{
    if has_mod(mods, name) {
        let i = choose|i: int| 0 <= i < mods.len() && lower(mods[i]) == name;
        if i > 0 {
            assert(mods.drop_first()[i - 1] == mods[i]);
            assert(has_mod(mods.drop_first(), name));
        }
    }
    if has_mod(mods.drop_first(), name) {
        let i = choose|i: int| 0 <= i < mods.drop_first().len() && lower(
            mods.drop_first()[i],
        ) == name;
        assert(mods[i + 1] == mods.drop_first()[i]);
        assert(has_mod(mods, name));
    }
}

proof fn lemma_apply_mods_flags(c: Chord, mods: Seq<Seq<char>>)
    ensures
        spec_apply_mods(c, mods) matches Ok(d) ==> {
            &&& d.super_key <==> (c.super_key || has_mod(mods, "super"@))
            &&& d.altgr <==> (c.altgr || has_mod(mods, "altgr"@))
            &&& d.ctrl <==> (c.ctrl || has_mod(mods, "ctrl"@) || has_mod(mods, "control"@))
            &&& d.alt <==> (c.alt || has_mod(mods, "alt"@))
            &&& d.shift <==> (c.shift || has_mod(mods, "shift"@))
            &&& d.key == c.key
        },
    decreases mods.len(),
{
    reveal_strlit("super");
    reveal_strlit("altgr");
    reveal_strlit("ctrl");
    reveal_strlit("control");
    reveal_strlit("alt");
    reveal_strlit("shift");
    assert("super"@.len() == 5 && "altgr"@.len() == 5 && "ctrl"@.len() == 4);
    assert("control"@.len() == 7 && "alt"@.len() == 3 && "shift"@.len() == 5);
    assert("super"@[0] == 's' && "altgr"@[0] == 'a' && "shift"@[0] == 's');
    assert("super"@[1] == 'u' && "shift"@[1] == 'h');
    assert("super"@ != "altgr"@ && "super"@ != "shift"@ && "altgr"@ != "shift"@);
    if mods.len() == 0 {
    } else {
        lemma_has_mod_unfold(mods, "super"@);
        lemma_has_mod_unfold(mods, "altgr"@);
        lemma_has_mod_unfold(mods, "ctrl"@);
        lemma_has_mod_unfold(mods, "control"@);
        lemma_has_mod_unfold(mods, "alt"@);
        lemma_has_mod_unfold(mods, "shift"@);
        let m = lower(mods[0]);
        if m == "super"@ {
            lemma_apply_mods_flags(Chord { super_key: true, ..c }, mods.drop_first());
        } else if m == "altgr"@ {
            lemma_apply_mods_flags(Chord { altgr: true, ..c }, mods.drop_first());
        } else if m == "ctrl"@ || m == "control"@ {
            lemma_apply_mods_flags(Chord { ctrl: true, ..c }, mods.drop_first());
        } else if m == "alt"@ {
            lemma_apply_mods_flags(Chord { alt: true, ..c }, mods.drop_first());
        } else if m == "shift"@ {
            lemma_apply_mods_flags(Chord { shift: true, ..c }, mods.drop_first());
        }
    }
}

/// A parsed chord's flags match the named modifiers exactly: each flag is
/// set precisely when some modifier segment names it (case-insensitively),
/// except that shift is also set when the key segment is one uppercase
/// letter; the key is the registry's entry for the lowercased key segment.
pub proof fn lemma_parse_modifier_flags(token: Seq<char>)
    ensures
        spec_parse_chord(token) matches Ok(c) ==> {
            let segs = spec_split_plus(token);
            let mods = segs.drop_last();
            &&& c.super_key <==> has_mod(mods, "super"@)
            &&& c.altgr <==> has_mod(mods, "altgr"@)
            &&& c.ctrl <==> (has_mod(mods, "ctrl"@) || has_mod(mods, "control"@))
            &&& c.alt <==> has_mod(mods, "alt"@)
            &&& c.shift <==> (has_mod(mods, "shift"@) || implied_shift(segs.last()))
            &&& Some(c.key) == spec_lookup(lower(segs.last()))
        },
{
    if token.len() != 0 {
        let segs = spec_split_plus(token);
        let key_seg = segs.last();
        if key_seg.len() != 0 && spec_lookup(lower(key_seg)) is Some {
            let k = spec_lookup(lower(key_seg))->Some_0;
            lemma_apply_mods_flags(
                Chord {
                    super_key: false,
                    altgr: false,
                    ctrl: false,
                    alt: false,
                    shift: implied_shift(key_seg),
                    key: k,
                },
                segs.drop_last(),
            );
        }
    }
}

} // verus!
