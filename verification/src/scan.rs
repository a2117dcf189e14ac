//! Whitespace scanning over lines: tokenization, trimming, and the split of
//! a line into its first token and the raw remainder after one separator.

use vstd::prelude::*;

verus! {

/// The whitespace characters, as `char::is_whitespace` counts them.
pub open spec fn is_ws_c(c: char) -> bool {
    c == '\t' || c == '\n' || c == '\u{b}' || c == '\u{c}' || c == '\r' || c == ' ' || c
        == '\u{85}' || c == '\u{a0}' || c == '\u{1680}' || ('\u{2000}' <= c && c <= '\u{200a}') || c
        == '\u{2028}' || c == '\u{2029}' || c == '\u{202f}' || c == '\u{205f}' || c == '\u{3000}'
}

/// Tests one character for whitespace.
pub fn is_ws(c: char) -> (r: bool)
    ensures
        r == is_ws_c(c),
{
    c == '\t' || c == '\n' || c == '\u{b}' || c == '\u{c}' || c == '\r' || c == ' ' || c
        == '\u{85}' || c == '\u{a0}' || c == '\u{1680}' || ('\u{2000}' <= c && c <= '\u{200a}') || c
        == '\u{2028}' || c == '\u{2029}' || c == '\u{202f}' || c == '\u{205f}' || c == '\u{3000}'
}

/// The input without its leading whitespace.
pub open spec fn spec_ltrim(s: Seq<char>) -> Seq<char>
    decreases s.len(),
{
    if s.len() > 0 && is_ws_c(s[0]) {
        spec_ltrim(s.drop_first())
    } else {
        s
    }
}

/// The leading run of non-whitespace: the first token of a trimmed line.
pub open spec fn lead_tok(t: Seq<char>) -> Seq<char>
    decreases t.len(),
{
    if t.len() > 0 && !is_ws_c(t[0]) {
        seq![t[0]] + lead_tok(t.drop_first())
    } else {
        Seq::<char>::empty()
    }
}

/// What is left after the leading run of non-whitespace.
pub open spec fn after_tok(t: Seq<char>) -> Seq<char>
    decreases t.len(),
{
    if t.len() > 0 && !is_ws_c(t[0]) {
        after_tok(t.drop_first())
    } else {
        t
    }
}

/// The whitespace-separated tokens of the input, in order.
pub open spec fn spec_tokens(s: Seq<char>) -> Seq<Seq<char>>
    decreases s.len(),
{
    if s.len() == 0 {
        Seq::<Seq<char>>::empty()
    } else if is_ws_c(s[0]) {
        spec_tokens(s.drop_first())
    } else {
        let rest = spec_tokens(s.drop_first());
        if s.len() > 1 && !is_ws_c(s[1]) {
            seq![seq![s[0]] + rest[0]] + rest.drop_first()
        } else {
            seq![seq![s[0]]] + rest
        }
    }
}

/// `u` holds no whitespace.
pub open spec fn ws_free(u: Seq<char>) -> bool {
    forall|i: int| 0 <= i < u.len() ==> !is_ws_c(u[i])
}

/// Boundary condition: `v` is empty or starts with whitespace.
pub open spec fn at_boundary(v: Seq<char>) -> bool {
    v.len() == 0 || is_ws_c(v[0])
}

/// Peeling one whole token off the front of an input that continues with a
/// boundary: it is the first token, the lead run, and what precedes the
/// rest.
proof fn lemma_tok_peel(u: Seq<char>, v: Seq<char>)
    requires
        u.len() > 0,
        ws_free(u),
        at_boundary(v),
    ensures
        spec_tokens(u + v) == seq![u] + spec_tokens(v),
        lead_tok(u + v) == u,
        after_tok(u + v) == v,
    decreases u.len(),
{
    let s = u + v;
    assert(lead_tok(v) == Seq::<char>::empty());
    assert(after_tok(v) == v);
    if u.len() == 1 {
        assert(s.drop_first() =~= v);
        if s.len() > 1 {
            assert(s[1] == v[0]);
        }
        assert(seq![s[0]] =~= u);
        assert(spec_tokens(s) =~= seq![u] + spec_tokens(v));
        assert(lead_tok(s) =~= seq![s[0]] + lead_tok(v));
        assert(lead_tok(s) =~= u);
        assert(after_tok(s) == after_tok(v));
    } else {
        lemma_tok_peel(u.drop_first(), v);
        assert(s.drop_first() =~= u.drop_first() + v);
        assert(s[1] == u[1] && !is_ws_c(s[1]));
        let rest = spec_tokens(s.drop_first());
        assert(rest == seq![u.drop_first()] + spec_tokens(v));
        assert(rest[0] == u.drop_first());
        assert(seq![s[0]] + rest[0] =~= u);
        assert(rest.drop_first() =~= spec_tokens(v));
        assert(spec_tokens(s) =~= seq![u] + spec_tokens(v));
        assert(lead_tok(s) =~= seq![s[0]] + lead_tok(s.drop_first()));
        assert(seq![s[0]] + u.drop_first() =~= u);
    }
}

/// Skips whitespace from `from`; the stop index, with the skipped prefix
/// related to `spec_ltrim`.
pub fn skip_ws(s: &str, from: usize) -> (r: usize)
    requires
        from <= s@.len(),
    ensures
        from <= r <= s@.len(),
        spec_ltrim(s@.subrange(from as int, s@.len() as int)) == s@.subrange(
            r as int,
            s@.len() as int,
        ),
        r < s@.len() ==> !is_ws_c(s@[r as int]),
        forall|j: int| from <= j < r ==> is_ws_c(s@[j]),
{
    let n = s.unicode_len();
    let mut i: usize = from;
    while i < n
        invariant
            from <= i <= n,
            n == s@.len(),
            spec_ltrim(s@.subrange(from as int, n as int)) == spec_ltrim(
                s@.subrange(i as int, n as int),
            ),
            forall|j: int| from <= j < i ==> is_ws_c(s@[j]),
        decreases n - i,
    {
        if !is_ws(s.get_char(i)) {
            proof {
                assert(spec_ltrim(s@.subrange(i as int, n as int)) =~= s@.subrange(
                    i as int,
                    n as int,
                ));
            }
            return i;
        }
        proof {
            assert(s@.subrange(i as int, n as int).drop_first() =~= s@.subrange(i + 1, n as int));
        }
        i += 1;
    }
    proof {
        assert(s@.subrange(n as int, n as int) =~= Seq::<char>::empty());
    }
    i
}

/// Scans the token starting at `from` (which must sit on non-whitespace);
/// the token's end, with the run related to `lead_tok` and `after_tok`.
pub fn skip_token(s: &str, from: usize) -> (r: usize)
    requires
        from < s@.len(),
        !is_ws_c(s@[from as int]),
    ensures
        from < r <= s@.len(),
        lead_tok(s@.subrange(from as int, s@.len() as int)) == s@.subrange(from as int, r as int),
        after_tok(s@.subrange(from as int, s@.len() as int)) == s@.subrange(
            r as int,
            s@.len() as int,
        ),
        spec_tokens(s@.subrange(from as int, s@.len() as int)) == seq![
            s@.subrange(from as int, r as int),
        ] + spec_tokens(s@.subrange(r as int, s@.len() as int)),
        ws_free(s@.subrange(from as int, r as int)),
        r < s@.len() ==> is_ws_c(s@[r as int]),
{
    let n = s.unicode_len();
    let mut i: usize = from + 1;
    while i < n && !is_ws(s.get_char(i))
        invariant
            from < i <= n,
            n == s@.len(),
            forall|j: int| from <= j < i ==> !is_ws_c(s@[j]),
        decreases n - i,
    {
        i += 1;
    }
    proof {
        let u = s@.subrange(from as int, i as int);
        let v = s@.subrange(i as int, n as int);
        assert(!is_ws_c(s@[from as int]));
        assert(u.len() > 0);
        assert(s@.subrange(from as int, n as int) =~= u + v);
        lemma_tok_peel(u, v);
    }
    i
}

/// The tokens of `s` from position `from` on.
pub fn tokenize(s: &str, from: usize) -> (r: Vec<&str>)
    requires
        from <= s@.len(),
    ensures
        r@.map_values(|t: &str| t@) == spec_tokens(s@.subrange(from as int, s@.len() as int)),
{
    let n = s.unicode_len();
    let mut r: Vec<&str> = Vec::new();
    let mut i: usize = from;
    proof {
        assert(r@.map_values(|t: &str| t@) =~= Seq::<Seq<char>>::empty());
    }
    while i < n
        invariant
            from <= i <= n,
            n == s@.len(),
            spec_tokens(s@.subrange(from as int, n as int)) == r@.map_values(|t: &str| t@)
                + spec_tokens(s@.subrange(i as int, n as int)),
        decreases n - i,
    {
        if is_ws(s.get_char(i)) {
            proof {
                assert(s@.subrange(i as int, n as int).drop_first() =~= s@.subrange(
                    i + 1,
                    n as int,
                ));
            }
            i += 1;
        } else {
            let j = skip_token(s, i);
            let tok = s.substring_char(i, j);
            proof {
                assert((r@.push(tok)).map_values(|t: &str| t@) =~= r@.map_values(|t: &str| t@)
                    + seq![tok@]);
                assert(r@.map_values(|t: &str| t@) + spec_tokens(s@.subrange(i as int, n as int))
                    =~= (r@.push(tok)).map_values(|t: &str| t@) + spec_tokens(
                    s@.subrange(j as int, n as int),
                ));
            }
            r.push(tok);
            i = j;
        }
    }
    proof {
        assert(s@.subrange(n as int, n as int) =~= Seq::<char>::empty());
        assert(r@.map_values(|t: &str| t@) =~= spec_tokens(s@.subrange(from as int, n as int)));
    }
    r
}

/// Compares two names character by character.
pub fn str_eq(a: &str, b: &str) -> (r: bool)
    ensures
        r == (a@ == b@),
{
    let n = a.unicode_len();
    let m = b.unicode_len();
    if n != m {
        return false;
    }
    let mut i: usize = 0;
    while i < n
        invariant
            n == a@.len(),
            n == b@.len(),
            i <= n,
            forall|j: int| 0 <= j < i ==> a@[j] == b@[j],
        decreases n - i,
    {
        if a.get_char(i) != b.get_char(i) {
            return false;
        }
        i += 1;
    }
    assert(a@ =~= b@);
    true
}

/// The input without leading or trailing whitespace, as `str::trim`.
pub open spec fn spec_trim(s: Seq<char>) -> Seq<char>
    decreases s.len(),
{
    if s.len() > 0 && is_ws_c(s[0]) {
        spec_trim(s.drop_first())
    } else if s.len() > 0 && is_ws_c(s.last()) {
        spec_trim(s.drop_last())
    } else {
        s
    }
}

/// Trims whitespace from both ends.
pub fn trim_ws(s: &str) -> (r: &str)
    ensures
        r@ == spec_trim(s@),
{
    let n = s.unicode_len();
    let a = skip_ws(s, 0);
    if a == n {
        proof {
            lemma_trim_all_ws(s@);
            assert(s@.subrange(0, n as int) =~= s@);
        }
        return s.substring_char(n, n);
    }
    let mut b: usize = n;
    proof {
        lemma_trim_front(s@, a as int);
        assert(s@.subrange(0, n as int) =~= s@);
    }
    while b > a + 1 && is_ws(s.get_char(b - 1))
        invariant
            a < b <= n,
            n == s@.len(),
            !is_ws_c(s@[a as int]),
            spec_trim(s@) == spec_trim(s@.subrange(a as int, b as int)),
        decreases b,
    {
        proof {
            lemma_trim_back(s@.subrange(a as int, b as int));
            assert(s@.subrange(a as int, b as int).drop_last() =~= s@.subrange(a as int, b - 1));
        }
        b -= 1;
    }
    proof {
        let t = s@.subrange(a as int, b as int);
        if b == a + 1 || !is_ws_c(s@[b - 1]) {
            assert(!is_ws_c(t[0]));
            if is_ws_c(t.last()) {
                assert(t.last() == s@[b - 1]);
                assert(b > a + 1 ==> !is_ws_c(s@[b - 1]));
                assert(b == a + 1 ==> t.last() == t[0]);
            }
            assert(spec_trim(t) == t);
        }
    }
    s.substring_char(a, b)
}

/// Trimming an all-whitespace input gives the empty sequence.
proof fn lemma_trim_all_ws(s: Seq<char>)
    requires
        forall|j: int| 0 <= j < s.len() ==> is_ws_c(s[j]),
    ensures
        spec_trim(s) == Seq::<char>::empty(),
    decreases s.len(),
{
    if s.len() > 0 {
        lemma_trim_all_ws(s.drop_first());
    } else {
        assert(s =~= Seq::<char>::empty());
    }
}

/// Trimming skips a whitespace prefix.
proof fn lemma_trim_front(s: Seq<char>, a: int)
    requires
        0 <= a <= s.len(),
        forall|j: int| 0 <= j < a ==> is_ws_c(s[j]),
    ensures
        spec_trim(s) == spec_trim(s.subrange(a, s.len() as int)),
    decreases a,
{
    if a > 0 {
        assert(is_ws_c(s[0]));
        assert(s.drop_first() =~= s.subrange(1, s.len() as int));
        lemma_trim_front(s.drop_first(), a - 1);
        assert(s.drop_first().subrange(a - 1, s.drop_first().len() as int) =~= s.subrange(
            a,
            s.len() as int,
        ));
    } else {
        assert(s.subrange(0, s.len() as int) =~= s);
    }
}

/// Trimming drops a trailing whitespace character once the front is clean.
proof fn lemma_trim_back(t: Seq<char>)
    requires
        t.len() > 1,
        !is_ws_c(t[0]),
        is_ws_c(t.last()),
    ensures
        spec_trim(t) == spec_trim(t.drop_last()),
{
}

} // verus!
