//! Shortening then restoring a text gives the text back: the proof.

use vstd::prelude::*;

use crate::text::{decimal, digit_char};
use crate::url_shortening::{
    ends_url, url_split_shape,
    interleave, key_text, keys_in_order, lemma_replace_absent, occurs_at, replace_all, restore_all, shorten_all,
    shorten_one, url_position, MIN_URL_LEN,
};

verus! {

/// What every short key begins with.
pub open spec fn key_prefix() -> Seq<char> {
    "ras://url/"@
}


/// `s` nowhere spells the key prefix.
pub open spec fn free_of_keys(s: Seq<char>) -> bool {
    forall|i: int| !occurs_at(s, key_prefix(), i)
}

/// A piece of a shortened text: a URL (it starts with `h` and spells no key
/// prefix) or a one-digit key.
pub open spec fn piece_ok(x: Seq<char>) -> bool {
    ||| (x.len() > 0 && x[0] == 'h' && free_of_keys(x))
    ||| exists|q: nat| q < 10 && x == key_text(q)
}

/// The gaps around the pieces: none spells the key prefix, and each after
/// the first is empty or begins with a character that ends a URL.
pub open spec fn gaps_ok(g: Seq<Seq<char>>) -> bool {
    &&& forall|i: int| 0 <= i < g.len() ==> free_of_keys(#[trigger] g[i])
    &&& forall|i: int| 1 <= i < g.len() ==> (#[trigger] g[i]).len() == 0 || ends_url(g[i][0])
}

proof fn lemma_occurs_shift_by(s: Seq<char>, k: Seq<char>, i: int, d: int)
    requires
        0 <= d <= s.len(),
        occurs_at(s.skip(d), k, i),
    ensures
        occurs_at(s, k, i + d),
{
    assert(s.subrange(i + d, i + d + k.len()) =~= s.skip(d).subrange(i, i + k.len()));
}

/// Replacing in a concatenation works part by part when no occurrence of
/// `k` straddles the joint.
proof fn lemma_replace_concat(x: Seq<char>, y: Seq<char>, k: Seq<char>, u: Seq<char>)
    requires
        k.len() > 0,
        forall|i: int| 0 <= i < x.len() && x.len() < i + k.len() ==> !occurs_at(x + y, k, i),
    ensures
        replace_all(x + y, k, u) == replace_all(x, k, u) + replace_all(y, k, u),
    decreases x.len(),
{
    let s = x + y;
    let n = k.len() as int;
    if x.len() == 0 {
        assert(s =~= y);
        assert(replace_all(x, k, u) + replace_all(y, k, u) =~= replace_all(y, k, u));
    } else if s.len() < k.len() {
        assert(replace_all(x, k, u) == x);
        assert(replace_all(y, k, u) == y);
    } else if s.take(n) == k {
        assert(occurs_at(s, k, 0)) by {
            assert(s.subrange(0, n) =~= s.take(n));
        }
        assert(x.len() >= k.len());
        assert(x.take(n) =~= s.take(n));
        let x1 = x.skip(n);
        assert(s.skip(n) =~= x1 + y);
        assert forall|i: int| 0 <= i < x1.len() && x1.len() < i + k.len() implies !occurs_at(x1 + y, k, i) by {
            if occurs_at(x1 + y, k, i) {
                lemma_occurs_shift_by(s, k, i, n);
            }
        }
        lemma_replace_concat(x1, y, k, u);
        assert(replace_all(x, k, u) == u + replace_all(x1, k, u));
        assert(replace_all(s, k, u) == u + replace_all(x1 + y, k, u));
        assert((u + replace_all(x1, k, u)) + replace_all(y, k, u) =~= u + (replace_all(x1, k, u) + replace_all(y, k, u)));
    } else {
        let x1 = x.skip(1);
        assert(s.skip(1) =~= x1 + y);
        assert(s[0] == x[0]);
        assert forall|i: int| 0 <= i < x1.len() && x1.len() < i + k.len() implies !occurs_at(x1 + y, k, i) by {
            if occurs_at(x1 + y, k, i) {
                lemma_occurs_shift_by(s, k, i, 1);
            }
        }
        lemma_replace_concat(x1, y, k, u);
        assert(replace_all(s, k, u) == seq![s[0]] + replace_all(x1 + y, k, u));
        if x.len() >= k.len() {
            assert(x.take(n) =~= s.take(n));
            assert(replace_all(x, k, u) == seq![x[0]] + replace_all(x1, k, u));
            assert(seq![x[0]] + (replace_all(x1, k, u) + replace_all(y, k, u)) =~= (seq![x[0]] + replace_all(x1, k, u)) + replace_all(y, k, u));
        } else {
            assert(replace_all(x, k, u) == x);
            assert(replace_all(x1, k, u) == x1);
            assert(seq![x[0]] + (x1 + replace_all(y, k, u)) =~= x + replace_all(y, k, u));
        }
    }
}

/// A one-digit key is the key prefix and its digit; none of its characters
/// is an `h` or ends a URL.
proof fn lemma_key_shape(q: nat)
    requires
        q < 10,
    ensures
        key_text(q).len() == 11,
        key_text(q).take(10) == key_prefix(),
        key_text(q)[10] == digit_char(q),
        key_text(q)[0] == 'r',
        key_text(q)[1] == 'a',
        key_text(q)[7] == 'r',
        key_text(q)[8] == 'l',
        forall|j: int| 0 <= j < 11 && j != 0 && j != 7 ==> (#[trigger] key_text(q)[j]) != 'r',
        forall|j: int| 0 <= j < 11 ==> (#[trigger] key_text(q)[j]) != 'h' && !ends_url(key_text(q)[j]),
{
    reveal_strlit("ras://url/");
    let k = key_text(q);
    assert(decimal(q) == seq![digit_char(q)]);
    assert(k =~= key_prefix() + seq![digit_char(q)]);
    assert(k.take(10) =~= key_prefix());
    assert forall|j: int| 0 <= j < 11 implies (#[trigger] k[j]) != 'h' && !ends_url(k[j]) by {
        if j < 10 {
            assert(k[j] == key_prefix()[j]);
        }
    }
    assert forall|j: int| 0 <= j < 11 && j != 0 && j != 7 implies (#[trigger] k[j]) != 'r' by {
        if j < 10 {
            assert(k[j] == key_prefix()[j]);
        }
    }
}

/// Two one-digit keys are equal only for the same digit.
proof fn lemma_key_distinct(p: nat, q: nat)
    requires
        p < 10,
        q < 10,
        p != q,
    ensures
        key_text(p) != key_text(q),
{
    lemma_key_shape(p);
    lemma_key_shape(q);
    assert(key_text(p)[10] != key_text(q)[10]);
}

/// No key occurrence starts before a piece and ends inside it.
proof fn lemma_no_straddle_into_piece(a: Seq<char>, r: Seq<char>, p: nat)
    requires
        p < 10,
        piece_ok(r),
    ensures
        forall|i: int| 0 <= i < a.len() && a.len() < i + key_text(p).len() ==> !occurs_at(a + r, key_text(p), i),
{
    let k = key_text(p);
    lemma_key_shape(p);
    assert forall|i: int| 0 <= i < a.len() && a.len() < i + k.len() implies !occurs_at(a + r, k, i) by {
        if occurs_at(a + r, k, i) {
            let s = a + r;
            let j = a.len() - i;
            assert(s.subrange(i, i + 11)[j] == s[a.len() as int]);
            assert(s[a.len() as int] == r[0]);
            assert(k[j] == r[0]);
            if r.len() > 0 && r[0] == 'h' {
                assert(k[j] != 'h');
            } else {
                let q = choose|q: nat| q < 10 && r == key_text(q);
                lemma_key_shape(q);
                assert(r[0] == 'r');
                assert(j == 7);
                assert(s.subrange(i, i + 11)[8] == s[a.len() as int + 1]);
                assert(s[a.len() as int + 1] == r[1]);
            }
        }
    }
}

/// No key occurrence starts before a gap and ends inside it.
proof fn lemma_no_straddle_into_gap(a: Seq<char>, g: Seq<char>, p: nat)
    requires
        p < 10,
        g.len() == 0 || ends_url(g[0]),
    ensures
        forall|i: int| 0 <= i < a.len() && a.len() < i + key_text(p).len() ==> !occurs_at(a + g, key_text(p), i),
{
    let k = key_text(p);
    lemma_key_shape(p);
    assert forall|i: int| 0 <= i < a.len() && a.len() < i + k.len() implies !occurs_at(a + g, k, i) by {
        if occurs_at(a + g, k, i) {
            let s = a + g;
            let j = a.len() - i;
            assert(s.subrange(i, i + 11)[j] == s[a.len() as int]);
            assert(s[a.len() as int] == g[0]);
            assert(!ends_url(k[j]));
        }
    }
}

/// A piece after replacing the key of `p` by `u`.
pub open spec fn substituted(x: Seq<char>, p: nat, u: Seq<char>) -> Seq<char> {
    if x == key_text(p) { u } else { x }
}

/// Text that spells no key prefix holds no key.
proof fn lemma_replace_in_free(x: Seq<char>, p: nat, u: Seq<char>)
    requires
        p < 10,
        free_of_keys(x),
    ensures
        replace_all(x, key_text(p), u) == x,
{
    let k = key_text(p);
    lemma_key_shape(p);
    assert forall|i: int| !occurs_at(x, k, i) by {
        if occurs_at(x, k, i) {
            assert(x.subrange(i, i + 10) =~= k.subrange(0, 10));
            assert(k.subrange(0, 10) =~= key_prefix());
            assert(occurs_at(x, key_prefix(), i));
        }
    }
    lemma_replace_absent(x, k, u);
}

/// Replacing in one piece.
proof fn lemma_replace_piece(x: Seq<char>, p: nat, u: Seq<char>)
    requires
        p < 10,
        piece_ok(x),
    ensures
        replace_all(x, key_text(p), u) == substituted(x, p, u),
{
    let k = key_text(p);
    lemma_key_shape(p);
    if x.len() > 0 && x[0] == 'h' && free_of_keys(x) {
        lemma_replace_in_free(x, p, u);
        assert(x != k) by {
            if x == k {
                assert(x[0] == 'r');
            }
        }
    } else {
        let q = choose|q: nat| q < 10 && x == key_text(q);
        if q == p {
            assert(x.take(11) =~= k);
            assert(x.skip(11) =~= Seq::<char>::empty());
            assert(replace_all(x, k, u) == u + replace_all(x.skip(11), k, u));
            assert(u + Seq::<char>::empty() =~= u);
        } else {
            lemma_key_distinct(p, q);
            lemma_key_shape(q);
            assert forall|i: int| !occurs_at(x, k, i) by {
                if occurs_at(x, k, i) {
                    assert(i == 0);
                    assert(x.subrange(0, 11) =~= x);
                }
            }
            lemma_replace_absent(x, k, u);
        }
    }
}

/// In a shortened text, replacing one key by `u` replaces exactly the pieces
/// that are that key.
proof fn lemma_replace_interleave(g: Seq<Seq<char>>, w: Seq<Seq<char>>, p: nat, u: Seq<char>)
    requires
        p < 10,
        g.len() == w.len() + 1,
        gaps_ok(g),
        forall|i: int| 0 <= i < w.len() ==> piece_ok(#[trigger] w[i]),
    ensures
        replace_all(interleave(g, w), key_text(p), u) == interleave(g, w.map_values(|x: Seq<char>| substituted(x, p, u))),
    decreases w.len(),
{
    let k = key_text(p);
    let sw = w.map_values(|x: Seq<char>| substituted(x, p, u));
    lemma_key_shape(p);
    if w.len() == 0 {
        assert(free_of_keys(g[0]));
        lemma_replace_in_free(g[0], p, u);
    } else {
        let g1 = g.drop_last();
        let w1 = w.drop_last();
        assert(gaps_ok(g1)) by {
            assert forall|i: int| 0 <= i < g1.len() implies free_of_keys(#[trigger] g1[i]) by {
                assert(g1[i] == g[i]);
            }
            assert forall|i: int| 1 <= i < g1.len() implies (#[trigger] g1[i]).len() == 0 || ends_url(g1[i][0]) by {
                assert(g1[i] == g[i]);
            }
        }
        assert forall|i: int| 0 <= i < w1.len() implies piece_ok(#[trigger] w1[i]) by {
            assert(w1[i] == w[i]);
        }
        lemma_replace_interleave(g1, w1, p, u);
        let a = interleave(g1, w1);
        let wl = w.last();
        let gl = g.last();
        assert(interleave(g, w) == a + wl + gl);
        assert(piece_ok(wl)) by {
            assert(wl == w[w.len() - 1]);
        }
        assert(free_of_keys(gl) && (gl.len() == 0 || ends_url(gl[0]))) by {
            assert(gl == g[g.len() - 1]);
        }
        lemma_no_straddle_into_piece(a, wl, p);
        lemma_replace_concat(a, wl, k, u);
        lemma_no_straddle_into_gap(a + wl, gl, p);
        lemma_replace_concat(a + wl, gl, k, u);
        lemma_replace_piece(wl, p, u);
        lemma_replace_in_free(gl, p, u);
        assert(sw.drop_last() =~= w1.map_values(|x: Seq<char>| substituted(x, p, u)));
        assert(sw.last() == substituted(wl, p, u));
        assert(interleave(g, sw) == interleave(g1, sw.drop_last()) + sw.last() + gl);
    }
}

/// Every entry of `t` from index `n` on holds a long URL of `m`.
pub open spec fn new_entries_from(n: nat, t: Seq<(Seq<char>, Seq<char>)>, m: Seq<Seq<char>>) -> bool {
    forall|j: int| n <= j < t.len() ==> exists|i: int| 0 <= i < m.len() && is_long(m[i]) && #[trigger] t[j].1 == m[i]
}

/// Whether `url` is long enough to be shortened.
pub open spec fn is_long(url: Seq<char>) -> bool {
    (vstd::utf8::encode_utf8(url).len() as usize) >= MIN_URL_LEN
}

/// Whether `i` is the first entry of `t` holding `url`.
pub open spec fn first_holding(t: Seq<(Seq<char>, Seq<char>)>, url: Seq<char>, i: int) -> bool {
    0 <= i < t.len() && t[i].1 == url && forall|k: int| 0 <= k < i ==> (#[trigger] t[k]).1 != url
}

/// An entry holding `url` means there is a first one.
proof fn lemma_first_exists(t: Seq<(Seq<char>, Seq<char>)>, url: Seq<char>, j: int)
    requires
        0 <= j < t.len(),
        t[j].1 == url,
    ensures
        exists|i: int| first_holding(t, url, i),
    decreases j,
{
    if exists|k: int| 0 <= k < j && (#[trigger] t[k]).1 == url {
        let k = choose|k: int| 0 <= k < j && (#[trigger] t[k]).1 == url;
        lemma_first_exists(t, url, k);
    } else {
        assert(first_holding(t, url, j));
    }
}

/// The entry found for `url` in `t` is the first one holding it.
proof fn lemma_url_position_found(t: Seq<(Seq<char>, Seq<char>)>, url: Seq<char>)
    requires
        url_position(t, url) is Some,
    ensures
        first_holding(t, url, url_position(t, url).unwrap()),
{
    let j = choose|i: int| 0 <= i < t.len() && #[trigger] t[i].1 == url;
    lemma_first_exists(t, url, j);
    let f = choose|i: int| first_holding(t, url, i);
    assert(first_holding(t, url, f));
    assert(0 <= f < t.len() && t[f].1 == url && forall|k: int| 0 <= k < f ==> (#[trigger] t[k]).1 != url);
}

/// The first entry holding `url` is where `url_position` points.
proof fn lemma_url_position_is_first(t: Seq<(Seq<char>, Seq<char>)>, url: Seq<char>, j: int)
    requires
        first_holding(t, url, j),
    ensures
        url_position(t, url) == Some(j),
{
    assert(0 <= j < t.len() && t[j].1 == url && forall|k: int| 0 <= k < j ==> (#[trigger] t[k]).1 != url);
    let c = choose|i: int| 0 <= i < t.len() && #[trigger] t[i].1 == url && forall|k: int| 0 <= k < i ==> (#[trigger] t[k]).1 != url;
    if c < j {
        assert(t[c].1 != url);
    } else if c > j {
        assert(t[j].1 != url);
    }
}

/// The first entry holding `url` stays first when the table grows at its end.
#[verifier::spinoff_prover]
proof fn lemma_url_position_extend(t: Seq<(Seq<char>, Seq<char>)>, t2: Seq<(Seq<char>, Seq<char>)>, url: Seq<char>)
    requires
        t.len() <= t2.len(),
        t2.take(t.len() as int) == t,
        url_position(t, url) is Some,
    ensures
        url_position(t2, url) == url_position(t, url),
{
    lemma_url_position_found(t, url);
    let j = url_position(t, url).unwrap();
    assert(first_holding(t2, url, j)) by {
        assert forall|k: int| 0 <= k <= j implies #[trigger] t2[k] == t[k] by {
            assert(t2.take(t.len() as int)[k] == t2[k]);
        }
    }
    lemma_url_position_is_first(t2, url, j);
}

/// A URL not yet in the table is found at the entry just added for it.
proof fn lemma_url_position_pushed(t: Seq<(Seq<char>, Seq<char>)>, key: Seq<char>, url: Seq<char>)
    requires
        url_position(t, url) is None,
    ensures
        url_position(t.push((key, url)), url) == Some(t.len() as int),
{
    let t2 = t.push((key, url));
    assert(first_holding(t2, url, t.len() as int)) by {
        assert forall|k: int| 0 <= k < t.len() implies (#[trigger] t2[k]).1 != url by {
            assert(t2[k] == t[k]);
            if t[k].1 == url {
                assert(exists|i: int| 0 <= i < t.len() && #[trigger] t[i].1 == url);
            }
        }
    }
    lemma_url_position_is_first(t2, url, t.len() as int);
}

/// What shortening does, seen from the final table: the table grows from
/// `t0` by entries for long matched URLs, every long URL ends up in it, and
/// each URL is replaced by the piece the final table gives it.
proof fn lemma_shorten_structure(t0: Seq<(Seq<char>, Seq<char>)>, g: Seq<Seq<char>>, m: Seq<Seq<char>>)
    requires
        g.len() == m.len() + 1,
        keys_in_order(t0),
    ensures
        ({
            let (s, t) = shorten_all(t0, g, m);
            &&& t0.len() <= t.len()
            &&& t.take(t0.len() as int) == t0
            &&& keys_in_order(t)
            &&& new_entries_from(t0.len(), t, m)
            &&& forall|i: int| 0 <= i < m.len() && is_long(#[trigger] m[i]) ==> url_position(t, m[i]) is Some
            &&& s == interleave(g, m.map_values(|x: Seq<char>| shorten_one(t, x).0))
        }),
    decreases m.len(),
{
    let (s, t) = shorten_all(t0, g, m);
    if m.len() == 0 {
        assert(t0.take(t0.len() as int) =~= t0);
        assert(m.map_values(|x: Seq<char>| shorten_one(t, x).0) =~= Seq::<Seq<char>>::empty());
    } else {
        let g1 = g.drop_last();
        let m1 = m.drop_last();
        let ml = m.last();
        lemma_shorten_structure(t0, g1, m1);
        let (before, t1) = shorten_all(t0, g1, m1);
        let (rep, t2) = shorten_one(t1, ml);
        assert(s == before + rep + g.last());
        assert(t == t2);
        // The table after the last URL extends the one before it.
        assert(t1.len() <= t2.len() && t2.take(t1.len() as int) == t1) by {
            assert(t1.take(t1.len() as int) =~= t1);
            if is_long(ml) && url_position(t1, ml) is None {
                assert(t2.take(t1.len() as int) =~= t1);
            }
        }
        assert(t2.take(t0.len() as int) =~= t1.take(t0.len() as int));
        assert(keys_in_order(t2));
        assert forall|j: int| t0.len() <= j < t2.len() implies exists|i: int| 0 <= i < m.len() && is_long(m[i]) && #[trigger] t2[j].1 == m[i] by {
            if j < t1.len() {
                assert(t2[j] == t1[j]);
                let i = choose|i: int| 0 <= i < m1.len() && is_long(m1[i]) && #[trigger] t1[j].1 == m1[i];
                assert(m1[i] == m[i]);
            } else {
                assert(t2[j].1 == ml);
                assert(ml == m[m.len() - 1]);
            }
        }
        assert forall|i: int| 0 <= i < m.len() && is_long(#[trigger] m[i]) implies url_position(t2, m[i]) is Some by {
            if i < m1.len() {
                assert(m1[i] == m[i]);
                lemma_url_position_extend(t1, t2, m[i]);
            } else {
                assert(m[i] == ml);
                if url_position(t1, ml) is None {
                    lemma_url_position_pushed(t1, key_text(t1.len()), ml);
                }
            }
        }
        // Each earlier URL gets the same piece from the final table.
        let p1 = m1.map_values(|x: Seq<char>| shorten_one(t1, x).0);
        let p2 = m.map_values(|x: Seq<char>| shorten_one(t2, x).0);
        assert(p2.drop_last() =~= p1) by {
            assert forall|i: int| 0 <= i < m1.len() implies p2[i] == p1[i] by {
                assert(m1[i] == m[i]);
                if is_long(m[i]) {
                    lemma_url_position_extend(t1, t2, m[i]);
                    lemma_url_position_found(t1, m[i]);
                    let j = url_position(t1, m[i]).unwrap();
                    assert(t2[j] == t1[j]);
                }
            }
        }
        assert(p2.last() == rep) by {
            assert(p2.last() == shorten_one(t2, ml).0);
            if is_long(ml) {
                if url_position(t1, ml) is None {
                    lemma_url_position_pushed(t1, key_text(t1.len()), ml);
                    assert(t2[t1.len() as int].0 == key_text(t1.len()));
                } else {
                    assert(t2 == t1);
                }
            }
        }
        assert(interleave(g, p2) == interleave(g1, p2.drop_last()) + p2.last() + g.last());
    }
}

/// The piece of URL `x` once the first `p` entries of `t` have been restored:
/// the URL itself if it is short or its entry comes before `p`, else its key.
pub open spec fn piece_at_stage(t: Seq<(Seq<char>, Seq<char>)>, x: Seq<char>, p: int) -> Seq<char> {
    if is_long(x) && url_position(t, x).unwrap() >= p {
        t[url_position(t, x).unwrap()].0
    } else {
        x
    }
}

/// A matched URL as the law needs it: it begins with `h` and never spells
/// the key prefix.
pub open spec fn url_ok(x: Seq<char>) -> bool {
    x.len() > 0 && x[0] == 'h' && free_of_keys(x)
}

/// Restoring the first `p` entries puts back exactly the URLs of those entries.
proof fn lemma_restore_stages(t0: Seq<(Seq<char>, Seq<char>)>, g: Seq<Seq<char>>, m: Seq<Seq<char>>, p: int)
    requires
        keys_in_order(t0),
        g.len() == m.len() + 1,
        gaps_ok(g),
        forall|i: int| 0 <= i < m.len() ==> url_ok(#[trigger] m[i]),
        shorten_all(t0, g, m).1.len() <= 10,
        0 <= p <= shorten_all(t0, g, m).1.len(),
    ensures
        ({
            let (s, t) = shorten_all(t0, g, m);
            restore_all(t.take(p), s) == interleave(g, m.map_values(|x: Seq<char>| piece_at_stage(t, x, p)))
        }),
    decreases p,
{
    let (s, t) = shorten_all(t0, g, m);
    lemma_shorten_structure(t0, g, m);
    let w = m.map_values(|x: Seq<char>| piece_at_stage(t, x, p));
    if p == 0 {
        assert(t.take(0) =~= Seq::<(Seq<char>, Seq<char>)>::empty());
        assert(w =~= m.map_values(|x: Seq<char>| shorten_one(t, x).0)) by {
            assert forall|i: int| 0 <= i < m.len() implies w[i] == shorten_one(t, m[i]).0 by {
                if is_long(m[i]) {
                    assert(url_position(t, m[i]) is Some);
                }
            }
        }
    } else {
        let q = p - 1;
        lemma_restore_stages(t0, g, m, q);
        let wq = m.map_values(|x: Seq<char>| piece_at_stage(t, x, q));
        assert(t.take(p).drop_last() =~= t.take(q));
        assert(t.take(p).last() == t[q]);
        assert(t[q].0 == key_text(q as nat));
        // Every piece before this stage is a URL or a one-digit key.
        assert forall|i: int| 0 <= i < wq.len() implies piece_ok(#[trigger] wq[i]) by {
            let x = m[i];
            assert(url_ok(x));
            if is_long(x) && url_position(t, x).unwrap() >= q {
                lemma_url_position_found(t, x);
                let j = url_position(t, x).unwrap();
                assert(wq[i] == key_text(j as nat));
                assert(j < 10);
            }
        }
        lemma_replace_interleave(g, wq, q as nat, t[q].1);
        let sub = wq.map_values(|x: Seq<char>| substituted(x, q as nat, t[q].1));
        assert(sub =~= w) by {
            assert forall|i: int| 0 <= i < m.len() implies sub[i] == w[i] by {
                let x = m[i];
                assert(url_ok(x));
                lemma_key_shape(q as nat);
                if is_long(x) {
                    lemma_url_position_found(t, x);
                    let j = url_position(t, x).unwrap();
                    if j > q {
                        lemma_key_distinct(j as nat, q as nat);
                    } else if j < q {
                        assert(x != key_text(q as nat)) by {
                            assert(x[0] != key_text(q as nat)[0]);
                        }
                    }
                } else {
                    assert(x != key_text(q as nat)) by {
                        assert(x[0] != key_text(q as nat)[0]);
                    }
                }
            }
        }
    }
}

/// Shortening a text and restoring the result gives the text back, from any
/// table a shortener can hold (keys numbered in order, as every shortener
/// keeps them; a fresh one is empty), on the texts the URL pattern splits as
/// it does: each
/// matched URL begins with `h`, each gap after a URL is empty or begins with
/// whitespace, a quote or an angle bracket, no URL or gap spells
/// `ras://url/`, and the table ends with at most ten keys (from the eleventh
/// on, a key such as `ras://url/1` is a prefix of `ras://url/10`).
pub proof fn law_round_trip(t0: Seq<(Seq<char>, Seq<char>)>, g: Seq<Seq<char>>, m: Seq<Seq<char>>)
    requires
        keys_in_order(t0),
        g.len() == m.len() + 1,
        gaps_ok(g),
        forall|i: int| 0 <= i < m.len() ==> url_ok(#[trigger] m[i]),
        shorten_all(t0, g, m).1.len() <= 10,
    ensures
        ({
            let (s, t) = shorten_all(t0, g, m);
            restore_all(t, s) == interleave(g, m)
        }),
{
    let (s, t) = shorten_all(t0, g, m);
    lemma_shorten_structure(t0, g, m);
    lemma_restore_stages(t0, g, m, t.len() as int);
    assert(t.take(t.len() as int) =~= t);
    assert(m.map_values(|x: Seq<char>| piece_at_stage(t, x, t.len() as int)) =~= m) by {
        assert forall|i: int| 0 <= i < m.len() implies piece_at_stage(t, m[i], t.len() as int) == m[i] by {
            if is_long(m[i]) {
                lemma_url_position_found(t, m[i]);
            }
        }
    }
}

/// No two entries of `t` hold the same URL.
pub open spec fn urls_distinct(t: Seq<(Seq<char>, Seq<char>)>) -> bool {
    forall|i: int, j: int| 0 <= i < j < t.len() ==> (#[trigger] t[i]).1 != (#[trigger] t[j]).1
}

proof fn lemma_shorten_fresh(t0: Seq<(Seq<char>, Seq<char>)>, g: Seq<Seq<char>>, m: Seq<Seq<char>>)
    requires
        g.len() == m.len() + 1,
        keys_in_order(t0),
    ensures
        ({
            let t = shorten_all(t0, g, m).1;
            &&& forall|j: int| t0.len() <= j < t.len() ==> url_position(t0, (#[trigger] t[j]).1) is None
            &&& urls_distinct(t0) ==> urls_distinct(t)
        }),
    decreases m.len(),
{
    lemma_shorten_structure(t0, g, m);
    let t = shorten_all(t0, g, m).1;
    if m.len() > 0 {
        let g1 = g.drop_last();
        let m1 = m.drop_last();
        let ml = m.last();
        lemma_shorten_fresh(t0, g1, m1);
        lemma_shorten_structure(t0, g1, m1);
        let t1 = shorten_all(t0, g1, m1).1;
        if is_long(ml) && url_position(t1, ml) is None {
            assert(t == t1.push((key_text(t1.len()), ml)));
            assert forall|k: int| 0 <= k < t1.len() implies (#[trigger] t1[k]).1 != ml by {
                if t1[k].1 == ml {
                    assert(exists|i: int| 0 <= i < t1.len() && #[trigger] t1[i].1 == ml);
                }
            }
            assert forall|j: int| t0.len() <= j < t.len() implies url_position(t0, (#[trigger] t[j]).1) is None by {
                if j < t1.len() {
                    assert(t[j] == t1[j]);
                } else {
                    assert(t[j].1 == ml);
                    if url_position(t0, ml) is Some {
                        lemma_url_position_extend(t0, t1, ml);
                    }
                }
            }
            if urls_distinct(t0) {
                assert forall|i: int, j: int| 0 <= i < j < t.len() implies (#[trigger] t[i]).1 != (#[trigger] t[j]).1 by {
                    if j < t1.len() {
                        assert(t[i] == t1[i] && t[j] == t1[j]);
                    } else {
                        assert(t[i] == t1[i]);
                    }
                }
            }
        } else {
            assert(t == t1);
        }
    }
}

/// Shortening only grows the table: the entries it held stay as they were,
/// keys stay numbered `ras://url/0`, `ras://url/1`, ... in order, each new
/// entry holds a long URL of the text that the table did not hold before,
/// URLs stay distinct, and every long URL of the text ends up in the table.
pub proof fn law_shorten_grows_table(t0: Seq<(Seq<char>, Seq<char>)>, g: Seq<Seq<char>>, m: Seq<Seq<char>>)
    requires
        keys_in_order(t0),
        g.len() == m.len() + 1,
    ensures
        ({
            let t = shorten_all(t0, g, m).1;
            &&& t0.len() <= t.len()
            &&& t.take(t0.len() as int) == t0
            &&& keys_in_order(t)
            &&& new_entries_from(t0.len(), t, m)
            &&& forall|j: int| t0.len() <= j < t.len() ==> url_position(t0, (#[trigger] t[j]).1) is None
            &&& urls_distinct(t0) ==> urls_distinct(t)
            &&& forall|i: int| 0 <= i < m.len() && is_long(#[trigger] m[i]) ==> url_position(t, m[i]) is Some
        }),
{
    lemma_shorten_structure(t0, g, m);
    lemma_shorten_fresh(t0, g, m);
    let (s, t) = shorten_all(t0, g, m);
    assert(t == shorten_all(t0, g, m).1);
}

proof fn lemma_occurs_in_concat(a: Seq<char>, x: Seq<char>, b: Seq<char>, k: Seq<char>, i: int)
    requires
        occurs_at(x, k, i),
    ensures
        occurs_at(a + x + b, k, a.len() + i),
{
    assert((a + x + b).subrange(a.len() + i, a.len() + i + k.len()) =~= x.subrange(i, i + k.len()));
}

/// Every gap and every match of a text that spells no key prefix spells none either.
proof fn lemma_pieces_free(g: Seq<Seq<char>>, m: Seq<Seq<char>>)
    requires
        g.len() == m.len() + 1,
        free_of_keys(interleave(g, m)),
    ensures
        forall|i: int| 0 <= i < g.len() ==> free_of_keys(#[trigger] g[i]),
        forall|i: int| 0 <= i < m.len() ==> free_of_keys(#[trigger] m[i]),
    decreases m.len(),
{
    let p = key_prefix();
    if m.len() == 0 {
        assert(interleave(g, m) == g[0]);
    } else {
        let g1 = g.drop_last();
        let m1 = m.drop_last();
        let a = interleave(g1, m1);
        let e = Seq::<char>::empty();
        assert(interleave(g, m) == a + m.last() + g.last());
        assert(free_of_keys(a)) by {
            assert forall|j: int| !occurs_at(a, p, j) by {
                if occurs_at(a, p, j) {
                    lemma_occurs_in_concat(e, a, m.last() + g.last(), p, j);
                    assert(e + a + (m.last() + g.last()) =~= a + m.last() + g.last());
                }
            }
        }
        lemma_pieces_free(g1, m1);
        assert forall|j: int| !occurs_at(m.last(), p, j) by {
            if occurs_at(m.last(), p, j) {
                lemma_occurs_in_concat(a, m.last(), g.last(), p, j);
            }
        }
        assert forall|j: int| !occurs_at(g.last(), p, j) by {
            if occurs_at(g.last(), p, j) {
                lemma_occurs_in_concat(a + m.last(), g.last(), e, p, j);
                assert(a + m.last() + g.last() + e =~= a + m.last() + g.last());
            }
        }
        assert forall|i: int| 0 <= i < g.len() implies free_of_keys(#[trigger] g[i]) by {
            if i < g1.len() {
                assert(g[i] == g1[i]);
            }
        }
        assert forall|i: int| 0 <= i < m.len() implies free_of_keys(#[trigger] m[i]) by {
            if i < m1.len() {
                assert(m[i] == m1[i]);
            }
        }
    }
}

/// What `UrlShortener::shorten` promises of a call, put together: restoring
/// the shortened text gives the text back, whatever the shortener held
/// before, when the text never spells `ras://url/` and the table ends with at
/// most ten keys. `g` and `m` are the gaps and matches of the URL pattern in
/// the text, which `shorten` states split it as `url_split_shape` says.
pub proof fn law_shorten_then_restore(
    t0: Seq<(Seq<char>, Seq<char>)>,
    text: Seq<char>,
    g: Seq<Seq<char>>,
    m: Seq<Seq<char>>,
)
    requires
        keys_in_order(t0),
        g.len() == m.len() + 1,
        interleave(g, m) == text,
        url_split_shape(g, m),
        free_of_keys(text),
        shorten_all(t0, g, m).1.len() <= 10,
    ensures
        ({
            let (s, t) = shorten_all(t0, g, m);
            restore_all(t, s) == text
        }),
{
    lemma_pieces_free(g, m);
    assert(gaps_ok(g));
    assert forall|i: int| 0 <= i < m.len() implies url_ok(#[trigger] m[i]) by {
        assert(free_of_keys(m[i]));
    }
    law_round_trip(t0, g, m);
}

} // verus!
