//! Replacing long URLs in prompts by short keys, and putting them back.

use indexmap::IndexMap;
use vstd::prelude::*;

use crate::parse_output::is_ws;
use crate::text::{chars_of, decimal, decimal_text, decimal_value, lemma_decimal_value, push_text, string_of};

verus! {

/// URLs shorter than this many bytes are left in place.
pub const MIN_URL_LEN: usize = 80;

/// The pattern of a URL in free text.
pub const URL_PATTERN: &'static str = "https?://[^\\s\"'<>]+";

/// An insertion-ordered map (`indexmap::IndexMap`).
#[verifier::external_type_specification]
#[verifier::external_body]
#[verifier::reject_recursive_types(K)]
#[verifier::reject_recursive_types(V)]
#[verifier::reject_recursive_types(S)]
pub struct ExIndexMap<K, V, S>(IndexMap<K, V, S>);

/// The entries of a key-to-URL table, in insertion order.
pub uninterp spec fn table_entries(m: IndexMap<String, String>) -> Seq<(Seq<char>, Seq<char>)>;

/// The position of the entry with key `k`, if any.
pub open spec fn key_position(t: Seq<(Seq<char>, Seq<char>)>, k: Seq<char>) -> Option<int> {
    if exists|i: int| 0 <= i < t.len() && #[trigger] t[i].0 == k {
        Some(choose|i: int| 0 <= i < t.len() && #[trigger] t[i].0 == k)
    } else {
        None
    }
}

/// `IndexMap::new`. Trusted: the map is empty.
#[verifier::external_body]
fn table_new() -> (m: IndexMap<String, String>)
    ensures
        table_entries(m) == Seq::<(Seq<char>, Seq<char>)>::empty(),
{
    IndexMap::new()
}

/// `IndexMap::len`. Trusted: the number of entries.
#[verifier::external_body]
fn table_len(m: &IndexMap<String, String>) -> (n: usize)
    ensures
        n == table_entries(*m).len(),
{
    m.len()
}

/// `IndexMap::insert`. Trusted, as its documentation states: a new key is
/// added last; an existing key keeps its place and takes the new value.
#[verifier::external_body]
fn table_insert(m: &mut IndexMap<String, String>, k: String, v: String)
    ensures
        match key_position(table_entries(*old(m)), k@) {
            Some(i) => table_entries(*final(m)) == table_entries(*old(m)).update(i, (k@, v@)),
            None => table_entries(*final(m)) == table_entries(*old(m)).push((k@, v@)),
        },
{
    m.insert(k, v);
}

/// `IndexMap::get_index`. Trusted: the entry at `i`, or `None` past the end.
#[verifier::external_body]
fn table_get(m: &IndexMap<String, String>, i: usize) -> (e: Option<(&String, &String)>)
    ensures
        i < table_entries(*m).len() ==> e is Some && e.unwrap().0@ == table_entries(*m)[i as int].0
            && e.unwrap().1@ == table_entries(*m)[i as int].1,
        i >= table_entries(*m).len() ==> e is None,
{
    m.get_index(i)
}

/// The texts of the successive non-overlapping matches of `pattern` in
/// `text`; `None` when `pattern` does not compile.
pub uninterp spec fn regex_matches(pattern: Seq<char>, text: Seq<char>) -> Option<Seq<Seq<char>>>;

/// The texts between the matches of `pattern` in `text` (one more than there
/// are matches); `None` when `pattern` does not compile.
pub uninterp spec fn regex_gaps(pattern: Seq<char>, text: Seq<char>) -> Option<Seq<Seq<char>>>;

/// The gaps and matches put back together in order.
pub open spec fn interleave(gaps: Seq<Seq<char>>, matches: Seq<Seq<char>>) -> Seq<char>
    decreases matches.len(),
{
    if matches.len() == 0 || gaps.len() != matches.len() + 1 {
        if gaps.len() > 0 { gaps[0] } else { Seq::empty() }
    } else {
        interleave(gaps.drop_last(), matches.drop_last()) + matches.last() + gaps.last()
    }
}

/// Texts by their characters.
pub open spec fn texts(v: Seq<String>) -> Seq<Seq<char>> {
    v.map_values(|s: String| s@)
}

/// Compiles `pattern` (`regex::Regex::new`) and collects the texts of
/// `Regex::find_iter` over `text`. Trusted: they are what `regex_matches` names.
#[verifier::external_body]
fn find_matches(pattern: &str, text: &str) -> (r: Option<Vec<String>>)
    ensures
        match r {
            Some(v) => regex_matches(pattern@, text@) == Some(texts(v@)),
            None => regex_matches(pattern@, text@) is None,
        },
{
    let re = regex::Regex::new(pattern).ok()?;
    Some(re.find_iter(text).map(|m| m.as_str().to_string()).collect())
}

/// A character that ends a URL in free text: white space (as `\s` matches
/// it), a quote or an angle bracket.
pub open spec fn ends_url(c: char) -> bool {
    is_ws(c) || c == '"' || c == '\'' || c == '<' || c == '>'
}

/// How `URL_PATTERN` splits a text: every match begins with `h`, and every
/// gap after a match is empty (at the end of the text) or begins with a
/// character that ends a URL.
pub open spec fn url_split_shape(gaps: Seq<Seq<char>>, matches: Seq<Seq<char>>) -> bool {
    &&& forall|i: int| 0 <= i < matches.len() ==> (#[trigger] matches[i]).len() > 0 && matches[i][0] == 'h'
    &&& forall|i: int| 1 <= i < gaps.len() ==> (#[trigger] gaps[i]).len() == 0 || ends_url(gaps[i][0])
}

/// Compiles `pattern` (`regex::Regex::new`) and collects the pieces of
/// `Regex::split` over `text`. Trusted: they are what `regex_gaps` names; and,
/// as the source shows (each piece runs from one match's end to the next
/// match's start, the last one to the end of `text`), there is one more piece
/// than matches and pieces and matches interleave back into `text`. For
/// `URL_PATTERN` the regex crate's documented semantics (leftmost-first
/// matching, greedy repetition, `\s` as Unicode white space) also give the
/// shape of `url_split_shape`: a match begins with `http`, and its final
/// `[^\s"'<>]+` runs up to the end of the text or to the next excluded
/// character, which then begins the following gap.
#[verifier::external_body]
fn split_gaps(pattern: &str, text: &str) -> (r: Option<Vec<String>>)
    ensures
        match r {
            Some(v) => regex_gaps(pattern@, text@) == Some(texts(v@)) && regex_matches(pattern@, text@) is Some
                && texts(v@).len() == regex_matches(pattern@, text@).unwrap().len() + 1
                && interleave(texts(v@), regex_matches(pattern@, text@).unwrap()) == text@
                && (pattern@ == URL_PATTERN@ ==> url_split_shape(texts(v@), regex_matches(pattern@, text@).unwrap())),
            None => regex_gaps(pattern@, text@) is None && regex_matches(pattern@, text@) is None,
        },
{
    let re = regex::Regex::new(pattern).ok()?;
    Some(re.split(text).map(|s| s.to_string()).collect())
}

/// The short key for the `i`-th shortened URL.
pub open spec fn key_text(i: nat) -> Seq<char> {
    "ras://url/"@ + decimal(i)
}

/// The position of the first entry whose URL is `url`, if any.
pub open spec fn url_position(t: Seq<(Seq<char>, Seq<char>)>, url: Seq<char>) -> Option<int> {
    if exists|i: int| 0 <= i < t.len() && #[trigger] t[i].1 == url {
        Some(choose|i: int| 0 <= i < t.len() && #[trigger] t[i].1 == url && forall|k: int| 0 <= k < i ==> (#[trigger] t[k]).1 != url)
    } else {
        None
    }
}

/// How one matched URL is replaced, and the table afterwards: a short URL
/// stays; a known long URL becomes its key; a new long URL gets the next key.
pub open spec fn shorten_one(t: Seq<(Seq<char>, Seq<char>)>, url: Seq<char>) -> (Seq<char>, Seq<(Seq<char>, Seq<char>)>) {
    if (vstd::utf8::encode_utf8(url).len() as usize) < MIN_URL_LEN {
        (url, t)
    } else {
        match url_position(t, url) {
            Some(i) => (t[i].0, t),
            None => (key_text(t.len()), t.push((key_text(t.len()), url))),
        }
    }
}

/// The shortened text and the table after replacing `matches` in order.
pub open spec fn shorten_all(
    t: Seq<(Seq<char>, Seq<char>)>,
    gaps: Seq<Seq<char>>,
    matches: Seq<Seq<char>>,
) -> (Seq<char>, Seq<(Seq<char>, Seq<char>)>)
    decreases matches.len(),
{
    if matches.len() == 0 || gaps.len() != matches.len() + 1 {
        (if gaps.len() > 0 { gaps[0] } else { Seq::empty() }, t)
    } else {
        let (before, t1) = shorten_all(t, gaps.drop_last(), matches.drop_last());
        let (rep, t2) = shorten_one(t1, matches.last());
        (before + rep + gaps.last(), t2)
    }
}

/// The characters of `s` with every occurrence of `from`, scanning left to
/// right without overlap, replaced by `to` (`str::replace` for a non-empty `from`).
pub open spec fn replace_all(s: Seq<char>, from: Seq<char>, to: Seq<char>) -> Seq<char>
    decreases s.len(),
{
    if from.len() == 0 || s.len() < from.len() {
        s
    } else if s.take(from.len() as int) == from {
        to + replace_all(s.skip(from.len() as int), from, to)
    } else {
        seq![s[0]] + replace_all(s.skip(1), from, to)
    }
}

/// `s` with each key of `t` replaced by its URL, entries taken in order.
pub open spec fn restore_all(t: Seq<(Seq<char>, Seq<char>)>, s: Seq<char>) -> Seq<char>
    decreases t.len(),
{
    if t.len() == 0 {
        s
    } else {
        replace_all(restore_all(t.drop_last(), s), t.last().0, t.last().1)
    }
}

/// Keys are `ras://url/0`, `ras://url/1`, ... in order.
pub open spec fn keys_in_order(t: Seq<(Seq<char>, Seq<char>)>) -> bool {
    forall|i: int| 0 <= i < t.len() ==> #[trigger] t[i].0 == key_text(i as nat)
}

proof fn lemma_key_text_injective(a: nat, b: nat)
    requires
        key_text(a) == key_text(b),
    ensures
        a == b,
{
    let p = "ras://url/"@;
    assert(key_text(a).skip(p.len() as int) == decimal(a));
    assert(key_text(b).skip(p.len() as int) == decimal(b));
    lemma_decimal_value(a);
    lemma_decimal_value(b);
}

/// Replaces long URLs in prompt text by short keys, and puts them back.
#[derive(Debug)]
pub struct UrlShortener {
    map: IndexMap<String, String>,
}

impl View for UrlShortener {
    type V = Seq<(Seq<char>, Seq<char>)>;

    closed spec fn view(&self) -> Seq<(Seq<char>, Seq<char>)> {
        table_entries(self.map)
    }
}

impl Default for UrlShortener {
    /// A shortener with no URL recorded.
    fn default() -> (s: Self)
        ensures
            s@ == Seq::<(Seq<char>, Seq<char>)>::empty(),
    {
        UrlShortener { map: table_new() }
    }
}

fn replace_text(s: &str, from: &str, to: &str) -> (r: String)
    requires
        from@.len() > 0,
    ensures
        r@ == replace_all(s@, from@, to@),
{
    let v = chars_of(s);
    let f = chars_of(from);
    let t = chars_of(to);
    let mut out: Vec<char> = Vec::new();
    let mut i: usize = 0;
    let n = v.len();
    let m = f.len();
    assert(v@.skip(0) == v@);
    while m <= n - i
        invariant
            v@ == s@,
            f@ == from@,
            t@ == to@,
            n == v@.len(),
            m == f@.len(),
            m > 0,
            i <= n,
            out@ + replace_all(v@.skip(i as int), f@, t@) == replace_all(s@, from@, to@),
        decreases n - i,
    {
        let ghost rest = v@.skip(i as int);
        let mut k: usize = 0;
        let mut same = true;
        while k < m
            invariant
                i + m <= n,
                n == v@.len(),
                m == f@.len(),
                k <= m,
                same == forall|j: int| 0 <= j < k ==> v@[i + j] == f@[j],
            decreases m - k,
        {
            if v[i + k] != f[k] {
                same = false;
            }
            k = k + 1;
        }
        if same {
            assert(rest.take(m as int) =~= f@);
            let ghost before = out@;
            let mut j: usize = 0;
            while j < t.len()
                invariant
                    j <= t@.len(),
                    out@ == before + t@.take(j as int),
                decreases t@.len() - j,
            {
                out.push(t[j]);
                assert(t@.take(j + 1) == t@.take(j as int).push(t@[j as int]));
                j = j + 1;
            }
            assert(t@.take(j as int) == t@);
            assert(rest.skip(m as int) == v@.skip(i + m));
            i = i + m;
        } else {
            assert(rest.take(m as int) != f@) by {
                let j = choose|j: int| 0 <= j < m && v@[i + j] != f@[j];
                assert(rest.take(m as int)[j] == v@[i + j]);
            }
            out.push(v[i]);
            assert(rest.skip(1) == v@.skip(i + 1));
            assert(rest[0] == v@[i as int]);
            i = i + 1;
        }
    }
    let ghost rest = v@.skip(i as int);
    assert(replace_all(rest, f@, t@) == rest);
    let mut k = i;
    while k < n
        invariant
            i <= k <= n,
            n == v@.len(),
            out@ + v@.subrange(k as int, n as int) == replace_all(s@, from@, to@),
        decreases n - k,
    {
        assert(v@.subrange(k as int, n as int) == seq![v@[k as int]] + v@.subrange(k + 1, n as int));
        out.push(v[k]);
        k = k + 1;
    }
    assert(v@.subrange(n as int, n as int) == Seq::<char>::empty());
    assert(out@ =~= replace_all(s@, from@, to@));
    string_of(out.as_slice())
}

impl UrlShortener {
    #[verifier::type_invariant]
    closed spec fn inv(self) -> bool {
        keys_in_order(table_entries(self.map))
    }

    /// A shortener with no URL recorded.
    pub fn new() -> (s: Self)
        ensures
            s@ == Seq::<(Seq<char>, Seq<char>)>::empty(),
    {
        UrlShortener { map: table_new() }
    }

    /// The key of the first recorded entry whose URL is `url`, if any.
    fn lookup_existing(&self, url: &str) -> (k: Option<String>)
        ensures
            match url_position(self@, url@) {
                Some(i) => k is Some && k.unwrap()@ == self@[i].0,
                None => k is None,
            },
    {
        let n = table_len(&self.map);
        let mut i: usize = 0;
        while i < n
            invariant
                n == self@.len(),
                i <= n,
                forall|j: int| 0 <= j < i ==> (#[trigger] self@[j]).1 != url@,
            decreases n - i,
        {
            match table_get(&self.map, i) {
                Some((k, v)) => {
                    if crate::text::same_text(v.as_str(), url) {
                        let ghost t = self@;
                        assert(url_position(t, url@) == Some(i as int)) by {
                            let c = choose|c: int| 0 <= c < t.len() && #[trigger] t[c].1 == url@ && forall|q: int| 0 <= q < c ==> (#[trigger] t[q]).1 != url@;
                            assert(t[i as int].1 == url@);
                            if c < i {
                                assert(t[c].1 != url@);
                            } else if c > i {
                                assert(t[i as int].1 != url@);
                            }
                        }
                        return Some(k.clone());
                    }
                },
                None => {},
            }
            i = i + 1;
        }
        None
    }

    /// Replaces each URL of at least `MIN_URL_LEN` bytes in `text` by a short
    /// key: the key already given to that URL, else the next unused one, which
    /// is recorded. Text whose URL pattern fails to compile is returned as is.
    pub fn shorten(&mut self, text: &str) -> (r: String)
        ensures
            match (regex_gaps(URL_PATTERN@, text@), regex_matches(URL_PATTERN@, text@)) {
                (Some(g), Some(m)) => r@ == shorten_all(old(self)@, g, m).0
                    && final(self)@ == shorten_all(old(self)@, g, m).1
                    && g.len() == m.len() + 1
                    && interleave(g, m) == text@
                    && url_split_shape(g, m),
                _ => r@ == text@ && final(self)@ == old(self)@,
            },
            keys_in_order(old(self)@),
            keys_in_order(final(self)@),
    {
        proof { use_type_invariant(&*self); }
        let gaps = match split_gaps(URL_PATTERN, text) {
            Some(g) => g,
            None => {
                let mut same = String::new();
                push_text(&mut same, text);
                proof { use_type_invariant(&*self); }
                return same;
            },
        };
        let matches = match find_matches(URL_PATTERN, text) {
            Some(m) => m,
            None => {
                let mut same = String::new();
                push_text(&mut same, text);
                proof { use_type_invariant(&*self); }
                return same;
            },
        };
        let ghost g = texts(gaps@);
        let ghost ms = texts(matches@);
        let mut result = String::new();
        push_text(&mut result, gaps[0].as_str());
        let mut i: usize = 0;
        let n = matches.len();
        assert(g.take(1) =~= seq![g[0]]);
        while i < n
            invariant
                n == ms.len(),
                g.len() == n + 1,
                g == texts(gaps@),
                ms == texts(matches@),
                i <= n,
                (result@, self@) == shorten_all(old(self)@, g.take(i + 1), ms.take(i as int)),
            decreases n - i,
        {
            proof { use_type_invariant(&*self); }
            let m = &matches[i];
            let ghost t1 = self@;
            let ghost before = result@;
            assert((before, t1) == shorten_all(old(self)@, g.take(i + 1), ms.take(i as int)));
            if m.as_str().len() < MIN_URL_LEN {
                push_text(&mut result, m.as_str());
            } else {
                match self.lookup_existing(m.as_str()) {
                    Some(short) => {
                        push_text(&mut result, short.as_str());
                        assert(result@ == before + shorten_one(t1, m@).0);
                    },
                    None => {
                        let next_id = table_len(&self.map);
                        let mut key = String::new();
                        push_text(&mut key, "ras://url/");
                        push_text(&mut key, decimal_text(next_id as u64).as_str());
                        let mut url = String::new();
                        push_text(&mut url, m.as_str());
                        proof {
                            assert(key_position(t1, key@) is None) by {
                                if exists|q: int| 0 <= q < t1.len() && #[trigger] t1[q].0 == key@ {
                                    let q = choose|q: int| 0 <= q < t1.len() && #[trigger] t1[q].0 == key@;
                                    lemma_key_text_injective(q as nat, t1.len());
                                }
                            }
                        }
                        let ghost kv = key@;
                        let mut map = table_new();
                        std::mem::swap(&mut map, &mut self.map);
                        table_insert(&mut map, key, url);
                        assert(keys_in_order(table_entries(map))) by {
                            assert(table_entries(map) == t1.push((kv, m@)));
                        }
                        self.map = map;
                        push_text(&mut result, decimal_text_key(next_id).as_str());
                        assert(url_position(t1, m@) is None);
                        assert(self@ == shorten_one(t1, m@).1);
                        assert(result@ == before + shorten_one(t1, m@).0);
                    },
                }
            }
            assert((result@, self@) == (before + shorten_one(t1, m@).0, shorten_one(t1, m@).1));
            push_text(&mut result, gaps[i + 1].as_str());
            assert(g.take(i + 2).drop_last() == g.take(i + 1));
            assert(ms.take(i + 1).drop_last() == ms.take(i as int));
            assert(g.take(i + 2).last() == g[i + 1]);
            assert(ms.take(i + 1).last() == ms[i as int]);
            assert(ms[i as int] == m@);
            i = i + 1;
        }
        assert(g.take(n + 1) == g);
        assert(ms.take(n as int) == ms);
        proof { use_type_invariant(&*self); }
        result
    }

    /// Puts the recorded URLs back in place of their keys, key by key in order.
    pub fn restore(&self, text: &str) -> (r: String)
        ensures
            r@ == restore_all(self@, text@),
            keys_in_order(self@),
    {
        proof { use_type_invariant(self); }
        let mut out = String::new();
        push_text(&mut out, text);
        let n = table_len(&self.map);
        let mut i: usize = 0;
        while i < n
            invariant
                n == self@.len(),
                i <= n,
                keys_in_order(self@),
                out@ == restore_all(self@.take(i as int), text@),
            decreases n - i,
        {
            match table_get(&self.map, i) {
                Some((short, full)) => {
                    assert(short@ == key_text(i as nat));
                    assert(short@.len() > 0) by {
                        assert(key_text(i as nat).len() >= "ras://url/"@.len());
                        reveal_strlit("ras://url/");
                    }
                    out = replace_text(out.as_str(), short.as_str(), full.as_str());
                },
                None => {},
            }
            assert(self@.take(i + 1).drop_last() == self@.take(i as int));
            i = i + 1;
        }
        assert(self@.take(n as int) == self@);
        out
    }
}

fn decimal_text_key(id: usize) -> (k: String)
    ensures
        k@ == key_text(id as nat),
{
    let mut key = String::new();
    push_text(&mut key, "ras://url/");
    push_text(&mut key, decimal_text(id as u64).as_str());
    key
}


/// Text whose URLs are all shorter than `MIN_URL_LEN` bytes comes back as it
/// was, and nothing is recorded.
pub proof fn law_short_urls_unchanged(t: Seq<(Seq<char>, Seq<char>)>, gaps: Seq<Seq<char>>, matches: Seq<Seq<char>>)
    requires
        gaps.len() == matches.len() + 1,
        forall|i: int| 0 <= i < matches.len() ==> (vstd::utf8::encode_utf8(#[trigger] matches[i]).len() as usize) < MIN_URL_LEN,
    ensures
        shorten_all(t, gaps, matches) == (interleave(gaps, matches), t),
    decreases matches.len(),
{
    if matches.len() > 0 {
        let m2 = matches.drop_last();
        assert forall|i: int| 0 <= i < m2.len() implies (vstd::utf8::encode_utf8(#[trigger] m2[i]).len() as usize) < MIN_URL_LEN by {
            assert(m2[i] == matches[i]);
        }
        law_short_urls_unchanged(t, gaps.drop_last(), m2);
        assert(matches.last() == matches[matches.len() - 1]);
    }
}

/// The same long URL met twice gets one key: shortening two occurrences of a
/// new long URL records a single entry and writes that key in both places.
pub proof fn law_duplicate_url_one_key(t: Seq<(Seq<char>, Seq<char>)>, g: Seq<Seq<char>>, url: Seq<char>)
    requires
        g.len() == 3,
        (vstd::utf8::encode_utf8(url).len() as usize) >= MIN_URL_LEN,
        url_position(t, url) is None,
    ensures
        shorten_all(t, g, seq![url, url]).1 == t.push((key_text(t.len()), url)),
        shorten_all(t, g, seq![url, url]).0 == g[0] + key_text(t.len()) + g[1] + key_text(t.len()) + g[2],
{
    let m = seq![url, url];
    let t1 = t.push((key_text(t.len()), url));
    assert(m.drop_last() == seq![url]);
    assert(seq![url].drop_last() == Seq::<Seq<char>>::empty());
    assert(g.drop_last().drop_last().len() == 1);
    assert(shorten_all(t, g.drop_last().drop_last(), Seq::<Seq<char>>::empty()) == (g[0], t));
    assert(shorten_all(t, g.drop_last(), seq![url]) == (g[0] + key_text(t.len()) + g[1], t1));
    assert(t1[t.len() as int].1 == url);
    assert(url_position(t1, url) == Some(t.len() as int)) by {
        let c = choose|i: int| 0 <= i < t1.len() && #[trigger] t1[i].1 == url && forall|k: int| 0 <= k < i ==> (#[trigger] t1[k]).1 != url;
        if c < t.len() {
            assert(t1[c] == t[c]);
        } else if c > t.len() {
            assert(false);
        }
    }
}


/// Whether `k` occurs in `s` at index `i`.
pub open spec fn occurs_at(s: Seq<char>, k: Seq<char>, i: int) -> bool {
    0 <= i && i + k.len() <= s.len() && s.subrange(i, i + k.len()) == k
}

proof fn lemma_occurs_shift(s: Seq<char>, k: Seq<char>, i: int)
    requires
        s.len() > 0,
        occurs_at(s.skip(1), k, i),
    ensures
        occurs_at(s, k, i + 1),
{
    assert(s.subrange(i + 1, i + 1 + k.len()) =~= s.skip(1).subrange(i, i + k.len()));
}

pub(crate) proof fn lemma_replace_absent(s: Seq<char>, k: Seq<char>, u: Seq<char>)
    requires
        k.len() > 0,
        forall|i: int| !occurs_at(s, k, i),
    ensures
        replace_all(s, k, u) == s,
    decreases s.len(),
{
    if s.len() >= k.len() {
        assert(!occurs_at(s, k, 0));
        assert(s.take(k.len() as int) != k) by {
            assert(s.take(k.len() as int) =~= s.subrange(0, k.len() as int));
        }
        assert forall|i: int| !occurs_at(s.skip(1), k, i) by {
            if occurs_at(s.skip(1), k, i) {
                lemma_occurs_shift(s, k, i);
            }
        }
        lemma_replace_absent(s.skip(1), k, u);
        assert(seq![s[0]] + s.skip(1) =~= s);
    }
}

proof fn lemma_replace_single(x: Seq<char>, y: Seq<char>, k: Seq<char>, u: Seq<char>)
    requires
        k.len() > 0,
        forall|i: int| occurs_at(x + k + y, k, i) ==> i == x.len(),
    ensures
        replace_all(x + k + y, k, u) == x + u + y,
    decreases x.len(),
{
    let s = x + k + y;
    if x.len() == 0 {
        assert(s.take(k.len() as int) =~= k);
        assert(s.skip(k.len() as int) =~= y);
        assert forall|i: int| !occurs_at(y, k, i) by {
            if occurs_at(y, k, i) {
                assert(s.subrange(i + k.len(), i + k.len() + k.len()) =~= y.subrange(i, i + k.len()));
                assert(occurs_at(s, k, i + k.len()));
            }
        }
        lemma_replace_absent(y, k, u);
        assert(x + u + y =~= u + y);
    } else {
        assert(!occurs_at(s, k, 0));
        assert(s.take(k.len() as int) != k) by {
            assert(s.take(k.len() as int) =~= s.subrange(0, k.len() as int));
        }
        let x1 = x.skip(1);
        assert(s.skip(1) =~= x1 + k + y);
        assert forall|i: int| occurs_at(x1 + k + y, k, i) implies i == x1.len() by {
            lemma_occurs_shift(s, k, i);
        }
        lemma_replace_single(x1, y, k, u);
        assert(seq![s[0]] + (x1 + u + y) =~= x + u + y);
    }
}

/// A text with one long URL, shortened by a fresh shortener and then
/// restored, comes back unchanged, provided the text around the URL does not
/// itself spell the key anywhere but where the key lands.
pub proof fn law_single_url_round_trip(g0: Seq<char>, g1: Seq<char>, url: Seq<char>)
    requires
        (vstd::utf8::encode_utf8(url).len() as usize) >= MIN_URL_LEN,
        forall|i: int| occurs_at(g0 + key_text(0) + g1, key_text(0), i) ==> i == g0.len(),
    ensures
        ({
            let (short, t) = shorten_all(Seq::empty(), seq![g0, g1], seq![url]);
            &&& short == g0 + key_text(0) + g1
            &&& t == seq![(key_text(0), url)]
            &&& restore_all(t, short) == g0 + url + g1
        }),
{
    let e = Seq::<(Seq<char>, Seq<char>)>::empty();
    assert(seq![g0, g1].drop_last() =~= seq![g0]);
    assert(seq![url].drop_last() =~= Seq::<Seq<char>>::empty());
    assert(url_position(e, url) is None);
    assert(e.push((key_text(0), url)) =~= seq![(key_text(0), url)]);
    let t = seq![(key_text(0), url)];
    assert(decimal(0).len() == 1);
    assert(t.drop_last() =~= e);
    assert(shorten_all(e, seq![g0], Seq::<Seq<char>>::empty()) == (g0, e));
    assert(shorten_one(e, url) == (key_text(0), t));
    assert(shorten_all(e, seq![g0, g1], seq![url]) == (g0 + key_text(0) + g1, t));
    assert(restore_all(e, g0 + key_text(0) + g1) == g0 + key_text(0) + g1);
    assert(t.last() == (key_text(0), url));
    assert(restore_all(t, g0 + key_text(0) + g1) == replace_all(restore_all(t.drop_last(), g0 + key_text(0) + g1), t.last().0, t.last().1));
    lemma_replace_single(g0, g1, key_text(0), url);
}

} // verus!
