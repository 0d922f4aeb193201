//! Detection of an agent that repeats one action or sits on an unchanged page.

use vstd::prelude::*;

use crate::hashing::{is_lower_hex, push_bytes, sha256_hex, sha256_hex_text};

verus! {

broadcast use vstd::string::group_string_axioms;

/// How many recorded actions (and pages) the detector keeps.
pub const HISTORY_WINDOW: usize = 32;

/// The four little-endian bytes of `x`.
pub open spec fn le_bytes_u32(x: u32) -> Seq<u8> {
    seq![
        (x % 256) as u8,
        ((x / 256) % 256) as u8,
        ((x / 65536) % 256) as u8,
        (x / 16777216) as u8,
    ]
}

/// The bytes hashed into a page fingerprint: the URL, the title, the clickable
/// count and the text length, separated by `|`.
pub open spec fn fingerprint_bytes(url: Seq<char>, title: Seq<char>, clickable_count: u32, text_chars: u32) -> Seq<u8> {
    vstd::utf8::encode_utf8(url) + seq![124u8] + vstd::utf8::encode_utf8(title) + seq![124u8]
        + le_bytes_u32(clickable_count) + seq![124u8] + le_bytes_u32(text_chars)
}

fn le_bytes(x: u32) -> (b: Vec<u8>)
    ensures
        b@ == le_bytes_u32(x),
{
    let mut b: Vec<u8> = Vec::new();
    b.push((x % 256) as u8);
    b.push(((x / 256) % 256) as u8);
    b.push(((x / 65536) % 256) as u8);
    b.push((x / 16777216) as u8);
    b
}

/// A digest of what a page shows; two visits with equal fingerprints look alike.
#[derive(Debug, Clone, Hash)]
pub struct PageFingerprint(String);

impl View for PageFingerprint {
    type V = Seq<char>;

    closed spec fn view(&self) -> Seq<char> {
        self.0@
    }
}

impl PartialEq for PageFingerprint {
    fn eq(&self, other: &Self) -> (r: bool) {
        self.0 == other.0
    }
}

impl vstd::std_specs::cmp::PartialEqSpecImpl for PageFingerprint {
    open spec fn obeys_eq_spec() -> bool {
        true
    }

    open spec fn eq_spec(&self, other: &Self) -> bool {
        self@ == other@
    }
}

impl Eq for PageFingerprint {}

impl PageFingerprint {
    /// Fingerprints a page from its URL text, title, clickable count and
    /// visible-text length: the hexadecimal SHA-256 of those four fields.
    pub fn new(url: &str, title: &str, clickable_count: u32, text_chars: u32) -> (f: Self)
        ensures
            f@ == sha256_hex(fingerprint_bytes(url@, title@, clickable_count, text_chars)),
            f@.len() == 64,
            is_lower_hex(f@),
    {
        let sep: [u8; 1] = [124u8];
        let mut bytes: Vec<u8> = Vec::new();
        push_bytes(&mut bytes, url.as_bytes());
        push_bytes(&mut bytes, &sep);
        push_bytes(&mut bytes, title.as_bytes());
        push_bytes(&mut bytes, &sep);
        let c = le_bytes(clickable_count);
        push_bytes(&mut bytes, c.as_slice());
        push_bytes(&mut bytes, &sep);
        let t = le_bytes(text_chars);
        push_bytes(&mut bytes, t.as_slice());
        assert(sep@ == seq![124u8]);
        PageFingerprint(sha256_hex_text(bytes.as_slice()))
    }

    /// The fingerprint's text.
    pub fn as_str(&self) -> (s: &str)
        ensures
            s@ == self@,
    {
        self.0.as_str()
    }
}

/// What the detector holds: the recent action hashes and page fingerprints,
/// oldest first, and the two repetition thresholds.
pub struct DetectorView {
    pub actions: Seq<Seq<char>>,
    pub pages: Seq<Seq<char>>,
    pub action_threshold: u32,
    pub stagnation_threshold: u32,
}

/// `s` with `item` appended, dropping the oldest entry once more than
/// `HISTORY_WINDOW` are held.
pub open spec fn record_in_window<A>(s: Seq<A>, item: A) -> Seq<A> {
    let t = s.push(item);
    if t.len() > HISTORY_WINDOW {
        t.drop_first()
    } else {
        t
    }
}

/// The last `n` entries of `s` all equal its last entry (and there are at least `n`).
pub open spec fn tail_repeats<A>(s: Seq<A>, n: nat) -> bool {
    &&& n <= s.len()
    &&& forall|k: int| 0 <= k < n ==> #[trigger] s[s.len() - 1 - k] == s[s.len() - 1]
}

/// The most recent action hashes and page fingerprints, oldest first; never
/// more than `HISTORY_WINDOW` of each.
#[derive(Debug)]
struct RecentWindow {
    history: Vec<String>,
    pages: Vec<PageFingerprint>,
}

impl RecentWindow {
    #[verifier::type_invariant]
    spec fn bounded(self) -> bool {
        &&& self.history@.len() <= HISTORY_WINDOW
        &&& self.pages@.len() <= HISTORY_WINDOW
    }

    fn empty() -> (w: Self)
        ensures
            w.history@.len() == 0,
            w.pages@.len() == 0,
    {
        RecentWindow { history: Vec::new(), pages: Vec::new() }
    }

    fn push_action(&mut self, action_hash: String)
        ensures
            final(self).history@.map_values(|s: String| s@) == record_in_window(
                old(self).history@.map_values(|s: String| s@), action_hash@),
            final(self).pages@ == old(self).pages@,
    {
        proof { use_type_invariant(&*self); }
        let ghost h = action_hash@;
        let ghost before = self.history@.map_values(|s: String| s@);
        let mut history = Vec::new();
        let mut pages = Vec::new();
        std::mem::swap(&mut history, &mut self.history);
        std::mem::swap(&mut pages, &mut self.pages);
        history.push(action_hash);
        assert(history@.map_values(|s: String| s@) =~= before.push(h));
        if history.len() > HISTORY_WINDOW {
            history.remove(0);
            assert(history@.map_values(|s: String| s@) =~= before.push(h).drop_first());
        }
        *self = RecentWindow { history, pages };
    }

    fn push_page(&mut self, fingerprint: PageFingerprint)
        ensures
            final(self).pages@.map_values(|p: PageFingerprint| p@) == record_in_window(
                old(self).pages@.map_values(|p: PageFingerprint| p@), fingerprint@),
            final(self).history@ == old(self).history@,
    {
        proof { use_type_invariant(&*self); }
        let ghost f = fingerprint@;
        let ghost before = self.pages@.map_values(|p: PageFingerprint| p@);
        let mut history = Vec::new();
        let mut pages = Vec::new();
        std::mem::swap(&mut history, &mut self.history);
        std::mem::swap(&mut pages, &mut self.pages);
        pages.push(fingerprint);
        assert(pages@.map_values(|p: PageFingerprint| p@) =~= before.push(f));
        if pages.len() > HISTORY_WINDOW {
            pages.remove(0);
            assert(pages@.map_values(|p: PageFingerprint| p@) =~= before.push(f).drop_first());
        }
        *self = RecentWindow { history, pages };
    }
}

/// Watches the stream of actions and pages for repetition.
#[derive(Debug)]
pub struct ActionLoopDetector {
    recent: RecentWindow,
    pub action_threshold: u32,
    pub stagnation_threshold: u32,
}

impl View for ActionLoopDetector {
    type V = DetectorView;

    closed spec fn view(&self) -> DetectorView {
        DetectorView {
            actions: self.recent.history@.map_values(|h: String| h@),
            pages: self.recent.pages@.map_values(|p: PageFingerprint| p@),
            action_threshold: self.action_threshold,
            stagnation_threshold: self.stagnation_threshold,
        }
    }
}

impl Default for ActionLoopDetector {
    /// An empty detector with both thresholds at zero.
    fn default() -> (d: Self)
        ensures
            d@.actions == Seq::<Seq<char>>::empty(),
            d@.pages == Seq::<Seq<char>>::empty(),
            d@.action_threshold == 0,
            d@.stagnation_threshold == 0,
    {
        let d = ActionLoopDetector {
            recent: RecentWindow::empty(),
            action_threshold: 0,
            stagnation_threshold: 0,
        };
        assert(d@.actions =~= Seq::<Seq<char>>::empty());
        assert(d@.pages =~= Seq::<Seq<char>>::empty());
        d
    }
}

impl ActionLoopDetector {
    /// An empty detector that flags five repetitions of an action or a page.
    pub fn new() -> (d: Self)
        ensures
            d@.actions == Seq::<Seq<char>>::empty(),
            d@.pages == Seq::<Seq<char>>::empty(),
            d@.action_threshold == 5,
            d@.stagnation_threshold == 5,
    {
        let d = ActionLoopDetector {
            recent: RecentWindow::empty(),
            action_threshold: 5,
            stagnation_threshold: 5,
        };
        assert(d@.actions =~= Seq::<Seq<char>>::empty());
        assert(d@.pages =~= Seq::<Seq<char>>::empty());
        d
    }

    /// Records an action hash, keeping only the most recent window.
    pub fn record_action(&mut self, action_hash: String)
        ensures
            final(self)@.actions == record_in_window(old(self)@.actions, action_hash@),
            final(self)@.pages == old(self)@.pages,
            final(self)@.action_threshold == old(self)@.action_threshold,
            final(self)@.stagnation_threshold == old(self)@.stagnation_threshold,
            final(self)@.actions.len() <= HISTORY_WINDOW,
            final(self)@.pages.len() <= HISTORY_WINDOW,
    {
        self.recent.push_action(action_hash);
        proof { use_type_invariant(&self.recent); }
    }

    /// Records a page fingerprint, keeping only the most recent window.
    pub fn record_page(&mut self, fingerprint: PageFingerprint)
        ensures
            final(self)@.pages == record_in_window(old(self)@.pages, fingerprint@),
            final(self)@.actions == old(self)@.actions,
            final(self)@.action_threshold == old(self)@.action_threshold,
            final(self)@.stagnation_threshold == old(self)@.stagnation_threshold,
            final(self)@.actions.len() <= HISTORY_WINDOW,
            final(self)@.pages.len() <= HISTORY_WINDOW,
    {
        self.recent.push_page(fingerprint);
        proof { use_type_invariant(&self.recent); }
    }

    /// Whether the last `action_threshold` recorded actions are all the same.
    pub fn action_loop_detected(&self) -> (r: bool)
        requires
            self@.action_threshold > 0 || self@.actions.len() > 0,
        ensures
            r == tail_repeats(self@.actions, self@.action_threshold as nat),
            self@.action_threshold > HISTORY_WINDOW ==> !r,
    {
        proof { use_type_invariant(&self.recent); }
        let n = self.action_threshold as usize;
        let len = self.recent.history.len();
        if len < n {
            return false;
        }
        let last = &self.recent.history[len - 1];
        let mut k: usize = 0;
        while k < n
            invariant
                n == self@.action_threshold,
                len == self@.actions.len(),
                n <= len,
                len > 0,
                k <= n,
                last@ == self@.actions[len - 1],
                forall|j: int| 0 <= j < k ==> #[trigger] self@.actions[len - 1 - j] == self@.actions[len - 1],
            decreases n - k,
        {
            if self.recent.history[len - 1 - k] != *last {
                assert(self@.actions[len - 1 - k] != self@.actions[len - 1]);
                return false;
            }
            k = k + 1;
        }
        true
    }

    /// Whether the last `stagnation_threshold` recorded pages are all the same.
    pub fn page_stagnation_detected(&self) -> (r: bool)
        requires
            self@.stagnation_threshold > 0 || self@.pages.len() > 0,
        ensures
            r == tail_repeats(self@.pages, self@.stagnation_threshold as nat),
            self@.stagnation_threshold > HISTORY_WINDOW ==> !r,
    {
        proof { use_type_invariant(&self.recent); }
        let n = self.stagnation_threshold as usize;
        let len = self.recent.pages.len();
        if len < n {
            return false;
        }
        let last = &self.recent.pages[len - 1];
        let mut k: usize = 0;
        while k < n
            invariant
                n == self@.stagnation_threshold,
                len == self@.pages.len(),
                n <= len,
                len > 0,
                k <= n,
                last@ == self@.pages[len - 1],
                forall|j: int| 0 <= j < k ==> #[trigger] self@.pages[len - 1 - j] == self@.pages[len - 1],
            decreases n - k,
        {
            if self.recent.pages[len - 1 - k] != *last {
                assert(self@.pages[len - 1 - k] != self@.pages[len - 1]);
                return false;
            }
            k = k + 1;
        }
        true
    }
}


/// `s` after recording `item` `n` times in a row.
pub open spec fn record_repeatedly<A>(s: Seq<A>, item: A, n: nat) -> Seq<A>
    decreases n,
{
    if n == 0 {
        s
    } else {
        record_in_window(record_repeatedly(s, item, (n - 1) as nat), item)
    }
}

/// The detector never holds more than `HISTORY_WINDOW` entries, and the entry
/// just recorded is the newest.
pub proof fn law_window_bounded<A>(s: Seq<A>, item: A)
    requires
        s.len() <= HISTORY_WINDOW,
    ensures
        record_in_window(s, item).len() <= HISTORY_WINDOW,
        record_in_window(s, item).last() == item,
{
}

/// Recording the same action (or page) `n` times in a row, for any threshold
/// `t` with `0 < t <= n` and `t <= HISTORY_WINDOW`, makes the repetition visible.
pub proof fn law_repetition_detected<A>(s: Seq<A>, item: A, n: nat, t: nat)
    requires
        0 < t <= n,
        t <= HISTORY_WINDOW,
        s.len() <= HISTORY_WINDOW,
    ensures
        tail_repeats(record_repeatedly(s, item, n), t),
    decreases n,
{
    lemma_repeat_tail(s, item, n);
}

proof fn lemma_repeat_tail<A>(s: Seq<A>, item: A, n: nat)
    requires
        s.len() <= HISTORY_WINDOW,
    ensures
        record_repeatedly(s, item, n).len() <= HISTORY_WINDOW,
        record_repeatedly(s, item, n).len() >= (if n < HISTORY_WINDOW { n } else { HISTORY_WINDOW as nat }),
        forall|k: int|
            0 <= k < n && k < record_repeatedly(s, item, n).len() ==> #[trigger] record_repeatedly(s, item, n)[
                record_repeatedly(s, item, n).len() - 1 - k] == item,
    decreases n,
{
    if n > 0 {
        lemma_repeat_tail(s, item, (n - 1) as nat);
        let prev = record_repeatedly(s, item, (n - 1) as nat);
        let cur = record_repeatedly(s, item, n);
        assert(cur == record_in_window(prev, item));
        assert forall|k: int| 0 <= k < n && k < cur.len() implies #[trigger] cur[cur.len() - 1 - k] == item by {
            if k > 0 {
                if prev.push(item).len() > HISTORY_WINDOW {
                    assert(cur[cur.len() - 1 - k] == prev[prev.len() - 1 - (k - 1)]);
                } else {
                    assert(cur[cur.len() - 1 - k] == prev[prev.len() - 1 - (k - 1)]);
                }
            }
        }
    }
}

/// Recording an action that differs from the one before it clears the
/// repetition for any threshold of at least two.
pub proof fn law_change_breaks_repetition<A>(s: Seq<A>, item: A, t: nat)
    requires
        s.len() > 0,
        s.last() != item,
        t >= 2,
    ensures
        !tail_repeats(record_in_window(s, item), t),
{
    let r = record_in_window(s, item);
    if tail_repeats(r, t) {
        assert(r[r.len() - 1 - 1] == r[r.len() - 1]);
    }
}

/// A threshold beyond the window is never reached: with at most
/// `HISTORY_WINDOW` entries kept, no repetition longer than that is seen.
pub proof fn law_threshold_beyond_window_never_fires<A>(s: Seq<A>, t: nat)
    requires
        s.len() <= HISTORY_WINDOW,
        t > HISTORY_WINDOW,
    ensures
        !tail_repeats(s, t),
{
}

} // verus!
