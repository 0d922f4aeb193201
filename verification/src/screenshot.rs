//! Per-step screenshots and where a folder sink stores them.

use vstd::prelude::*;

use crate::hashing::hex_digit;
use crate::ids::{AgentId, StepId};
use crate::text::{decimal, digit_char, join_path, path_join, push_text, string_of, zero_padded, zero_padded_decimal};

verus! {

/// The image encoding of a screenshot.
#[derive(Debug, Clone, Copy, PartialEq, Eq)]
pub enum ScreenshotFormat {
    Png,
    Jpeg,
}

impl Default for ScreenshotFormat {
    /// PNG.
    fn default() -> (f: Self)
        ensures
            f == ScreenshotFormat::Png,
    {
        ScreenshotFormat::Png
    }
}

/// The file extension for a screenshot format.
pub open spec fn extension_of(format: ScreenshotFormat) -> Seq<char> {
    match format {
        ScreenshotFormat::Png => "png"@,
        ScreenshotFormat::Jpeg => "jpeg"@,
    }
}

/// The file extension for `format`: `png` or `jpeg`.
pub fn screenshot_extension(format: ScreenshotFormat) -> (e: &'static str)
    ensures
        e@ == extension_of(format),
{
    match format {
        ScreenshotFormat::Png => "png",
        ScreenshotFormat::Jpeg => "jpeg",
    }
}

/// Which step's screenshot to store, and in what format.
#[derive(Debug, Clone, Copy)]
pub struct StepScreenshotRequest {
    pub agent: AgentId,
    pub step: StepId,
    pub format: ScreenshotFormat,
}

/// Where a screenshot was stored.
#[derive(Debug, Clone)]
pub struct StepScreenshot {
    pub location: String,
    pub format: ScreenshotFormat,
    pub size_bytes: u64,
    /// When the image was taken, in milliseconds since the Unix epoch (UTC).
    pub captured_at: i64,
}

/// The `count` lowest hexadecimal digits of `n`, most significant first.
pub open spec fn hex_fixed(n: nat, count: nat) -> Seq<char>
    decreases count,
{
    if count == 0 {
        Seq::empty()
    } else {
        hex_fixed(n / 16, (count - 1) as nat) + seq![hex_digit((n % 16) as int)]
    }
}

/// The hyphenated lowercase text of a UUID: 32 hexadecimal digits grouped 8-4-4-4-12.
pub open spec fn uuid_text(bits: u128) -> Seq<char> {
    let h = hex_fixed(bits as nat, 32);
    h.subrange(0, 8) + seq!['-'] + h.subrange(8, 12) + seq!['-'] + h.subrange(12, 16) + seq!['-']
        + h.subrange(16, 20) + seq!['-'] + h.subrange(20, 32)
}

fn nibble(n: u128) -> (c: char)
    requires
        n < 16,
    ensures
        c == hex_digit(n as int),
{
    match n {
        0 => '0',
        1 => '1',
        2 => '2',
        3 => '3',
        4 => '4',
        5 => '5',
        6 => '6',
        7 => '7',
        8 => '8',
        9 => '9',
        10 => 'a',
        11 => 'b',
        12 => 'c',
        13 => 'd',
        14 => 'e',
        _ => 'f',
    }
}

/// The hyphenated text of the UUID with these bits.
pub fn uuid_string(bits: u128) -> (s: String)
    ensures
        s@ == uuid_text(bits),
{
    let mut digits: Vec<char> = Vec::new();
    let mut rest: u128 = bits;
    let mut i: usize = 0;
    while i < 32
        invariant
            i <= 32,
            digits@.len() == i,
            hex_fixed(bits as nat, 32) == hex_fixed(rest as nat, (32 - i) as nat) + digits@,
        decreases 32 - i,
    {
        let ghost before = digits@;
        digits.insert(0, nibble(rest % 16));
        assert(hex_fixed(rest as nat, (32 - i) as nat) == hex_fixed((rest / 16) as nat, (32 - i - 1) as nat)
            + seq![hex_digit((rest % 16) as int)]);
        assert(digits@ =~= seq![hex_digit((rest % 16) as int)] + before);
        rest = rest / 16;
        i = i + 1;
    }
    assert(hex_fixed(rest as nat, 0) == Seq::<char>::empty());
    assert(digits@ =~= hex_fixed(bits as nat, 32));
    let mut out: Vec<char> = Vec::new();
    push_range(&mut out, &digits, 0, 8);
    out.push('-');
    push_range(&mut out, &digits, 8, 12);
    out.push('-');
    push_range(&mut out, &digits, 12, 16);
    out.push('-');
    push_range(&mut out, &digits, 16, 20);
    out.push('-');
    push_range(&mut out, &digits, 20, 32);
    assert(out@ =~= uuid_text(bits));
    string_of(out.as_slice())
}

fn push_range(out: &mut Vec<char>, src: &Vec<char>, from: usize, to: usize)
    requires
        from <= to <= src@.len(),
    ensures
        final(out)@ == old(out)@ + src@.subrange(from as int, to as int),
{
    let mut k = from;
    while k < to
        invariant
            from <= k <= to,
            to <= src@.len(),
            out@ == old(out)@ + src@.subrange(from as int, k as int),
        decreases to - k,
    {
        out.push(src[k]);
        assert(src@.subrange(from as int, k + 1) == src@.subrange(from as int, k as int).push(src@[k as int]));
        k = k + 1;
    }
}

/// The file name of a step's screenshot: `step-{step:04}.{ext}`.
pub open spec fn screenshot_file_name(step: u32, format: ScreenshotFormat) -> Seq<char> {
    "step-"@ + zero_padded(decimal(step as nat), 4) + "."@ + extension_of(format)
}

/// Stores each step's screenshot at `{root}/{agent}/step-{step:04}.{ext}`.
pub struct FolderScreenshotSink {
    root: String,
}

impl View for FolderScreenshotSink {
    type V = Seq<char>;

    closed spec fn view(&self) -> Seq<char> {
        self.root@
    }
}

impl FolderScreenshotSink {
    /// A sink that stores under `root`.
    pub fn new(root: String) -> (s: Self)
        ensures
            s@ == root@,
    {
        FolderScreenshotSink { root }
    }

    /// The directory screenshots go under.
    pub fn root(&self) -> (r: &str)
        ensures
            r@ == self@,
    {
        self.root.as_str()
    }

    /// Where the screenshot for `request` is stored.
    pub fn path_for(&self, request: StepScreenshotRequest) -> (p: String)
        ensures
            p@ == path_join(path_join(self@, uuid_text(request.agent.0)),
                screenshot_file_name(request.step.0, request.format)),
    {
        let agent_dir = join_path(self.root.as_str(), uuid_string(request.agent.0).as_str());
        let mut name = String::new();
        push_text(&mut name, "step-");
        push_text(&mut name, zero_padded_decimal(request.step.0 as u64, 4).as_str());
        push_text(&mut name, ".");
        push_text(&mut name, screenshot_extension(request.format));
        join_path(agent_dir.as_str(), name.as_str())
    }
}

/// `a` comes strictly before `b` in character order: at the first place they
/// differ `a` has the smaller character, or `a` is a proper prefix of `b`.
pub open spec fn lex_less(a: Seq<char>, b: Seq<char>) -> bool {
    ||| exists|i: int| 0 <= i < a.len() && i < b.len() && a.take(i) == b.take(i) && (a[i] as u32) < (b[i] as u32)
    ||| (a.len() < b.len() && b.take(a.len() as int) == a)
}

/// The four digits of `n` (below 10000), most significant first.
pub open spec fn four_digits(n: nat) -> Seq<char> {
    seq![digit_char(n / 1000), digit_char((n / 100) % 10), digit_char((n / 10) % 10), digit_char(n % 10)]
}

proof fn lemma_padded_four_digits(n: nat)
    requires
        n < 10000,
    ensures
        zero_padded(decimal(n), 4) == four_digits(n),
{
    let z = digit_char(0);
    assert(z == '0');
    if n < 10 {
        assert(decimal(n) == seq![digit_char(n)]);
        assert(zero_padded(decimal(n), 4) =~= seq!['0', '0', '0', digit_char(n)]);
        assert(n / 1000 == 0 && (n / 100) % 10 == 0 && (n / 10) % 10 == 0 && n % 10 == n);
        assert(four_digits(n) =~= seq!['0', '0', '0', digit_char(n)]);
    } else if n < 100 {
        assert(decimal(n / 10) == seq![digit_char(n / 10)]);
        assert(decimal(n) =~= seq![digit_char(n / 10), digit_char(n % 10)]);
        assert(zero_padded(decimal(n), 4) =~= seq!['0', '0', digit_char(n / 10), digit_char(n % 10)]);
        assert(n / 1000 == 0 && (n / 100) % 10 == 0 && (n / 10) % 10 == n / 10);
        assert(four_digits(n) =~= seq!['0', '0', digit_char(n / 10), digit_char(n % 10)]);
    } else if n < 1000 {
        let h = n / 10;
        assert(h / 10 == n / 100);
        assert(decimal(h / 10) == seq![digit_char(h / 10)]);
        assert(decimal(h) =~= seq![digit_char(h / 10), digit_char(h % 10)]);
        assert(decimal(n) =~= seq![digit_char(n / 100), digit_char(h % 10), digit_char(n % 10)]);
        assert(zero_padded(decimal(n), 4) =~= seq!['0', digit_char(n / 100), digit_char(h % 10), digit_char(n % 10)]);
        assert(n / 1000 == 0 && (n / 100) % 10 == n / 100);
        assert(four_digits(n) =~= seq!['0', digit_char(n / 100), digit_char(h % 10), digit_char(n % 10)]);
    } else {
        let h = n / 10;
        let k = h / 10;
        assert(k == n / 100);
        assert(k / 10 == n / 1000);
        assert(decimal(k / 10) == seq![digit_char(k / 10)]);
        assert(decimal(k) =~= seq![digit_char(k / 10), digit_char(k % 10)]);
        assert(decimal(h) =~= seq![digit_char(k / 10), digit_char(k % 10), digit_char(h % 10)]);
        assert(decimal(n) =~= seq![digit_char(n / 1000), digit_char(k % 10), digit_char(h % 10), digit_char(n % 10)]);
        assert(zero_padded(decimal(n), 4) =~= decimal(n));
        assert(four_digits(n) =~= decimal(n));
    }
}

/// Earlier steps have smaller four-digit numbers, place by place.
proof fn lemma_four_digits_order(a: nat, b: nat)
    requires
        a < b < 10000,
    ensures
        lex_less(four_digits(a), four_digits(b)),
{
    let da = four_digits(a);
    let db = four_digits(b);
    assert(a / 1000 <= b / 1000);
    if a / 1000 < b / 1000 {
        assert(da.take(0) =~= db.take(0));
        assert((da[0] as u32) < (db[0] as u32));
    } else if a / 100 < b / 100 {
        assert((a / 100) % 10 < (b / 100) % 10);
        assert(da.take(1) =~= db.take(1));
        assert((da[1] as u32) < (db[1] as u32));
    } else if a / 10 < b / 10 {
        assert(a / 100 == b / 100);
        assert((a / 10) % 10 < (b / 10) % 10);
        assert(da.take(2) =~= db.take(2));
        assert((da[2] as u32) < (db[2] as u32));
    } else {
        assert(a / 10 == b / 10);
        assert(a / 100 == b / 100);
        assert(a % 10 < b % 10);
        assert(da.take(3) =~= db.take(3));
        assert((da[3] as u32) < (db[3] as u32));
    }
}

/// Screenshot files sort in step order: for steps below 10000, an earlier
/// step's file name comes first in character order (the step number is
/// zero-padded to four digits).
pub proof fn law_step_names_sort(a: u32, b: u32, format: ScreenshotFormat)
    requires
        a < b < 10000,
    ensures
        lex_less(screenshot_file_name(a, format), screenshot_file_name(b, format)),
{
    lemma_padded_four_digits(a as nat);
    lemma_padded_four_digits(b as nat);
    lemma_four_digits_order(a as nat, b as nat);
    let da = four_digits(a as nat);
    let db = four_digits(b as nat);
    let i = choose|i: int| 0 <= i < da.len() && i < db.len() && da.take(i) == db.take(i) && (da[i] as u32) < (db[i] as u32);
    let pre = "step-"@;
    let na = screenshot_file_name(a, format);
    let nb = screenshot_file_name(b, format);
    reveal_strlit("step-");
    assert(na == pre + da + "."@ + extension_of(format));
    assert(nb == pre + db + "."@ + extension_of(format));
    assert(na.take(5 + i) =~= pre + da.take(i));
    assert(nb.take(5 + i) =~= pre + db.take(i));
    assert(na[5 + i] == da[i]);
    assert(nb[5 + i] == db[i]);
}

/// A common prefix keeps the character order.
proof fn lemma_lex_less_prefix(q: Seq<char>, x: Seq<char>, y: Seq<char>)
    requires
        lex_less(x, y),
    ensures
        lex_less(q + x, q + y),
{
    let a = q + x;
    let b = q + y;
    if exists|i: int| 0 <= i < x.len() && i < y.len() && x.take(i) == y.take(i) && (x[i] as u32) < (y[i] as u32) {
        let i = choose|i: int| 0 <= i < x.len() && i < y.len() && x.take(i) == y.take(i) && (x[i] as u32) < (y[i] as u32);
        let k = q.len() + i;
        assert(a.take(k) =~= q + x.take(i));
        assert(b.take(k) =~= q + y.take(i));
        assert(a[k] == x[i]);
        assert(b[k] == y[i]);
    } else {
        assert(b.take(a.len() as int) =~= q + y.take(x.len() as int));
    }
}

/// The path prefix `path_join` puts before `part`, which depends on `base` only.
proof fn lemma_path_join_prefix(base: Seq<char>, x: Seq<char>, y: Seq<char>)
    requires
        lex_less(x, y),
    ensures
        lex_less(path_join(base, x), path_join(base, y)),
{
    if base.len() == 0 {
    } else if base.last() == '/' {
        lemma_lex_less_prefix(base, x, y);
    } else {
        lemma_lex_less_prefix(base + "/"@, x, y);
        assert(base + "/"@ + x == path_join(base, x));
        assert(base + "/"@ + y == path_join(base, y));
    }
}

/// The paths `FolderScreenshotSink::path_for` gives one agent's screenshots
/// in one format sort in step order, for steps below 10000.
pub proof fn law_step_paths_sort(root: Seq<char>, agent: u128, a: u32, b: u32, format: ScreenshotFormat)
    requires
        a < b < 10000,
    ensures
        lex_less(
            path_join(path_join(root, uuid_text(agent)), screenshot_file_name(a, format)),
            path_join(path_join(root, uuid_text(agent)), screenshot_file_name(b, format)),
        ),
{
    law_step_names_sort(a, b, format);
    lemma_path_join_prefix(path_join(root, uuid_text(agent)), screenshot_file_name(a, format), screenshot_file_name(b, format));
}

} // verus!
