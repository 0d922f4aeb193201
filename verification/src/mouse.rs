//! The humanized mouse gestures: which pointer events to send, and when.

use vstd::prelude::*;

verus! {

/// Whether a W3C `buttons` mask holds the left button (bit 0).
pub open spec fn left_held(buttons_mask: i64) -> bool {
    buttons_mask & 1 != 0
}

/// Whether a move with this `buttons` mask drags with the left button held.
pub fn left_button_held(buttons_mask: i64) -> (b: bool)
    ensures
        b == left_held(buttons_mask),
{
    buttons_mask & 1 != 0
}

/// The remainder of `a` by 3 with the sign of `a`, as Rust's `%` computes it.
pub open spec fn trunc_rem3(a: int) -> int {
    if a >= 0 {
        a % 3
    } else {
        -((-a) % 3)
    }
}

/// The jitter of the `n`-th hold tick along one axis: `(n * k) % 3 - 1`,
/// with the product wrapping.
pub open spec fn jitter(n: i64, k: i64) -> int {
    trunc_rem3(vstd::wrapping::i64_specs::wrapping_mul(n, k) as int) - 1
}

fn rem3_minus_one(a: i64) -> (r: i32)
    ensures
        r == trunc_rem3(a as int) - 1,
        -3 <= r <= 1,
{
    let m: i64 = if a >= 0 {
        a % 3
    } else if a == i64::MIN {
        -2
    } else {
        -((-a) % 3)
    };
    (m - 1) as i32
}

/// The small offsets that keep a press-and-hold moving: the `n`-th tick
/// moves by `(n*73 % 3 - 1, n*31 % 3 - 1)`, products wrapping.
pub fn hold_jitter(n: i64) -> (d: (i32, i32))
    ensures
        d.0 == jitter(n, 73),
        d.1 == jitter(n, 31),
        -3 <= d.0 <= 1,
        -3 <= d.1 <= 1,
{
    let dx = rem3_minus_one(n.wrapping_mul(73));
    let dy = rem3_minus_one(n.wrapping_mul(31));
    (dx, dy)
}

/// The approach to a press-and-hold starts this far left of the target...
pub const APPROACH_DX: i32 = 40;

/// ...and this far above it.
pub const APPROACH_DY: i32 = 30;

/// The approach takes this many moves, the last one onto the target.
pub const APPROACH_MOVES: u32 = 6;

/// The pause after each approach move, in milliseconds.
pub const APPROACH_PAUSE_MS: u64 = 25;

/// The pause between the jitter moves of a hold, in milliseconds.
pub const HOLD_TICK_MS: u64 = 80;

/// One pointer event for the browser, or a pause, as the gesture asks for it.
#[derive(Debug, Clone, Copy, PartialEq, Eq, Structural)]
pub enum MouseCommand {
    /// Move the pointer to `(x, y)`; `held` says the left button is down
    /// (a `buttons` mask of 1).
    Move { x: i32, y: i32, held: bool },
    /// Wait this many milliseconds.
    Pause(u64),
    /// Press the left button at `(x, y)`, holding it (a `buttons` mask of 1).
    Press { x: i32, y: i32 },
    /// Release the left button at `(x, y)`.
    Release { x: i32, y: i32 },
    /// The gesture is over.
    Done,
}

/// The `i`-th approach point's abscissa: `i / APPROACH_MOVES` of the way from
/// `x - APPROACH_DX` to `x`, rounded to the nearest pixel (no step lands
/// halfway between two pixels).
pub open spec fn approach_x(x: i32, i: int) -> int {
    x - APPROACH_DX + (APPROACH_DX * i * 2 + APPROACH_MOVES) / (2 * APPROACH_MOVES as int)
}

/// The `i`-th approach point's ordinate, from `y - APPROACH_DY` to `y`.
pub open spec fn approach_y(y: i32, i: int) -> int {
    y - APPROACH_DY + (APPROACH_DY * i * 2 + APPROACH_MOVES) / (2 * APPROACH_MOVES as int)
}

/// Where a press-and-hold gesture stands.
pub struct HoldView {
    pub x: i32,
    pub y: i32,
    pub total_ms: u64,
    /// Steps 0 to 11 approach (a move, then a pause, six times), 12 presses,
    /// 13 checks the time held, 14 jitters, 15 is finished.
    pub stage: nat,
    /// The jitter moves made so far (wrapping).
    pub ticks: i64,
}

/// Coordinates for which every point a gesture of `total_ms` visits fits in
/// `i32`: the approach starts `APPROACH_DX`, `APPROACH_DY` before the target,
/// and a hold of some time may jitter one pixel past it.
pub open spec fn hold_target_ok(x: i32, y: i32, total_ms: u64) -> bool {
    &&& i32::MIN + APPROACH_DX <= x
    &&& i32::MIN + APPROACH_DY <= y
    &&& total_ms > 0 ==> x < i32::MAX && y < i32::MAX
}

/// The command a gesture in state `g` issues when the button has been held
/// for `held_ms` milliseconds, and the state after it.
pub open spec fn hold_step(g: HoldView, held_ms: u64) -> (MouseCommand, HoldView) {
    if g.stage < 2 * APPROACH_MOVES {
        let i = g.stage as int / 2 + 1;
        let next = HoldView { stage: g.stage + 1, ..g };
        if g.stage % 2 == 0 {
            (MouseCommand::Move { x: approach_x(g.x, i) as i32, y: approach_y(g.y, i) as i32, held: false }, next)
        } else {
            (MouseCommand::Pause(APPROACH_PAUSE_MS), next)
        }
    } else if g.stage == 2 * APPROACH_MOVES {
        (MouseCommand::Press { x: g.x, y: g.y }, HoldView { stage: g.stage + 1, ..g })
    } else if g.stage == 2 * APPROACH_MOVES + 1 {
        if held_ms < g.total_ms {
            (MouseCommand::Pause(HOLD_TICK_MS), HoldView { stage: g.stage + 1, ..g })
        } else {
            (MouseCommand::Release { x: g.x, y: g.y }, HoldView { stage: g.stage + 2, ..g })
        }
    } else if g.stage == 2 * APPROACH_MOVES + 2 {
        let n = vstd::wrapping::i64_specs::wrapping_add(g.ticks, 1);
        (
            MouseCommand::Move { x: (g.x + jitter(n, 73)) as i32, y: (g.y + jitter(n, 31)) as i32, held: true },
            HoldView { stage: (g.stage - 1) as nat, ticks: n, ..g },
        )
    } else {
        (MouseCommand::Done, g)
    }
}

/// A press-and-hold at a target: approach it with intermediate moves, press,
/// keep the pointer moving by small jitters while the button is held for the
/// requested time, then release.
pub struct HoldGesture {
    x: i32,
    y: i32,
    total_ms: u64,
    stage: u32,
    ticks: i64,
}

impl View for HoldGesture {
    type V = HoldView;

    closed spec fn view(&self) -> HoldView {
        HoldView { x: self.x, y: self.y, total_ms: self.total_ms, stage: self.stage as nat, ticks: self.ticks }
    }
}

impl HoldGesture {
    #[verifier::type_invariant]
    closed spec fn inv(self) -> bool {
        &&& self.stage <= 2 * APPROACH_MOVES + 3
        &&& hold_target_ok(self.x, self.y, self.total_ms)
        &&& self.stage == 2 * APPROACH_MOVES + 2 ==> self.total_ms > 0
    }

    /// A gesture that holds the left button at `(x, y)` for `total_ms`.
    pub fn new(x: i32, y: i32, total_ms: u64) -> (g: Self)
        requires
            hold_target_ok(x, y, total_ms),
        ensures
            g@ == (HoldView { x, y, total_ms, stage: 0, ticks: 0 }),
    {
        HoldGesture { x, y, total_ms, stage: 0, ticks: 0 }
    }

    /// The next command, given how long the button has been held so far
    /// (only read once the button is down).
    pub fn next(&mut self, held_ms: u64) -> (c: MouseCommand)
        ensures
            (c, final(self)@) == hold_step(old(self)@, held_ms),
    {
        proof { use_type_invariant(&*self); }
        let approach_end: u32 = 2 * APPROACH_MOVES;
        if self.stage < approach_end {
            let stage = self.stage;
            self.stage = stage + 1;
            if stage % 2 == 0 {
                let i: i32 = (stage / 2 + 1) as i32;
                let ax = self.x - APPROACH_DX + (APPROACH_DX * i * 2 + 6) / 12;
                let ay = self.y - APPROACH_DY + (APPROACH_DY * i * 2 + 6) / 12;
                MouseCommand::Move { x: ax, y: ay, held: false }
            } else {
                MouseCommand::Pause(APPROACH_PAUSE_MS)
            }
        } else if self.stage == approach_end {
            self.stage = approach_end + 1;
            MouseCommand::Press { x: self.x, y: self.y }
        } else if self.stage == approach_end + 1 {
            if held_ms < self.total_ms {
                self.stage = approach_end + 2;
                MouseCommand::Pause(HOLD_TICK_MS)
            } else {
                self.stage = approach_end + 3;
                MouseCommand::Release { x: self.x, y: self.y }
            }
        } else if self.stage == approach_end + 2 {
            let n = self.ticks.wrapping_add(1);
            let (dx, dy) = hold_jitter(n);
            self.ticks = n;
            self.stage = approach_end + 1;
            MouseCommand::Move { x: self.x + dx, y: self.y + dy, held: true }
        } else {
            MouseCommand::Done
        }
    }
}

/// The commands a gesture in state `g` issues, one per entry of `held_ms`
/// (the time the button has been held when that command is asked for).
pub open spec fn hold_run(g: HoldView, held_ms: Seq<u64>) -> Seq<MouseCommand>
    decreases held_ms.len(),
{
    if held_ms.len() == 0 {
        Seq::empty()
    } else {
        let (c, g2) = hold_step(g, held_ms[0]);
        seq![c] + hold_run(g2, held_ms.skip(1))
    }
}

/// A fresh gesture first approaches: six moves with the button up, each
/// followed by a short pause, every one to the nearest pixel of its even
/// share of the way, the last onto the target; then it presses at the
/// target. None of this depends on time.
pub proof fn law_hold_gesture_opens(x: i32, y: i32, total_ms: u64, held_ms: Seq<u64>)
    requires
        hold_target_ok(x, y, total_ms),
        held_ms.len() >= 2 * APPROACH_MOVES + 1,
    ensures
        ({
            let cmds = hold_run(HoldView { x, y, total_ms, stage: 0, ticks: 0 }, held_ms);
            &&& forall|j: int| 0 <= j < 2 * APPROACH_MOVES ==> #[trigger] cmds[j] == if j % 2 == 0 {
                MouseCommand::Move { x: approach_x(x, j / 2 + 1) as i32, y: approach_y(y, j / 2 + 1) as i32, held: false }
            } else {
                MouseCommand::Pause(APPROACH_PAUSE_MS)
            }
            &&& forall|i: int| #![trigger approach_x(x, i)] 1 <= i <= APPROACH_MOVES ==> {
                let ex = 2 * APPROACH_MOVES * (approach_x(x, i) - (x - APPROACH_DX)) - 2 * APPROACH_DX * i;
                let ey = 2 * APPROACH_MOVES * (approach_y(y, i) - (y - APPROACH_DY)) - 2 * APPROACH_DY * i;
                -(APPROACH_MOVES as int) < ex <= APPROACH_MOVES && -(APPROACH_MOVES as int) < ey <= APPROACH_MOVES
            }
            &&& approach_x(x, APPROACH_MOVES as int) == x && approach_y(y, APPROACH_MOVES as int) == y
            &&& cmds[2 * APPROACH_MOVES as int] == (MouseCommand::Press { x, y })
        }),
{
    let g0 = HoldView { x, y, total_ms, stage: 0, ticks: 0 };
    lemma_hold_run_len(g0, held_ms);
    lemma_hold_run_prefix(g0, held_ms, 2 * APPROACH_MOVES as int + 1);
    assert forall|i: int| #![trigger approach_x(x, i)] 1 <= i <= APPROACH_MOVES implies {
        let ex = 2 * APPROACH_MOVES * (approach_x(x, i) - (x - APPROACH_DX)) - 2 * APPROACH_DX * i;
        let ey = 2 * APPROACH_MOVES * (approach_y(y, i) - (y - APPROACH_DY)) - 2 * APPROACH_DY * i;
        -(APPROACH_MOVES as int) < ex <= APPROACH_MOVES && -(APPROACH_MOVES as int) < ey <= APPROACH_MOVES
    } by {
        lemma_approach_nearest(x, y, i);
    }
}

proof fn lemma_approach_nearest(x: i32, y: i32, i: int)
    requires
        1 <= i <= APPROACH_MOVES,
    ensures
        -6 < 12 * (approach_x(x, i) - (x - 40)) - 80 * i <= 6,
        -6 < 12 * (approach_y(y, i) - (y - 30)) - 60 * i <= 6,
{
    let qx = (80 * i + 6) / 12;
    let qy = (60 * i + 6) / 12;
    assert(approach_x(x, i) == x - 40 + qx);
    assert(approach_y(y, i) == y - 30 + qy);
    assert(12 * qx <= 80 * i + 6 < 12 * qx + 12) by (nonlinear_arith)
        requires qx == (80 * i + 6) / 12, 1 <= i;
    assert(12 * qy <= 60 * i + 6 < 12 * qy + 12) by (nonlinear_arith)
        requires qy == (60 * i + 6) / 12, 1 <= i;
}

proof fn lemma_hold_run_len(g: HoldView, held_ms: Seq<u64>)
    ensures
        hold_run(g, held_ms).len() == held_ms.len(),
    decreases held_ms.len(),
{
    if held_ms.len() > 0 {
        let (c, g2) = hold_step(g, held_ms[0]);
        lemma_hold_run_len(g2, held_ms.skip(1));
    }
}

/// The `k`-th command of a fresh gesture, for the first thirteen.
proof fn lemma_hold_run_prefix(g0: HoldView, held_ms: Seq<u64>, k: int)
    requires
        hold_target_ok(g0.x, g0.y, g0.total_ms),
        g0.stage == 0,
        0 <= k <= 2 * APPROACH_MOVES + 1,
        held_ms.len() >= k,
    ensures
        forall|j: int| 0 <= j < k ==> #[trigger] hold_run(g0, held_ms)[j] == hold_step(
            HoldView { stage: j as nat, ..g0 }, held_ms[j]).0,
    decreases k,
{
    if k > 0 {
        lemma_hold_run_prefix(g0, held_ms, k - 1);
        lemma_hold_run_at(g0, held_ms, k - 1);
    }
}

/// Running the first `j` commands of a fresh gesture only advances its stage.
proof fn lemma_hold_run_at(g0: HoldView, held_ms: Seq<u64>, j: int)
    requires
        g0.stage == 0,
        0 <= j <= 2 * APPROACH_MOVES,
        held_ms.len() > j,
    ensures
        hold_run(g0, held_ms)[j] == hold_step(HoldView { stage: j as nat, ..g0 }, held_ms[j]).0,
    decreases j,
{
    lemma_hold_run_shift(g0, held_ms, j);
}

/// Dropping the first `j` commands of a run from stage `s` (before the press)
/// leaves the run from stage `s + j`.
proof fn lemma_hold_run_shift(g: HoldView, held_ms: Seq<u64>, j: int)
    requires
        0 <= j,
        g.stage + j <= 2 * APPROACH_MOVES,
        held_ms.len() > j,
    ensures
        hold_run(g, held_ms)[j] == hold_step(HoldView { stage: (g.stage + j) as nat, ..g }, held_ms[j]).0,
    decreases j,
{
    let (c, g2) = hold_step(g, held_ms[0]);
    assert(hold_run(g, held_ms) == seq![c] + hold_run(g2, held_ms.skip(1)));
    lemma_hold_run_len(g2, held_ms.skip(1));
    if j > 0 {
        assert(g2 == HoldView { stage: g.stage + 1, ..g });
        lemma_hold_run_shift(g2, held_ms.skip(1), j - 1);
        assert(held_ms.skip(1)[j - 1] == held_ms[j]);
        assert(HoldView { stage: (g2.stage + j - 1) as nat, ..g2 } == HoldView { stage: (g.stage + j) as nat, ..g });
    } else {
        assert(HoldView { stage: (g.stage + j) as nat, ..g } == g);
    }
}

/// While the button has been held for less than the requested time, a
/// pressed gesture pauses, then moves with the button down to within three
/// pixels of the target, and comes back to check the time again.
pub proof fn law_hold_keeps_moving(g: HoldView, t0: u64, t1: u64)
    requires
        hold_target_ok(g.x, g.y, g.total_ms),
        g.stage == 2 * APPROACH_MOVES + 1,
        t0 < g.total_ms,
    ensures
        ({
            let (c0, g1) = hold_step(g, t0);
            let (c1, g2) = hold_step(g1, t1);
            &&& c0 == MouseCommand::Pause(HOLD_TICK_MS)
            &&& c1 matches MouseCommand::Move { x, y, held } && held
                && g.x - 3 <= x <= g.x + 1 && g.y - 3 <= y <= g.y + 1
            &&& g2.stage == g.stage
            &&& g2.x == g.x && g2.y == g.y && g2.total_ms == g.total_ms
        }),
{
    let n = vstd::wrapping::i64_specs::wrapping_add(g.ticks, 1);
    lemma_jitter_range(n, 73);
    lemma_jitter_range(n, 31);
}

proof fn lemma_jitter_range(n: i64, k: i64)
    ensures
        -3 <= jitter(n, k) <= 1,
{
    let a = vstd::wrapping::i64_specs::wrapping_mul(n, k) as int;
    if a < 0 {
        assert(0 <= (-a) % 3 < 3);
    } else {
        assert(0 <= a % 3 < 3);
    }
}

/// Once the button has been held for the requested time, a pressed gesture
/// releases at the target and is over: every later command is `Done`.
pub proof fn law_hold_releases(g: HoldView, t: u64, later: Seq<u64>)
    requires
        g.stage == 2 * APPROACH_MOVES + 1,
        t >= g.total_ms,
    ensures
        hold_run(g, seq![t] + later) == seq![MouseCommand::Release { x: g.x, y: g.y }]
            + Seq::new(later.len(), |i: int| MouseCommand::Done),
{
    let s = seq![t] + later;
    let (c, g2) = hold_step(g, t);
    assert(s[0] == t);
    assert(s.skip(1) =~= later);
    lemma_hold_done_forever(g2, later);
}

proof fn lemma_hold_done_forever(g: HoldView, later: Seq<u64>)
    requires
        g.stage == 2 * APPROACH_MOVES + 3,
    ensures
        hold_run(g, later) == Seq::new(later.len(), |i: int| MouseCommand::Done),
    decreases later.len(),
{
    if later.len() > 0 {
        lemma_hold_done_forever(g, later.skip(1));
        assert(hold_run(g, later) =~= Seq::new(later.len(), |i: int| MouseCommand::Done));
    } else {
        assert(hold_run(g, later) =~= Seq::new(later.len(), |i: int| MouseCommand::Done));
    }
}

} // verus!
