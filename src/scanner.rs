use vstd::prelude::*;

use crate::keymap::{KeyMap, COLS, ROWS};
use crate::report::{key_report_spec, KeyboardReport};

verus! {

/// Time between two scans of the matrix, in milliseconds.
pub const SCAN_INTERVAL_MS: u64 = 20;

/// How long a driven column settles before the rows are sampled, in microseconds.
pub const SETTLE_DELAY_US: u64 = 50;

/// How long a key must be held before it starts to repeat, in milliseconds.
pub const REPEAT_DELAY_MS: u64 = 400;

/// Time between two repeats of a held key, in milliseconds.
pub const REPEAT_INTERVAL_MS: u64 = 40;

/// What the scanner remembers of one key between two scans.
#[derive(Debug, Clone, Copy, PartialEq, Eq, Structural)]
pub struct KeyState {
    pub pressed: bool,
    /// How long the key has been held since it went down.
    pub hold_time_ms: u64,
}

/// A key that is up and has no hold time.
pub open spec fn released_key() -> KeyState {
    KeyState { pressed: false, hold_time_ms: 0 }
}

/// The hold time after one more scan interval; it stops at the largest `u64`.
pub open spec fn advance_hold(hold: u64) -> u64 {
    if hold <= u64::MAX - SCAN_INTERVAL_MS {
        (hold + SCAN_INTERVAL_MS) as u64
    } else {
        u64::MAX
    }
}

/// Whether a key held for `hold` milliseconds repeats at this scan.
pub open spec fn repeat_due(hold: u64) -> bool {
    hold >= REPEAT_DELAY_MS && (hold - REPEAT_DELAY_MS) % (REPEAT_INTERVAL_MS as int) == 0
}

/// The state of a key after a scan that found it `pressed` or not.
pub open spec fn key_next(k: KeyState, pressed: bool) -> KeyState {
    if !pressed {
        released_key()
    } else if !k.pressed {
        KeyState { pressed: true, hold_time_ms: 0 }
    } else {
        KeyState { pressed: true, hold_time_ms: advance_hold(k.hold_time_ms) }
    }
}

/// Whether that scan emits a report for the key: on the press edge, and
/// while held, at every repeat time.
pub open spec fn key_emits(k: KeyState, pressed: bool) -> bool {
    pressed && (!k.pressed || repeat_due(advance_hold(k.hold_time_ms)))
}

/// The state of a key after a run of scans, first sample first.
pub open spec fn run_key(k: KeyState, samples: Seq<bool>) -> KeyState
    decreases samples.len(),
{
    if samples.len() == 0 {
        k
    } else {
        run_key(key_next(k, samples[0]), samples.drop_first())
    }
}

/// How many reports a key emits over a run of scans.
pub open spec fn count_reports(k: KeyState, samples: Seq<bool>) -> nat
    decreases samples.len(),
{
    if samples.len() == 0 {
        0
    } else {
        (if key_emits(k, samples[0]) { 1nat } else { 0nat }) + count_reports(
            key_next(k, samples[0]),
            samples.drop_first(),
        )
    }
}

/// The cell with flat index `i` (row-major) of a grid.
pub open spec fn cell<T>(grid: [[T; 5]; 4], i: int) -> T {
    grid@[i / (COLS as int)]@[i % (COLS as int)]
}

/// The reports that one cell emits at a scan.
pub open spec fn cell_reports(k: KeyState, pressed: bool, code: u8) -> Seq<KeyboardReport> {
    if key_emits(k, pressed) {
        seq![key_report_spec(code)]
    } else {
        seq![]
    }
}

/// The reports of the first `n` cells (row-major) at a scan, in order.
pub open spec fn scan_reports(
    keys: [[KeyState; 5]; 4],
    sample: [[bool; 5]; 4],
    keymap: KeyMap,
    n: nat,
) -> Seq<KeyboardReport>
    decreases n,
{
    if n == 0 {
        seq![]
    } else {
        let i = n - 1;
        scan_reports(keys, sample, keymap, (n - 1) as nat) + cell_reports(
            cell(keys, i),
            cell(sample, i),
            cell(keymap.codes, i),
        )
    }
}

/// `n` consecutive samples that find a key down.
pub open spec fn held(n: nat) -> Seq<bool> {
    Seq::new(n, |i: int| true)
}

/// `n` consecutive samples that find a key up.
pub open spec fn idle(n: nat) -> Seq<bool> {
    Seq::new(n, |i: int| false)
}

/// How many repeat times a key passes while held for `m` scan intervals
/// after its press edge.
pub open spec fn repeats_within(m: nat) -> nat {
    if m < 20 {
        0
    } else {
        ((m - 20) / 2 + 1) as nat
    }
}

proof fn lemma_run_append(k: KeyState, a: Seq<bool>, b: Seq<bool>)
    ensures
        run_key(k, a + b) == run_key(run_key(k, a), b),
        count_reports(k, a + b) == count_reports(k, a) + count_reports(run_key(k, a), b),
    decreases a.len(),
{
    if a.len() == 0 {
        assert(a + b =~= b);
    } else {
        assert((a + b).drop_first() =~= a.drop_first() + b);
        assert((a + b)[0] == a[0]);
        lemma_run_append(key_next(k, a[0]), a.drop_first(), b);
    }
}

proof fn lemma_one_sample(k: KeyState, b: bool)
    ensures
        run_key(k, seq![b]) == key_next(k, b),
        count_reports(k, seq![b]) == if key_emits(k, b) { 1nat } else { 0nat },
{
    let s = seq![b];
    assert(s.drop_first() =~= Seq::<bool>::empty());
    assert(s[0] == b);
    assert(run_key(key_next(k, b), s.drop_first()) == key_next(k, b));
    assert(count_reports(key_next(k, b), s.drop_first()) == 0);
}

proof fn lemma_idle_silent(n: nat)
    ensures
        run_key(released_key(), idle(n)) == released_key(),
        count_reports(released_key(), idle(n)) == 0,
    decreases n,
{
    if n > 0 {
        assert(idle(n).drop_first() =~= idle((n - 1) as nat));
        lemma_idle_silent((n - 1) as nat);
    }
}

proof fn lemma_held_run(k: KeyState, n: nat)
    requires
        !k.pressed,
        1 <= n <= 0x1_0000_0000,
    ensures
        run_key(k, held(n)) == (KeyState { pressed: true, hold_time_ms: (20 * (n - 1)) as u64 }),
        count_reports(k, held(n)) == 1 + repeats_within((n - 1) as nat),
    decreases n,
{
    if n == 1 {
        assert(held(1) =~= seq![true]);
        lemma_one_sample(k, true);
    } else {
        let m = (n - 1) as nat;
        lemma_held_run(k, m);
        assert(held(n) =~= held(m) + seq![true]);
        lemma_run_append(k, held(m), seq![true]);
        let prev = run_key(k, held(m));
        lemma_one_sample(prev, true);
        assert(advance_hold(prev.hold_time_ms) == 20 * m);
        let h = (20 * m) as u64;
        assert(repeat_due(h) <==> (m >= 20 && m % 2 == 0)) by {
            if m >= 20 {
                assert((20 * m - 400) % 40 == 0 <==> (m - 20) % 2 == 0) by (nonlinear_arith)
                    requires
                        m >= 20,
                ;
            }
        }
    }
}

/// A press edge emits exactly one report, the key's own report: at the scan
/// that finds the cell down while it was up, the cell contributes the report
/// that holds its usage code and nothing else.
pub proof fn press_edge_reports_once(
    keys: [[KeyState; 5]; 4],
    sample: [[bool; 5]; 4],
    keymap: KeyMap,
    i: int,
)
    requires
        0 <= i < 20,
        !cell(keys, i).pressed,
        cell(sample, i),
    ensures
        cell_reports(cell(keys, i), cell(sample, i), cell(keymap.codes, i)) == seq![
            key_report_spec(cell(keymap.codes, i)),
        ],
{
}

/// A key that goes down once, stays down for less than the repeat delay and
/// is then released emits exactly one report over the whole run.
pub proof fn tap_reports_once(k: KeyState, down: nat, up: nat)
    requires
        !k.pressed,
        1 <= down,
        SCAN_INTERVAL_MS * (down - 1) < REPEAT_DELAY_MS,
    ensures
        count_reports(k, held(down) + idle(up)) == 1,
{
    lemma_held_run(k, down);
    lemma_run_append(k, held(down), idle(up));
    let after = run_key(k, held(down));
    if up > 0 {
        assert(idle(up) =~= seq![false] + idle((up - 1) as nat));
        lemma_run_append(after, seq![false], idle((up - 1) as nat));
        lemma_one_sample(after, false);
        lemma_idle_silent((up - 1) as nat);
    } else {
        assert(idle(up) =~= Seq::<bool>::empty());
    }
}

/// Holding a key for `ticks` scan intervals after its press edge, that is
/// for `H = 20 * ticks` milliseconds with `H >= 400`, emits the press report
/// and then `(H - 400) / 40 + 1` repeats. A repeat comes exactly at the scans
/// where the hold time `h` satisfies `h >= 400` and `(h - 400) % 40 == 0`.
pub proof fn hold_repeat_count(k: KeyState, ticks: nat)
    requires
        !k.pressed,
        SCAN_INTERVAL_MS * ticks >= REPEAT_DELAY_MS,
        ticks < 0x1_0000_0000,
    ensures
        count_reports(k, held(ticks + 1)) == 1 + ((SCAN_INTERVAL_MS * ticks - REPEAT_DELAY_MS)
            / (REPEAT_INTERVAL_MS as int) + 1),
        forall|j: nat|
            1 <= j <= ticks ==> {
                let before = #[trigger] run_key(k, held(j));
                &&& key_next(before, true).hold_time_ms == SCAN_INTERVAL_MS * j
                &&& key_emits(before, true) == repeat_due((SCAN_INTERVAL_MS * j) as u64)
            },
{
    lemma_held_run(k, ticks + 1);
    assert(repeats_within(ticks) == (20 * ticks - 400) / 40 + 1);
    assert forall|j: nat| 1 <= j <= ticks implies {
        let before = #[trigger] run_key(k, held(j));
        &&& key_next(before, true).hold_time_ms == SCAN_INTERVAL_MS * j
        &&& key_emits(before, true) == repeat_due((SCAN_INTERVAL_MS * j) as u64)
    } by {
        lemma_held_run(k, j);
    }
}

/// A release clears the hold time whatever it was, and the key then counts
/// taps and repeats as a key that was never pressed.
pub proof fn release_restarts(k: KeyState, later: Seq<bool>)
    ensures
        key_next(k, false).hold_time_ms == 0,
        key_next(k, false) == released_key(),
        run_key(key_next(k, false), later) == run_key(released_key(), later),
        count_reports(key_next(k, false), later) == count_reports(released_key(), later),
{
}

/// The samples of the cell with flat index `i` over a run of scans.
pub open spec fn column(grids: Seq<[[bool; 5]; 4]>, i: int) -> Seq<bool> {
    Seq::new(grids.len(), |t: int| cell(grids[t], i))
}

/// The state of cell `i` before scan `t` of a run that starts from `keys0`.
pub open spec fn state_at(keys0: [[KeyState; 5]; 4], grids: Seq<[[bool; 5]; 4]>, i: int, t: int) -> KeyState {
    run_key(cell(keys0, i), column(grids.take(t), i))
}

/// The reports of cell `i` at scan `t` of a run.
pub open spec fn cell_reports_at(
    keys0: [[KeyState; 5]; 4],
    grids: Seq<[[bool; 5]; 4]>,
    keymap: KeyMap,
    i: int,
    t: int,
) -> Seq<KeyboardReport> {
    cell_reports(state_at(keys0, grids, i, t), cell(grids[t], i), cell(keymap.codes, i))
}

/// The reports of the first `n` cells (row-major) at scan `t` of a run.
pub open spec fn tick_reports(
    keys0: [[KeyState; 5]; 4],
    grids: Seq<[[bool; 5]; 4]>,
    keymap: KeyMap,
    t: int,
    n: nat,
) -> Seq<KeyboardReport>
    decreases n,
{
    if n == 0 {
        seq![]
    } else {
        tick_reports(keys0, grids, keymap, t, (n - 1) as nat) + cell_reports_at(
            keys0,
            grids,
            keymap,
            n - 1,
            t,
        )
    }
}

/// The reports of the first `n` scans of a run, in the order they are sent.
pub open spec fn run_reports(
    keys0: [[KeyState; 5]; 4],
    grids: Seq<[[bool; 5]; 4]>,
    keymap: KeyMap,
    n: nat,
) -> Seq<KeyboardReport>
    decreases n,
{
    if n == 0 {
        seq![]
    } else {
        run_reports(keys0, grids, keymap, (n - 1) as nat) + tick_reports(
            keys0,
            grids,
            keymap,
            n - 1,
            20,
        )
    }
}

/// Cell `i` is the only one that any scan of the run finds down.
pub open spec fn only_cell_active(grids: Seq<[[bool; 5]; 4]>, i: int) -> bool {
    forall|t: int, j: int| 0 <= t < grids.len() && 0 <= j < 20 && j != i ==> !#[trigger] cell(grids[t], j)
}

/// `c` copies of the report of the key with usage `code`.
pub open spec fn key_reports(code: u8, c: nat) -> Seq<KeyboardReport> {
    Seq::new(c, |k: int| key_report_spec(code))
}

proof fn lemma_column_take(grids: Seq<[[bool; 5]; 4]>, i: int, t: int)
    requires
        0 <= t <= grids.len(),
    ensures
        column(grids.take(t), i) == column(grids, i).take(t),
{
    assert(column(grids.take(t), i) =~= column(grids, i).take(t));
}

proof fn lemma_state_step(keys0: [[KeyState; 5]; 4], grids: Seq<[[bool; 5]; 4]>, i: int, t: int)
    requires
        0 <= t < grids.len(),
    ensures
        state_at(keys0, grids, i, t + 1) == key_next(state_at(keys0, grids, i, t), cell(grids[t], i)),
        count_reports(cell(keys0, i), column(grids.take(t + 1), i)) == count_reports(
            cell(keys0, i),
            column(grids.take(t), i),
        ) + if key_emits(state_at(keys0, grids, i, t), cell(grids[t], i)) {
            1nat
        } else {
            0nat
        },
{
    let b = cell(grids[t], i);
    assert(column(grids.take(t + 1), i) =~= column(grids.take(t), i) + seq![b]);
    lemma_run_append(cell(keys0, i), column(grids.take(t), i), seq![b]);
    lemma_one_sample(state_at(keys0, grids, i, t), b);
}

proof fn lemma_scan_is_tick(
    keys: [[KeyState; 5]; 4],
    keys0: [[KeyState; 5]; 4],
    grids: Seq<[[bool; 5]; 4]>,
    keymap: KeyMap,
    t: int,
    n: nat,
)
    requires
        0 <= t < grids.len(),
        n <= 20,
        forall|i: int| 0 <= i < 20 ==> #[trigger] cell(keys, i) == state_at(keys0, grids, i, t),
    ensures
        scan_reports(keys, grids[t], keymap, n) == tick_reports(keys0, grids, keymap, t, n),
    decreases n,
{
    if n > 0 {
        lemma_scan_is_tick(keys, keys0, grids, keymap, t, (n - 1) as nat);
        assert(cell(keys, n - 1) == state_at(keys0, grids, n - 1, t));
    }
}

proof fn lemma_single_cell_tick(
    keys0: [[KeyState; 5]; 4],
    grids: Seq<[[bool; 5]; 4]>,
    keymap: KeyMap,
    i: int,
    t: int,
    n: nat,
)
    requires
        0 <= i < 20,
        0 <= t < grids.len(),
        n <= 20,
        only_cell_active(grids, i),
    ensures
        tick_reports(keys0, grids, keymap, t, n) == if i < n {
            cell_reports_at(keys0, grids, keymap, i, t)
        } else {
            seq![]
        },
    decreases n,
{
    if n > 0 {
        lemma_single_cell_tick(keys0, grids, keymap, i, t, (n - 1) as nat);
        if n - 1 != i {
            assert(!cell(grids[t], n - 1));
            assert(cell_reports_at(keys0, grids, keymap, n - 1, t) =~= seq![]);
        }
        assert(tick_reports(keys0, grids, keymap, t, n) =~= if i < n {
            cell_reports_at(keys0, grids, keymap, i, t)
        } else {
            seq![]
        });
    }
}

proof fn lemma_single_cell_run(
    keys0: [[KeyState; 5]; 4],
    grids: Seq<[[bool; 5]; 4]>,
    keymap: KeyMap,
    i: int,
    n: nat,
)
    requires
        0 <= i < 20,
        n <= grids.len(),
        only_cell_active(grids, i),
    ensures
        run_reports(keys0, grids, keymap, n) == key_reports(
            cell(keymap.codes, i),
            count_reports(cell(keys0, i), column(grids.take(n as int), i)),
        ),
    decreases n,
{
    let code = cell(keymap.codes, i);
    if n == 0 {
        assert(column(grids.take(0), i) =~= Seq::<bool>::empty());
        assert(run_reports(keys0, grids, keymap, 0) =~= key_reports(code, 0));
    } else {
        let t = n - 1;
        lemma_single_cell_run(keys0, grids, keymap, i, (n - 1) as nat);
        lemma_single_cell_tick(keys0, grids, keymap, i, t, 20);
        lemma_state_step(keys0, grids, i, t);
        let c = count_reports(cell(keys0, i), column(grids.take(t), i));
        if key_emits(state_at(keys0, grids, i, t), cell(grids[t], i)) {
            assert(key_reports(code, c) + seq![key_report_spec(code)] =~= key_reports(code, c + 1));
        } else {
            assert(key_reports(code, c) + seq![] =~= key_reports(code, c));
        }
    }
}

proof fn lemma_idle_from(k: KeyState, n: nat)
    ensures
        count_reports(k, idle(n)) == 0,
        n > 0 ==> run_key(k, idle(n)) == released_key(),
        n == 0 ==> run_key(k, idle(n)) == k,
{
    if n > 0 {
        assert(idle(n) =~= seq![false] + idle((n - 1) as nat));
        lemma_run_append(k, seq![false], idle((n - 1) as nat));
        lemma_one_sample(k, false);
        lemma_idle_silent((n - 1) as nat);
    } else {
        assert(idle(n) =~= Seq::<bool>::empty());
    }
}

/// Over a whole run of scans in which only one cell is ever found down, and
/// that cell goes down once (after `idle_before` scans up, from a key that
/// is up), stays down for less than the repeat delay and is then released,
/// the scanner sends exactly one report: the report of that cell's key.
pub proof fn single_tap_run(
    keys0: [[KeyState; 5]; 4],
    grids: Seq<[[bool; 5]; 4]>,
    keymap: KeyMap,
    i: int,
    idle_before: nat,
    down: nat,
    up: nat,
)
    requires
        0 <= i < 20,
        !cell(keys0, i).pressed,
        only_cell_active(grids, i),
        column(grids, i) == idle(idle_before) + held(down) + idle(up),
        1 <= down,
        SCAN_INTERVAL_MS * (down - 1) < REPEAT_DELAY_MS,
    ensures
        run_reports(keys0, grids, keymap, grids.len()) == seq![key_report_spec(cell(keymap.codes, i))],
{
    let k = cell(keys0, i);
    assert(grids.take(grids.len() as int) =~= grids);
    lemma_single_cell_run(keys0, grids, keymap, i, grids.len());
    let col = column(grids, i);
    assert(col =~= idle(idle_before) + (held(down) + idle(up)));
    lemma_run_append(k, idle(idle_before), held(down) + idle(up));
    lemma_idle_from(k, idle_before);
    tap_reports_once(run_key(k, idle(idle_before)), down, up);
    assert(key_reports(cell(keymap.codes, i), 1) =~= seq![key_report_spec(cell(keymap.codes, i))]);
}

/// Over a whole run of scans in which only one cell is ever found down, and
/// that cell goes down at scan `a` (after `a` scans up, from a key that is
/// up) and stays down for `ticks` more scans, that is `H = 20 * ticks`
/// milliseconds with `H >= 400`, then is released: the scanner sends the
/// key's report `(H - 400) / 40 + 2` times. At scan `a` it sends the tap; at
/// scan `a + j` (`1 <= j <= ticks`) it sends one report exactly when the hold
/// time `20 * j` is a repeat time, and nothing otherwise.
pub proof fn hold_repeat_run(
    keys0: [[KeyState; 5]; 4],
    grids: Seq<[[bool; 5]; 4]>,
    keymap: KeyMap,
    i: int,
    a: nat,
    ticks: nat,
    up: nat,
)
    requires
        0 <= i < 20,
        !cell(keys0, i).pressed,
        only_cell_active(grids, i),
        column(grids, i) == idle(a) + held(ticks + 1) + idle(up),
        SCAN_INTERVAL_MS * ticks >= REPEAT_DELAY_MS,
        ticks < 0x1_0000_0000,
    ensures
        run_reports(keys0, grids, keymap, grids.len()) == key_reports(
            cell(keymap.codes, i),
            ((SCAN_INTERVAL_MS * ticks - REPEAT_DELAY_MS) / (REPEAT_INTERVAL_MS as int) + 2) as nat,
        ),
        tick_reports(keys0, grids, keymap, a as int, 20) == seq![key_report_spec(cell(keymap.codes, i))],
        forall|j: int|
            1 <= j <= ticks ==> #[trigger] tick_reports(keys0, grids, keymap, a + j, 20) == if repeat_due(
                (SCAN_INTERVAL_MS * j) as u64,
            ) {
                seq![key_report_spec(cell(keymap.codes, i))]
            } else {
                seq![]
            },
{
    let k = cell(keys0, i);
    let code = cell(keymap.codes, i);
    let col = column(grids, i);
    assert(grids.take(grids.len() as int) =~= grids);
    lemma_single_cell_run(keys0, grids, keymap, i, grids.len());
    lemma_idle_from(k, a);
    let k1 = run_key(k, idle(a));
    assert(!k1.pressed);
    // The whole run.
    assert(col =~= idle(a) + (held(ticks + 1) + idle(up)));
    lemma_run_append(k, idle(a), held(ticks + 1) + idle(up));
    lemma_run_append(k1, held(ticks + 1), idle(up));
    hold_repeat_count(k1, ticks);
    lemma_held_run(k1, ticks + 1);
    lemma_idle_from(run_key(k1, held(ticks + 1)), up);
    // Scan by scan, from the press edge on.
    assert forall|j: int| 0 <= j <= ticks implies #[trigger] tick_reports(keys0, grids, keymap, a + j, 20)
        == cell_reports(run_key(k1, held(j as nat)), true, code) by {
        let t = a + j;
        lemma_single_cell_tick(keys0, grids, keymap, i, t, 20);
        lemma_column_take(grids, i, t);
        assert(col.take(t) =~= idle(a) + held(j as nat));
        lemma_run_append(k, idle(a), held(j as nat));
        assert(cell(grids[t], i) == col[t]);
        assert(col[t]);
    }
    assert(held(0) =~= Seq::<bool>::empty());
    assert(run_key(k1, held(0)) == k1);
    assert(cell_reports(k1, true, code) =~= seq![key_report_spec(code)]);
    assert forall|j: int| 1 <= j <= ticks implies #[trigger] tick_reports(keys0, grids, keymap, a + j, 20)
        == if repeat_due((SCAN_INTERVAL_MS * j) as u64) {
        seq![key_report_spec(code)]
    } else {
        seq![]
    } by {
        assert(tick_reports(keys0, grids, keymap, a + j, 20) == cell_reports(run_key(k1, held(j as nat)), true, code));
        assert(key_emits(run_key(k1, held(j as nat)), true) == repeat_due((SCAN_INTERVAL_MS * j) as u64));
    }
}

proof fn lemma_cell_after_release(
    keys0: [[KeyState; 5]; 4],
    grids: Seq<[[bool; 5]; 4]>,
    i: int,
    j: int,
    t: int,
)
    requires
        0 <= j < t <= grids.len(),
        !cell(grids[j], i),
    ensures
        state_at(keys0, grids, i, t) == run_key(released_key(), column(grids.subrange(j + 1, t), i)),
{
    let col = column(grids.take(t), i);
    let pre = column(grids.take(j), i);
    let post = column(grids.subrange(j + 1, t), i);
    assert(col =~= pre + (seq![false] + post));
    lemma_run_append(cell(keys0, i), pre, seq![false] + post);
    lemma_run_append(run_key(cell(keys0, i), pre), seq![false], post);
    lemma_one_sample(run_key(cell(keys0, i), pre), false);
}

proof fn lemma_same_ticks(
    keys1: [[KeyState; 5]; 4],
    grids1: Seq<[[bool; 5]; 4]>,
    keys2: [[KeyState; 5]; 4],
    grids2: Seq<[[bool; 5]; 4]>,
    keymap: KeyMap,
    t: int,
    n: nat,
)
    requires
        n <= 20,
        0 <= t < grids1.len(),
        0 <= t < grids2.len(),
        grids1[t] == grids2[t],
        forall|i: int| 0 <= i < 20 ==> #[trigger] state_at(keys1, grids1, i, t) == state_at(keys2, grids2, i, t),
    ensures
        tick_reports(keys1, grids1, keymap, t, n) == tick_reports(keys2, grids2, keymap, t, n),
    decreases n,
{
    if n > 0 {
        lemma_same_ticks(keys1, grids1, keys2, grids2, keymap, t, (n - 1) as nat);
        assert(state_at(keys1, grids1, n - 1, t) == state_at(keys2, grids2, n - 1, t));
    }
}

/// A scan that finds every key up clears every hold time: two runs that
/// agree from such a scan `j` on send the same reports at every later scan,
/// whatever the keys did before `j` and however long they were held.
pub proof fn release_forgets_history(
    keys1: [[KeyState; 5]; 4],
    grids1: Seq<[[bool; 5]; 4]>,
    keys2: [[KeyState; 5]; 4],
    grids2: Seq<[[bool; 5]; 4]>,
    keymap: KeyMap,
    j: int,
)
    requires
        grids1.len() == grids2.len(),
        0 <= j < grids1.len(),
        forall|t: int| j <= t < grids1.len() ==> grids1[t] == grids2[t],
        forall|i: int| 0 <= i < 20 ==> !#[trigger] cell(grids1[j], i),
    ensures
        forall|t: int|
            j < t < grids1.len() ==> #[trigger] tick_reports(keys1, grids1, keymap, t, 20) == tick_reports(
                keys2,
                grids2,
                keymap,
                t,
                20,
            ),
{
    assert forall|t: int| j < t < grids1.len() implies #[trigger] tick_reports(keys1, grids1, keymap, t, 20)
        == tick_reports(keys2, grids2, keymap, t, 20) by {
        assert(grids1.subrange(j + 1, t) =~= grids2.subrange(j + 1, t));
        assert forall|i: int| 0 <= i < 20 implies #[trigger] state_at(keys1, grids1, i, t) == state_at(
            keys2,
            grids2,
            i,
            t,
        ) by {
            assert(grids1[j] == grids2[j]);
            lemma_cell_after_release(keys1, grids1, i, j, t);
            lemma_cell_after_release(keys2, grids2, i, j, t);
        }
        lemma_same_ticks(keys1, grids1, keys2, grids2, keymap, t, 20);
    }
}

/// One scan step of a single key: the new state, and whether a report is due.
pub fn step_key(k: KeyState, pressed: bool) -> (r: (KeyState, bool))
    ensures
        r.0 == key_next(k, pressed),
        r.1 == key_emits(k, pressed),
{
    if pressed {
        if !k.pressed {
            (KeyState { pressed: true, hold_time_ms: 0 }, true)
        } else {
            let hold = k.hold_time_ms.saturating_add(SCAN_INTERVAL_MS);
            let due = hold >= REPEAT_DELAY_MS && (hold - REPEAT_DELAY_MS) % REPEAT_INTERVAL_MS == 0;
            (KeyState { pressed: true, hold_time_ms: hold }, due)
        }
    } else {
        (KeyState { pressed: false, hold_time_ms: 0 }, false)
    }
}

/// Turns samples of the key matrix into key-down reports, with repeats for
/// held keys.
pub struct MatrixScanner {
    pub keymap: KeyMap,
    pub keys: [[KeyState; 5]; 4],
}

impl MatrixScanner {
    /// A scanner with every key up.
    pub fn new(keymap: KeyMap) -> (r: MatrixScanner)
        ensures
            r.keymap == keymap,
            forall|i: int| 0 <= i < 20 ==> #[trigger] cell(r.keys, i) == released_key(),
    {
        let up = KeyState { pressed: false, hold_time_ms: 0 };
        let keys = [[up; 5]; 4];
        assert forall|i: int| 0 <= i < 20 implies #[trigger] cell(keys, i) == released_key() by {
            assert(keys@[i / 5]@[i % 5] == up);
        }
        MatrixScanner { keymap, keys }
    }

    /// Scans each grid of `grids` in turn and returns every report due, in
    /// the order they are sent.
    pub fn scan_run(&mut self, grids: &Vec<[[bool; 5]; 4]>) -> (out: Vec<KeyboardReport>)
        ensures
            final(self).keymap == old(self).keymap,
            forall|i: int|
                0 <= i < 20 ==> #[trigger] cell(final(self).keys, i) == run_key(
                    cell(old(self).keys, i),
                    column(grids@, i),
                ),
            out@ == run_reports(old(self).keys, grids@, old(self).keymap, grids@.len()),
    {
        let ghost keys0 = self.keys;
        let mut out: Vec<KeyboardReport> = Vec::new();
        let mut t: usize = 0;
        while t < grids.len()
            invariant
                0 <= t <= grids@.len(),
                self.keymap == old(self).keymap,
                keys0 == old(self).keys,
                out@ == run_reports(keys0, grids@, self.keymap, t as nat),
                forall|i: int| 0 <= i < 20 ==> #[trigger] cell(self.keys, i) == state_at(keys0, grids@, i, t as int),
            decreases grids@.len() - t,
        {
            let ghost before = self.keys;
            proof {
                lemma_scan_is_tick(before, keys0, grids@, self.keymap, t as int, 20);
            }
            let mut tick = self.scan(&grids[t]);
            out.append(&mut tick);
            assert forall|i: int| 0 <= i < 20 implies #[trigger] cell(self.keys, i) == state_at(
                keys0,
                grids@,
                i,
                t + 1,
            ) by {
                lemma_state_step(keys0, grids@, i, t as int);
                assert(cell(before, i) == state_at(keys0, grids@, i, t as int));
            }
            t = t + 1;
        }
        assert(grids@.take(grids@.len() as int) =~= grids@);
        out
    }

    /// Takes one sample of the matrix (`sample[row][col]` is true where the
    /// key is down), updates every key and returns the reports due, cell by
    /// cell in row-major order.
    pub fn scan(&mut self, sample: &[[bool; 5]; 4]) -> (out: Vec<KeyboardReport>)
        ensures
            final(self).keymap == old(self).keymap,
            forall|i: int|
                0 <= i < 20 ==> #[trigger] cell(final(self).keys, i) == key_next(
                    cell(old(self).keys, i),
                    cell(*sample, i),
                ),
            out@ == scan_reports(old(self).keys, *sample, old(self).keymap, 20),
    {
        let ghost keys0 = self.keys;
        let mut out: Vec<KeyboardReport> = Vec::new();
        let mut i: usize = 0;
        while i < ROWS * COLS
            invariant
                0 <= i <= 20,
                self.keymap == old(self).keymap,
                keys0 == old(self).keys,
                out@ == scan_reports(keys0, *sample, self.keymap, i as nat),
                forall|j: int|
                    0 <= j < 20 ==> #[trigger] cell(self.keys, j) == if j < i {
                        key_next(cell(keys0, j), cell(*sample, j))
                    } else {
                        cell(keys0, j)
                    },
            decreases 20 - i,
        {
            let row = i / COLS;
            let col = i % COLS;
            assert(cell(self.keys, i as int) == cell(keys0, i as int));
            let ghost out0 = out@;
            let (next, emit) = step_key(self.keys[row][col], sample[row][col]);
            if emit {
                out.push(KeyboardReport::key(self.keymap.usage(row, col)));
            }
            assert(out@ == out0 + cell_reports(
                cell(keys0, i as int),
                cell(*sample, i as int),
                cell(self.keymap.codes, i as int),
            ));
            assert(scan_reports(keys0, *sample, self.keymap, (i + 1) as nat) == scan_reports(
                keys0,
                *sample,
                self.keymap,
                i as nat,
            ) + cell_reports(
                cell(keys0, i as int),
                cell(*sample, i as int),
                cell(self.keymap.codes, i as int),
            ));
            let ghost before = self.keys;
            let mut line = self.keys[row];
            line[col] = next;
            self.keys[row] = line;
            assert(self.keys@[row as int]@[col as int] == next);
            assert forall|j: int| 0 <= j < 20 implies #[trigger] cell(self.keys, j) == if j < i + 1 {
                key_next(cell(keys0, j), cell(*sample, j))
            } else {
                cell(keys0, j)
            } by {
                if j != i {
                    assert(j / 5 != i / 5 || j % 5 != i % 5);
                    if j / 5 == i / 5 {
                        assert(self.keys@[j / 5]@[j % 5] == line@[j % 5]);
                    } else {
                        assert(self.keys@[j / 5] == before@[j / 5]);
                    }
                    assert(cell(self.keys, j) == cell(before, j));
                }
            }
            i = i + 1;
        }
        out
    }
}

} // verus!
