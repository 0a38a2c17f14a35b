//! Timing-window ambiguity folder.
//!
//! A radar transmit/receive cycle repeats with a period (the pulse repetition
//! interval).  Timing windows whose end lies beyond one period alias onto the
//! displayed span; the folder computes how many periodic replicas are needed
//! so that every window's end stays inside the visible span, and emits every
//! replica of every window, each tagged with its replica index and a
//! disambiguated display label.
//!
//! Times are fixed-point integers in a unit the caller chooses (the rendering
//! layer uses a fixed number of ticks per microsecond).

use vstd::prelude::*;
use vstd::string::StringExecFns;
use crate::digits::dec_seq;
use crate::digits::append_dec;
use crate::fits_i64;
use crate::ceil_div;

verus! {

/// A named time interval on the one-dimensional timing diagram.
///
/// `height`, `dashed` and `color` are style data for the rendering layer;
/// `color` is an opaque token the folder carries through unchanged.
pub struct Window {
    pub name: String,
    pub start_time: i64,
    pub duration: i64,
    pub height: i64,
    pub dashed: bool,
    pub color: Option<u32>,
}

impl Window {
    /// End of the interval, as a mathematical integer.
    pub open spec fn spec_end(self) -> int {
        self.start_time + self.duration
    }

    /// Start of the interval.
    pub fn start(&self) -> (r: i64)
        ensures
            r == self.start_time,
    {
        self.start_time
    }

    /// End of the interval, `start_time + duration`.
    pub fn end(&self) -> (r: i64)
        requires
            fits_i64(self.spec_end()),
        ensures
            r == self.spec_end(),
    {
        self.start_time + self.duration
    }
}

impl Default for Window {
    /// A unit window at the origin with full height and default style.
    fn default() -> (w: Window)
        ensures
            w.name@ == "Untitled"@,
            w.start_time == 0,
            w.duration == 1,
            w.height == 1,
            !w.dashed,
            w.color is None,
    {
        Window {
            name: String::from_str("Untitled"),
            start_time: 0,
            duration: 1,
            height: 1,
            dashed: false,
            color: None,
        }
    }
}

/// One periodic replica of an input window, shifted by
/// `replica_index * period` and carrying its display label.
pub struct FoldedInstance {
    pub label: String,
    pub replica_index: u64,
    pub start_time: i64,
    pub duration: i64,
    pub height: i64,
    pub dashed: bool,
    pub color: Option<u32>,
}

/// Result of one folding call: the replica count, the visible span
/// `replica_count * period` that sizes the display axis, and all replicas of
/// all windows in input order.
pub struct FoldOutput {
    pub replica_count: i64,
    pub visible_span: i64,
    pub instances: Vec<FoldedInstance>,
}

/// The folder fails fast on a non-positive repetition period: the period is
/// used as a divisor.
#[derive(Clone, Copy, Debug, PartialEq, Eq, Structural)]
pub enum FoldError {
    InvalidPeriod,
}

/// Replica count after considering one more window end: left unchanged when
/// the end already lies inside the visible span, otherwise raised to one more
/// than the number of periods that cover the end.
pub open spec fn step_rc(end: int, rc: int, p: int) -> int {
    if end > rc * p {
        ceil_div(end, p) + 1
    } else {
        rc
    }
}

/// Replica count for a whole window sequence: starts at one and is updated by
/// every window in order.
pub open spec fn rc_of(ws: Seq<Window>, p: int) -> int
    decreases ws.len(),
{
    if ws.len() == 0 {
        1
    } else {
        step_rc(ws.last().spec_end(), rc_of(ws.drop_last(), p), p)
    }
}

/// Display label of replica `k` of a window: the window's own name for the
/// primary occurrence, otherwise the name with an ambiguity suffix.
pub open spec fn spec_label(name: Seq<char>, k: int) -> Seq<char> {
    if k == 0 {
        name
    } else {
        name + " (Ambiguity "@ + dec_seq(k as nat) + ")"@
    }
}

/// Replica `k` of window `w` carries the label of `k`, the start shifted by
/// `k` periods, and the window's other fields unchanged.
pub open spec fn spec_instance_ok(w: Window, p: int, k: int, inst: FoldedInstance) -> bool {
    &&& inst.label@ == spec_label(w.name@, k)
    &&& inst.replica_index == k
    &&& inst.start_time == w.start_time + k * p
    &&& inst.duration == w.duration
    &&& inst.height == w.height
    &&& inst.dashed == w.dashed
    &&& inst.color == w.color
}

/// Full description of a successful folding: the replica count follows the
/// update rule, the visible span is `replica_count` periods, and position
/// `i * replica_count + k` of the output holds replica `k` of window `i`, so
/// all replicas of a window stand together and windows keep their input
/// order.
pub open spec fn fold_post(ws: Seq<Window>, p: int, out: FoldOutput) -> bool {
    &&& out.replica_count == rc_of(ws, p)
    &&& out.visible_span == rc_of(ws, p) * p
    &&& out.instances@.len() == ws.len() * rc_of(ws, p)
    &&& forall|i: int, k: int|
        0 <= i < ws.len() && 0 <= k < rc_of(ws, p) ==> spec_instance_ok(
            ws[i],
            p,
            k,
            #[trigger] out.instances@[i * rc_of(ws, p) + k],
        )
}

/// The machine-size side conditions of a folding call: every window end, the
/// visible span and every shifted start fit in `i64`, and the output length
/// fits in `usize`.
pub open spec fn fold_fits(ws: Seq<Window>, p: int) -> bool {
    let rc = rc_of(ws, p);
    &&& forall|i: int| 0 <= i < ws.len() ==> fits_i64(#[trigger] ws[i].spec_end())
    &&& rc * p <= i64::MAX
    &&& forall|i: int, k: int|
        0 <= i < ws.len() && 0 <= k < rc ==> fits_i64(#[trigger] (ws[i].start_time + k * p))
    &&& ws.len() * rc <= usize::MAX
}

/// `ceil_div(a, b)` rounds up: it covers `a` and overshoots by less than one
/// divisor.
pub proof fn lemma_ceil_div_bounds(a: int, b: int)
    requires
        a > 0,
        b > 0,
    ensures
        a <= ceil_div(a, b) * b < a + b,
        ceil_div(a, b) >= 1,
{
    vstd::arithmetic::div_mod::lemma_fundamental_div_mod(a, b);
    assert(0 <= a % b < b) by {
        vstd::arithmetic::div_mod::lemma_mod_bound(a, b);
    }
    assert(a / b >= 0) by {
        vstd::arithmetic::div_mod::lemma_div_pos_is_pos(a, b);
    }
    assert(b * (a / b) == (a / b) * b) by (nonlinear_arith);
    assert((a / b + 1) * b == (a / b) * b + b) by (nonlinear_arith);
    if a % b == 0 {
        assert(ceil_div(a, b) * b == a);
    } else {
        assert(ceil_div(a, b) * b == a - a % b + b);
    }
    assert(ceil_div(a, b) >= 1) by {
        if a / b == 0 {
            assert(a == a % b);
        }
    }
}

/// One update step never lowers the replica count.
pub proof fn lemma_step_rc_ge(end: int, rc: int, p: int)
    requires
        p > 0,
        rc >= 1,
    ensures
        step_rc(end, rc, p) >= rc,
        end <= step_rc(end, rc, p) * p,
{
    if end > rc * p {
        lemma_ceil_div_bounds(end, p);
        let c = ceil_div(end, p);
        assert(c * p >= end > rc * p);
        assert(c > rc) by (nonlinear_arith)
            requires
                c * p > rc * p,
                p > 0,
        ;
        assert(end <= c * p <= (c + 1) * p) by (nonlinear_arith)
            requires
                p > 0,
                end <= c * p,
        ;
    } else {
        assert(rc * p > 0) by (nonlinear_arith)
            requires
                rc >= 1,
                p > 0,
        ;
    }
}

/// The replica count of any window sequence is at least one.
pub proof fn lemma_rc_of_ge_one(ws: Seq<Window>, p: int)
    requires
        p > 0,
    ensures
        rc_of(ws, p) >= 1,
    decreases ws.len(),
{
    if ws.len() > 0 {
        lemma_rc_of_ge_one(ws.drop_last(), p);
        lemma_step_rc_ge(ws.last().spec_end(), rc_of(ws.drop_last(), p), p);
    }
}

/// Builds the display label of replica `k` of a window named `name`.
fn make_label(name: &String, k: u64) -> (r: String)
    ensures
        r@ == spec_label(name@, k as int),
{
    if k == 0 {
        name.clone()
    } else {
        let mut s = name.clone();
        s.append(" (Ambiguity ");
        append_dec(&mut s, k);
        s.append(")");
        proof {
            assert(s@ =~= spec_label(name@, k as int));
        }
        s
    }
}

/// Folds a timing schedule into the visible span.
///
/// Fails fast with `InvalidPeriod` on a non-positive period.  Otherwise
/// returns the replica count demanded by the furthest window end, the visible
/// span of that many periods, and, for every window in input order, all of
/// its replicas in ascending replica order.
pub fn fold(windows: &Vec<Window>, period: i64) -> (r: Result<FoldOutput, FoldError>)
    requires
        period > 0 ==> fold_fits(windows@, period as int),
    ensures
        period <= 0 <==> r is Err,
        r matches Err(e) ==> e == FoldError::InvalidPeriod,
        r matches Ok(out) ==> fold_post(windows@, period as int, out),
{
    if period <= 0 {
        return Err(FoldError::InvalidPeriod);
    }
    let ghost ws = windows@;
    let ghost p = period as int;
    let ghost rcf = rc_of(ws, p);
    proof {
        lemma_rc_of_prefix(ws, p, ws.len() as int);
        assert(ws.take(ws.len() as int) =~= ws);
        assert(rcf <= rcf * p) by (nonlinear_arith)
            requires
                rcf >= 1,
                p >= 1,
        ;
    }
    let n = windows.len();

    // First pass: the replica count.
    let mut rc: i64 = 1;
    let mut idx: usize = 0;
    while idx < n
        invariant
            n == ws.len(),
            0 <= idx <= n,
            ws == windows@,
            p == period as int,
            period > 0,
            fold_fits(ws, p),
            rcf == rc_of(ws, p),
            rcf * p <= i64::MAX,
            rcf <= rcf * p,
            rc == rc_of(ws.take(idx as int), p),
        decreases n - idx,
    {
        proof {
            lemma_rc_of_prefix(ws, p, idx as int);
            lemma_rc_of_prefix(ws, p, idx as int + 1);
            assert(ws.take(idx as int + 1).drop_last() =~= ws.take(idx as int));
            assert(ws.take(idx as int + 1).last() == ws[idx as int]);
            assert(fits_i64(ws[idx as int].spec_end()));
            assert(rc * p <= rcf * p && 1 <= rc * p) by (nonlinear_arith)
                requires
                    1 <= rc <= rcf,
                    p >= 1,
            ;
        }
        let w = &windows[idx];
        let w_end = w.start_time + w.duration;
        let span = rc * period;
        if w_end > span {
            let ue = w_end as u64;
            let up = period as u64;
            let q = ue / up;
            let rem = ue % up;
            proof {
                assert(q == w_end as int / p && rem == w_end as int % p);
                assert(rc_of(ws.take(idx as int + 1), p) == ceil_div(w_end as int, p) + 1);
            }
            rc = (q + if rem != 0 { 1 } else { 0 } + 1) as i64;
        }
        idx += 1;
    }
    proof {
        assert(ws.take(n as int) =~= ws);
    }

    // Second pass: every replica of every window, windows in input order.
    let mut instances: Vec<FoldedInstance> = Vec::new();
    let mut i: usize = 0;
    while i < n
        invariant
            n == ws.len(),
            0 <= i <= n,
            ws == windows@,
            p == period as int,
            period > 0,
            fold_fits(ws, p),
            rc == rc_of(ws, p),
            rc * p <= i64::MAX,
            1 <= rc,
            instances@.len() == i * rc,
            forall|ii: int, k: int|
                0 <= ii < i && 0 <= k < rc ==> spec_instance_ok(
                    ws[ii],
                    p,
                    k,
                    #[trigger] instances@[ii * rc + k],
                ),
        decreases n - i,
    {
        let w = &windows[i];
        let mut k: i64 = 0;
        while k < rc
            invariant
                n == ws.len(),
                0 <= i < n,
                ws == windows@,
                p == period as int,
                period > 0,
                fold_fits(ws, p),
                rc == rc_of(ws, p),
                rc * p <= i64::MAX,
                1 <= rc,
                0 <= k <= rc,
                *w == ws[i as int],
                instances@.len() == i * rc + k,
                forall|ii: int, kk: int|
                    0 <= ii < i && 0 <= kk < rc ==> spec_instance_ok(
                        ws[ii],
                        p,
                        kk,
                        #[trigger] instances@[ii * rc + kk],
                    ),
                forall|kk: int|
                    0 <= kk < k ==> spec_instance_ok(
                        ws[i as int],
                        p,
                        kk,
                        #[trigger] instances@[i * rc + kk],
                    ),
            decreases rc - k,
        {
            proof {
                assert(0 <= k * p <= rc * p) by (nonlinear_arith)
                    requires
                        0 <= k < rc,
                        p >= 1,
                ;
                assert(fits_i64(ws[i as int].start_time + k * p));
                assert(i * rc + k + 1 <= ws.len() * rc) by (nonlinear_arith)
                    requires
                        0 <= i < ws.len(),
                        0 <= k < rc,
                ;
            }
            let label = make_label(&w.name, k as u64);
            let shift = k * period;
            let start = w.start_time + shift;
            instances.push(
                FoldedInstance {
                    label,
                    replica_index: k as u64,
                    start_time: start,
                    duration: w.duration,
                    height: w.height,
                    dashed: w.dashed,
                    color: w.color,
                },
            );
            proof {
                assert forall|ii: int, kk: int|
                    0 <= ii < i as int && 0 <= kk < rc as int implies #[trigger] (ii * rc + kk)
                    < i as int * rc by {
                    assert(ii * rc + kk < i as int * rc) by (nonlinear_arith)
                        requires
                            0 <= ii < i as int,
                            0 <= kk < rc as int,
                    ;
                }
            }
            k += 1;
        }
        proof {
            assert(i * rc + rc == (i + 1) * rc) by (nonlinear_arith);
        }
        i += 1;
    }
    let visible_span = rc * period;
    Ok(FoldOutput { replica_count: rc, visible_span, instances })
}

/// Extending the window sequence never lowers the replica count, so the count
/// reached after any prefix is at most the final one.
pub proof fn lemma_rc_of_prefix(ws: Seq<Window>, p: int, n: int)
    requires
        p > 0,
        0 <= n <= ws.len(),
    ensures
        1 <= rc_of(ws.take(n), p) <= rc_of(ws, p),
    decreases ws.len() - n,
{
    lemma_rc_of_ge_one(ws.take(n), p);
    if n == ws.len() {
        assert(ws.take(n) =~= ws);
    } else {
        lemma_rc_of_prefix(ws, p, n + 1);
        assert(ws.take(n + 1).drop_last() =~= ws.take(n));
        assert(ws.take(n + 1).last() == ws[n]);
        lemma_step_rc_ge(ws[n].spec_end(), rc_of(ws.take(n), p), p);
    }
}

/// Coverage: with a positive period and windows that do not end before the
/// time origin, every window's end lies inside the visible span
/// `[0, replica_count * period]`.
pub proof fn lemma_fold_coverage(ws: Seq<Window>, p: int)
    requires
        p > 0,
        forall|i: int| 0 <= i < ws.len() ==> #[trigger] ws[i].spec_end() >= 0,
    ensures
        forall|i: int| 0 <= i < ws.len() ==> 0 <= #[trigger] ws[i].spec_end() <= rc_of(ws, p) * p,
    decreases ws.len(),
{
    if ws.len() > 0 {
        let prefix = ws.drop_last();
        lemma_fold_coverage(prefix, p);
        lemma_rc_of_ge_one(prefix, p);
        lemma_step_rc_ge(ws.last().spec_end(), rc_of(prefix, p), p);
        assert(rc_of(prefix, p) * p <= rc_of(ws, p) * p) by (nonlinear_arith)
            requires
                rc_of(prefix, p) <= rc_of(ws, p),
                p > 0,
        ;
        assert forall|i: int| 0 <= i < ws.len() implies 0 <= #[trigger] ws[i].spec_end() <= rc_of(
            ws,
            p,
        ) * p by {
            if i < ws.len() - 1 {
                assert(ws[i] == prefix[i]);
                assert(prefix[i].spec_end() <= rc_of(prefix, p) * p);
            } else {
                assert(ws[i] == ws.last());
            }
        }
    }
}

/// Whether two folded instances carry the same label text and the same
/// scalar fields.
pub open spec fn instances_agree(a: FoldedInstance, b: FoldedInstance) -> bool {
    &&& a.label@ == b.label@
    &&& a.replica_index == b.replica_index
    &&& a.start_time == b.start_time
    &&& a.duration == b.duration
    &&& a.height == b.height
    &&& a.dashed == b.dashed
    &&& a.color == b.color
}

/// Determinism: any two successful foldings of the same schedule with the
/// same period agree in every observable field, so folding the same input
/// twice yields identical output, in order and in values.
pub proof fn lemma_fold_deterministic(ws: Seq<Window>, p: int, out1: FoldOutput, out2: FoldOutput)
    requires
        p > 0,
        fold_post(ws, p, out1),
        fold_post(ws, p, out2),
    ensures
        out1.replica_count == out2.replica_count,
        out1.visible_span == out2.visible_span,
        out1.instances@.len() == out2.instances@.len(),
        forall|j: int|
            0 <= j < out1.instances@.len() ==> instances_agree(
                #[trigger] out1.instances@[j],
                out2.instances@[j],
            ),
{
    let rc = rc_of(ws, p);
    lemma_rc_of_ge_one(ws, p);
    assert forall|j: int| 0 <= j < out1.instances@.len() implies instances_agree(
        #[trigger] out1.instances@[j],
        out2.instances@[j],
    ) by {
        let i = j / rc;
        let k = j % rc;
        vstd::arithmetic::div_mod::lemma_fundamental_div_mod(j, rc);
        vstd::arithmetic::div_mod::lemma_mod_bound(j, rc);
        assert(0 <= i) by {
            vstd::arithmetic::div_mod::lemma_div_pos_is_pos(j, rc);
        }
        assert(i * rc == rc * i) by (nonlinear_arith);
        assert(i < ws.len()) by (nonlinear_arith)
            requires
                rc * i + k == j,
                j < ws.len() * rc,
                0 <= k < rc,
                0 <= i,
                rc >= 1,
        ;
        assert(spec_instance_ok(ws[i], p, k, out1.instances@[i * rc + k]));
        assert(spec_instance_ok(ws[i], p, k, out2.instances@[i * rc + k]));
    }
}

/// Monotonicity at the end of the schedule: raising the start or the
/// duration of the last window, for a fixed period, can only raise the
/// replica count or leave it unchanged, never lower it.
pub proof fn lemma_replica_count_monotone_last(ws: Seq<Window>, w1: Window, w2: Window, p: int)
    requires
        p > 0,
        w1.start_time <= w2.start_time,
        w1.duration <= w2.duration,
    ensures
        rc_of(ws.push(w1), p) <= rc_of(ws.push(w2), p),
{
    let rc0 = rc_of(ws, p);
    lemma_rc_of_ge_one(ws, p);
    assert(ws.push(w1).drop_last() =~= ws);
    assert(ws.push(w2).drop_last() =~= ws);
    assert(ws.push(w1).last() == w1);
    assert(ws.push(w2).last() == w2);
    let e1 = w1.spec_end();
    let e2 = w2.spec_end();
    lemma_step_rc_ge(e1, rc0, p);
    lemma_step_rc_ge(e2, rc0, p);
    if e1 > rc0 * p {
        assert(rc0 * p >= p) by (nonlinear_arith)
            requires
                rc0 >= 1,
                p > 0,
        ;
        lemma_ceil_div_bounds(e1, p);
        lemma_ceil_div_bounds(e2, p);
        assert(ceil_div(e1, p) <= ceil_div(e2, p)) by (nonlinear_arith)
            requires
                e1 <= ceil_div(e1, p) * p < e1 + p,
                e2 <= ceil_div(e2, p) * p < e2 + p,
                e1 <= e2,
                p > 0,
        ;
    }
}

} // verus!
