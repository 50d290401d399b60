//! Legality laws of the placement schedule.
//!
//! These proofs tie witness construction to gate evaluation: an honest
//! witness for a valid placement satisfies every constraint, and the
//! characteristic cheats — wrong bit count, a run crossing a row boundary,
//! both orientations claimed at once — are each caught by a named clause.

use vstd::prelude::*;

use crate::binary::bits_value;
use crate::binary::BinaryValue;
use crate::chip::ConstraintKind;
use crate::chip::ConstraintViolation;
use crate::chip::finalization_violations;
use crate::chip::le_value;
use crate::chip::orientation_violations;
use crate::chip::placement_satisfied;
use crate::chip::placement_violations;
use crate::chip::row_violations;
use crate::chip::spec_bit_step;
use crate::chip::spec_window_step;
use crate::chip::steps_violations;
use crate::gadget::GadgetModel;
use crate::gadget::boolean_bits;
use crate::gadget::lemma_window_bit_count_full;
use crate::gadget::prefix_bit_count;
use crate::gadget::prefix_window_count;
use crate::gadget::window_in_row;
use crate::gadget::window_increment;
use crate::ship::ShipPlacement;
use vstd::arithmetic::power2::pow2;

verus! {

/// The violation list holds an entry for the given clause at the given row.
pub open spec fn has_violation(vs: Seq<ConstraintViolation>, kind: ConstraintKind, row: int) -> bool {
    exists|j: int| 0 <= j < vs.len() && vs[j].kind == kind && vs[j].row == row
}

/// The violation list holds an entry for the given clause at some row.
pub open spec fn has_kind(vs: Seq<ConstraintViolation>, kind: ConstraintKind) -> bool {
    exists|j: int| 0 <= j < vs.len() && vs[j].kind == kind
}

proof fn lemma_has_violation_concat(
    a: Seq<ConstraintViolation>,
    b: Seq<ConstraintViolation>,
    kind: ConstraintKind,
    row: int,
)
    ensures
        has_violation(a + b, kind, row) <==> (has_violation(a, kind, row) || has_violation(
            b,
            kind,
            row,
        )),
{
    if has_violation(a, kind, row) {
        let j = choose|j: int| 0 <= j < a.len() && a[j].kind == kind && a[j].row == row;
        assert((a + b)[j] == a[j]);
    }
    if has_violation(b, kind, row) {
        let j = choose|j: int| 0 <= j < b.len() && b[j].kind == kind && b[j].row == row;
        assert((a + b)[a.len() + j] == b[j]);
    }
    if has_violation(a + b, kind, row) {
        let j = choose|j: int|
            0 <= j < (a + b).len() && (a + b)[j].kind == kind && (a + b)[j].row == row;
        if j < a.len() {
            assert((a + b)[j] == a[j]);
        } else {
            assert((a + b)[j] == b[j - a.len()]);
        }
    }
}

proof fn lemma_has_kind_concat(
    a: Seq<ConstraintViolation>,
    b: Seq<ConstraintViolation>,
    kind: ConstraintKind,
)
    ensures
        has_kind(a + b, kind) <==> (has_kind(a, kind) || has_kind(b, kind)),
{
    if has_kind(a, kind) {
        let j = choose|j: int| 0 <= j < a.len() && a[j].kind == kind;
        assert((a + b)[j] == a[j]);
    }
    if has_kind(b, kind) {
        let j = choose|j: int| 0 <= j < b.len() && b[j].kind == kind;
        assert((a + b)[a.len() + j] == b[j]);
    }
    if has_kind(a + b, kind) {
        let j = choose|j: int| 0 <= j < (a + b).len() && (a + b)[j].kind == kind;
        if j < a.len() {
            assert((a + b)[j] == a[j]);
        } else {
            assert((a + b)[j] == b[j - a.len()]);
        }
    }
}

/// A weighted bit-cell column composes to the same value as the bool
/// sequence it was read from.
proof fn lemma_le_value_is_bits_value(cells: Seq<u64>, bits: Seq<bool>, n: int)
    requires
        0 <= n <= cells.len(),
        n <= bits.len(),
        forall|i: int|
            0 <= i < n ==> cells[i] == (if bits[i] {
                1u64
            } else {
                0u64
            }),
    ensures
        le_value(cells, n) == bits_value(bits.take(n)),
    decreases n,
{
    if n > 0 {
        lemma_le_value_is_bits_value(cells, bits, n - 1);
        assert(bits.take(n).drop_last() =~= bits.take(n - 1));
        assert(bits.take(n).last() == bits[n - 1]);
        vstd::arithmetic::mul::lemma_mul_basics(pow2((n - 1) as nat) as int);
    }
}

/// Clear bits above position `n` contribute nothing to the weighted value.
proof fn lemma_bits_value_zero_tail(bits: Seq<bool>, n: int, k: int)
    requires
        0 <= n <= k <= bits.len(),
        forall|i: int| n <= i < k ==> !bits[i],
    ensures
        bits_value(bits.take(k)) == bits_value(bits.take(n)),
    decreases k - n,
{
    if k > n {
        assert(bits.take(k).drop_last() =~= bits.take(k - 1));
        assert(!bits.take(k).last());
        lemma_bits_value_zero_tail(bits, n, k - 1);
    }
}

/// The low 128 bits of a commitment compose to the same value as its 100
/// decomposed bit cells, provided no bit at or above the board size is set:
/// the decimal the host commits is exactly what the decomposition binds.
pub proof fn lemma_commitment_composes(commitment: BinaryValue, cells: Seq<u64>)
    requires
        cells.len() == 100,
        forall|i: int|
            0 <= i < 100 ==> cells[i] == (if commitment@[i] {
                1u64
            } else {
                0u64
            }),
        forall|i: int| 100 <= i < 256 ==> !commitment@[i],
    ensures
        bits_value(commitment@.take(128)) == le_value(cells, 100),
{
    lemma_le_value_is_bits_value(cells, commitment@, 100);
    lemma_bits_value_zero_tail(commitment@, 100, 128);
}

/// The weighted sum of boolean cells is nonnegative and below `2^n`.
pub proof fn lemma_le_value_bound(bits: Seq<u64>, n: int)
    requires
        boolean_bits(bits),
        0 <= n <= bits.len(),
    ensures
        0 <= le_value(bits, n) < pow2(n as nat),
    decreases n,
{
    vstd::arithmetic::power2::lemma2_to64();
    if n == 0 {
    } else {
        lemma_le_value_bound(bits, n - 1);
        vstd::arithmetic::power2::lemma_pow2_unfold(n as nat);
        assert(bits[n - 1] == 0 || bits[n - 1] == 1);
    }
}

/// On a bit column holding one run of `length` set cells starting at
/// `start`, the prefix bit count climbs from 0 to `length` across the run.
proof fn lemma_run_prefix_count(bits: Seq<u64>, start: int, length: int, n: int)
    requires
        bits.len() == 100,
        0 <= start,
        start + length <= 100,
        0 <= length,
        forall|i: int|
            0 <= i < 100 ==> bits[i] == (if start <= i < start + length {
                1u64
            } else {
                0u64
            }),
        0 <= n <= 100,
    ensures
        prefix_bit_count(bits, n) == (if n <= start {
            0int
        } else if n < start + length {
            n - start
        } else {
            length
        }),
    decreases n,
{
    if n > 0 {
        lemma_run_prefix_count(bits, start, length, n - 1);
    }
}

/// On a run column, only the run's own start cell can contribute to the
/// full-window running sum, and it does so only when its window stays
/// inside a row.
proof fn lemma_run_window_increment(bits: Seq<u64>, start: int, length: int, t: int)
    requires
        bits.len() == 100,
        0 <= start,
        start + length <= 100,
        1 <= length,
        forall|i: int|
            0 <= i < 100 ==> bits[i] == (if start <= i < start + length {
                1u64
            } else {
                0u64
            }),
        0 <= t < 100,
    ensures
        window_increment(bits, t, length) == (if t == start && window_in_row(start, length) {
            1int
        } else {
            0int
        }),
{
    if window_in_row(t, length) {
        assert(t + length <= 100) by (nonlinear_arith)
            requires
                0 <= t < 100,
                t % 10 + length < 10,
        ;
        if t < start {
            assert(bits[t] == 0);
        } else if t > start {
            assert(bits[t + length - 1] == 0);
        }
    }
}

/// On a run column, the full-window running sum ends at 1 when the run
/// stays inside a row, and at 0 when it would cross a row boundary.
proof fn lemma_run_prefix_window_count(bits: Seq<u64>, start: int, length: int, n: int)
    requires
        bits.len() == 100,
        0 <= start < 100,
        start + length <= 100,
        1 <= length,
        forall|i: int|
            0 <= i < 100 ==> bits[i] == (if start <= i < start + length {
                1u64
            } else {
                0u64
            }),
        0 <= n <= 100,
    ensures
        prefix_window_count(bits, n, length) == (if window_in_row(start, length) && n > start {
            1int
        } else {
            0int
        }),
    decreases n,
{
    if n > 0 {
        lemma_run_prefix_window_count(bits, start, length, n - 1);
        lemma_run_window_increment(bits, start, length, n - 1);
    }
}

/// When every row's clauses hold, the row schedule reports nothing.
proof fn lemma_steps_empty(m: GadgetModel, length: int, n: int)
    requires
        forall|i: int|
            1 <= i <= n ==> (spec_bit_step(m, i) is None && spec_window_step(m, length, i) is None),
    ensures
        steps_violations(m, length, n).len() == 0,
    decreases n,
{
    if n > 0 {
        lemma_steps_empty(m, length, n - 1);
    }
}

/// Honest traces satisfy every per-row clause of the schedule.
proof fn lemma_consistent_rows_hold(m: GadgetModel, length: int)
    requires
        m.well_formed(),
        0 <= length,
        m.traces_consistent(length),
    ensures
        forall|i: int|
            1 <= i <= 100 ==> (spec_bit_step(m, i) is None && spec_window_step(m, length, i)
                is None),
{
    assert(prefix_bit_count(m.bits, 0) == 0);
    assert(prefix_window_count(m.bits, 0, length) == 0);
    assert forall|i: int|
        1 <= i <= 100 implies (spec_bit_step(m, i) is None && spec_window_step(m, length, i)
        is None) by {
        assert(m.bit_sum[i - 1] == prefix_bit_count(m.bits, i));
        if i > 1 {
            assert(m.bit_sum[i - 2] == prefix_bit_count(m.bits, i - 1));
            assert(m.full_window_sum[i - 2] == prefix_window_count(m.bits, i - 1, length));
        }
        assert(m.full_window_sum[i - 1] == prefix_window_count(m.bits, i, length));
        if window_in_row(i - 1, length) {
            assert(i - 1 + length <= 100) by (nonlinear_arith)
                requires
                    1 <= i <= 100,
                    (i - 1) % 10 + length < 10,
                    0 <= length,
            ;
            lemma_window_bit_count_full(m.bits, i - 1, length);
        }
    }
}

/// Validity: the honest witness of every valid placement, bound to its own
/// commitment under exactly one orientation, satisfies every constraint of
/// the schedule.
pub proof fn lemma_valid_placement_satisfied(
    ship: ShipPlacement,
    m: GadgetModel,
    horizontal: u128,
    vertical: u128,
)
    requires
        ship.valid(),
        m.well_formed(),
        forall|i: int|
            0 <= i < 100 ==> m.bits[i] == (if ship.ship_bit(i) {
                1u64
            } else {
                0u64
            }),
        m.traces_consistent(ship.length as int),
        horizontal + vertical == le_value(m.bits, 100),
        horizontal == 0 || vertical == 0,
    ensures
        placement_satisfied(horizontal, vertical, m, ship.length as int),
{
    let length = ship.length as int;
    let start = ship.start_index();
    ship.lemma_start_in_row();
    lemma_le_value_bound(m.bits, 100);
    // The orientation gate and the decomposition binding hold.
    assert(orientation_violations(
        (horizontal + vertical) as u128,
        horizontal,
        vertical,
    ).len() == 0);
    // Every per-row clause holds.
    lemma_consistent_rows_hold(m, length);
    lemma_steps_empty(m, length, 100);
    // The finalization clauses hold: the run contributes exactly `length`
    // set bits and exactly one full in-row window.
    lemma_run_prefix_count(m.bits, start, length, 100);
    lemma_run_prefix_window_count(m.bits, start, length, 100);
    assert(m.bit_sum[99] == prefix_bit_count(m.bits, 100));
    assert(m.full_window_sum[99] == prefix_window_count(m.bits, 100, length));
    assert(finalization_violations(m.bit_sum[99], m.full_window_sum[99], length).len() == 0);
}

/// Count mismatch: when the bit column holds a number of set cells other
/// than the configured length, the schedule reports a bit-count step
/// violation or the finalization bit-count clause at the last row.
pub proof fn lemma_count_mismatch(
    horizontal: u128,
    vertical: u128,
    m: GadgetModel,
    length: usize,
)
    requires
        m.well_formed(),
        prefix_bit_count(m.bits, 100) != length,
    ensures
        has_kind(
            placement_violations(horizontal, vertical, m, length as int),
            ConstraintKind::BitCountStep,
        ) || has_violation(
            placement_violations(horizontal, vertical, m, length as int),
            ConstraintKind::FinalBitCount,
            100,
        ),
{
    let l = length as int;
    let vs = placement_violations(horizontal, vertical, m, l);
    if exists|i: int| 1 <= i <= 100 && spec_bit_step(m, i) is Some {
        let i = choose|i: int| 1 <= i <= 100 && spec_bit_step(m, i) is Some;
        lemma_steps_contain_bit_step(m, l, 100, i);
        lemma_lift_steps(horizontal, vertical, m, l, ConstraintKind::BitCountStep);
    } else {
        assert forall|i: int| 1 <= i <= 100 implies m.bit_sum[i - 1] == prefix_bit_count(
            m.bits,
            i,
        ) by {
            lemma_bit_steps_determine_trace(m, i);
        }
        assert(m.bit_sum[99] == prefix_bit_count(m.bits, 100));
        let fin = finalization_violations(m.bit_sum[99], m.full_window_sum[99], l);
        assert(fin[0].kind == ConstraintKind::FinalBitCount && fin[0].row == 100);
        assert(has_violation(fin, ConstraintKind::FinalBitCount, 100));
        lemma_lift_finalization(horizontal, vertical, m, l, ConstraintKind::FinalBitCount, 100);
    }
}

/// Count mismatch at the last row: when the bit-count trace is the honest
/// running sum and the true bit count differs from the configured length,
/// the finalization bit-count clause itself is violated at the last row.
pub proof fn lemma_count_mismatch_final_row(
    horizontal: u128,
    vertical: u128,
    m: GadgetModel,
    length: usize,
)
    requires
        m.well_formed(),
        forall|i: int| 0 <= i < 100 ==> m.bit_sum[i] == prefix_bit_count(m.bits, i + 1),
        prefix_bit_count(m.bits, 100) != length,
    ensures
        has_violation(
            placement_violations(horizontal, vertical, m, length as int),
            ConstraintKind::FinalBitCount,
            100,
        ),
{
    let l = length as int;
    assert(m.bit_sum[99] == prefix_bit_count(m.bits, 100));
    let fin = finalization_violations(m.bit_sum[99], m.full_window_sum[99], l);
    assert(fin[0].kind == ConstraintKind::FinalBitCount && fin[0].row == 100);
    assert(has_violation(fin, ConstraintKind::FinalBitCount, 100));
    lemma_lift_finalization(horizontal, vertical, m, l, ConstraintKind::FinalBitCount, 100);
}

/// When no bit-count step clause fails through row `n`, the bit-count trace
/// is forced to the honest prefix count.
proof fn lemma_bit_steps_determine_trace(m: GadgetModel, n: int)
    requires
        m.well_formed(),
        1 <= n <= 100,
        forall|i: int| 1 <= i <= 100 ==> spec_bit_step(m, i) is None,
    ensures
        m.bit_sum[n - 1] == prefix_bit_count(m.bits, n),
    decreases n,
{
    assert(spec_bit_step(m, n) is None);
    assert(prefix_bit_count(m.bits, 0) == 0);
    if n > 1 {
        lemma_bit_steps_determine_trace(m, n - 1);
    }
}

/// A failing bit-count step clause at row `i` appears in the row schedule.
proof fn lemma_steps_contain_bit_step(m: GadgetModel, length: int, n: int, i: int)
    requires
        1 <= i <= n,
        spec_bit_step(m, i) is Some,
    ensures
        has_kind(steps_violations(m, length, n), ConstraintKind::BitCountStep),
    decreases n,
{
    if i == n {
        let row = row_violations(m, length, n);
        assert(row[0].kind == ConstraintKind::BitCountStep);
        assert(has_kind(row, ConstraintKind::BitCountStep));
        lemma_has_kind_concat(
            steps_violations(m, length, n - 1),
            row,
            ConstraintKind::BitCountStep,
        );
    } else {
        lemma_steps_contain_bit_step(m, length, n - 1, i);
        lemma_has_kind_concat(
            steps_violations(m, length, n - 1),
            row_violations(m, length, n),
            ConstraintKind::BitCountStep,
        );
    }
}

/// Lift a clause found in the row schedule into the whole schedule.
proof fn lemma_lift_steps(
    horizontal: u128,
    vertical: u128,
    m: GadgetModel,
    length: int,
    kind: ConstraintKind,
)
    requires
        has_kind(steps_violations(m, length, 100), kind),
    ensures
        has_kind(placement_violations(horizontal, vertical, m, length), kind),
{
    let sum = (horizontal + vertical) as u128;
    let a = orientation_violations(sum, horizontal, vertical);
    let b = crate::chip::decomposition_violations(sum, m.bits);
    let c = steps_violations(m, length, 100);
    let d = finalization_violations(m.bit_sum[99], m.full_window_sum[99], length);
    lemma_has_kind_concat(a, b, kind);
    lemma_has_kind_concat(a + b, c, kind);
    lemma_has_kind_concat(a + b + c, d, kind);
}

/// Lift a clause found among the finalization clauses into the whole
/// schedule.
proof fn lemma_lift_finalization(
    horizontal: u128,
    vertical: u128,
    m: GadgetModel,
    length: int,
    kind: ConstraintKind,
    row: int,
)
    requires
        has_violation(
            finalization_violations(m.bit_sum[99], m.full_window_sum[99], length),
            kind,
            row,
        ),
    ensures
        has_violation(placement_violations(horizontal, vertical, m, length), kind, row),
{
    let sum = (horizontal + vertical) as u128;
    let a = orientation_violations(sum, horizontal, vertical);
    let b = crate::chip::decomposition_violations(sum, m.bits);
    let c = steps_violations(m, length, 100);
    let d = finalization_violations(m.bit_sum[99], m.full_window_sum[99], length);
    lemma_has_violation_concat(a, b, kind, row);
    lemma_has_violation_concat(a + b, c, kind, row);
    lemma_has_violation_concat(a + b + c, d, kind, row);
}

/// Window miscount: a witness encoding a run that crosses a row boundary,
/// with honest full-window traces, ends its full-window running sum at 0,
/// and the schedule reports the finalization window clause at the last row.
pub proof fn lemma_window_miscount(
    horizontal: u128,
    vertical: u128,
    m: GadgetModel,
    start: int,
    length: usize,
)
    requires
        m.well_formed(),
        1 <= length,
        0 <= start < 100,
        start + length <= 100,
        start % 10 + length >= 10,
        forall|i: int|
            0 <= i < 100 ==> m.bits[i] == (if start <= i < start + length {
                1u64
            } else {
                0u64
            }),
        forall|i: int|
            0 <= i < 100 ==> m.full_window_sum[i] == prefix_window_count(
                m.bits,
                i + 1,
                length as int,
            ),
    ensures
        m.full_window_sum[99] == 0,
        has_violation(
            placement_violations(horizontal, vertical, m, length as int),
            ConstraintKind::FinalWindowCount,
            100,
        ),
{
    let l = length as int;
    lemma_run_prefix_window_count(m.bits, start, l, 100);
    assert(m.full_window_sum[99] == prefix_window_count(m.bits, 100, l));
    let fin = finalization_violations(m.bit_sum[99], m.full_window_sum[99], l);
    let tail = (if m.full_window_sum[99] == 1 {
        Seq::<ConstraintViolation>::empty()
    } else {
        seq![
            crate::chip::viol(
                ConstraintKind::FinalWindowCount,
                100,
                m.full_window_sum[99] as int,
                1,
                0,
            ),
        ]
    });
    assert(fin[fin.len() - 1] == tail[0]);
    assert(has_violation(fin, ConstraintKind::FinalWindowCount, 100));
    lemma_lift_finalization(horizontal, vertical, m, l, ConstraintKind::FinalWindowCount, 100);
}

/// Orientation exclusivity: when both orientation commitments are nonzero,
/// the orientation gate's exclusivity clause is violated at row 0 of its
/// region.
pub proof fn lemma_orientation_exclusivity(
    horizontal: u128,
    vertical: u128,
    m: GadgetModel,
    length: usize,
)
    requires
        horizontal != 0,
        vertical != 0,
    ensures
        has_violation(
            placement_violations(horizontal, vertical, m, length as int),
            ConstraintKind::OrientationExclusive,
            0,
        ),
{
    let l = length as int;
    let sum = (horizontal + vertical) as u128;
    let a = orientation_violations(sum, horizontal, vertical);
    assert(a[0].kind == ConstraintKind::OrientationExclusive && a[0].row == 0);
    assert(has_violation(a, ConstraintKind::OrientationExclusive, 0));
    let b = crate::chip::decomposition_violations(sum, m.bits);
    let c = steps_violations(m, l, 100);
    let d = finalization_violations(m.bit_sum[99], m.full_window_sum[99], l);
    lemma_has_violation_concat(a, b, ConstraintKind::OrientationExclusive, 0);
    lemma_has_violation_concat(a + b, c, ConstraintKind::OrientationExclusive, 0);
    lemma_has_violation_concat(a + b + c, d, ConstraintKind::OrientationExclusive, 0);
}

} // verus!
