//! Gate semantics of the placement legality circuit.
//!
//! The circuit arithmetizes two predicates over a 100-cell bit decomposition:
//! "exactly `ship_length` cells are set" and "exactly one in-row window of
//! `ship_length` consecutive cells is entirely set". Each gate is a
//! polynomial identity enabled per row; this module states each gate's
//! meaning over plain integers and evaluates the whole constraint schedule
//! on a witness, reporting every violated constraint with its gate, row and
//! the offending cell values. Acceptance is binary: a witness is accepted
//! exactly when no constraint is violated.

use vstd::prelude::*;

use vstd::arithmetic::power2::pow2;
use vstd::arithmetic::power2::lemma_pow2_strictly_increases;
use vstd::arithmetic::power2::lemma_pow2_unfold;

use crate::gadget::GadgetModel;
use crate::gadget::PlacementBits;
use crate::gadget::PlacementGadget;
use crate::gadget::PlacementState;
use crate::gadget::boolean_bits;
use crate::gadget::window_bit_count;
use crate::gadget::window_in_row;
use crate::gadget::window_sum;

verus! {

/// The constraint clauses that a witness can break.
#[derive(Clone, Copy, Debug, PartialEq, Eq, Structural)]
pub enum ConstraintKind {
    /// Orientation gate: at most one of the two orientation commitments is
    /// nonzero.
    OrientationExclusive,
    /// Orientation gate: the bound sum equals horizontal plus vertical.
    OrientationSum,
    /// Bit decomposition: the weighted bit sum equals the committed value.
    Decomposition,
    /// Bit-count running sum: this row's count is the previous count plus
    /// this row's bit.
    BitCountStep,
    /// Full-window running sum: this row's count is the previous count plus
    /// the exact-match indicator of the window's bit sum.
    WindowStep,
    /// Carry-forward: where the window would cross a row boundary, this
    /// row's count equals the previous count.
    WindowCarry,
    /// Finalization: the last bit count equals the ship length.
    FinalBitCount,
    /// Finalization: the last full-window count equals one.
    FinalWindowCount,
}

impl ConstraintKind {
    /// The label of the violated gate clause.
    pub open spec fn spec_gate_name(self) -> Seq<char> {
        match self {
            ConstraintKind::OrientationExclusive => "either horizontal or vertical is zero"@,
            ConstraintKind::OrientationSum => "horizontal plus vertical equals sum"@,
            ConstraintKind::Decomposition => "bit decomposition composes to sum"@,
            ConstraintKind::BitCountStep => "bit count running sum"@,
            ConstraintKind::WindowStep => "full window running sum"@,
            ConstraintKind::WindowCarry => "carry forward full window running sum"@,
            ConstraintKind::FinalBitCount => "placed ship of correct length"@,
            ConstraintKind::FinalWindowCount => "one full bit window"@,
        }
    }

    /// The label of the violated gate clause.
    pub fn gate_name(&self) -> (r: &'static str)
        ensures
            r@ == self.spec_gate_name(),
    {
        match self {
            ConstraintKind::OrientationExclusive => "either horizontal or vertical is zero",
            ConstraintKind::OrientationSum => "horizontal plus vertical equals sum",
            ConstraintKind::Decomposition => "bit decomposition composes to sum",
            ConstraintKind::BitCountStep => "bit count running sum",
            ConstraintKind::WindowStep => "full window running sum",
            ConstraintKind::WindowCarry => "carry forward full window running sum",
            ConstraintKind::FinalBitCount => "placed ship of correct length",
            ConstraintKind::FinalWindowCount => "one full bit window",
        }
    }
}

/// The offending cell values of one violated clause, in the order the
/// clause reads them; unused positions hold 0.
#[derive(Clone, Copy, Debug, PartialEq, Eq, Structural)]
pub struct CellValues(pub u128, pub u128, pub u128);

/// One violated constraint: the clause, the region row it failed on, and the
/// cell values that witnessed the failure.
#[derive(Clone, Copy, Debug, PartialEq, Eq, Structural)]
pub struct ConstraintViolation {
    /// The violated gate clause.
    pub kind: ConstraintKind,
    /// Region row: 0 for the orientation and decomposition rows, 1 through
    /// 100 for the running-sum rows, 100 for the finalization clauses.
    pub row: usize,
    /// The offending cell values that witnessed the failure.
    pub values: CellValues,
}

/// Build a violation record.
pub open spec fn viol(kind: ConstraintKind, row: int, a: int, b: int, c: int) -> ConstraintViolation {
    ConstraintViolation { kind, row: row as usize, values: CellValues(a as u128, b as u128, c as u128) }
}

/// The violations of one optional clause, in schedule order.
pub open spec fn opt_seq(o: Option<ConstraintViolation>) -> Seq<ConstraintViolation> {
    match o {
        Option::Some(v) => seq![v],
        Option::None => Seq::empty(),
    }
}

/// Little-endian weighted sum of the first `n` bit cells.
pub open spec fn le_value(bits: Seq<u64>, n: int) -> int
    decreases n,
{
    if n <= 0 {
        0
    } else {
        le_value(bits, n - 1) + bits[n - 1] * pow2((n - 1) as nat)
    }
}

proof fn lemma_pow2_100()
    ensures
        pow2(100) == 0x10000000000000000000000000,
{
    vstd::arithmetic::power2::lemma2_to64();
    vstd::arithmetic::power2::lemma2_to64_rest();
    vstd::arithmetic::power2::lemma_pow2_adds(64, 36);
}

/// Compose 100 boolean cells into the committed value they decompose,
/// little-endian: the contract of the bit-decomposition collaborator.
pub fn compose_bits(bits: &Vec<u64>) -> (r: u128)
    requires
        bits@.len() == 100,
        boolean_bits(bits@),
    ensures
        r == le_value(bits@, 100),
{
    proof {
        lemma_pow2_100();
        vstd::arithmetic::power2::lemma2_to64();
    }
    let mut acc: u128 = 0;
    let mut p: u128 = 1;
    for i in 0..100usize
        invariant
            bits@.len() == 100,
            boolean_bits(bits@),
            pow2(100) == 0x10000000000000000000000000,
            p == pow2(i as nat),
            acc == le_value(bits@, i as int),
            acc < p,
    {
        proof {
            lemma_pow2_unfold((i + 1) as nat);
            if i + 1 < 100 {
                lemma_pow2_strictly_increases((i + 1) as nat, 100);
            }
        }
        if bits[i] == 1 {
            acc = acc + p;
        }
        p = p * 2;
    }
    acc
}

/// Orientation gate, two clauses: `horizontal * vertical == 0` (over a prime
/// field a product is zero exactly when a factor is) and
/// `sum == horizontal + vertical`.
pub open spec fn orientation_gate_holds(sum: u128, horizontal: u128, vertical: u128) -> bool {
    (horizontal == 0 || vertical == 0) && sum == horizontal + vertical
}

/// Violations of the orientation gate at region row 0, in clause order.
pub open spec fn orientation_violations(sum: u128, horizontal: u128, vertical: u128) -> Seq<
    ConstraintViolation,
> {
    (if horizontal != 0 && vertical != 0 {
        seq![
            viol(
                ConstraintKind::OrientationExclusive,
                0,
                horizontal as int,
                vertical as int,
                0,
            ),
        ]
    } else {
        Seq::empty()
    }) + (if sum != horizontal + vertical {
        seq![viol(ConstraintKind::OrientationSum, 0, sum as int, horizontal as int, vertical as int)]
    } else {
        Seq::empty()
    })
}

/// Evaluate the orientation gate.
pub fn orientation_gate(sum: u128, horizontal: u128, vertical: u128) -> (r: Vec<
    ConstraintViolation,
>)
    ensures
        r@ == orientation_violations(sum, horizontal, vertical),
        r@.len() == 0 <==> orientation_gate_holds(sum, horizontal, vertical),
{
    let mut r: Vec<ConstraintViolation> = Vec::new();
    if horizontal != 0 && vertical != 0 {
        r.push(
            ConstraintViolation {
                kind: ConstraintKind::OrientationExclusive,
                row: 0,
                values: CellValues(horizontal, vertical, 0),
            },
        );
    }
    let sum_holds = vertical <= u128::MAX - horizontal && sum == horizontal + vertical;
    if !sum_holds {
        r.push(
            ConstraintViolation {
                kind: ConstraintKind::OrientationSum,
                row: 0,
                values: CellValues(sum, horizontal, vertical),
            },
        );
    }
    proof {
        assert(r@ =~= orientation_violations(sum, horizontal, vertical));
    }
    r
}

/// Violations of the decomposition binding at region row 0: the committed
/// value must equal the weighted sum of the decomposed bits.
pub open spec fn decomposition_violations(value: u128, bits: Seq<u64>) -> Seq<ConstraintViolation> {
    if le_value(bits, 100) == value {
        Seq::empty()
    } else {
        seq![viol(ConstraintKind::Decomposition, 0, value as int, le_value(bits, 100), 0)]
    }
}

/// Bit-count gate: the running count grows by this row's bit.
pub open spec fn bit_count_gate_holds(prev: u64, cur: u64, bit: u64) -> bool {
    cur == prev + bit
}

/// Evaluate the bit-count gate on one row.
pub fn bit_count_gate(row: usize, prev: u64, cur: u64, bit: u64) -> (r: Option<ConstraintViolation>)
    ensures
        r == (if bit_count_gate_holds(prev, cur, bit) {
            Option::<ConstraintViolation>::None
        } else {
            Option::Some(
                viol(ConstraintKind::BitCountStep, row as int, prev as int, cur as int, bit as int),
            )
        }),
{
    if (cur as u128) == (prev as u128) + (bit as u128) {
        None
    } else {
        Some(
            ConstraintViolation {
                kind: ConstraintKind::BitCountStep,
                row,
                values: CellValues(prev as u128, cur as u128, bit as u128),
            },
        )
    }
}

/// Full-window gate: the running count grows by the exact-match indicator,
/// which is 1 exactly when the window's bit sum equals the ship length.
pub open spec fn full_window_gate_holds(prev: u64, cur: u64, window_bits: int, length: int) -> bool {
    cur == prev + (if window_bits == length {
        1int
    } else {
        0int
    })
}

/// Carry-forward gate: the running count is unchanged.
pub open spec fn carry_forward_gate_holds(prev: u64, cur: u64) -> bool {
    cur == prev
}

/// Evaluate the full-window gate on one row. The indicator table plays the
/// part of the interpolated exact-match polynomial: on the window sums a
/// boolean decomposition can produce, it is 1 exactly at the ship length.
pub fn full_window_gate(config: &PlacementConfig, row: usize, prev: u64, cur: u64, window_bits: u64) -> (r:
    Option<ConstraintViolation>)
    requires
        config.well_formed(),
        window_bits <= config.ship_length,
    ensures
        r == (if full_window_gate_holds(prev, cur, window_bits as int, config.ship_length as int) {
            Option::<ConstraintViolation>::None
        } else {
            Option::Some(
                viol(
                    ConstraintKind::WindowStep,
                    row as int,
                    prev as int,
                    cur as int,
                    window_bits as int,
                ),
            )
        }),
{
    let inc = config.indicator[window_bits as usize];
    if (cur as u128) == (prev as u128) + (inc as u128) {
        None
    } else {
        Some(
            ConstraintViolation {
                kind: ConstraintKind::WindowStep,
                row,
                values: CellValues(prev as u128, cur as u128, window_bits as u128),
            },
        )
    }
}

/// Evaluate the carry-forward gate on one row.
pub fn carry_forward_gate(row: usize, prev: u64, cur: u64) -> (r: Option<ConstraintViolation>)
    ensures
        r == (if carry_forward_gate_holds(prev, cur) {
            Option::<ConstraintViolation>::None
        } else {
            Option::Some(
                viol(ConstraintKind::WindowCarry, row as int, prev as int, cur as int, 0),
            )
        }),
{
    if cur == prev {
        None
    } else {
        Some(
            ConstraintViolation {
                kind: ConstraintKind::WindowCarry,
                row,
                values: CellValues(prev as u128, cur as u128, 0),
            },
        )
    }
}

/// The bit-count clause violation of region row `i` (1-based; witness cell
/// `i - 1`), if any. The previous value of row 1 is the zero padding row.
pub open spec fn spec_bit_step(m: GadgetModel, i: int) -> Option<ConstraintViolation> {
    let prev: int = if i <= 1 {
        0
    } else {
        m.bit_sum[i - 2] as int
    };
    let cur = m.bit_sum[i - 1] as int;
    let bit = m.bits[i - 1] as int;
    if cur == prev + bit {
        Option::None
    } else {
        Option::Some(viol(ConstraintKind::BitCountStep, i, prev, cur, bit))
    }
}

/// The window clause violation of region row `i`, if any: the full-window
/// gate where the window lies in a row, the carry-forward gate where it
/// would cross a row boundary.
pub open spec fn spec_window_step(m: GadgetModel, length: int, i: int) -> Option<
    ConstraintViolation,
> {
    let prev: int = if i <= 1 {
        0
    } else {
        m.full_window_sum[i - 2] as int
    };
    let cur = m.full_window_sum[i - 1] as int;
    if window_in_row(i - 1, length) {
        let wbc = window_bit_count(m.bits, i - 1, length);
        let inc: int = if wbc == length {
            1
        } else {
            0
        };
        if cur == prev + inc {
            Option::None
        } else {
            Option::Some(viol(ConstraintKind::WindowStep, i, prev, cur, wbc))
        }
    } else {
        if cur == prev {
            Option::None
        } else {
            Option::Some(viol(ConstraintKind::WindowCarry, i, prev, cur, 0))
        }
    }
}

/// All violations of region row `i`, in clause order.
pub open spec fn row_violations(m: GadgetModel, length: int, i: int) -> Seq<ConstraintViolation> {
    opt_seq(spec_bit_step(m, i)) + opt_seq(spec_window_step(m, length, i))
}

/// All violations of region rows 1 through `n`, in row order.
pub open spec fn steps_violations(m: GadgetModel, length: int, n: int) -> Seq<ConstraintViolation>
    decreases n,
{
    if n <= 0 {
        Seq::empty()
    } else {
        steps_violations(m, length, n - 1) + row_violations(m, length, n)
    }
}

/// Violations of the finalization gate on the last row: the bit count must
/// equal the ship length and the full-window count must equal one.
pub open spec fn finalization_violations(bit_sum: u64, full_window_sum: u64, length: int) -> Seq<
    ConstraintViolation,
> {
    (if bit_sum == length {
        Seq::empty()
    } else {
        seq![viol(ConstraintKind::FinalBitCount, 100, bit_sum as int, length, 0)]
    }) + (if full_window_sum == 1 {
        Seq::empty()
    } else {
        seq![viol(ConstraintKind::FinalWindowCount, 100, full_window_sum as int, 1, 0)]
    })
}

/// Every violation of the whole placement schedule, in evaluation order:
/// orientation gate, decomposition binding, the hundred running-sum rows,
/// then the finalization clauses.
pub open spec fn placement_violations(
    horizontal: u128,
    vertical: u128,
    m: GadgetModel,
    length: int,
) -> Seq<ConstraintViolation> {
    orientation_violations((horizontal + vertical) as u128, horizontal, vertical)
        + decomposition_violations((horizontal + vertical) as u128, m.bits) + steps_violations(
        m,
        length,
        100,
    ) + finalization_violations(m.bit_sum[99], m.full_window_sum[99], length)
}

/// The placement witness satisfies every constraint of the schedule.
pub open spec fn placement_satisfied(
    horizontal: u128,
    vertical: u128,
    m: GadgetModel,
    length: int,
) -> bool {
    placement_violations(horizontal, vertical, m, length).len() == 0
}

/// Columns and fixed data of one placement circuit instance: the ship length
/// it checks and the exact-match indicator table baked at configuration
/// time, the integer shadow of the Lagrange-interpolated polynomial with
/// value 1 at the ship length and 0 at every other reachable window sum.
/// That polynomial's degree equals the ship length, so the in-circuit
/// constraint degree grows linearly with it: a known scaling limit, accepted
/// because ship lengths are small and fixed per instance.
#[derive(Clone, Debug)]
pub struct PlacementConfig {
    /// The ship length this instance enforces.
    pub ship_length: usize,
    /// Indicator table: entry `k` holds 1 when `k` equals the ship length,
    /// else 0, for every window sum `k` a boolean window can produce.
    pub indicator: Vec<u64>,
}

impl PlacementConfig {
    /// The indicator table covers every window sum up to the ship length
    /// and is the exact-match indicator of the ship length.
    pub open spec fn well_formed(&self) -> bool {
        &&& self.indicator@.len() == self.ship_length + 1
        &&& forall|k: int|
            0 <= k <= self.ship_length ==> self.indicator@[k] == (if k == self.ship_length {
                1u64
            } else {
                0u64
            })
    }
}

/// One placement legality circuit instance.
pub struct PlacementChip {
    /// The configuration built once at setup time, read-only afterwards.
    pub config: PlacementConfig,
}

/// Errors surfaced when a witness is checked against the schedule.
#[derive(Clone, Debug, PartialEq)]
pub enum PlacementError {
    /// The witness has the wrong shape: a column without exactly 100 cells,
    /// or a bit cell that is not boolean.
    Malformed(String),
    /// The witness is well formed but violates the listed constraints; the
    /// list is complete, in schedule order.
    Unsatisfied(Vec<ConstraintViolation>),
}

impl PlacementChip {
    /// Wrap a configuration.
    pub fn new(config: PlacementConfig) -> (r: Self)
        ensures
            r.config == config,
    {
        PlacementChip { config }
    }

    /// Build the configuration for one ship length: the indicator table over
    /// the window sums 0 through `ship_length`, with 1 exactly at
    /// `ship_length`. A ship cannot be longer than the board.
    pub fn configure(ship_length: usize) -> (r: PlacementConfig)
        requires
            ship_length <= 100,
        ensures
            r.ship_length == ship_length,
            r.well_formed(),
    {
        let mut indicator: Vec<u64> = Vec::new();
        for k in 0..(ship_length + 1)
            invariant
                ship_length <= 100,
                indicator@.len() == k,
                forall|j: int|
                    0 <= j < k ==> indicator@[j] == (if j == ship_length {
                        1u64
                    } else {
                        0u64
                    }),
        {
            indicator.push(if k == ship_length {
                1u64
            } else {
                0u64
            });
        }
        PlacementConfig { ship_length, indicator }
    }

    /// Bind the two orientation commitments: produce the sum cell fed to bit
    /// decomposition and report the orientation gate's violations at region
    /// row 0.
    pub fn load_placement(&self, horizontal: u128, vertical: u128) -> (r: (
        [u128; 3],
        Vec<ConstraintViolation>,
    ))
        requires
            horizontal + vertical <= u128::MAX,
        ensures
            r.0@ == seq![(horizontal + vertical) as u128, horizontal, vertical],
            r.1@ == orientation_violations((horizontal + vertical) as u128, horizontal, vertical),
    {
        let sum = horizontal + vertical;
        let violations = orientation_gate(sum, horizontal, vertical);
        proof {
            assert([sum, horizontal, vertical]@ =~= seq![sum, horizontal, vertical]);
        }
        ([sum, horizontal, vertical], violations)
    }

    /// Bind the witness's bit column to the committed value, consuming the
    /// bit-decomposition contract: the cells are boolean and their weighted
    /// sum must equal the value.
    pub fn synth_bits2num(&self, gadget: &PlacementGadget, value: u128) -> (r: (
        PlacementBits,
        Vec<ConstraintViolation>,
    ))
        requires
            gadget@.well_formed(),
        ensures
            r.0.0@ == gadget@.bits,
            r.0.well_formed(),
            r.1@ == decomposition_violations(value, gadget@.bits),
    {
        let bits = PlacementBits::from(gadget.bits.clone());
        let composed = compose_bits(&gadget.bits);
        let mut violations: Vec<ConstraintViolation> = Vec::new();
        if composed != value {
            violations.push(
                ConstraintViolation {
                    kind: ConstraintKind::Decomposition,
                    row: 0,
                    values: CellValues(value, composed, 0),
                },
            );
        }
        proof {
            assert(violations@ =~= decomposition_violations(value, gadget@.bits));
        }
        (bits, violations)
    }

    /// Replay the running-sum region: pad row 0 with zeros, carry the
    /// decomposed bits in, and evaluate the per-row gates.
    pub fn placement_sums(&self, bits: &PlacementBits, gadget: &PlacementGadget) -> (r: (
        PlacementState,
        Vec<ConstraintViolation>,
    ))
        requires
            self.config.well_formed(),
            gadget@.well_formed(),
            bits.well_formed(),
            bits.0@ == gadget@.bits,
        ensures
            r.0.bit_sum == gadget@.bit_sum[99],
            r.0.full_window_sum == gadget@.full_window_sum[99],
            r.1@ == steps_violations(gadget@, self.config.ship_length as int, 100),
    {
        let padding = PlacementState::assign_padding_row();
        let permuted = padding.permute_bits2num(bits);
        padding.assign_running_sum_trace(&permuted, gadget, &self.config)
    }

    /// Enable the finalization gate on the final running-sum values.
    pub fn assign_constraint(&self, state: &PlacementState) -> (r: Vec<ConstraintViolation>)
        requires
            self.config.well_formed(),
        ensures
            r@ == finalization_violations(
                state.bit_sum,
                state.full_window_sum,
                self.config.ship_length as int,
            ),
    {
        let mut r: Vec<ConstraintViolation> = Vec::new();
        if state.bit_sum != (self.config.ship_length as u64) {
            r.push(
                ConstraintViolation {
                    kind: ConstraintKind::FinalBitCount,
                    row: 100,
                    values: CellValues(state.bit_sum as u128, self.config.ship_length as u128, 0),
                },
            );
        }
        if state.full_window_sum != 1 {
            r.push(
                ConstraintViolation {
                    kind: ConstraintKind::FinalWindowCount,
                    row: 100,
                    values: CellValues(state.full_window_sum as u128, 1, 0),
                },
            );
        }
        proof {
            assert(r@ =~= finalization_violations(
                state.bit_sum,
                state.full_window_sum,
                self.config.ship_length as int,
            ));
        }
        r
    }

    /// Check a placement witness against the whole schedule. A witness of
    /// the wrong shape is rejected as malformed; otherwise every constraint
    /// is evaluated and the complete list of violations, in schedule order,
    /// is returned — the witness is accepted exactly when the list is empty.
    pub fn synthesize(&self, horizontal: u128, vertical: u128, gadget: &PlacementGadget) -> (r:
        Result<(), PlacementError>)
        requires
            self.config.well_formed(),
            horizontal + vertical <= u128::MAX,
        ensures
            r is Ok <==> (gadget@.well_formed() && placement_satisfied(
                horizontal,
                vertical,
                gadget@,
                self.config.ship_length as int,
            )),
            (r matches Err(PlacementError::Malformed(_))) <==> !gadget@.well_formed(),
            (r matches Err(PlacementError::Malformed(m)) ==> m@
                == "malformed placement witness: expected three columns of 100 cells with boolean bits"@),
            (r matches Err(PlacementError::Unsatisfied(vs)) ==> vs@ == placement_violations(
                horizontal,
                vertical,
                gadget@,
                self.config.ship_length as int,
            ) && vs@.len() > 0),
    {
        if !check_shape(gadget) {
            return Err(
                PlacementError::Malformed(
                    "malformed placement witness: expected three columns of 100 cells with boolean bits".to_string(),
                ),
            );
        }
        let loaded = self.load_placement(horizontal, vertical);
        let mut violations = loaded.1;
        let (bits, mut decomposition) = self.synth_bits2num(gadget, loaded.0[0]);
        let (state, mut steps) = self.placement_sums(&bits, gadget);
        let mut finalization = self.assign_constraint(&state);
        violations.append(&mut decomposition);
        violations.append(&mut steps);
        violations.append(&mut finalization);
        proof {
            assert(violations@ =~= placement_violations(
                horizontal,
                vertical,
                gadget@,
                self.config.ship_length as int,
            ));
        }
        if violations.len() == 0 {
            Ok(())
        } else {
            Err(PlacementError::Unsatisfied(violations))
        }
    }
}

/// Runtime check that a witness has the shape the region expects.
fn check_shape(gadget: &PlacementGadget) -> (r: bool)
    ensures
        r == gadget@.well_formed(),
{
    if gadget.bits.len() != 100 || gadget.bit_sum.len() != 100 || gadget.full_window_sum.len()
        != 100 {
        return false;
    }
    for i in 0..100usize
        invariant
            gadget.bits@.len() == 100,
            forall|j: int| 0 <= j < i ==> (gadget.bits@[j] == 0 || gadget.bits@[j] == 1),
    {
        if gadget.bits[i] > 1 {
            return false;
        }
    }
    true
}

impl PlacementState {
    /// Walk the 100 data rows of the running-sum region: row `i` holds the
    /// witness values of cell `i - 1`, the bit-count gate is enabled on
    /// every row, and exactly one of the full-window and carry-forward
    /// gates is enabled depending on whether the cell's window stays inside
    /// its row. Returns the final running sums and every violation found,
    /// in row order.
    pub fn assign_running_sum_trace(&self, bits: &PlacementBits, gadget: &PlacementGadget, config: &PlacementConfig) -> (r: (
        PlacementState,
        Vec<ConstraintViolation>,
    ))
        requires
            self.bit_sum == 0,
            self.full_window_sum == 0,
            config.well_formed(),
            gadget@.well_formed(),
            bits.well_formed(),
            bits.0@ == gadget@.bits,
        ensures
            r.0.bit_sum == gadget@.bit_sum[99],
            r.0.full_window_sum == gadget@.full_window_sum[99],
            r.1@ == steps_violations(gadget@, config.ship_length as int, 100),
    {
        let ghost m = gadget@;
        let ghost length = config.ship_length as int;
        let mut violations: Vec<ConstraintViolation> = Vec::new();
        let mut prev_bit_sum: u64 = self.bit_sum;
        let mut prev_window_sum: u64 = self.full_window_sum;
        for i in 1..101usize
            invariant
                config.well_formed(),
                gadget@.well_formed(),
                bits.well_formed(),
                bits.0@ == gadget@.bits,
                m == gadget@,
                length == config.ship_length as int,
                prev_bit_sum == (if i == 1 {
                    0u64
                } else {
                    m.bit_sum[i - 2]
                }),
                prev_window_sum == (if i == 1 {
                    0u64
                } else {
                    m.full_window_sum[i - 2]
                }),
                violations@ == steps_violations(m, length, i - 1),
        {
            let t = i - 1;
            let cur_bit_sum = gadget.bit_sum[t];
            let cur_window_sum = gadget.full_window_sum[t];
            let bit = bits.0[t];
            let bit_violation = bit_count_gate(i, prev_bit_sum, cur_bit_sum, bit);
            let in_row = config.ship_length < 10 && t % 10 + config.ship_length < 10;
            let window_violation = if in_row {
                let wbc = window_sum(&bits.0, t, config.ship_length);
                full_window_gate(config, i, prev_window_sum, cur_window_sum, wbc)
            } else {
                carry_forward_gate(i, prev_window_sum, cur_window_sum)
            };
            proof {
                assert(bit_violation == spec_bit_step(m, i as int));
                assert(window_violation == spec_window_step(m, length, i as int));
            }
            if let Some(v) = bit_violation {
                violations.push(v);
            }
            if let Some(v) = window_violation {
                violations.push(v);
            }
            proof {
                assert(violations@ =~= steps_violations(m, length, i as int));
            }
            prev_bit_sum = cur_bit_sum;
            prev_window_sum = cur_window_sum;
        }
        (PlacementState::new(prev_bit_sum, prev_window_sum), violations)
    }
}

} // verus!
