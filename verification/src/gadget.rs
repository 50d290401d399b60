//! Off-circuit witness generation for the placement legality argument.
//!
//! For a ship placement the witness holds the 100-cell bit decomposition of
//! its commitment together with two running-sum traces replayed by the
//! circuit's gates: `bit_sum[i]` counts the set bits through cell `i`, and
//! `full_window_sum[i]` counts the cells `t <= i` whose forward window of
//! `length` cells lies inside one row and is entirely set.

use vstd::prelude::*;

use crate::ship::ShipPlacement;

verus! {

/// Every entry of the sequence is a field bit: 0 or 1.
pub open spec fn boolean_bits(bits: Seq<u64>) -> bool {
    forall|i: int| 0 <= i < bits.len() ==> (bits[i] == 0 || bits[i] == 1)
}

/// Number of set bits among the first `n` cells.
pub open spec fn prefix_bit_count(bits: Seq<u64>, n: int) -> int
    decreases n,
{
    if n <= 0 {
        0
    } else {
        prefix_bit_count(bits, n - 1) + bits[n - 1]
    }
}

/// The window of `length` cells starting at cell `start` lies inside one
/// row, short of the row's last cell, so the circuit checks it.
pub open spec fn window_in_row(start: int, length: int) -> bool {
    start % 10 + length < 10
}

/// All `length` cells of the window starting at `start` are set.
pub open spec fn window_full(bits: Seq<u64>, start: int, length: int) -> bool {
    forall|k: int| start <= k < start + length ==> bits[k] == 1
}

/// Sum of the `length` cells of the window starting at `start`.
pub open spec fn window_bit_count(bits: Seq<u64>, start: int, length: int) -> int
    decreases length,
{
    if length <= 0 {
        0
    } else {
        window_bit_count(bits, start, length - 1) + bits[start + length - 1]
    }
}

/// Contribution of cell `start` to the full-window running sum: 1 when its
/// window is checked and entirely set, 0 otherwise (in particular whenever
/// the window would cross a row boundary).
pub open spec fn window_increment(bits: Seq<u64>, start: int, length: int) -> int {
    if window_in_row(start, length) && window_full(bits, start, length) {
        1
    } else {
        0
    }
}

/// Number of cells `t < n` whose checked window is entirely set.
pub open spec fn prefix_window_count(bits: Seq<u64>, n: int, length: int) -> int
    decreases n,
{
    if n <= 0 {
        0
    } else {
        prefix_window_count(bits, n - 1, length) + window_increment(bits, n - 1, length)
    }
}

/// A window's bit sum is bounded by its length and reaches the length
/// exactly when the window is entirely set.
pub proof fn lemma_window_bit_count_full(bits: Seq<u64>, start: int, length: int)
    requires
        boolean_bits(bits),
        0 <= start,
        0 <= length,
        start + length <= bits.len(),
    ensures
        0 <= window_bit_count(bits, start, length) <= length,
        window_bit_count(bits, start, length) == length <==> window_full(bits, start, length),
    decreases length,
{
    if length == 0 {
    } else {
        lemma_window_bit_count_full(bits, start, length - 1);
        if window_bit_count(bits, start, length) == length {
            assert(window_full(bits, start, length - 1));
            assert forall|k: int| start <= k < start + length implies bits[k] == 1 by {
                if k < start + length - 1 {
                } else {
                }
            }
        }
        if window_full(bits, start, length) {
            assert(window_full(bits, start, length - 1));
        }
    }
}

/// The ghost model of a placement witness.
pub struct GadgetModel {
    /// The placement the witness was built for.
    pub ship: ShipPlacement,
    /// Little-endian bit decomposition of the placement commitment.
    pub bits: Seq<u64>,
    /// Running count of set bits.
    pub bit_sum: Seq<u64>,
    /// Running count of full in-row windows.
    pub full_window_sum: Seq<u64>,
}

impl GadgetModel {
    /// The witness has the right shape: three 100-cell columns, and every
    /// bit cell is boolean (the contract of the bit-decomposition
    /// collaborator, consumed here).
    pub open spec fn well_formed(self) -> bool {
        &&& self.bits.len() == 100
        &&& self.bit_sum.len() == 100
        &&& self.full_window_sum.len() == 100
        &&& boolean_bits(self.bits)
    }

    /// The running-sum columns are the honest replay of the recurrences
    /// over the bit column.
    pub open spec fn traces_consistent(self, length: int) -> bool {
        &&& forall|i: int| 0 <= i < 100 ==> self.bit_sum[i] == prefix_bit_count(self.bits, i + 1)
        &&& forall|i: int|
            0 <= i < 100 ==> self.full_window_sum[i] == prefix_window_count(
                self.bits,
                i + 1,
                length,
            )
    }
}

/// The 100 decomposed, boolean-constrained bit cells of one placement.
#[derive(Clone, Debug)]
pub struct PlacementBits(pub Vec<u64>);

impl PlacementBits {
    /// One bit cell per board cell, each holding 0 or 1.
    pub open spec fn well_formed(&self) -> bool {
        self.0@.len() == 100 && boolean_bits(self.0@)
    }

    /// Wrap 100 boolean cells.
    pub fn from(cells: Vec<u64>) -> (r: Self)
        requires
            cells@.len() == 100,
            boolean_bits(cells@),
        ensures
            r.0@ == cells@,
            r.well_formed(),
    {
        PlacementBits(cells)
    }

    /// Extract the forward window of `length` cells starting at `offset`.
    /// Fails exactly when the window is out of bounds: it would cross a row
    /// boundary or start off the board.
    pub fn get_window(&self, offset: usize, length: usize) -> (r: Result<Vec<u64>, String>)
        requires
            self.well_formed(),
        ensures
            r is Ok <==> (offset % 10 + length <= 9 && offset <= 99),
            (r matches Ok(w) ==> w@ == self.0@.subrange(offset as int, offset + length)),
            (r matches Err(m) ==> m@ == "bit window out of bounds"@),
    {
        if length > 9 || offset % 10 + length > 9 || offset > 99 {
            return Err("bit window out of bounds".to_string());
        }
        proof {
            assert(offset + length <= 100) by (nonlinear_arith)
                requires
                    offset <= 99,
                    offset % 10 + length <= 9,
            ;
        }
        let mut w: Vec<u64> = Vec::new();
        for k in 0..length
            invariant
                self.well_formed(),
                offset + length <= 100,
                w@.len() == k,
                forall|i: int| 0 <= i < k ==> w@[i] == self.0@[offset + i],
        {
            w.push(self.0[offset + k]);
        }
        proof {
            assert(w@ =~= self.0@.subrange(offset as int, offset + length));
        }
        Ok(w)
    }
}

/// A placement witness: bit decomposition plus the two running-sum traces.
#[derive(Clone, Debug)]
pub struct PlacementGadget {
    /// The placement the witness was built for.
    pub ship: ShipPlacement,
    /// Little-endian bit decomposition of the placement commitment.
    pub bits: Vec<u64>,
    /// Running count of set bits, one value per cell.
    pub bit_sum: Vec<u64>,
    /// Running count of full in-row windows, one value per cell.
    pub full_window_sum: Vec<u64>,
}

impl View for PlacementGadget {
    type V = GadgetModel;

    open spec fn view(&self) -> GadgetModel {
        GadgetModel {
            ship: self.ship,
            bits: self.bits@,
            bit_sum: self.bit_sum@,
            full_window_sum: self.full_window_sum@,
        }
    }
}

/// The region-assignment rule for one trace cell: the full-window gate is
/// enabled exactly where the cell's forward window stays inside one row;
/// everywhere else the carry-forward gate is enabled instead.
pub fn window_checked(offset: usize, length: usize) -> (r: bool)
    ensures
        r == window_in_row(offset as int, length as int),
{
    length < 10 && offset % 10 + length < 10
}

/// Sum the checked window starting at `start`; callers establish that the
/// window lies inside one row, so it also lies on the board.
pub(crate) fn window_sum(bits: &Vec<u64>, start: usize, length: usize) -> (r: u64)
    requires
        bits@.len() == 100,
        boolean_bits(bits@),
        start < 100,
        start % 10 + length < 10,
    ensures
        r == window_bit_count(bits@, start as int, length as int),
        r <= length,
{
    proof {
        assert(start + length < 100) by (nonlinear_arith)
            requires
                start < 100,
                start % 10 + length < 10,
        ;
    }
    let mut acc: u64 = 0;
    for k in 0..length
        invariant
            bits@.len() == 100,
            boolean_bits(bits@),
            start + length < 100,
            acc == window_bit_count(bits@, start as int, k as int),
            acc <= k,
    {
        acc = acc + bits[start + k];
    }
    acc
}

impl PlacementGadget {
    /// Replay the two running-sum recurrences over a bit decomposition:
    /// `bit_sum` accumulates the bits; `full_window_sum` adds 1 exactly at
    /// cells whose in-row forward window of `length` cells is entirely set,
    /// and carries its previous value where the window would cross a row
    /// boundary.
    pub fn assign_trace(bits: &Vec<u64>, length: usize) -> (r: (Vec<u64>, Vec<u64>))
        requires
            bits@.len() == 100,
            boolean_bits(bits@),
        ensures
            r.0@.len() == 100,
            r.1@.len() == 100,
            forall|i: int| 0 <= i < 100 ==> r.0@[i] == prefix_bit_count(bits@, i + 1),
            forall|i: int|
                0 <= i < 100 ==> r.1@[i] == prefix_window_count(bits@, i + 1, length as int),
    {
        let mut bit_sum: Vec<u64> = Vec::new();
        let mut acc: u64 = 0;
        for i in 0..100usize
            invariant
                bits@.len() == 100,
                boolean_bits(bits@),
                bit_sum@.len() == i,
                acc == prefix_bit_count(bits@, i as int),
                acc <= i,
                forall|j: int| 0 <= j < i ==> bit_sum@[j] == prefix_bit_count(bits@, j + 1),
        {
            acc = acc + bits[i];
            bit_sum.push(acc);
        }
        let mut full_window_sum: Vec<u64> = Vec::new();
        let mut wacc: u64 = 0;
        for i in 0..100usize
            invariant
                bits@.len() == 100,
                boolean_bits(bits@),
                full_window_sum@.len() == i,
                wacc == prefix_window_count(bits@, i as int, length as int),
                wacc <= i,
                forall|j: int|
                    0 <= j < i ==> full_window_sum@[j] == prefix_window_count(
                        bits@,
                        j + 1,
                        length as int,
                    ),
        {
            let in_row = length < 10 && i % 10 + length < 10;
            if in_row {
                proof {
                    assert(i + length < 100) by (nonlinear_arith)
                        requires
                            i < 100,
                            i % 10 + length < 10,
                    ;
                    lemma_window_bit_count_full(bits@, i as int, length as int);
                }
                let wbc = window_sum(bits, i, length);
                if wbc == length as u64 {
                    wacc = wacc + 1;
                }
            }
            full_window_sum.push(wacc);
        }
        (bit_sum, full_window_sum)
    }

    /// Build the honest witness for a valid placement.
    pub fn new(ship: ShipPlacement) -> (r: PlacementGadget)
        requires
            ship.valid(),
        ensures
            r@.well_formed(),
            r@.ship == ship,
            forall|i: int|
                0 <= i < 100 ==> r@.bits[i] == (if ship.ship_bit(i) {
                    1u64
                } else {
                    0u64
                }),
            r@.traces_consistent(ship.length as int),
    {
        let commitment = ship.to_bits();
        let bits = commitment.bitfield(100);
        let trace = PlacementGadget::assign_trace(&bits, ship.length as usize);
        PlacementGadget { ship, bits, bit_sum: trace.0, full_window_sum: trace.1 }
    }

    /// Build a witness with honest traces over an arbitrary bit column.
    /// Fails, naming the structural fault, unless the column holds exactly
    /// 100 boolean cells; a malformed witness is rejected here rather than
    /// silently producing a circuit of the wrong shape.
    pub fn from_bits(ship: ShipPlacement, bits: Vec<u64>) -> (r: Result<PlacementGadget, String>)
        ensures
            r is Ok <==> (bits@.len() == 100 && boolean_bits(bits@)),
            (r matches Err(m) ==> m@ == (if bits@.len() != 100 {
                "malformed placement witness: expected 100 cells"@
            } else {
                "malformed placement witness: cell is not a bit"@
            })),
            (r matches Ok(g) ==> {
                &&& g@.well_formed()
                &&& g@.ship == ship
                &&& g@.bits == bits@
                &&& g@.traces_consistent(ship.length as int)
            }),
    {
        if bits.len() != 100 {
            return Err("malformed placement witness: expected 100 cells".to_string());
        }
        for i in 0..100usize
            invariant
                bits@.len() == 100,
                forall|j: int| 0 <= j < i ==> (bits@[j] == 0 || bits@[j] == 1),
        {
            if bits[i] > 1 {
                return Err("malformed placement witness: cell is not a bit".to_string());
            }
        }
        let trace = PlacementGadget::assign_trace(&bits, ship.length as usize);
        Ok(PlacementGadget { ship, bits, bit_sum: trace.0, full_window_sum: trace.1 })
    }
}

/// Final values of the two running sums after the last board cell.
pub struct PlacementState {
    /// Final value of the bit-count running sum.
    pub bit_sum: u64,
    /// Final value of the full-window running sum.
    pub full_window_sum: u64,
}

impl PlacementState {
    /// Pair the two final running-sum values.
    pub fn new(bit_sum: u64, full_window_sum: u64) -> (r: PlacementState)
        ensures
            r.bit_sum == bit_sum,
            r.full_window_sum == full_window_sum,
    {
        PlacementState { bit_sum, full_window_sum }
    }

    /// The zero padding row placed above the trace so that every data row
    /// has a well-defined previous row.
    pub fn assign_padding_row() -> (r: PlacementState)
        ensures
            r.bit_sum == 0,
            r.full_window_sum == 0,
    {
        PlacementState::new(0, 0)
    }

    /// Carry the decomposed bit cells into the running-sum trace unchanged,
    /// as the circuit's copy constraints do.
    pub fn permute_bits2num(&self, bits: &PlacementBits) -> (r: PlacementBits)
        requires
            bits.well_formed(),
        ensures
            r.0@ == bits.0@,
            r.well_formed(),
    {
        PlacementBits(bits.0.clone())
    }
}

} // verus!
