//! Ship coordinates and their bit-vector encoding.
//!
//! A ship is placed by coordinates `x`, `y` in `[0, 9]`, an orientation bit
//! `z`, and a length. Its commitment is a 100-bit vector (one bit per board
//! cell) holding a single contiguous run of set bits that stays inside one
//! 10-cell row of the encoding: a horizontal ship runs inside row `y` starting
//! at column `x`; a vertical ship is encoded transposed, running inside row
//! `x` starting at column `y`. The run may not reach the row's last cell, so
//! that the full-window check of the circuit can always look `length` cells
//! ahead within the row.

use vstd::prelude::*;

use crate::binary::BinaryValue;

verus! {

/// A ship placement: coordinates, orientation and length.
#[derive(Clone, Copy, Debug, PartialEq, Eq, Structural)]
pub struct ShipPlacement {
    /// Column of the bow cell.
    pub x: u8,
    /// Row of the bow cell.
    pub y: u8,
    /// Orientation: `false` is horizontal, `true` is vertical.
    pub z: bool,
    /// Number of cells the ship occupies.
    pub length: u8,
}

/// True when the 256-bit sequence holds exactly one run of set bits,
/// occupying positions `start <= i < start + length`.
pub open spec fn run_encoding(bits: Seq<bool>, start: int, length: int) -> bool {
    forall|i: int| 0 <= i < 256 ==> (bits[i] <==> start <= i < start + length)
}

/// True when a run of `length` cells starting at board index `start` lies on
/// the board and inside one row, short of the row's last cell.
pub open spec fn legal_run_start(start: int, length: int) -> bool {
    0 <= start < 100 && start % 10 + length < 10
}

/// The ship placement encoded by a run starting at `start` for the given
/// orientation and length.
pub open spec fn coords_of(start: int, z: bool, length: u8) -> ShipPlacement {
    if z {
        ShipPlacement { x: (start / 10) as u8, y: (start % 10) as u8, z, length }
    } else {
        ShipPlacement { x: (start % 10) as u8, y: (start / 10) as u8, z, length }
    }
}

/// The placement recovered from a commitment, if the commitment is the exact
/// encoding of a legal run; `None` otherwise.
pub open spec fn spec_decode(bits: Seq<bool>, z: bool, length: u8) -> Option<ShipPlacement> {
    if length >= 1 && (exists|st: int|
        legal_run_start(st, length as int) && #[trigger] run_encoding(bits, st, length as int)) {
        Some(
            coords_of(
                choose|st: int|
                    legal_run_start(st, length as int) && #[trigger] run_encoding(
                        bits,
                        st,
                        length as int,
                    ),
                z,
                length,
            ),
        )
    } else {
        None
    }
}

impl ShipPlacement {
    /// Board index of the ship's first cell in its encoding.
    pub open spec fn start_index(self) -> int {
        if self.z {
            10 * (self.x as int) + self.y
        } else {
            10 * (self.y as int) + self.x
        }
    }

    /// The placement lies on the board, occupies at least one cell, and its
    /// run stays inside one row of the encoding without reaching the row's
    /// last cell.
    pub open spec fn valid(self) -> bool {
        &&& self.x <= 9
        &&& self.y <= 9
        &&& 1 <= self.length
        &&& if self.z {
            self.y + self.length < 10
        } else {
            self.x + self.length < 10
        }
    }

    /// True when cell `i` of the encoding is set for this placement.
    pub open spec fn ship_bit(self, i: int) -> bool {
        self.start_index() <= i < self.start_index() + self.length
    }

    /// The full 256-bit encoding of this placement.
    pub open spec fn spec_bits(self) -> Seq<bool> {
        Seq::new(256, |i: int| self.ship_bit(i))
    }

    /// Build a placement from its parts.
    pub fn construct(x: u8, y: u8, z: bool, length: u8) -> (r: ShipPlacement)
        ensures
            r == (ShipPlacement { x, y, z, length }),
    {
        ShipPlacement { x, y, z, length }
    }

    /// Runtime check of `valid`.
    pub fn is_valid(&self) -> (r: bool)
        ensures
            r == self.valid(),
    {
        let in_row = if self.z {
            (self.y as usize) + (self.length as usize) < 10
        } else {
            (self.x as usize) + (self.length as usize) < 10
        };
        self.x <= 9 && self.y <= 9 && 1 <= self.length && in_row
    }

    /// Encode the placement as its 256-bit commitment value.
    pub fn to_bits(&self) -> (r: BinaryValue)
        requires
            self.valid(),
        ensures
            r@ == self.spec_bits(),
    {
        proof {
            self.lemma_start_in_row();
        }
        let start: usize = if self.z {
            10 * (self.x as usize) + (self.y as usize)
        } else {
            10 * (self.y as usize) + (self.x as usize)
        };
        let mut bits = BinaryValue::empty();
        let len = self.length as usize;
        for k in 0..len
            invariant
                self.valid(),
                start == self.start_index(),
                start + len < 100,
                len == self.length,
                forall|i: int| 0 <= i < 256 ==> (bits@[i] <==> start <= i < start + k),
        {
            bits.set_bit(start + k, true);
        }
        proof {
            assert(bits@ =~= self.spec_bits());
        }
        bits
    }

    /// A valid placement's run starts on the board and fits inside its row.
    pub proof fn lemma_start_in_row(self)
        requires
            self.valid(),
        ensures
            legal_run_start(self.start_index(), self.length as int),
            self.start_index() + self.length < 100,
            self.start_index() % 10 == if self.z {
                self.y as int
            } else {
                self.x as int
            },
            self.start_index() / 10 == if self.z {
                self.x as int
            } else {
                self.y as int
            },
    {
        let o: int = if self.z {
            self.y as int
        } else {
            self.x as int
        };
        let c: int = if self.z {
            self.x as int
        } else {
            self.y as int
        };
        assert(self.start_index() == 10 * c + o);
        assert((10 * c + o) % 10 == o && (10 * c + o) / 10 == c) by (nonlinear_arith)
            requires
                0 <= o < 10,
                0 <= c <= 9,
        ;
    }

    /// Recover a placement from a commitment, given the orientation and
    /// length implied by which orientation commitment was nonzero. Returns
    /// `Some` exactly when the commitment is the encoding of one legal run.
    pub fn decode(bits: &BinaryValue, z: bool, length: u8) -> (r: Option<ShipPlacement>)
        ensures
            r == spec_decode(bits@, z, length),
    {
        if length == 0 {
            return None;
        }
        // Find the first set bit.
        let mut st: usize = 0;
        while st < 256 && !bits.bit(st)
            invariant
                st <= 256,
                forall|i: int| 0 <= i < st ==> !bits@[i],
            decreases 256 - st,
        {
            st = st + 1;
        }
        if st >= 100 {
            // No set bit on the board: no run of length >= 1 can be encoded.
            proof {
                lemma_no_board_run(bits@, length as int);
            }
            return None;
        }
        if st % 10 + (length as usize) > 9 {
            // The only candidate start is the first set bit, and its run
            // would cross a row boundary.
            proof {
                lemma_candidate_is_first(bits@, st as int, length as int);
            }
            return None;
        }
        // The run fits in the row, hence on the board.
        proof {
            assert(st + length < 100) by (nonlinear_arith)
                requires
                    st < 100,
                    st % 10 + length < 10,
                    length >= 1,
            ;
        }
        // Every cell of the candidate run must be set.
        let mut k: usize = st;
        while k < st + (length as usize)
            invariant
                1 <= length,
                st < 100,
                st <= k <= st + length,
                st + length < 100,
                bits@[st as int],
                forall|i: int| 0 <= i < st ==> !bits@[i],
                forall|i: int| st <= i < k ==> bits@[i],
            decreases st + length - k,
        {
            if !bits.bit(k) {
                proof {
                    lemma_candidate_is_first(bits@, st as int, length as int);
                }
                return None;
            }
            k = k + 1;
        }
        // Every cell after the run must be clear.
        let mut j: usize = st + (length as usize);
        while j < 256
            invariant
                1 <= length,
                st < 100,
                st + length < 100,
                st + length <= j <= 256,
                bits@[st as int],
                forall|i: int| 0 <= i < st ==> !bits@[i],
                forall|i: int| st <= i < st + length ==> bits@[i],
                forall|i: int| st + length <= i < j ==> !bits@[i],
            decreases 256 - j,
        {
            if bits.bit(j) {
                proof {
                    lemma_candidate_is_first(bits@, st as int, length as int);
                }
                return None;
            }
            j = j + 1;
        }
        let ship = if z {
            ShipPlacement { x: (st / 10) as u8, y: (st % 10) as u8, z, length }
        } else {
            ShipPlacement { x: (st % 10) as u8, y: (st / 10) as u8, z, length }
        };
        proof {
            assert(run_encoding(bits@, st as int, length as int));
            lemma_run_start_unique(bits@, length as int, st as int);
        }
        Some(ship)
    }
}

/// If no bit below 100 is set, no run of positive length is encoded.
proof fn lemma_no_board_run(bits: Seq<bool>, length: int)
    requires
        bits.len() == 256,
        length >= 1,
        forall|i: int| 0 <= i < 100 ==> !bits[i],
    ensures
        !(exists|st: int| legal_run_start(st, length) && #[trigger] run_encoding(bits, st, length)),
{
    assert forall|st: int|
        legal_run_start(st, length) implies !run_encoding(bits, st, length) by {
        assert(!bits[st]);
    }
}

/// A run encoding starts exactly at the first set bit: if all bits below
/// `st` are clear and `st` is set, then `st` is the only possible run start.
proof fn lemma_candidate_is_first(bits: Seq<bool>, st: int, length: int)
    requires
        bits.len() == 256,
        length >= 1,
        0 <= st < 256,
        bits[st],
        forall|i: int| 0 <= i < st ==> !bits[i],
    ensures
        forall|w: int|
            0 <= w < 256 && #[trigger] run_encoding(bits, w, length) ==> w == st,
{
    assert forall|w: int|
        0 <= w < 256 && #[trigger] run_encoding(bits, w, length) implies w == st by {
        assert(bits[w] <==> w <= w < w + length);
        assert(bits[w]);
        assert(bits[st] <==> w <= st < w + length);
    }
}

/// Two legal run encodings of the same length start at the same cell.
proof fn lemma_run_start_unique(bits: Seq<bool>, length: int, st: int)
    requires
        bits.len() == 256,
        length >= 1,
        0 <= st < 256,
        run_encoding(bits, st, length),
    ensures
        forall|w: int|
            0 <= w < 256 && #[trigger] run_encoding(bits, w, length) ==> w == st,
{
    assert(bits[st]);
    assert forall|i: int| 0 <= i < st implies !bits[i] by {}
    lemma_candidate_is_first(bits, st, length);
}

/// Decoding inverts encoding: the commitment of a valid placement decodes
/// back to that same placement.
pub proof fn lemma_decode_encode(ship: ShipPlacement)
    requires
        ship.valid(),
    ensures
        spec_decode(ship.spec_bits(), ship.z, ship.length) == Some(ship),
{
    let bits = ship.spec_bits();
    let st = ship.start_index();
    ship.lemma_start_in_row();
    assert(run_encoding(bits, st, ship.length as int));
    assert(legal_run_start(st, ship.length as int));
    lemma_run_start_unique(bits, ship.length as int, st);
    let w = choose|w: int|
        legal_run_start(w, ship.length as int) && #[trigger] run_encoding(
            bits,
            w,
            ship.length as int,
        );
    assert(w == st);
    assert(coords_of(st, ship.z, ship.length) == ship);
}

} // verus!
