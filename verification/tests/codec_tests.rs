use battleship::binary::BinaryValue;
use battleship::chip::compose_bits;
use battleship::gadget::PlacementBits;
use battleship::ship::ShipPlacement;

#[test]
fn empty_has_no_bits() {
    let b = BinaryValue::empty();
    for i in 0..256 {
        assert!(!b.bit(i));
    }
    assert_eq!(b.lower_u128(), 0);
}

#[test]
fn from_u8_sets_low_bits() {
    let b = BinaryValue::from_u8(0b1011);
    assert!(b.bit(0));
    assert!(b.bit(1));
    assert!(!b.bit(2));
    assert!(b.bit(3));
    for i in 4..256 {
        assert!(!b.bit(i));
    }
    assert_eq!(b.lower_u128(), 0b1011);
}

#[test]
fn new_wraps_limbs_little_endian() {
    let b = BinaryValue::new([0x1234, 0x56, 7, 9]);
    assert_eq!(b.lower_u128(), 0x56_0000_0000_0000_1234u128);
    // Bit 2 of 0x1234 is set (0x4), bit 0 is not.
    assert!(b.bit(2));
    assert!(!b.bit(0));
    // Limb 2 holds 7: bits 128..131 are 1,1,1.
    assert!(b.bit(128) && b.bit(129) && b.bit(130) && !b.bit(131));
}

#[test]
fn set_bit_updates_one_position() {
    let mut b = BinaryValue::empty();
    b.set_bit(0, true);
    b.set_bit(63, true);
    b.set_bit(64, true);
    b.set_bit(255, true);
    for i in 0..256 {
        assert_eq!(b.bit(i), i == 0 || i == 63 || i == 64 || i == 255);
    }
    b.set_bit(63, false);
    assert!(!b.bit(63));
    assert!(b.bit(0) && b.bit(64) && b.bit(255));
    assert_eq!(b.lower_u128(), 1 | (1u128 << 64));
}

#[test]
fn bitfield_maps_bits_to_field_values() {
    let b = BinaryValue::from_u8(0b101);
    let cells = b.bitfield(4);
    assert_eq!(cells, vec![1, 0, 1, 0]);
    let all = BinaryValue::from_u8(0xff).bitfield(100);
    assert_eq!(all.len(), 100);
    assert_eq!(all.iter().sum::<u64>(), 8);
}

#[test]
fn zip_merges_disjoint_placements() {
    let mut a = BinaryValue::empty();
    a.set_bit(0, true);
    a.set_bit(1, true);
    a.set_bit(200, true);
    let mut b = BinaryValue::empty();
    b.set_bit(5, true);
    b.set_bit(6, true);
    let z = a.zip(b);
    for i in 0..100 {
        assert_eq!(z.bit(i), i == 0 || i == 1 || i == 5 || i == 6);
    }
    // Bits at or above the board size are cleared by the merge.
    assert!(!z.bit(200));
}

#[test]
fn ship_round_trip_all_valid_placements() {
    let mut count = 0u32;
    let mut expected = 0u32;
    for length in 1..=9u8 {
        expected += 2 * 10 * (10 - length as u32);
        for &z in &[false, true] {
            for x in 0..10u8 {
                for y in 0..10u8 {
                    let ship = ShipPlacement::construct(x, y, z, length);
                    if ship.is_valid() {
                        let bits = ship.to_bits();
                        assert_eq!(ShipPlacement::decode(&bits, z, length), Some(ship));
                        count += 1;
                    }
                }
            }
        }
    }
    assert_eq!(count, expected);
}

#[test]
fn encode_marks_exactly_the_run() {
    // Horizontal ship of length 4 at row 0, columns 0..4.
    let ship = ShipPlacement::construct(0, 0, false, 4);
    let bits = ship.to_bits();
    for i in 0..256 {
        assert_eq!(bits.bit(i), i < 4);
    }
    // Vertical ship at x=2, y=3 is encoded transposed: run starts at 23.
    let ship = ShipPlacement::construct(2, 3, true, 4);
    let bits = ship.to_bits();
    for i in 0..256 {
        assert_eq!(bits.bit(i), (23..27).contains(&i));
    }
}

#[test]
fn commitment_value_matches_its_decomposition() {
    for &(x, y, z, length) in &[(0, 0, false, 4u8), (3, 2, false, 5), (2, 7, true, 2), (5, 5, true, 4)] {
        let ship = ShipPlacement::construct(x, y, z, length);
        assert!(ship.is_valid());
        let commitment = ship.to_bits();
        let composed = compose_bits(&commitment.bitfield(100));
        assert_eq!(commitment.lower_u128(), composed);
    }
}

#[test]
fn decode_rejects_non_encodings() {
    // No bits set at all.
    assert_eq!(ShipPlacement::decode(&BinaryValue::empty(), false, 4), None);
    // A run crossing a row boundary.
    let mut crossing = BinaryValue::empty();
    for i in 8..12 {
        crossing.set_bit(i, true);
    }
    assert_eq!(ShipPlacement::decode(&crossing, false, 4), None);
    // A valid run plus one stray bit.
    let mut stray = ShipPlacement::construct(1, 1, false, 3).to_bits();
    stray.set_bit(90, true);
    assert_eq!(ShipPlacement::decode(&stray, false, 3), None);
    // A run shorter than the requested length.
    let short = ShipPlacement::construct(0, 0, false, 3).to_bits();
    assert_eq!(ShipPlacement::decode(&short, false, 4), None);
    // Zero-length ships are never decoded.
    assert_eq!(ShipPlacement::decode(&BinaryValue::empty(), false, 0), None);
}

#[test]
fn get_window_extracts_in_row_windows() {
    let ship = ShipPlacement::construct(0, 0, false, 4);
    let cells = PlacementBits::from(ship.to_bits().bitfield(100));
    assert_eq!(cells.get_window(0, 4), Ok(vec![1, 1, 1, 1]));
    assert_eq!(cells.get_window(2, 4), Ok(vec![1, 1, 0, 0]));
    assert_eq!(cells.get_window(10, 4), Ok(vec![0, 0, 0, 0]));
    assert_eq!(cells.get_window(5, 4), Ok(vec![0, 0, 0, 0]));
}

#[test]
fn get_window_rejects_out_of_bounds() {
    let cells = PlacementBits::from(vec![0; 100]);
    // Window would cross the row boundary.
    assert_eq!(
        cells.get_window(7, 4),
        Err("bit window out of bounds".to_string())
    );
    // Window starts off the board.
    assert_eq!(
        cells.get_window(100, 4),
        Err("bit window out of bounds".to_string())
    );
    // A window of the full row width never fits short of the row end.
    assert_eq!(
        cells.get_window(0, 10),
        Err("bit window out of bounds".to_string())
    );
}
