use battleship::chip::bit_count_gate;
use battleship::chip::carry_forward_gate;
use battleship::chip::compose_bits;
use battleship::chip::full_window_gate;
use battleship::chip::orientation_gate;
use battleship::chip::ConstraintKind;
use battleship::chip::PlacementChip;
use battleship::chip::PlacementError;
use battleship::gadget::window_checked;
use battleship::gadget::PlacementGadget;
use battleship::gadget::PlacementState;
use battleship::ship::ShipPlacement;

fn chip(length: usize) -> PlacementChip {
    PlacementChip::new(PlacementChip::configure(length))
}

/// The orientation commitments of an honest prover: the ship's composed
/// decomposition under its own orientation, zero under the other.
fn commitments(gadget: &PlacementGadget) -> (u128, u128) {
    let value = compose_bits(&gadget.bits);
    if gadget.ship.z {
        (0, value)
    } else {
        (value, 0)
    }
}

#[test]
fn scenario_full_row_start() {
    // Ship of length 4 at row 0, cells 0..4 set, everything else 0.
    let ship = ShipPlacement::construct(0, 0, false, 4);
    let gadget = PlacementGadget::new(ship);
    assert_eq!(&gadget.bits[0..4], &[1, 1, 1, 1]);
    assert!(gadget.bits[4..].iter().all(|&b| b == 0));
    assert_eq!(gadget.bit_sum[99], 4);
    assert_eq!(gadget.full_window_sum[99], 1);
    let (h, v) = commitments(&gadget);
    assert_eq!(h, 0b1111);
    assert_eq!(v, 0);
    assert_eq!(chip(4).synthesize(h, v, &gadget), Ok(()));
}

#[test]
fn every_valid_placement_is_satisfied() {
    for length in 1..=9u8 {
        let chip = chip(length as usize);
        for &z in &[false, true] {
            for x in 0..10u8 {
                for y in 0..10u8 {
                    let ship = ShipPlacement::construct(x, y, z, length);
                    if ship.is_valid() {
                        let gadget = PlacementGadget::new(ship);
                        let (h, v) = commitments(&gadget);
                        assert_eq!(chip.synthesize(h, v, &gadget), Ok(()));
                    }
                }
            }
        }
    }
}

fn run_bits(start: usize, length: usize) -> Vec<u64> {
    let mut bits = vec![0u64; 100];
    for i in start..start + length {
        bits[i] = 1;
    }
    bits
}

fn unsatisfied(r: Result<(), PlacementError>) -> Vec<battleship::chip::ConstraintViolation> {
    match r {
        Err(PlacementError::Unsatisfied(vs)) => vs,
        other => panic!("expected an unsatisfied schedule, got {:?}", other),
    }
}

#[test]
fn scenario_row_crossing_run() {
    // Naive encoding marks cells 8, 9 of row 0 and 0, 1 of row 1 as if
    // contiguous: the carry-forward gate is active at offset 8, so no full
    // window is ever counted.
    let ship = ShipPlacement::construct(8, 0, false, 4);
    let gadget = PlacementGadget::from_bits(ship, run_bits(8, 4)).unwrap();
    assert_eq!(gadget.bit_sum[99], 4);
    assert_eq!(gadget.full_window_sum[99], 0);
    let value = compose_bits(&gadget.bits);
    let vs = unsatisfied(chip(4).synthesize(value, 0, &gadget));
    assert_eq!(vs.len(), 1);
    assert_eq!(vs[0].kind, ConstraintKind::FinalWindowCount);
    assert_eq!(vs[0].row, 100);
    assert_eq!(vs[0].values.0, 0);
    assert_eq!(vs[0].values.1, 1);
}

#[test]
fn count_mismatch_fails_final_bit_count() {
    // Three set cells against a circuit configured for length 4.
    let ship = ShipPlacement::construct(0, 0, false, 4);
    let gadget = PlacementGadget::from_bits(ship, run_bits(0, 3)).unwrap();
    let value = compose_bits(&gadget.bits);
    let vs = unsatisfied(chip(4).synthesize(value, 0, &gadget));
    assert!(vs
        .iter()
        .any(|v| v.kind == ConstraintKind::FinalBitCount && v.row == 100 && v.values.0 == 3
            && v.values.1 == 4));
}

#[test]
fn both_orientations_fail_at_region_row_zero() {
    let ship = ShipPlacement::construct(3, 2, false, 4);
    let gadget = PlacementGadget::new(ship);
    let (h, _) = commitments(&gadget);
    let vs = unsatisfied(chip(4).synthesize(h, 5, &gadget));
    assert_eq!(vs[0].kind, ConstraintKind::OrientationExclusive);
    assert_eq!(vs[0].row, 0);
    assert_eq!(vs[0].values.0, h);
    assert_eq!(vs[0].values.1, 5);
}

#[test]
fn decomposition_mismatch_is_reported() {
    let ship = ShipPlacement::construct(3, 2, false, 4);
    let gadget = PlacementGadget::new(ship);
    let (h, v) = commitments(&gadget);
    let vs = unsatisfied(chip(4).synthesize(h + 1, v, &gadget));
    assert_eq!(vs.len(), 1);
    assert_eq!(vs[0].kind, ConstraintKind::Decomposition);
    assert_eq!(vs[0].row, 0);
    assert_eq!(vs[0].values.0, h + 1);
    assert_eq!(vs[0].values.1, h);
}

#[test]
fn tampered_bit_count_trace_fails_its_rows() {
    let ship = ShipPlacement::construct(3, 2, false, 4);
    let mut gadget = PlacementGadget::new(ship);
    gadget.bit_sum[50] += 1;
    let (h, v) = commitments(&gadget);
    let vs = unsatisfied(chip(4).synthesize(h, v, &gadget));
    // Region rows are 1-based: trace cell 50 sits on row 51, and the next
    // row sees a wrong previous value.
    let rows: Vec<usize> = vs
        .iter()
        .filter(|v| v.kind == ConstraintKind::BitCountStep)
        .map(|v| v.row)
        .collect();
    assert_eq!(rows, vec![51, 52]);
}

#[test]
fn tampered_window_trace_fails_window_and_carry_gates() {
    let ship = ShipPlacement::construct(3, 2, false, 4);
    let mut gadget = PlacementGadget::new(ship);
    // Cell 0 is an in-row window for length 4; claiming an increment there
    // violates the full-window gate of row 1.
    gadget.full_window_sum[0] = 1;
    let (h, v) = commitments(&gadget);
    let vs = unsatisfied(chip(4).synthesize(h, v, &gadget));
    assert!(vs
        .iter()
        .any(|v| v.kind == ConstraintKind::WindowStep && v.row == 1));

    // Cell 7 is a carry cell for length 4 (7 + 4 crosses the row end);
    // claiming an increment there violates the carry-forward gate of row 8.
    let mut gadget = PlacementGadget::new(ship);
    gadget.full_window_sum[7] += 1;
    let (h, v) = commitments(&gadget);
    let vs = unsatisfied(chip(4).synthesize(h, v, &gadget));
    assert!(vs
        .iter()
        .any(|v| v.kind == ConstraintKind::WindowCarry && v.row == 8));
}

#[test]
fn malformed_witnesses_are_rejected_eagerly() {
    let ship = ShipPlacement::construct(0, 0, false, 4);
    // Wrong column length.
    assert!(PlacementGadget::from_bits(ship, vec![0; 99]).is_err());
    // A cell that is not a bit.
    let mut bits = vec![0u64; 100];
    bits[17] = 2;
    assert!(PlacementGadget::from_bits(ship, bits).is_err());
    // A hand-built witness of the wrong shape is rejected as malformed.
    let mut gadget = PlacementGadget::new(ship);
    gadget.bit_sum.pop();
    match chip(4).synthesize(0b1111, 0, &gadget) {
        Err(PlacementError::Malformed(_)) => {}
        other => panic!("expected a malformed witness error, got {:?}", other),
    }
}

#[test]
fn configure_builds_the_indicator_table() {
    let config = PlacementChip::configure(4);
    assert_eq!(config.ship_length, 4);
    assert_eq!(config.indicator, vec![0, 0, 0, 0, 1]);
    let config = PlacementChip::configure(1);
    assert_eq!(config.indicator, vec![0, 1]);
}

#[test]
fn gate_names_match_their_clauses() {
    assert_eq!(
        ConstraintKind::FinalWindowCount.gate_name(),
        "one full bit window"
    );
    assert_eq!(
        ConstraintKind::FinalBitCount.gate_name(),
        "placed ship of correct length"
    );
    assert_eq!(ConstraintKind::BitCountStep.gate_name(), "bit count running sum");
}

#[test]
fn gates_evaluate_their_clauses() {
    // Orientation: both commitments nonzero, sum consistent.
    let vs = orientation_gate(5, 2, 3);
    assert_eq!(vs.len(), 1);
    assert_eq!(vs[0].kind, ConstraintKind::OrientationExclusive);
    // Orientation: sum clause broken.
    let vs = orientation_gate(7, 2, 0);
    assert_eq!(vs.len(), 1);
    assert_eq!(vs[0].kind, ConstraintKind::OrientationSum);
    assert_eq!((vs[0].values.0, vs[0].values.1, vs[0].values.2), (7, 2, 0));
    // Orientation satisfied.
    assert!(orientation_gate(2, 2, 0).is_empty());

    assert!(bit_count_gate(9, 3, 4, 1).is_none());
    let v = bit_count_gate(9, 3, 5, 1).unwrap();
    assert_eq!((v.kind, v.row), (ConstraintKind::BitCountStep, 9));

    let config = PlacementChip::configure(4);
    assert!(full_window_gate(&config, 10, 0, 1, 4).is_none());
    assert!(full_window_gate(&config, 10, 0, 0, 3).is_none());
    let v = full_window_gate(&config, 10, 0, 1, 3).unwrap();
    assert_eq!((v.kind, v.row), (ConstraintKind::WindowStep, 10));

    assert!(carry_forward_gate(11, 2, 2).is_none());
    let v = carry_forward_gate(11, 2, 3).unwrap();
    assert_eq!((v.kind, v.row), (ConstraintKind::WindowCarry, 11));
}

#[test]
fn finalization_gate_checks_both_totals() {
    let chip = chip(4);
    assert!(chip.assign_constraint(&PlacementState::new(4, 1)).is_empty());
    let vs = chip.assign_constraint(&PlacementState::new(3, 0));
    assert_eq!(vs.len(), 2);
    assert_eq!(vs[0].kind, ConstraintKind::FinalBitCount);
    assert_eq!(vs[1].kind, ConstraintKind::FinalWindowCount);
}

#[test]
fn compose_bits_weights_little_endian() {
    let mut bits = vec![0u64; 100];
    bits[0] = 1;
    bits[1] = 1;
    bits[10] = 1;
    assert_eq!(compose_bits(&bits), 1 + 2 + (1 << 10));
    bits = vec![0u64; 100];
    bits[99] = 1;
    assert_eq!(compose_bits(&bits), 1u128 << 99);
}

#[test]
fn selector_schedule_follows_row_windows() {
    // Length 4: cells 0..6 of each row look ahead within the row.
    for cell in 0..100 {
        assert_eq!(window_checked(cell, 4), cell % 10 + 4 < 10);
    }
    // A window of the full row width is never checked.
    for cell in 0..100 {
        assert!(!window_checked(cell, 10));
    }
}

#[test]
fn padding_row_is_zero() {
    let state = PlacementState::assign_padding_row();
    assert_eq!((state.bit_sum, state.full_window_sum), (0, 0));
}

/// Enumerate witnesses holding one or two runs and confirm that the
/// structurally infeasible (bit count, window count) pairs never occur:
/// fewer set bits than the ship length can never yield a counted window,
/// and exactly the ship length of set bits can never yield more than one.
#[test]
fn infeasible_count_window_combinations() {
    let length = 4usize;
    let mut check = |bits: Vec<u64>| {
        let trace = PlacementGadget::assign_trace(&bits, length);
        let count = trace.0[99];
        let windows = trace.1[99];
        assert!(!(count < length as u64 && windows >= 1));
        assert!(!(count == length as u64 && windows > 1));
    };
    for start in 0..100usize {
        for run in 0..=6usize {
            if start + run <= 100 {
                check(run_bits(start, run));
            }
        }
    }
    // Two disjoint runs.
    for first in 0..100usize {
        for first_len in 1..=4usize {
            if first + first_len > 100 {
                continue;
            }
            for second in first + first_len..100usize {
                for second_len in 1..=4usize {
                    if second + second_len > 100 {
                        continue;
                    }
                    let mut bits = run_bits(first, first_len);
                    for i in second..second + second_len {
                        bits[i] = 1;
                    }
                    check(bits);
                }
            }
        }
    }
}
