use batched_store::aos::AosRows;
use batched_store::aosoa::{Block, Group, Grouped};
use batched_store::axis_columns::AxisColumns;
use batched_store::column::Column;
use batched_store::flags::{ChangeFlags, Mode};
use batched_store::lanes::{advance_batch, advance_pass, advance_quad, advance_row, Lanes, QUAD};
use batched_store::packed::{Axis, Packed3, Packed4};
use batched_store::particle::Particle;
use batched_store::quads::QuadColumn;
use batched_store::store::{Layout, Store};

fn seed_ints(count: usize) -> Vec<Particle<i32>> {
    (0..count as i32)
        .map(|r| {
            Particle::new(
                Packed3::new(10 + r, 20 + r, 30 + r),
                Packed3::new(1 + r, -r, 2 * r),
            )
        })
        .collect()
}

fn column_of<C: Lanes<Lane = i32>>(values: &[i32]) -> C {
    let mut column = C::empty();
    for value in values {
        column.push(*value);
    }
    column
}

fn lanes_of<C: Lanes<Lane = i32>>(column: &C) -> Vec<i32> {
    (0..column.len()).map(|row| column.get(row)).collect()
}

fn marks_of(flags: &ChangeFlags) -> Vec<bool> {
    (0..flags.len()).map(|row| flags.is_set(row)).collect()
}

#[test]
fn quad_width_is_four() {
    assert_eq!(QUAD, 4);
}

#[test]
fn scalar_column_reads_aligned_quads() {
    let column: Column<i32> = column_of(&[1, 2, 3, 4, 5, 6, 7, 8, 9]);
    assert_eq!(column.len(), 9);
    assert_eq!(column.slots(), 9);
    assert_eq!(column.quad(0), Packed4::new(1, 2, 3, 4));
    assert_eq!(column.quad(4), Packed4::new(5, 6, 7, 8));
    assert_eq!(column.get(8), 9);
}

#[test]
fn scalar_column_writes_quads_and_rows() {
    let mut column: Column<i32> = column_of(&[1, 2, 3, 4, 5, 6, 7, 8, 9]);
    column.store_quad(4, Packed4::new(50, 60, 70, 80));
    column.set(8, 90);
    assert_eq!(lanes_of(&column), vec![1, 2, 3, 4, 50, 60, 70, 80, 90]);
}

#[test]
fn packed_column_shares_slots_between_four_rows() {
    let column: QuadColumn<i32> = column_of(&[1, 2, 3, 4, 5, 6]);
    assert_eq!(column.len(), 6);
    assert_eq!(column.slots(), 2);
    assert_eq!(column.slot(0), Packed4::new(1, 2, 3, 4));
    assert_eq!(column.slot(1), Packed4::new(5, 6, 0, 0));
    assert_eq!(column.quad(0), Packed4::new(1, 2, 3, 4));
    assert_eq!(lanes_of(&column), vec![1, 2, 3, 4, 5, 6]);
}

#[test]
fn packed_column_writes_through_both_views() {
    let mut column: QuadColumn<i32> = column_of(&[1, 2, 3, 4, 5, 6]);
    column.store_quad(0, Packed4::new(10, 20, 30, 40));
    column.set(5, 60);
    assert_eq!(column.slot(0), Packed4::new(10, 20, 30, 40));
    assert_eq!(column.slot(1), Packed4::new(5, 60, 0, 0));
    assert_eq!(lanes_of(&column), vec![10, 20, 30, 40, 5, 60]);
}

#[test]
fn packed_column_slots_round_up() {
    for (rows, slots) in [(0usize, 0usize), (1, 1), (3, 1), (4, 1), (5, 2), (8, 2), (9, 3)] {
        let values: Vec<i32> = (0..rows as i32).collect();
        let column: QuadColumn<i32> = column_of(&values);
        assert_eq!(column.slots(), slots);
        assert_eq!(lanes_of(&column), values);
    }
}

#[test]
fn advance_quad_moves_four_rows_and_no_more() {
    let rates: Column<i32> = column_of(&[1, 2, 3, 4, 5, 6, 7, 8, 9]);
    let mut values: Column<i32> = column_of(&[0; 9]);
    advance_quad(&mut values, &rates, 10, 4);
    assert_eq!(lanes_of(&values), vec![0, 0, 0, 0, 50, 60, 70, 80, 0]);
}

#[test]
fn advance_row_moves_one_row() {
    let rates: QuadColumn<i32> = column_of(&[1, 2, 3, 4, 5, 6]);
    let mut values: QuadColumn<i32> = column_of(&[100; 6]);
    advance_row(&mut values, &rates, -2, 5);
    assert_eq!(lanes_of(&values), vec![100, 100, 100, 100, 100, 88]);
    assert_eq!(values.slot(1), Packed4::new(100, 88, 0, 0));
}

#[test]
fn advance_batch_moves_the_rows_of_one_batch() {
    let rates: Column<i32> = column_of(&[1, 2, 3, 4, 5, 6, 7, 8, 9, 10, 11, 12]);
    let mut by_eight: Column<i32> = column_of(&[0; 12]);
    advance_batch(&mut by_eight, &rates, 10, 0, 8);
    assert_eq!(lanes_of(&by_eight), vec![10, 20, 30, 40, 50, 60, 70, 80, 0, 0, 0, 0]);
    let mut by_three: QuadColumn<i32> = column_of(&[0; 12]);
    advance_batch(&mut by_three, &rates_packed(), 10, 3, 3);
    assert_eq!(lanes_of(&by_three), vec![0, 0, 0, 40, 50, 60, 0, 0, 0, 0, 0, 0]);
}

fn rates_packed() -> QuadColumn<i32> {
    column_of(&[1, 2, 3, 4, 5, 6, 7, 8, 9, 10, 11, 12])
}

#[test]
fn advance_pass_gives_the_same_lanes_for_every_width() {
    let rates: Vec<i32> = (1..=67).collect();
    let start: Vec<i32> = (0..67).map(|r| 1000 - r).collect();
    let expected: Vec<i32> = (0..67).map(|r| 1000 - r + 3 * (r + 1)).collect();
    for width in [0usize, 1, 3, 4, 8, 16, 67, 100] {
        let mut scalar: Column<i32> = column_of(&start);
        let mut flags = ChangeFlags::new(67);
        advance_pass(&mut scalar, &column_of(&rates), 3, &mut flags, Mode::Marked, width);
        assert_eq!(lanes_of(&scalar), expected);
        assert_eq!(marks_of(&flags), vec![true; 67]);
        let mut packed: QuadColumn<i32> = column_of(&start);
        let mut flags = ChangeFlags::new(67);
        advance_pass(&mut packed, &column_of(&rates), 3, &mut flags, Mode::Bypassed, width);
        assert_eq!(lanes_of(&packed), expected);
        assert_eq!(packed.slot(16), Packed4::new(expected[64], expected[65], expected[66], 0));
        assert_eq!(marks_of(&flags), vec![false; 67]);
    }
}

#[test]
fn advance_pass_moves_every_row_of_a_scalar_column() {
    let rates: Column<i32> = column_of(&[1, 2, 3, 4, 5, 6, 7]);
    let mut values: Column<i32> = column_of(&[10, 20, 30, 40, 50, 60, 70]);
    let mut flags = ChangeFlags::new(7);
    advance_pass(&mut values, &rates, 3, &mut flags, Mode::Marked, 4);
    assert_eq!(lanes_of(&values), vec![13, 26, 39, 52, 65, 78, 91]);
    assert_eq!(marks_of(&flags), vec![true; 7]);
}

#[test]
fn advance_pass_moves_every_row_of_a_packed_column() {
    let rates: QuadColumn<i32> = column_of(&[1, 2, 3, 4, 5, 6, 7]);
    let mut values: QuadColumn<i32> = column_of(&[10, 20, 30, 40, 50, 60, 70]);
    let mut flags = ChangeFlags::new(7);
    advance_pass(&mut values, &rates, 3, &mut flags, Mode::Bypassed, 4);
    assert_eq!(lanes_of(&values), vec![13, 26, 39, 52, 65, 78, 91]);
    assert_eq!(values.slot(1), Packed4::new(65, 78, 91, 0));
    assert_eq!(marks_of(&flags), vec![false; 7]);
}

#[test]
fn change_flags_mark_only_what_was_touched() {
    let mut flags = ChangeFlags::new(6);
    flags.touch(Mode::Bypassed, 0, 6);
    assert_eq!(marks_of(&flags), vec![false; 6]);
    flags.touch(Mode::Marked, 2, 3);
    assert_eq!(marks_of(&flags), vec![false, false, true, true, true, false]);
    flags.touch(Mode::Marked, 5, 0);
    assert_eq!(marks_of(&flags), vec![false, false, true, true, true, false]);
    flags.clear();
    assert_eq!(marks_of(&flags), vec![false; 6]);
}

#[test]
fn only_the_body_of_the_own_layout_is_handed_out() {
    let seed = seed_ints(5);
    let aos = Store::create(Layout::Aos, &seed);
    assert!(aos.as_aos().is_some());
    assert!(aos.as_soa().is_none() && aos.as_aosoa().is_none());
    assert!(aos.as_virtual_packed().is_none());
    let soa = Store::create(Layout::Soa, &seed);
    assert!(soa.as_soa().is_some());
    assert!(soa.as_aos().is_none() && soa.as_aosoa().is_none());
    assert!(soa.as_virtual_packed().is_none());
    let aosoa = Store::create(Layout::Aosoa, &seed);
    assert!(aosoa.as_aosoa().is_some());
    assert!(aosoa.as_aos().is_none() && aosoa.as_soa().is_none());
    assert!(aosoa.as_virtual_packed().is_none());
    let packed = Store::create(Layout::VirtualPacked, &seed);
    assert!(packed.as_virtual_packed().is_some());
    assert!(packed.as_aos().is_none() && packed.as_soa().is_none());
    assert!(packed.as_aosoa().is_none());
}

#[test]
fn slots_follow_the_layout() {
    for (rows, grouped, packed) in [(0usize, 0usize, 0usize), (1, 1, 1), (4, 1, 1), (6, 3, 2), (8, 2, 2), (19, 7, 5)] {
        let seed = seed_ints(rows);
        assert_eq!(Store::create(Layout::Aos, &seed).slot_count(), rows);
        assert_eq!(Store::create(Layout::Soa, &seed).slot_count(), rows);
        assert_eq!(Store::create(Layout::Aosoa, &seed).slot_count(), grouped);
        assert_eq!(Store::create(Layout::VirtualPacked, &seed).slot_count(), packed);
    }
}

#[test]
fn rows_of_an_array_sit_side_by_side() {
    let seed = seed_ints(3);
    let store = Store::create(Layout::Aos, &seed);
    let array: &AosRows<i32> = store.as_aos().unwrap();
    assert_eq!(array.len(), 3);
    for row in 0..3 {
        assert_eq!(array.particle(row), seed[row]);
    }
}

#[test]
fn scalar_columns_hold_one_axis_each() {
    let seed = seed_ints(6);
    let store = Store::create(Layout::Soa, &seed);
    let columns: &AxisColumns<Column<i32>> = store.as_soa().unwrap();
    assert_eq!(columns.len(), 6);
    assert_eq!(columns.slots(), 6);
    assert_eq!(lanes_of(columns.position_column(Axis::X)), vec![10, 11, 12, 13, 14, 15]);
    assert_eq!(lanes_of(columns.position_column(Axis::Y)), vec![20, 21, 22, 23, 24, 25]);
    assert_eq!(lanes_of(columns.position_column(Axis::Z)), vec![30, 31, 32, 33, 34, 35]);
    assert_eq!(lanes_of(columns.velocity_column(Axis::X)), vec![1, 2, 3, 4, 5, 6]);
    assert_eq!(lanes_of(columns.velocity_column(Axis::Y)), vec![0, -1, -2, -3, -4, -5]);
    assert_eq!(lanes_of(columns.velocity_column(Axis::Z)), vec![0, 2, 4, 6, 8, 10]);
    assert_eq!(columns.position_column(Axis::X).quad(0), Packed4::new(10, 11, 12, 13));
}

#[test]
fn groups_hold_four_rows_axis_by_axis() {
    let seed = seed_ints(6);
    let store = Store::create(Layout::Aosoa, &seed);
    let grouped: &Grouped<i32> = store.as_aosoa().unwrap();
    assert_eq!(grouped.len(), 6);
    assert_eq!(grouped.slots(), 3);
    let group = grouped.group(0);
    assert_eq!(
        group,
        Group {
            position: Block {
                x: Packed4::new(10, 11, 12, 13),
                y: Packed4::new(20, 21, 22, 23),
                z: Packed4::new(30, 31, 32, 33),
            },
            velocity: Block {
                x: Packed4::new(1, 2, 3, 4),
                y: Packed4::new(0, -1, -2, -3),
                z: Packed4::new(0, 2, 4, 6),
            },
        }
    );
    assert_eq!(group.particle_at(2), seed[2]);
    assert_eq!(group.position.get(Axis::Y), Packed4::new(20, 21, 22, 23));
    assert_eq!(group.velocity.entity_at(3), Packed3::new(4, -3, 6));
    assert_eq!(grouped.leftover(0), seed[4]);
    assert_eq!(grouped.leftover(1), seed[5]);
}

#[test]
fn group_gathers_and_moves_four_rows() {
    let seed = seed_ints(4);
    let mut group = Group::gather(seed[0], seed[1], seed[2], seed[3]);
    for lane in 0..4 {
        assert_eq!(group.particle_at(lane), seed[lane]);
    }
    group.advance_on(Axis::X, 2);
    assert_eq!(group.position.x, Packed4::new(12, 15, 18, 21));
    assert_eq!(group.position.y, Packed4::new(20, 21, 22, 23));
    group.advance(1);
    assert_eq!(group.position.x, Packed4::new(13, 17, 21, 25));
    assert_eq!(group.position.y, Packed4::new(20, 20, 20, 20));
    assert_eq!(group.position.z, Packed4::new(30, 33, 36, 39));
    let mut block = group.velocity;
    block.set(Axis::Z, Packed4::splat(9));
    assert_eq!(block.get(Axis::Z), Packed4::splat(9));
    assert_eq!(block.get(Axis::X), Packed4::new(1, 2, 3, 4));
}

#[test]
fn packed_columns_hold_four_rows_per_slot() {
    let seed = seed_ints(6);
    let mut store = Store::create(Layout::VirtualPacked, &seed);
    {
        let columns: &AxisColumns<QuadColumn<i32>> = store.as_virtual_packed().unwrap();
        assert_eq!(columns.len(), 6);
        assert_eq!(columns.slots(), 2);
        assert_eq!(columns.position_column(Axis::X).slot(0), Packed4::new(10, 11, 12, 13));
        assert_eq!(columns.position_column(Axis::X).slot(1), Packed4::new(14, 15, 0, 0));
        assert_eq!(columns.velocity_column(Axis::Z).slot(1), Packed4::new(8, 10, 0, 0));
    }
    store.step(2, Mode::Marked);
    let columns = store.as_virtual_packed().unwrap();
    assert_eq!(columns.position_column(Axis::X).slot(0), Packed4::new(12, 15, 18, 21));
    assert_eq!(columns.position_column(Axis::X).slot(1), Packed4::new(24, 27, 0, 0));
    assert_eq!(columns.position_column(Axis::Z).slot(1), Packed4::new(50, 55, 0, 0));
}

#[test]
fn one_axis_pass_leaves_the_other_axes_alone() {
    let seed = seed_ints(7);
    let mut columns: AxisColumns<Column<i32>> = AxisColumns::from_particles(&seed);
    let mut grouped = Grouped::from_particles(&seed);
    let mut flags = ChangeFlags::new(7);
    columns.advance_axis(Axis::Y, 5, &mut flags, Mode::Bypassed, 4);
    grouped.advance_axis(Axis::Y, 5, &mut flags, Mode::Marked);
    for row in 0..7 {
        let r = row as i32;
        let expected = Particle::new(Packed3::new(10 + r, 20 + r - 5 * r, 30 + r), seed[row].velocity);
        assert_eq!(columns.particle(row), expected);
        assert_eq!(grouped.particle(row), expected);
    }
    assert_eq!(marks_of(&flags), vec![true; 7]);
}

#[test]
fn array_steps_agree_row_by_row_and_in_batches() {
    let seed = seed_ints(11);
    let mut plain = AosRows::from_particles(&seed);
    let mut turned = AosRows::from_particles(&seed);
    let mut flags = ChangeFlags::new(11);
    plain.step(7, &mut flags, Mode::Bypassed);
    turned.step_fused(7, &mut flags, Mode::Bypassed);
    for row in 0..11 {
        let r = row as i32;
        let expected = Packed3::new(10 + r + 7 * (1 + r), 20 + r - 7 * r, 30 + r + 14 * r);
        assert_eq!(plain.particle(row).position, expected);
        assert_eq!(turned.particle(row).position, expected);
    }
}

#[test]
fn particle_moves_along_one_axis_or_all() {
    let mut p = Particle::new(Packed3::new(1, 2, 3), Packed3::new(10, 20, 30));
    p.advance_on(Axis::Z, 2);
    assert_eq!(p.position, Packed3::new(1, 2, 63));
    p.advance(1);
    assert_eq!(p.position, Packed3::new(11, 22, 93));
    assert_eq!(p.velocity, Packed3::new(10, 20, 30));
}
