use batched_store::flags::Mode;
use batched_store::packed::Packed3;
use batched_store::particle::Particle;
use batched_store::scalar::Scalar;
use batched_store::store::{Layout, Store};

#[derive(Clone, Copy, Debug, PartialEq)]
struct Real(f32);

impl Scalar for Real {
    fn sum(self, rhs: Self) -> Self {
        Real(self.0 + rhs.0)
    }

    fn product(self, rhs: Self) -> Self {
        Real(self.0 * rhs.0)
    }

    fn zero_value() -> Self {
        Real(0.0)
    }

    fn plus(self, rhs: Self) -> Self {
        Real(self.0 + rhs.0)
    }

    fn times(self, rhs: Self) -> Self {
        Real(self.0 * rhs.0)
    }

    fn zero() -> Self {
        Real(0.0)
    }
}

const LAYOUTS: [Layout; 4] = [Layout::Aos, Layout::Soa, Layout::Aosoa, Layout::VirtualPacked];

fn real3(x: f32, y: f32, z: f32) -> Packed3<Real> {
    Packed3::new(Real(x), Real(y), Real(z))
}

fn seed_reals(count: usize) -> Vec<Particle<Real>> {
    let mut seed = Vec::new();
    let mut state: u32 = 0x2545_f491;
    let mut draw = || {
        state ^= state << 13;
        state ^= state >> 17;
        state ^= state << 5;
        (state % 32_001) as f32 / 1000.0 - 16.0
    };
    for _ in 0..count {
        let position = real3(draw(), draw(), draw());
        let velocity = real3(draw(), draw(), draw());
        seed.push(Particle::new(position, velocity));
    }
    seed
}

fn seed_ints(count: usize) -> Vec<Particle<i32>> {
    let mut seed = Vec::new();
    for row in 0..count {
        let r = row as i32;
        seed.push(Particle::new(
            Packed3::new(r, -r, 100 + r),
            Packed3::new(1 + r, 2 * r, -3 - r),
        ));
    }
    seed
}

fn rows_of<S: Scalar>(store: &Store<S>) -> Vec<Particle<S>> {
    (0..store.row_count()).map(|row| store.particle(row)).collect()
}

fn marks_of<S: Scalar>(store: &Store<S>) -> Vec<bool> {
    (0..store.row_count()).map(|row| store.is_dirty(row)).collect()
}

#[test]
fn five_rows_in_columns_move_two_along_x() {
    let seed = vec![Particle::new(real3(0.0, 0.0, 0.0), real3(1.0, 0.0, 0.0)); 5];
    let mut store = Store::create(Layout::Soa, &seed);
    store.step(Real(2.0), Mode::Marked);
    assert_eq!(store.row_count(), 5);
    for row in 0..5 {
        assert_eq!(store.position(row), real3(2.0, 0.0, 0.0));
        assert_eq!(store.velocity(row), real3(1.0, 0.0, 0.0));
        assert!(store.is_dirty(row));
    }
}

#[test]
fn six_rows_in_groups_move_like_six_rows_in_columns() {
    let mut seed = Vec::new();
    for row in 0..6 {
        seed.push(Particle::new(
            real3(0.0, 0.0, 0.0),
            real3((row + 1) as f32, 0.0, 0.0),
        ));
    }
    for mode in [Mode::Marked, Mode::Bypassed] {
        let mut grouped = Store::create(Layout::Aosoa, &seed);
        let mut columns = Store::create(Layout::Soa, &seed);
        grouped.step(Real(1.0), mode);
        columns.step(Real(1.0), mode);
        let xs: Vec<f32> = (0..6).map(|row| grouped.position(row).x.0).collect();
        assert_eq!(xs, vec![1.0, 2.0, 3.0, 4.0, 5.0, 6.0]);
        for row in 0..6 {
            assert_eq!(grouped.position(row).y, Real(0.0));
            assert_eq!(grouped.position(row).z, Real(0.0));
        }
        assert_eq!(rows_of(&grouped), rows_of(&columns));
    }
}

#[test]
fn create_keeps_the_seed_under_every_layout() {
    for count in [0usize, 1, 3, 4, 5, 8, 19] {
        let seed = seed_reals(count);
        for layout in LAYOUTS {
            let store = Store::create(layout, &seed);
            assert_eq!(store.layout(), layout);
            assert_eq!(store.row_count(), count);
            assert_eq!(rows_of(&store), seed);
            assert_eq!(marks_of(&store), vec![false; count]);
        }
    }
}

#[test]
fn step_moves_every_row_by_its_own_velocity() {
    let seed = seed_ints(7);
    for layout in LAYOUTS {
        let mut store = Store::create(layout, &seed);
        store.step(3, Mode::Bypassed);
        for row in 0..7 {
            let r = row as i32;
            assert_eq!(
                store.position(row),
                Packed3::new(r + 3 * (1 + r), -r + 6 * r, 100 + r - 3 * (3 + r))
            );
            assert_eq!(store.velocity(row), seed[row].velocity);
        }
    }
}

#[test]
fn layouts_agree_bit_for_bit_after_the_same_steps() {
    let dts = vec![Real(0.016), Real(0.033), Real(1.0), Real(-0.5), Real(0.1)];
    for count in [0usize, 1, 3, 4, 5, 8, 19, 67] {
        let seed = seed_reals(count);
        let mut reference = Store::create(Layout::Aos, &seed);
        reference.run(&dts, Mode::Bypassed);
        let expected: Vec<[u32; 3]> = rows_of(&reference)
            .iter()
            .map(|p| [p.position.x.0.to_bits(), p.position.y.0.to_bits(), p.position.z.0.to_bits()])
            .collect();
        for layout in LAYOUTS {
            let mut store = Store::create(layout, &seed);
            for dt in &dts {
                store.step(*dt, Mode::Marked);
            }
            let got: Vec<[u32; 3]> = rows_of(&store)
                .iter()
                .map(|p| {
                    [p.position.x.0.to_bits(), p.position.y.0.to_bits(), p.position.z.0.to_bits()]
                })
                .collect();
            assert_eq!(got, expected);
        }
    }
}

#[test]
fn step_matches_the_formula_on_reals() {
    let seed = seed_reals(9);
    for layout in LAYOUTS {
        let mut store = Store::create(layout, &seed);
        store.step(Real(0.25), Mode::Bypassed);
        for row in 0..9 {
            let p = seed[row].position;
            let v = seed[row].velocity;
            assert_eq!(store.position(row).x.0, p.x.0 + 0.25 * v.x.0);
            assert_eq!(store.position(row).y.0, p.y.0 + 0.25 * v.y.0);
            assert_eq!(store.position(row).z.0, p.z.0 + 0.25 * v.z.0);
        }
    }
}

#[test]
fn fused_step_gives_the_result_of_step() {
    for count in [0usize, 1, 4, 6, 19] {
        let seed = seed_reals(count);
        for layout in LAYOUTS {
            let mut plain = Store::create(layout, &seed);
            let mut fused = Store::create(layout, &seed);
            plain.step(Real(0.5), Mode::Marked);
            fused.step_fused(Real(0.5), Mode::Marked);
            assert_eq!(rows_of(&fused), rows_of(&plain));
            assert_eq!(marks_of(&fused), marks_of(&plain));
        }
    }
}

#[test]
fn batch_width_does_not_change_the_result() {
    let seed = seed_reals(37);
    for layout in LAYOUTS {
        let mut plain = Store::create(layout, &seed);
        plain.step(Real(0.3), Mode::Marked);
        for width in [0usize, 1, 3, 4, 8, 16, 37, 64] {
            let mut batched = Store::create(layout, &seed);
            batched.step_batched(Real(0.3), Mode::Marked, width);
            assert_eq!(rows_of(&batched), rows_of(&plain));
            assert_eq!(marks_of(&batched), vec![true; 37]);
        }
    }
}

#[test]
fn zero_step_leaves_positions_unchanged() {
    let ints = seed_ints(11);
    let reals = seed_reals(11);
    for layout in LAYOUTS {
        for mode in [Mode::Marked, Mode::Bypassed] {
            let mut store = Store::create(layout, &ints);
            store.step(0, mode);
            assert_eq!(rows_of(&store), ints);
            let mut store = Store::create(layout, &reals);
            store.step(Real(0.0), mode);
            assert_eq!(rows_of(&store), reals);
        }
    }
}

#[test]
fn two_steps_equal_one_step_of_twice_the_length() {
    let seed = seed_ints(10);
    for layout in LAYOUTS {
        let mut twice = Store::create(layout, &seed);
        twice.step(21, Mode::Bypassed);
        twice.step(21, Mode::Bypassed);
        let mut once = Store::create(layout, &seed);
        once.step(42, Mode::Bypassed);
        assert_eq!(rows_of(&twice), rows_of(&once));
    }
}

#[test]
fn two_steps_equal_one_step_where_integers_wrap() {
    let seed = vec![Particle::new(
        Packed3::new(i32::MAX, i32::MIN, 7),
        Packed3::new(i32::MAX, 3, i32::MIN),
    )];
    let mut twice = Store::create(Layout::Soa, &seed);
    twice.step(0x4000_0001, Mode::Bypassed);
    twice.step(0x4000_0001, Mode::Bypassed);
    let mut once = Store::create(Layout::VirtualPacked, &seed);
    once.step(0x4000_0001i32.wrapping_add(0x4000_0001), Mode::Bypassed);
    assert_eq!(rows_of(&twice), rows_of(&once));
}

#[test]
fn two_real_steps_stay_close_to_one_of_twice_the_length() {
    let seed = seed_reals(16);
    let mut twice = Store::create(Layout::Aosoa, &seed);
    twice.step(Real(0.125), Mode::Bypassed);
    twice.step(Real(0.125), Mode::Bypassed);
    let mut once = Store::create(Layout::Soa, &seed);
    once.step(Real(0.25), Mode::Bypassed);
    for row in 0..16 {
        let a = twice.position(row);
        let b = once.position(row);
        assert!((a.x.0 - b.x.0).abs() <= 1e-4);
        assert!((a.y.0 - b.y.0).abs() <= 1e-4);
        assert!((a.z.0 - b.z.0).abs() <= 1e-4);
    }
}

#[test]
fn modes_differ_in_the_marks_alone() {
    let seed = seed_reals(6);
    for layout in LAYOUTS {
        let mut marked = Store::create(layout, &seed);
        let mut bypassed = Store::create(layout, &seed);
        marked.step(Real(0.75), Mode::Marked);
        bypassed.step(Real(0.75), Mode::Bypassed);
        assert_eq!(rows_of(&marked), rows_of(&bypassed));
        assert_eq!(marks_of(&marked), vec![true; 6]);
        assert_eq!(marks_of(&bypassed), vec![false; 6]);
    }
}

#[test]
fn marks_last_until_cleared() {
    let seed = seed_ints(5);
    for layout in LAYOUTS {
        let mut store = Store::create(layout, &seed);
        store.step_fused(1, Mode::Marked);
        store.step(1, Mode::Bypassed);
        assert_eq!(marks_of(&store), vec![true; 5]);
        let before = rows_of(&store);
        store.clear_dirty();
        assert_eq!(marks_of(&store), vec![false; 5]);
        assert_eq!(rows_of(&store), before);
        assert_eq!(store.layout(), layout);
    }
}

#[test]
fn empty_store_steps_without_rows() {
    let seed: Vec<Particle<i32>> = Vec::new();
    for layout in LAYOUTS {
        let mut store = Store::create(layout, &seed);
        store.step(5, Mode::Marked);
        store.step_fused(5, Mode::Marked);
        assert_eq!(store.row_count(), 0);
    }
}

#[test]
fn run_takes_the_steps_in_order() {
    let seed = seed_ints(6);
    for layout in LAYOUTS {
        let mut ran = Store::create(layout, &seed);
        ran.run(&vec![1, 2, 3], Mode::Marked);
        let mut stepped = Store::create(layout, &seed);
        stepped.step(1, Mode::Marked);
        stepped.step(2, Mode::Marked);
        stepped.step(3, Mode::Marked);
        assert_eq!(rows_of(&ran), rows_of(&stepped));
        assert_eq!(marks_of(&ran), vec![true; 6]);
        let mut idle = Store::create(layout, &seed);
        idle.run(&Vec::new(), Mode::Marked);
        assert_eq!(rows_of(&idle), seed);
        assert_eq!(marks_of(&idle), vec![false; 6]);
    }
}
