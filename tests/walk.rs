use rand::{SeedableRng, StdRng};
use theo4_blatt1::vector::Vector3D;
use theo4_blatt1::walk::{random_walk_discrete, sweep_discrete, total_squared_displacement_discrete};

fn seeded() -> StdRng {
    SeedableRng::from_seed(&[1usize, 42, 3, 7][..])
}

#[test]
fn zero_steps_stay_at_origin() {
    let mut rng = seeded();
    assert_eq!(Vector3D::null_vector(), random_walk_discrete(&mut rng, 0));
    assert_eq!(0, total_squared_displacement_discrete(&mut rng, 0, 1000));
}

#[test]
fn one_step_is_an_axis_move() {
    let mut rng = seeded();
    let moves = [
        Vector3D::new(1, 0, 0),
        Vector3D::new(-1, 0, 0),
        Vector3D::new(0, 1, 0),
        Vector3D::new(0, -1, 0),
        Vector3D::new(0, 0, 1),
        Vector3D::new(0, 0, -1),
    ];
    for _ in 0..200 {
        let p = random_walk_discrete(&mut rng, 1);
        assert!(moves.contains(&p));
        assert_eq!(1, p.norm_squared());
    }
}

#[test]
fn walk_stays_within_step_count_and_parity() {
    let mut rng = seeded();
    for steps in 0..40usize {
        let p = random_walk_discrete(&mut rng, steps);
        let taxicab = p.x.abs() + p.y.abs() + p.z.abs();
        assert!(taxicab <= steps as i64);
        assert_eq!(taxicab % 2, steps as i64 % 2);
    }
}

#[test]
fn all_six_moves_are_drawn() {
    let mut rng = seeded();
    let mut seen = std::collections::HashSet::new();
    for _ in 0..600 {
        let p = random_walk_discrete(&mut rng, 1);
        seen.insert((p.x, p.y, p.z));
    }
    assert_eq!(6, seen.len());
}

#[test]
fn one_step_total_is_trial_count() {
    let mut rng = seeded();
    assert_eq!(500, total_squared_displacement_discrete(&mut rng, 1, 500));
    assert_eq!(0, total_squared_displacement_discrete(&mut rng, 7, 0));
}

#[test]
fn seeded_runs_are_identical() {
    let mut first = seeded();
    let mut second = seeded();
    let a = sweep_discrete(&mut first, 20, 2000);
    let b = sweep_discrete(&mut second, 20, 2000);
    assert_eq!(a, b);
}

#[test]
fn discrete_mean_grows_linearly() {
    let mut rng = seeded();
    let trials = 4000usize;
    for steps in [5usize, 10, 20, 40] {
        let total = total_squared_displacement_discrete(&mut rng, steps, trials);
        let mean = total as f64 / trials as f64;
        let expected = steps as f64;
        assert!((mean - expected).abs() < 0.1 * expected, "steps {} mean {}", steps, mean);
        let step_length = 2.0f64;
        let scaled = step_length * step_length * mean;
        assert!((scaled - expected * 4.0).abs() < 0.4 * expected);
    }
}

#[test]
fn sweep_of_five_step_counts() {
    let mut rng = seeded();
    let totals = sweep_discrete(&mut rng, 5, 10_000);
    assert_eq!(5, totals.len());
    assert_eq!(0, totals[0]);
    for n in 1..5 {
        assert!(totals[n] >= totals[n - 1]);
    }
    let lines: Vec<String> = totals
        .iter()
        .enumerate()
        .map(|(i, t)| format!("{} {}", i, 4.0 * (*t as f64) / 10_000.0))
        .collect();
    assert_eq!("0 0", lines[0]);
}
