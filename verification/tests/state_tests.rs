use gray_scott::fixed::SCALE;
use gray_scott::grid::{ConfigError, Grid};
use gray_scott::params::ModelParameters;
use gray_scott::state::{InitConfig, SimulationState, StepError};
use gray_scott::step::step;

fn typical_config() -> InitConfig {
    InitConfig {
        width: 8,
        height: 8,
        seed_row: 3,
        seed_col: 3,
        seed_height: 2,
        seed_width: 2,
        base_u: SCALE,
        base_v: 0,
        seed_u: SCALE / 2,
        seed_v: SCALE / 4,
        noise_amplitude: SCALE / 10,
        rng_seed: 88172645463325252,
    }
}

fn typical_params() -> ModelParameters {
    ModelParameters {
        feed_rate: 41943,
        kill_rate: 64487,
        diffusion_u: 20,
        diffusion_v: 10,
        cell_spacing: 10486,
        time_delta: SCALE,
    }
}

fn cells_of(g: &Grid) -> Vec<i64> {
    let mut out = Vec::new();
    for r in 0..g.height() {
        for c in 0..g.width() {
            out.push(g.get(r, c));
        }
    }
    out
}

#[test]
fn initial_state_is_deterministic() {
    let a = SimulationState::initial_state(&typical_config()).unwrap();
    let b = SimulationState::initial_state(&typical_config()).unwrap();
    assert_eq!(cells_of(a.field_u()), cells_of(b.field_u()));
    assert_eq!(cells_of(a.field_v()), cells_of(b.field_v()));
    assert_eq!(a.generation(), 0);
}

#[test]
fn initial_state_respects_base_seed_and_noise_bounds() {
    let cfg = typical_config();
    let st = SimulationState::initial_state(&cfg).unwrap();
    let amp = cfg.noise_amplitude;
    for r in 0..8usize {
        for c in 0..8usize {
            let in_seed = (3..5).contains(&r) && (3..5).contains(&c);
            let (bu, bv) = if in_seed {
                (cfg.seed_u, cfg.seed_v)
            } else {
                (cfg.base_u, cfg.base_v)
            };
            let uc = st.field_u().get(r, c);
            let vc = st.field_v().get(r, c);
            assert!(bu <= uc && uc < bu + amp, "u out of noise band at {r},{c}");
            assert!(bv <= vc && vc < bv + amp, "v out of noise band at {r},{c}");
        }
    }
}

#[test]
fn initial_state_rejects_bad_configurations() {
    let mut cfg = typical_config();
    cfg.width = 1;
    assert_eq!(
        SimulationState::initial_state(&cfg).err().unwrap(),
        ConfigError::DimensionTooSmall
    );
    let mut cfg = typical_config();
    cfg.height = 5000;
    assert_eq!(
        SimulationState::initial_state(&cfg).err().unwrap(),
        ConfigError::DimensionTooLarge
    );
    let mut cfg = typical_config();
    cfg.seed_col = 7;
    assert_eq!(
        SimulationState::initial_state(&cfg).err().unwrap(),
        ConfigError::SeedRegionOutOfBounds
    );
    let mut cfg = typical_config();
    cfg.noise_amplitude = -1;
    assert_eq!(
        SimulationState::initial_state(&cfg).err().unwrap(),
        ConfigError::ValueOutOfBounds
    );
    let mut cfg = typical_config();
    cfg.base_u = 0x200_0000;
    assert_eq!(
        SimulationState::initial_state(&cfg).err().unwrap(),
        ConfigError::ValueOutOfBounds
    );
}

#[test]
fn pairing_rejects_mismatched_dimensions() {
    let u = Grid::new(4, 4, SCALE).unwrap();
    let v = Grid::new(4, 5, 0).unwrap();
    assert_eq!(
        SimulationState::new(u, v).err().unwrap(),
        ConfigError::DimensionMismatch
    );
}

#[test]
fn step_batch_matches_manual_steps_and_counts_generations() {
    let mut st = SimulationState::initial_state(&typical_config()).unwrap();
    let p = typical_params();

    // the same trajectory stepped by hand
    let mut mu = st.field_u().clone();
    let mut mv = st.field_v().clone();
    for _ in 0..3 {
        let next = step(&mu, &mv, &p);
        mu = next.0;
        mv = next.1;
    }

    assert_eq!(st.step_batch(&p, 3), Ok(()));
    assert_eq!(st.generation(), 1);
    assert_eq!(cells_of(st.field_u()), cells_of(&mu));
    assert_eq!(cells_of(st.field_v()), cells_of(&mv));

    assert_eq!(st.step_batch(&p, 2), Ok(()));
    assert_eq!(st.generation(), 2);
}

#[test]
fn step_batch_rejects_out_of_range_state_unchanged() {
    let u = Grid::new(2, 2, 0x2_0000_0001).unwrap();
    let v = Grid::new(2, 2, 0).unwrap();
    let mut st = SimulationState::new(u, v).unwrap();
    let before = cells_of(st.field_u());
    let p = typical_params();
    assert_eq!(st.step_batch(&p, 1), Err(StepError::ValueOutOfRange));
    assert_eq!(st.generation(), 0);
    assert_eq!(cells_of(st.field_u()), before);
}

#[test]
fn zero_step_batch_still_advances_the_generation() {
    let mut st = SimulationState::initial_state(&typical_config()).unwrap();
    let before = cells_of(st.field_u());
    assert_eq!(st.step_batch(&typical_params(), 0), Ok(()));
    assert_eq!(st.generation(), 1);
    assert_eq!(cells_of(st.field_u()), before);
}

#[test]
fn snapshot_copies_the_displayed_field_with_its_generation() {
    let mut st = SimulationState::initial_state(&typical_config()).unwrap();
    let snap0 = st.snapshot();
    assert_eq!(snap0.generation, 0);
    assert_eq!(cells_of(&snap0.u), cells_of(st.field_u()));

    st.step_batch(&typical_params(), 2).unwrap();
    let snap1 = st.snapshot();
    assert_eq!(snap1.generation, 1);
    assert_eq!(cells_of(&snap1.u), cells_of(st.field_u()));

    // the old snapshot is an independent copy: it still shows generation 0
    assert_eq!(snap0.generation, 0);
    assert_ne!(cells_of(&snap0.u), cells_of(&snap1.u));
}
