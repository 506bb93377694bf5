use gray_scott::fixed::SCALE;
use gray_scott::grid::Grid;
use gray_scott::laplacian::laplacian;
use gray_scott::params::ModelParameters;
use gray_scott::step::step;

fn grid_from(width: usize, height: usize, values: &[i64]) -> Grid {
    assert_eq!(values.len(), width * height);
    let mut g = Grid::new(width, height, 0).unwrap();
    for r in 0..height {
        for c in 0..width {
            g.set(r, c, values[r * width + c]);
        }
    }
    g
}

fn cells_of(g: &Grid) -> Vec<i64> {
    let mut out = Vec::new();
    for r in 0..g.height() {
        for c in 0..g.width() {
            out.push(g.get(r, c));
        }
    }
    out
}

fn typical_params() -> ModelParameters {
    ModelParameters {
        feed_rate: 41943,      // ~0.04
        kill_rate: 64487,      // ~0.0615
        diffusion_u: 20,
        diffusion_v: 10,
        cell_spacing: 10486,   // ~0.01, squared spacing 104
        time_delta: SCALE,     // 1.0
    }
}

#[test]
fn params_validation() {
    assert!(typical_params().is_valid());
    let mut p = typical_params();
    p.time_delta = 0;
    assert!(!p.is_valid());
    let mut p = typical_params();
    p.cell_spacing = 1023;  // squared spacing truncates to zero
    assert!(!p.is_valid());
    let mut p = typical_params();
    p.feed_rate = -1;
    assert!(!p.is_valid());
}

#[test]
fn laplacian_of_uniform_field_is_zero() {
    let g = Grid::new(8, 8, SCALE / 3).unwrap();
    let lap = laplacian(&g, 10486);
    for r in 0..8 {
        for c in 0..8 {
            assert_eq!(lap.get(r, c), 0);
        }
    }
}

#[test]
fn laplacian_of_center_spike() {
    // 3x3 field, one unit in the middle; cell spacing 1024/SCALE makes the
    // squared spacing exactly one fixed-point quantum
    let mut vals = vec![0i64; 9];
    vals[4] = SCALE;
    let g = grid_from(3, 3, &vals);
    let lap = laplacian(&g, 1024);
    let expected = vec![
        0,
        1099511627776,
        0,
        1099511627776,
        -4398046511104,
        1099511627776,
        0,
        1099511627776,
        0,
    ];
    assert_eq!(cells_of(&lap), expected);
}

#[test]
fn step_is_deterministic() {
    let mut uv = vec![0i64; 16];
    for (i, value) in uv.iter_mut().enumerate() {
        *value = (i as i64) * 12345 + 678;
    }
    let u = grid_from(4, 4, &uv);
    let v = grid_from(4, 4, &uv.iter().map(|x| x / 2).collect::<Vec<_>>());
    let p = typical_params();
    let first = step(&u, &v, &p);
    let second = step(&u, &v, &p);
    assert_eq!(cells_of(&first.0), cells_of(&second.0));
    assert_eq!(cells_of(&first.1), cells_of(&second.1));
}

#[test]
fn step_with_zero_v_leaves_v_and_feeds_u() {
    // with no v anywhere the reaction term cannot fire: v stays exactly
    // zero and a uniform u moves only by the feed replenishment term
    let u = Grid::new(4, 4, SCALE / 2).unwrap();
    let v = Grid::new(4, 4, 0).unwrap();
    let p = typical_params();
    let (nu, nv) = step(&u, &v, &p);
    for r in 0..4 {
        for c in 0..4 {
            assert_eq!(nv.get(r, c), 0);
            assert_eq!(nu.get(r, c), 545259);
        }
    }
}

#[test]
fn diffusion_trajectory_matches_reference() {
    // two steps on a 4x4 grid with deterministic seed values and zero feed
    // and kill rates, against a reference computed by hand from the
    // fixed-point update equations; an implementation whose v update
    // observed an already-updated u would diverge from these values
    let mut uv = vec![SCALE / 4; 16];
    uv[1 * 4 + 1] = SCALE;
    let mut vv = vec![0i64; 16];
    vv[2 * 4 + 2] = SCALE / 2;
    let u = grid_from(4, 4, &uv);
    let v = grid_from(4, 4, &vv);
    let p = ModelParameters {
        feed_rate: 0,
        kill_rate: 0,
        diffusion_u: SCALE / 4,
        diffusion_v: SCALE / 8,
        cell_spacing: SCALE,
        time_delta: SCALE / 16,
    };
    let (u1, v1) = step(&u, &v, &p);
    assert_eq!(
        cells_of(&u1),
        vec![
            262144, 274432, 262144, 262144, 274432, 999424, 274432, 262144, 262144, 274432,
            258048, 262144, 262144, 262144, 262144, 262144,
        ]
    );
    assert_eq!(
        cells_of(&v1),
        vec![0, 0, 0, 0, 0, 0, 4096, 0, 0, 4096, 512000, 4096, 0, 0, 4096, 0]
    );
    let (u2, v2) = step(&u1, &v1, &p);
    assert_eq!(
        cells_of(&u2),
        vec![
            262528, 285184, 262528, 262144, 285184, 954112, 285119, 262528, 262528, 285119,
            254842, 262079, 262144, 262528, 262079, 262144,
        ]
    );
    assert_eq!(
        cells_of(&v2),
        vec![0, 0, 64, 0, 0, 64, 7968, 64, 64, 7968, 499973, 7968, 0, 64, 7968, 64]
    );
}
