use sdroxide_ui::mesh::{
    cone, quad, ring, sphere, Vertex, CONE_AXIAL, CONE_CAP, CONE_RADIAL, RING_ACROSS, RING_RADIAL,
    SPHERE_LAT, SPHERE_LON,
};

/// Where a vertex of the sphere stands, and its texture coordinates.
fn on_sphere(v: &Vertex) -> ([f32; 3], [f32; 2]) {
    let t = v.j as f32 / SPHERE_LAT as f32;
    let u = v.i as f32 / SPHERE_LON as f32;
    let lat = (90.0 - 180.0 * t as f64).to_radians();
    let lon = (-180.0 + 360.0 * u as f64).to_radians();
    (
        [(lat.cos() * lon.cos()) as f32, (lat.cos() * lon.sin()) as f32, lat.sin() as f32],
        [u, t],
    )
}

fn on_strip(v: &Vertex, round: u32, along: u32) -> [f32; 2] {
    [v.i as f32 / round as f32 * std::f32::consts::TAU, v.j as f32 / along as f32]
}

#[test]
fn sphere_vertices_are_unit_length_and_uv_matches_the_land_mask() {
    let (lattice, idx) = sphere();
    let v: Vec<_> = lattice.iter().map(on_sphere).collect();
    assert_eq!(v.len(), ((SPHERE_LON + 1) * (SPHERE_LAT + 1)) as usize);
    assert_eq!(idx.len(), (SPHERE_LON * SPHERE_LAT * 6) as usize);
    assert!(idx.iter().all(|i| (*i as usize) < v.len()));
    for (pos, _) in &v {
        let l = (pos[0].powi(2) + pos[1].powi(2) + pos[2].powi(2)).sqrt();
        assert!((l - 1.0).abs() < 1e-5, "not on the unit sphere: {l}");
    }
    // v = 0 is the north pole, v = 1 the south — the mask's row order.
    assert!((v[0].0[2] - 1.0).abs() < 1e-5 && v[0].1[1] == 0.0);
    let last = &v[v.len() - 1];
    assert!((last.0[2] + 1.0).abs() < 1e-5 && last.1[1] == 1.0);
    // u = 0.5 is 0° longitude, i.e. the +X axis.
    let mid = &v[(SPHERE_LON / 2) as usize];
    assert!((mid.1[0] - 0.5).abs() < 1e-6);
}

#[test]
fn the_ring_spans_the_annulus_exactly_once() {
    let (lattice, idx) = ring();
    let v: Vec<_> = lattice.iter().map(|x| on_strip(x, RING_RADIAL, RING_ACROSS)).collect();
    assert!(idx.iter().all(|i| (*i as usize) < v.len()));
    for pos in &v {
        assert!((0.0..=std::f32::consts::TAU + 1e-4).contains(&pos[0]));
        assert!((0.0..=1.0).contains(&pos[1]));
    }
    // The seam is duplicated, so the annulus closes without a triangle spanning
    // the whole ring.
    assert_eq!(v[0][0], 0.0);
    assert!((v[RING_RADIAL as usize][0] - std::f32::consts::TAU).abs() < 1e-5);
    // t = 0 is the inner edge everywhere in the first row.
    assert!(v[..=RING_RADIAL as usize].iter().all(|x| x[1] == 0.0));
    assert_eq!(v[v.len() - 1][1], 1.0);
}

#[test]
fn cone_parameters_are_in_range() {
    let (lattice, idx) = cone();
    let v: Vec<_> = lattice
        .iter()
        .map(|x| {
            let along = if x.cap { CONE_CAP } else { CONE_AXIAL };
            let p = on_strip(x, CONE_RADIAL, along);
            let kind = if x.cap { 1.0f32 } else { 0.0 };
            ([p[0], p[1], kind], if x.cap { 1.0 } else { p[1] })
        })
        .collect();
    assert!(idx.iter().all(|i| (*i as usize) < v.len()));
    for (pos, _) in &v {
        assert!((0.0..=std::f32::consts::TAU + 1e-4).contains(&pos[0]));
        assert!((0.0..=1.0).contains(&pos[1]));
        assert!(pos[2] == 0.0 || pos[2] == 1.0);
    }
    // The lateral strip starts at the apex and the cap is pinned to the leading
    // edge for shading.
    assert_eq!(v[0].0[1], 0.0);
    assert_eq!(v[v.len() - 1].1, 1.0);
}

#[test]
fn no_triangle_of_the_sphere_spans_the_seam() {
    let (v, idx) = sphere();
    assert_eq!(idx[..6], [0, 65, 1, 1, 65, 66]);
    for t in idx.chunks(3) {
        let i: Vec<u32> = t.iter().map(|k| v[*k as usize].i).collect();
        assert!(i.iter().max().unwrap() - i.iter().min().unwrap() == 1);
    }
}

#[test]
fn a_quad_is_two_triangles() {
    assert_eq!(quad(), [(-1, -1), (1, -1), (-1, 1), (-1, 1), (1, -1), (1, 1)]);
}
