use xpbd_solver::adjacency::Adjacency;
use xpbd_solver::cloth::{collision_response, Response};
use xpbd_solver::lattice::{lattice_edges, lattice_triangles};
use xpbd_solver::mesh::TetMesh;
use xpbd_solver::particles::{filled, nearest_index, Particles};
use xpbd_solver::scalar::Scalar;
use xpbd_solver::softbody::face_opposite;
use xpbd_solver::vec3::Vec3;

fn s(x: f32) -> Scalar {
    Scalar { bits: x.to_bits() }
}

fn vec(x: f32, y: f32, z: f32) -> Vec3 {
    Vec3 { x: s(x), y: s(y), z: s(z) }
}

#[test]
fn less_than_follows_the_numbers() {
    assert!(s(-1.0).lt(s(0.5)));
    assert!(!s(0.5).lt(s(-1.0)));
    assert!(s(-2.0).lt(s(-1.0)));
    assert!(!s(-1.0).lt(s(-2.0)));
    assert!(!s(1.5).lt(s(1.5)));
    assert!(s(f32::MAX).lt(s(f32::INFINITY)));
    assert!(s(f32::NEG_INFINITY).lt(s(f32::MIN)));
    assert!(s(f32::MIN_POSITIVE / 2.0).lt(s(f32::MIN_POSITIVE)));
}

#[test]
fn the_two_zeros_are_equal_in_value() {
    assert!(!s(0.0).lt(s(-0.0)));
    assert!(!s(-0.0).lt(s(0.0)));
    assert!(s(0.0).is_zero());
    assert!(s(-0.0).is_zero());
    assert!(!s(f32::MIN_POSITIVE / 4.0).is_zero());
    assert!(!s(f32::NAN).is_zero());
    assert_ne!(s(0.0), s(-0.0));
}

#[test]
fn nan_is_ordered_with_nothing() {
    let nan = s(f32::NAN);
    assert!(nan.is_nan());
    assert!(Scalar { bits: 0xFFC0_0001 }.is_nan());
    assert!(!s(f32::INFINITY).is_nan());
    assert!(!s(f32::NEG_INFINITY).is_nan());
    assert!(!nan.lt(s(1.0)));
    assert!(!s(1.0).lt(nan));
    assert!(!nan.gt(s(1.0)));
    assert!(!s(1.0).gt(nan));
    assert!(!nan.lt(nan));
}

#[test]
fn greater_than_mirrors_less_than() {
    assert!(s(2.0).gt(s(1.0)));
    assert!(!s(1.0).gt(s(2.0)));
    assert!(!s(1.0).gt(s(1.0)));
    assert!(s(0.0).gt(s(-1.0e-30)));
}

#[test]
fn comparison_agrees_with_the_machine() {
    let samples = [
        0.0f32, -0.0, 1.0, -1.0, 0.005, 1.0e-4, -10.0, 3.0e38, -3.0e38, 1.0e-40, -1.0e-40,
        f32::INFINITY, f32::NEG_INFINITY, f32::NAN, f32::MAX, f32::MIN,
    ];
    for a in samples {
        for b in samples {
            assert_eq!(s(a).lt(s(b)), a < b, "{} < {}", a, b);
            assert_eq!(s(a).gt(s(b)), a > b, "{} > {}", a, b);
        }
        assert_eq!(s(a).is_zero(), a == 0.0);
        assert_eq!(s(a).is_nan(), a.is_nan());
        assert_eq!(s(a).neg().bits, (-a).to_bits());
    }
}

#[test]
fn negation_flips_the_sign_bit() {
    assert_eq!(s(1.5).neg(), s(-1.5));
    assert_eq!(s(-1.5).neg(), s(1.5));
    assert_eq!(s(0.0).neg().bits, 0x8000_0000);
    assert_eq!(s(-0.0).neg().bits, 0);
    assert_eq!(Scalar { bits: 0x7FC0_0000 }.neg().bits, 0xFFC0_0000);
}

#[test]
fn vector_helpers() {
    assert_eq!(Vec3::zeros(), vec(0.0, 0.0, 0.0));
    assert_eq!(Vec3::new(s(1.0), s(2.0), s(3.0)), vec(1.0, 2.0, 3.0));
    assert_eq!(vec(1.0, 2.0, 3.0).with_y(s(0.5)), vec(1.0, 0.5, 3.0));
    let v = filled(s(2.0), 3);
    assert_eq!(v, vec![s(2.0), s(2.0), s(2.0)]);
    assert!(filled(s(2.0), 0).is_empty());
}

#[test]
fn nearest_is_the_first_of_the_least() {
    let d = vec![s(4.0), s(1.0), s(3.0), s(1.0), s(2.0)];
    assert_eq!(nearest_index(&d), Some(1));
    let d = vec![s(0.0), s(-0.0)];
    assert_eq!(nearest_index(&d), Some(0));
    let d = vec![s(5.0)];
    assert_eq!(nearest_index(&d), Some(0));
}

#[test]
fn nearest_passes_over_nan_and_the_unreachable() {
    let d = vec![s(f32::NAN), s(7.0), s(f32::NAN), s(6.0)];
    assert_eq!(nearest_index(&d), Some(3));
    let d = vec![s(f32::INFINITY), s(f32::MAX), s(f32::NAN)];
    assert_eq!(nearest_index(&d), None);
    let d: Vec<Scalar> = Vec::new();
    assert_eq!(nearest_index(&d), None);
    let d = vec![s(f32::MAX), s(3.0e38)];
    assert_eq!(nearest_index(&d), Some(1));
}

#[test]
fn triangles_cover_the_cells() {
    let t = lattice_triangles();
    assert_eq!(t.len(), 2 * 29 * 199);
    assert_eq!(t[0], [1, 0, 201]);
    assert_eq!(t[1], [201, 0, 200]);
    assert_eq!(t[2], [2, 1, 202]);
    // the cell at column 3, row 5
    let c = 3 * 199 + 5;
    assert_eq!(t[2 * c], [606, 605, 806]);
    assert_eq!(t[2 * c + 1], [806, 605, 805]);
    // the last cell: column 28, row 198
    assert_eq!(t[t.len() - 2], [5799, 5798, 5999]);
    assert_eq!(t[t.len() - 1], [5999, 5798, 5998]);
    assert!(t.iter().all(|tri| tri.iter().all(|&id| id < 6000)));
}

#[test]
fn edges_follow_the_grain() {
    let e = lattice_edges();
    assert_eq!(e.len(), 29 * 200 + 30 * 199);
    assert_eq!(e[0], [0, 200]);
    assert_eq!(e[1], [0, 1]);
    assert_eq!(e[2], [1, 201]);
    assert_eq!(e[3], [1, 2]);
    // the top of column 0 has an edge across and none up
    assert_eq!(e[398], [199, 399]);
    assert_eq!(e[399], [200, 400]);
    // the last column has only edges up
    assert_eq!(e[29 * 399], [5800, 5801]);
    assert_eq!(e[29 * 399 + 198], [5998, 5999]);
    assert!(e.iter().all(|edge| edge.iter().all(|&id| id < 6000)));
    let across = e.iter().filter(|edge| edge[1] == edge[0] + 200).count();
    let up = e.iter().filter(|edge| edge[1] == edge[0] + 1).count();
    assert_eq!(across, 29 * 200);
    assert_eq!(up, 30 * 199);
}

#[test]
fn adjacency_tables_are_checked() {
    let good = Adjacency { first_adj_id: vec![0, 2, 2, 3], adj_ids: vec![1, 2, 0] };
    assert!(good.is_valid(3));
    assert!(!good.is_valid(2));
    assert!(!good.is_valid(4));
    let short = Adjacency { first_adj_id: vec![0, 1, 2], adj_ids: vec![1, 2, 0] };
    assert!(!short.is_valid(3));
    let beyond = Adjacency { first_adj_id: vec![0, 2, 2, 4], adj_ids: vec![1, 2, 0] };
    assert!(!beyond.is_valid(3));
    let stranger = Adjacency { first_adj_id: vec![0, 2, 2, 3], adj_ids: vec![1, 3, 0] };
    assert!(!stranger.is_valid(3));
    let backwards = Adjacency { first_adj_id: vec![2, 1, 0, 0], adj_ids: vec![1, 2] };
    assert!(backwards.is_valid(3));
    let none = Adjacency { first_adj_id: vec![0], adj_ids: vec![] };
    assert!(none.is_valid(0));
    assert!(!none.is_valid(usize::MAX));
}

#[test]
fn empty_adjacency_is_valid() {
    let a = Adjacency::empty(5);
    assert_eq!(a.first_adj_id, vec![0; 6]);
    assert!(a.adj_ids.is_empty());
    assert!(a.is_valid(5));
    assert!(Adjacency::empty(0).is_valid(0));
}

fn one_tet() -> TetMesh {
    TetMesh {
        vertices: vec![vec(0.0, 0.0, 0.0), vec(1.0, 0.0, 0.0), vec(0.0, 1.0, 0.0), vec(0.0, 0.0, 1.0)],
        tet_ids: vec![[0, 1, 2, 3]],
        tet_edge_ids: vec![0, 1, 0, 2, 0, 3, 1, 2, 1, 3, 2, 3],
        tet_surface_tri_ids: vec![0, 2, 1, 0, 1, 3, 0, 3, 2, 1, 2, 3],
    }
}

#[test]
fn meshes_are_checked() {
    assert!(one_tet().is_well_formed());
    let mut m = one_tet();
    m.tet_ids[0][2] = 4;
    assert!(!m.is_well_formed());
    let mut m = one_tet();
    m.tet_edge_ids[5] = 9;
    assert!(!m.is_well_formed());
    let mut m = one_tet();
    m.tet_edge_ids.pop();
    assert!(!m.is_well_formed());
    let mut m = one_tet();
    m.tet_surface_tri_ids = vec![77];
    assert!(m.is_well_formed());
    let empty = TetMesh { vertices: vec![], tet_ids: vec![], tet_edge_ids: vec![], tet_surface_tri_ids: vec![] };
    assert!(empty.is_well_formed());
}

#[test]
fn faces_lie_opposite_their_corners() {
    assert_eq!(face_opposite(0), (1, 3, 2));
    assert_eq!(face_opposite(1), (0, 2, 3));
    assert_eq!(face_opposite(2), (0, 3, 1));
    assert_eq!(face_opposite(3), (0, 1, 2));
}

fn three_particles() -> Particles {
    let mut p = Particles::new(3);
    p.pos = vec![vec(0.0, 0.0, 0.0), vec(1.0, 0.0, 0.0), vec(2.0, 0.0, 0.0)];
    p.inv_mass = vec![s(1.0), s(2.5), s(4.0)];
    p.vel = vec![vec(0.0, 1.0, 0.0), vec(0.0, 2.0, 0.0), vec(0.0, 3.0, 0.0)];
    p
}

#[test]
fn new_particles_rest_at_the_origin() {
    let p = Particles::new(4);
    assert_eq!(p.pos, vec![Vec3::zeros(); 4]);
    assert_eq!(p.prev, vec![Vec3::zeros(); 4]);
    assert_eq!(p.vel, vec![Vec3::zeros(); 4]);
    assert_eq!(p.inv_mass, vec![s(0.0); 4]);
    assert_eq!(p.grab_id, None);
    assert_eq!(p.grab_inv_mass, s(0.0));
}

#[test]
fn grab_pins_and_places() {
    let mut p = three_particles();
    p.grab(Some(1), vec(5.0, 6.0, 7.0));
    assert_eq!(p.grab_id, Some(1));
    assert_eq!(p.grab_inv_mass, s(2.5));
    assert_eq!(p.inv_mass, vec![s(1.0), s(0.0), s(4.0)]);
    assert_eq!(p.pos, vec![vec(0.0, 0.0, 0.0), vec(5.0, 6.0, 7.0), vec(2.0, 0.0, 0.0)]);
    assert_eq!(p.vel, three_particles().vel);
}

#[test]
fn grab_of_nothing_clears_the_slot() {
    let mut p = three_particles();
    p.grab(Some(2), vec(9.0, 9.0, 9.0));
    p.grab(None, vec(1.0, 1.0, 1.0));
    assert_eq!(p.grab_id, None);
    assert_eq!(p.grab_inv_mass, s(4.0));
    assert_eq!(p.inv_mass, vec![s(1.0), s(2.5), s(0.0)]);
    assert_eq!(p.pos[2], vec(9.0, 9.0, 9.0));
}

#[test]
fn move_and_release_without_a_grab_change_nothing() {
    let mut p = three_particles();
    p.move_grabbed(vec(5.0, 5.0, 5.0));
    p.end_grab(vec(8.0, 8.0, 8.0));
    let q = three_particles();
    assert_eq!(p.pos, q.pos);
    assert_eq!(p.vel, q.vel);
    assert_eq!(p.inv_mass, q.inv_mass);
    assert_eq!(p.grab_id, None);
}

#[test]
fn grab_and_release_restore_the_inverse_mass() {
    let mut p = three_particles();
    p.grab(Some(1), vec(0.5, 0.5, 0.5));
    p.end_grab(vec(0.0, 0.0, 0.0));
    assert_eq!(p.inv_mass, three_particles().inv_mass);
    assert_eq!(p.vel[1], vec(0.0, 0.0, 0.0));
    assert_eq!(p.vel[0], vec(0.0, 1.0, 0.0));
    assert_eq!(p.vel[2], vec(0.0, 3.0, 0.0));
    assert_eq!(p.grab_id, None);
    assert_eq!(p.pos[1], vec(0.5, 0.5, 0.5));
}

#[test]
fn grab_move_release() {
    let mut p = three_particles();
    p.grab(Some(0), vec(0.0, 0.0, 0.0));
    p.move_grabbed(vec(1.0, 0.0, 0.0));
    assert_eq!(p.pos[0], vec(1.0, 0.0, 0.0));
    assert_eq!(p.inv_mass[0], s(0.0));
    p.end_grab(vec(0.0, -2.0, 0.0));
    assert_eq!(p.inv_mass[0], s(1.0));
    assert_eq!(p.vel[0], vec(0.0, -2.0, 0.0));
    assert_eq!(p.grab_id, None);
}

#[test]
fn placing_moves_what_can_move() {
    let mut p = three_particles();
    p.inv_mass[1] = s(0.0);
    p.inv_mass[2] = s(-0.0);
    p.place(0, vec(4.0, 5.0, 6.0));
    p.place(1, vec(7.0, 8.0, 9.0));
    p.place(2, vec(7.0, 8.0, 9.0));
    assert_eq!(p.pos, vec![vec(4.0, 5.0, 6.0), vec(1.0, 0.0, 0.0), vec(2.0, 0.0, 0.0)]);
    assert_eq!(p.vel, three_particles().vel);
    assert_eq!(p.prev, three_particles().prev);
}

#[test]
fn speeding_changes_what_can_move() {
    let mut p = three_particles();
    p.inv_mass[1] = s(0.0);
    p.speed(0, vec(4.0, 5.0, 6.0));
    p.speed(1, vec(7.0, 8.0, 9.0));
    assert_eq!(p.vel, vec![vec(4.0, 5.0, 6.0), vec(0.0, 2.0, 0.0), vec(0.0, 3.0, 0.0)]);
    assert_eq!(p.pos, three_particles().pos);
}

#[test]
fn collision_response_follows_the_rule() {
    let thickness_sq = 0.01f32 * 0.01;
    // farther apart than the thickness
    assert_eq!(collision_response(s(thickness_sq * 1.5), s(1.0)), Response::Leave);
    // coincident, with either zero
    assert_eq!(collision_response(s(0.0), s(1.0)), Response::Leave);
    assert_eq!(collision_response(s(-0.0), s(1.0)), Response::Leave);
    // the squared distance is above the distance at rest
    assert_eq!(collision_response(s(5.0e-5), s(4.0e-5)), Response::Leave);
    // within the thickness, far apart at rest
    assert_eq!(collision_response(s(2.5e-5), s(0.01)), Response::ToThickness);
    assert_eq!(collision_response(s(thickness_sq), s(thickness_sq)), Response::ToThickness);
    // closer at rest than the thickness squared
    assert_eq!(collision_response(s(2.5e-5), s(5.0e-5)), Response::ToRestRoot);
    assert_eq!(collision_response(s(5.0e-5), s(5.0e-5)), Response::ToRestRoot);
    // a distance that is not a number compares with nothing
    assert_eq!(collision_response(s(f32::NAN), s(1.0)), Response::ToThickness);
    assert_eq!(collision_response(s(2.5e-5), s(f32::NAN)), Response::ToThickness);
}
