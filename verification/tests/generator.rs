use meshgrid::errors::MeshError;
use meshgrid::geometry::points::Dimensions;
use meshgrid::geometry::vertices::Vertices;
use meshgrid::mesh::generator::{generate_mesh_2d, validate_grid_params, GridParams};

fn params_for(beta: f64, length_x: f64, heights: &[f64]) -> GridParams {
    GridParams {
        beta_nonzero: beta != 0.0 && beta.is_finite(),
        length_positive: length_x > 0.0,
        heights_positive: heights.iter().all(|h| *h > 0.0),
    }
}

/// The coordinate table for the given clustering law, indexed by the
/// row-major id `i + j*nx`, as the generator's caller computes it.
fn uniform_table(
    nx: usize,
    ny: usize,
    length_x: f64,
    contour: impl Fn(f64) -> f64,
) -> Vec<(f64, f64)> {
    let dx = length_x / (nx as f64 - 1.0);
    let mut pts = vec![(0.0, 0.0); nx * ny];
    for i in 0..nx {
        let x = i as f64 * dx;
        let leny = contour(x);
        let dy = leny / (ny as f64 - 1.0);
        for j in 0..ny {
            pts[i + j * nx] = (x, j as f64 * dy);
        }
    }
    pts
}

fn top_clustered_table(
    nx: usize,
    ny: usize,
    length_x: f64,
    contour: impl Fn(f64) -> f64,
    beta: f64,
) -> Vec<(f64, f64)> {
    let dx = length_x / (nx as f64 - 1.0);
    let mut pts = vec![(0.0, 0.0); nx * ny];
    for i in 0..nx {
        let x = i as f64 * dx;
        let leny = contour(x);
        for j in 0..ny {
            let eta = j as f64 / (ny as f64 - 1.0);
            let y = leny * (beta * eta).tanh() / beta.tanh();
            pts[i + j * nx] = (x, y);
        }
    }
    pts
}

fn close(a: f64, b: f64) -> bool {
    (a - b).abs() < 1e-12
}

#[test]
fn test_uniform_generation_scenario() {
    // nx=3, ny=2, length 2.0, contour(x) = 1 - x^2/10, uniform law.
    // dx = 1.0; the bottom row lies at y = 0 and the top row follows
    // the contour height at each column.
    let contour = |x: f64| 1.0 - x * x / 10.0;
    let (nx, ny) = (3usize, 2usize);
    let pts = uniform_table(nx, ny, 2.0, contour);
    let mut vertices = Vertices::<f64>::new_2d(nx, ny);
    let params = params_for(2.0, 2.0, &[contour(0.0), contour(1.0), contour(2.0)]);
    assert!(generate_mesh_2d(&mut vertices, &params, &pts).is_ok());
    assert_eq!(vertices.vertex_count(), 6);

    let at = |i: usize, j: usize| {
        let v = vertices.get_vertex(i + j * nx).expect("generated point");
        (v.get_x(), v.get_y())
    };
    let (x, y) = at(0, 0);
    assert!(close(x, 0.0) && close(y, 0.0));
    let (x, y) = at(0, 1);
    assert!(close(x, 0.0) && close(y, 1.0));
    let (x, y) = at(2, 0);
    assert!(close(x, 2.0) && close(y, 0.0));
    let (x, y) = at(2, 1);
    assert!(close(x, 2.0) && close(y, 0.6));
    let (x, y) = at(1, 1);
    assert!(close(x, 1.0) && close(y, 0.9));
}

#[test]
fn test_top_clustered_tangent_scenario() {
    // nx=2, ny=3, length 1.0, constant contour 1.0, beta = 2.0.
    // eta=0 gives y=0, eta=1 gives y=1, and the middle row lies at
    // tanh(1)/tanh(2), about 0.79: pushed toward the top wall.
    let (nx, ny) = (2usize, 3usize);
    let pts = top_clustered_table(nx, ny, 1.0, |_| 1.0, 2.0);
    let mut vertices = Vertices::<f64>::new_2d(nx, ny);
    let params = params_for(2.0, 1.0, &[1.0, 1.0]);
    assert!(generate_mesh_2d(&mut vertices, &params, &pts).is_ok());

    let expected_mid = 1.0f64.tanh() / 2.0f64.tanh();
    assert!((expected_mid - 0.7900).abs() < 1e-4);
    assert!(expected_mid > 0.5);
    for i in 0..nx {
        let bottom = vertices.get_vertex(i).unwrap();
        let middle = vertices.get_vertex(i + nx).unwrap();
        let top = vertices.get_vertex(i + 2 * nx).unwrap();
        assert!(close(bottom.get_y(), 0.0));
        assert!(close(middle.get_y(), expected_mid));
        assert!(close(top.get_y(), 1.0));
    }
}

#[test]
fn test_beta_zero_rejected() {
    // A clustering strength of zero is refused at entry: no point is
    // written and the container stays empty.
    let (nx, ny) = (3usize, 3usize);
    let mut vertices = Vertices::<f64>::new_2d(nx, ny);
    let beta = 0.0f64;
    let params = params_for(beta, 1.0, &[1.0, 1.0, 1.0]);
    let pts = vec![(0.0, 0.0); nx * ny];
    assert_eq!(
        generate_mesh_2d(&mut vertices, &params, &pts),
        Err(MeshError::InvalidParameter)
    );
    assert_eq!(vertices.vertex_count(), 0);
    assert_eq!(
        validate_grid_params(&Dimensions::Two { nx, ny }, &params),
        Err(MeshError::InvalidParameter)
    );
}

#[test]
fn test_generator_rejects_3d_container() {
    let mut vertices = Vertices::<f64>::new_3d(2, 2, 2);
    let params = params_for(2.0, 1.0, &[1.0]);
    let pts = vec![(0.0, 0.0); 8];
    assert_eq!(
        generate_mesh_2d(&mut vertices, &params, &pts),
        Err(MeshError::DimensionMismatch)
    );
    assert_eq!(vertices.vertex_count(), 0);
    assert_eq!(
        validate_grid_params(&Dimensions::Three { nx: 2, ny: 2, nz: 2 }, &params),
        Err(MeshError::DimensionMismatch)
    );
}

#[test]
fn test_generator_rejects_wrong_table_size() {
    let mut vertices = Vertices::<f64>::new_2d(3, 3);
    let params = params_for(2.0, 1.0, &[1.0, 1.0, 1.0]);
    let pts = vec![(0.0, 0.0); 8];
    assert_eq!(
        generate_mesh_2d(&mut vertices, &params, &pts),
        Err(MeshError::InvalidParameter)
    );
    assert_eq!(vertices.vertex_count(), 0);
}

#[test]
fn test_validate_rejects_degenerate_axes() {
    let params = params_for(2.0, 1.0, &[1.0]);
    assert_eq!(
        validate_grid_params(&Dimensions::Two { nx: 1, ny: 5 }, &params),
        Err(MeshError::InvalidParameter)
    );
    assert_eq!(
        validate_grid_params(&Dimensions::Two { nx: 5, ny: 1 }, &params),
        Err(MeshError::InvalidParameter)
    );
    assert_eq!(validate_grid_params(&Dimensions::Two { nx: 2, ny: 2 }, &params), Ok(()));
}

#[test]
fn test_validate_rejects_nonpositive_inputs() {
    let dims = Dimensions::Two { nx: 4, ny: 4 };
    assert_eq!(
        validate_grid_params(&dims, &params_for(2.0, 0.0, &[1.0])),
        Err(MeshError::InvalidParameter)
    );
    assert_eq!(
        validate_grid_params(&dims, &params_for(2.0, 1.0, &[1.0, -0.5])),
        Err(MeshError::InvalidParameter)
    );
    assert_eq!(
        validate_grid_params(&dims, &params_for(f64::INFINITY, 1.0, &[1.0])),
        Err(MeshError::InvalidParameter)
    );
}

#[test]
fn test_generated_grid_feeds_topology() {
    // The generated mesh is a fully populated lattice: the cell
    // builder is owed success on it, and emits (nx-1)*(ny-1) cells.
    let contour = |x: f64| 1.0 - x * x / 10.0;
    let (nx, ny) = (4usize, 3usize);
    let pts = uniform_table(nx, ny, 2.0, contour);
    let mut vertices = Vertices::<f64>::new_2d(nx, ny);
    let params = params_for(2.0, 2.0, &[1.0]);
    assert!(generate_mesh_2d(&mut vertices, &params, &pts).is_ok());
    let mut nodes = meshgrid::mesh::nodes::Nodes::new_2d();
    assert!(nodes.populate(&vertices).is_ok());
    assert_eq!(nodes.nodes.len(), 6);
}
