use meshgrid::geometry::points::{Dimensioned, Dimensions, Frac, Point};
use meshgrid::geometry::vertex::Vertex;
use meshgrid::geometry::vertices::{Direction, Vertices};

#[test]
fn test_vertex_2d_creation() {
    let vertex = Vertex::new_2d(1, 1.0, 1.0);
    assert_eq!(vertex.id, 1);
    assert_eq!(vertex.coords, Point::TwoD { x: 1.0, y: 1.0 });
    assert_eq!(vertex.dimensions(), 2);
    assert!(vertex.is_2d());
}

#[test]
fn test_vertex_3d_creation() {
    let vertex = Vertex::new_3d(2, 2f64, 3f64, 4f64);
    assert_eq!(vertex.id, 2);
    assert_eq!(vertex.coords, Point::ThreeD { x: 2f64, y: 3f64, z: 4f64 });
    assert_eq!(vertex.dimensions(), 3);
    assert!(!vertex.is_2d());
}

#[test]
fn test_creation() {
    let vertices_2d = Vertices::<f64>::new_2d(10, 10);
    let vertices_3d = Vertices::<f64>::new_3d(10, 10, 10);
    assert!(vertices_2d.is_2d());
    assert!(!vertices_3d.is_2d());
}

#[test]
fn test_adding_vertices() {
    let mut vertices_2d = Vertices::<f64>::new_2d(10, 10);
    let mut vertices_3d = Vertices::<f64>::new_3d(10, 10, 10);
    vertices_2d.add_vertex(Vertex::new_2d(0, 1.0, 2.0));
    vertices_3d.add_vertex(Vertex::new_3d(0, 1.0, 2.0, 3.0));

    assert_eq!(vertices_2d.vertex_count(), 1);
    assert_eq!(vertices_3d.vertex_count(), 1);

    let v2d = &vertices_2d.get_vertex(0).unwrap();
    assert_eq!(v2d.get_id(), 0);
    assert_eq!(v2d.get_x(), 1.0);
    assert_eq!(v2d.get_y(), 2.0);

    let v3d = &vertices_3d.get_vertex(0).unwrap();
    assert_eq!(v3d.get_id(), 0);
    assert_eq!(v3d.get_x(), 1.0);
    assert_eq!(v3d.get_y(), 2.0);
    assert_eq!(v3d.get_z(), 3.0);
}

#[test]
fn test_populate_uniform() {
    let mut vertices_2d = Vertices::<Frac>::new_2d(3, 2);
    vertices_2d.populate_uniform();
    assert_eq!(vertices_2d.vertex_count(), 6);

    let mut vertices_3d = Vertices::<Frac>::new_3d(2, 2, 2);
    vertices_3d.populate_uniform();
    assert_eq!(vertices_3d.vertex_count(), 8);
}

#[test]
fn test_populate_uniform_coordinates() {
    // In a 3 by 2 reference lattice the point (i, j) lies at exactly
    // (i/(nx-1), j/(ny-1)) = (i/2, j/1), held as a ratio.
    let mut vertices = Vertices::<Frac>::new_2d(3, 2);
    vertices.populate_uniform();
    for j in 0..2usize {
        for i in 0..3usize {
            let id = i + j * 3;
            let v = vertices.get_vertex(id).expect("populated lattice point");
            assert_eq!(v.get_id(), id);
            assert_eq!(v.get_x(), Frac { num: i, den: 2 });
            assert_eq!(v.get_y(), Frac { num: j, den: 1 });
        }
    }
}

#[test]
fn test_linear_grid_bijection() {
    // Mapping (i, j) to the row-major id and back returns (i, j),
    // for every valid coordinate of a fully populated container.
    let mut vertices = Vertices::<Frac>::new_2d(4, 3);
    vertices.populate_uniform();
    for j in 0..3usize {
        for i in 0..4usize {
            let id = vertices.vertex_ij_to_id(i, j).expect("in-bounds coordinate");
            assert_eq!(id, i + j * 4);
            let (i2, j2) = vertices.vertex_id_to_ij(id).expect("stored id");
            assert_eq!((i2, j2), (i, j));
        }
    }
}

#[test]
fn test_linear_grid_bijection_3d() {
    let mut vertices = Vertices::<Frac>::new_3d(2, 3, 2);
    vertices.populate_uniform();
    for k in 0..2usize {
        for j in 0..3usize {
            for i in 0..2usize {
                let id = vertices.vertex_ijk_to_id(i, j, k).expect("in-bounds coordinate");
                assert_eq!(id, i + j * 2 + k * 6);
                let (i2, j2, k2) = vertices.vertex_id_to_ijk(id).expect("stored id");
                assert_eq!((i2, j2, k2), (i, j, k));
            }
        }
    }
}

#[test]
fn test_conversion_requires_presence() {
    // The conversions answer for stored ids only: on an empty
    // container even an in-range id has no grid coordinate.
    let empty = Vertices::<f64>::new_2d(3, 3);
    assert!(empty.vertex_id_to_ij(0).is_none());
    assert!(empty.vertex_ij_to_id(1, 1).is_none());
    // Out-of-shape coordinates are refused outright.
    let mut full = Vertices::<Frac>::new_2d(3, 3);
    full.populate_uniform();
    assert!(full.vertex_ij_to_id(3, 0).is_none());
    assert!(full.vertex_ij_to_id(0, 3).is_none());
}

#[test]
fn test_boundary_absence() {
    // No neighbor across the lattice boundary, on any side.
    let mut vertices = Vertices::<Frac>::new_2d(3, 3);
    vertices.populate_uniform();
    for j in 0..3usize {
        for i in 0..3usize {
            let id = i + j * 3;
            let east = vertices.get_adjacent_vertex(id, Direction::East);
            let west = vertices.get_adjacent_vertex(id, Direction::West);
            let north = vertices.get_adjacent_vertex(id, Direction::North);
            let south = vertices.get_adjacent_vertex(id, Direction::South);
            assert_eq!(east.is_none(), i == 2);
            assert_eq!(west.is_none(), i == 0);
            assert_eq!(north.is_none(), j == 2);
            assert_eq!(south.is_none(), j == 0);
        }
    }
}

#[test]
fn test_adjacency_steps_one_unit() {
    let mut vertices = Vertices::<Frac>::new_2d(3, 3);
    vertices.populate_uniform();
    // The neighbors of the center vertex, id 4 = (1, 1).
    assert_eq!(vertices.get_adjacent_vertex(4, Direction::East).unwrap().get_id(), 5);
    assert_eq!(vertices.get_adjacent_vertex(4, Direction::West).unwrap().get_id(), 3);
    assert_eq!(vertices.get_adjacent_vertex(4, Direction::North).unwrap().get_id(), 7);
    assert_eq!(vertices.get_adjacent_vertex(4, Direction::South).unwrap().get_id(), 1);
    // Up and Down never step anywhere in a 2D container.
    assert!(vertices.get_adjacent_vertex(4, Direction::Up).is_none());
    assert!(vertices.get_adjacent_vertex(4, Direction::Down).is_none());
}

#[test]
fn test_adjacency_3d_layers() {
    let mut vertices = Vertices::<Frac>::new_3d(2, 2, 2);
    vertices.populate_uniform();
    assert_eq!(vertices.get_adjacent_vertex(0, Direction::Up).unwrap().get_id(), 4);
    assert_eq!(vertices.get_adjacent_vertex(4, Direction::Down).unwrap().get_id(), 0);
    assert!(vertices.get_adjacent_vertex(0, Direction::Down).is_none());
    assert!(vertices.get_adjacent_vertex(4, Direction::Up).is_none());
}

#[test]
fn test_adjacency_absent_vertices() {
    // A neighbor query on an id that was never stored gives nothing,
    // and a step toward a missing vertex gives nothing either.
    let mut vertices = Vertices::<f64>::new_2d(2, 2);
    vertices.add_vertex(Vertex::new_2d(0, 0.0, 0.0));
    assert!(vertices.get_adjacent_vertex(3, Direction::West).is_none());
    assert!(vertices.get_adjacent_vertex(0, Direction::East).is_none());
    vertices.add_vertex(Vertex::new_2d(1, 1.0, 0.0));
    assert_eq!(vertices.get_adjacent_vertex(0, Direction::East).unwrap().get_id(), 1);
}

#[test]
fn test_rejection_of_mismatched_vertex() {
    // A 3D vertex offered to a 2D container leaves it unchanged.
    let mut vertices_2d = Vertices::<f64>::new_2d(4, 4);
    vertices_2d.add_vertex(Vertex::new_3d(0, 1.0, 2.0, 3.0));
    assert_eq!(vertices_2d.vertex_count(), 0);
    assert!(vertices_2d.get_vertex(0).is_none());
    // And symmetrically for a 2D vertex and a 3D container.
    let mut vertices_3d = Vertices::<f64>::new_3d(2, 2, 2);
    vertices_3d.add_vertex(Vertex::new_2d(0, 1.0, 2.0));
    assert_eq!(vertices_3d.vertex_count(), 0);
}

#[test]
fn test_rejection_of_out_of_range_id() {
    // An id outside the lattice addresses no slot and is ignored.
    let mut vertices = Vertices::<f64>::new_2d(2, 2);
    vertices.add_vertex(Vertex::new_2d(4, 0.0, 0.0));
    assert_eq!(vertices.vertex_count(), 0);
    assert!(!vertices.vertex_exists(4));
}

#[test]
fn test_first_vertex_wins() {
    // A second vertex under an already taken id is ignored.
    let mut vertices = Vertices::<f64>::new_2d(2, 2);
    vertices.add_vertex(Vertex::new_2d(0, 1.0, 1.0));
    vertices.add_vertex(Vertex::new_2d(0, 9.0, 9.0));
    assert_eq!(vertices.vertex_count(), 1);
    assert_eq!(vertices.get_vertex(0).unwrap().get_x(), 1.0);
}

#[test]
fn test_dimensions_total_points() {
    let two = Dimensions::Two { nx: 3, ny: 4 };
    let three = Dimensions::Three { nx: 3, ny: 4, nz: 5 };
    assert_eq!(two.total_points(), 12);
    assert_eq!(three.total_points(), 60);
    assert_eq!(two.dimensions(), 2);
    assert_eq!(three.dimensions(), 3);
    assert!(two.is_2d());
    assert!(!three.is_2d());
    assert_eq!(two.as_tuple(), (3, 4, None));
    assert_eq!(three.as_tuple(), (3, 4, Some(5)));
}

#[test]
fn test_vertices_accessor() {
    let mut vertices = Vertices::<Frac>::new_2d(2, 2);
    assert_eq!(vertices.vertices().len(), 4);
    assert!(vertices.vertices().iter().all(|s| s.is_none()));
    vertices.populate_uniform();
    assert!(vertices.vertices().iter().all(|s| s.is_some()));
    assert_eq!(vertices.nx_ny(), (2, 2));
}
