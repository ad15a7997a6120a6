use meshgrid::errors::MeshError;
use meshgrid::geometry::points::{Dimensioned, Frac};
use meshgrid::geometry::vertex::Vertex;
use meshgrid::geometry::vertices::Vertices;
use meshgrid::mesh::nodes::Nodes;

#[test]
fn test_populate_2d_nodes() {
    let mut vertices = Vertices::<Frac>::new_2d(3, 3);
    vertices.populate_uniform();

    let mut nodes = Nodes::new_2d();
    assert!(nodes.populate(&vertices).is_ok());

    assert_eq!(nodes.nodes.len(), 4);

    for (i, node) in nodes.nodes.iter().enumerate() {
        assert_eq!(node.id, i);
    }
}

#[test]
fn test_cell_count() {
    // A fully populated nx by ny lattice yields (nx-1)*(ny-1) cells.
    let mut vertices = Vertices::<Frac>::new_2d(5, 4);
    vertices.populate_uniform();
    let mut nodes = Nodes::new_2d();
    assert!(nodes.populate(&vertices).is_ok());
    assert_eq!(nodes.nodes.len(), 12);
}

#[test]
fn test_cell_faces() {
    // On a 3 by 3 lattice the first cell is anchored at id 0, with
    // east neighbor 1, north neighbor 3 and north-east corner 4:
    // south = (0,1), west = (0,3), north = (3,4), east = (1,4).
    let mut vertices = Vertices::<Frac>::new_2d(3, 3);
    vertices.populate_uniform();
    let mut nodes = Nodes::new_2d();
    assert!(nodes.populate(&vertices).is_ok());
    let cell = &nodes.nodes[0];
    assert_eq!(cell.south_face.start.get_id(), 0);
    assert_eq!(cell.south_face.end.get_id(), 1);
    assert_eq!(cell.west_face.start.get_id(), 0);
    assert_eq!(cell.west_face.end.get_id(), 3);
    assert_eq!(cell.north_face.start.get_id(), 3);
    assert_eq!(cell.north_face.end.get_id(), 4);
    assert_eq!(cell.east_face.start.get_id(), 1);
    assert_eq!(cell.east_face.end.get_id(), 4);
    // The second cell is anchored one column east, at id 1.
    let cell = &nodes.nodes[1];
    assert_eq!(cell.south_face.start.get_id(), 1);
    assert_eq!(cell.south_face.end.get_id(), 2);
}

#[test]
fn test_populate_rejects_3d_container() {
    let mut vertices = Vertices::<Frac>::new_3d(2, 2, 2);
    vertices.populate_uniform();
    let mut nodes = Nodes::new_2d();
    assert_eq!(nodes.populate(&vertices), Err(MeshError::DimensionMismatch));
    assert!(nodes.is_empty());
}

#[test]
fn test_populate_detects_topology_error() {
    // Vertex 0 has its east (1) and north (2) neighbors, but the
    // north-east corner (3) is missing: an interior inconsistency.
    let mut vertices = Vertices::<f64>::new_2d(2, 2);
    vertices.add_vertex(Vertex::new_2d(0, 0.0, 0.0));
    vertices.add_vertex(Vertex::new_2d(1, 1.0, 0.0));
    vertices.add_vertex(Vertex::new_2d(2, 0.0, 1.0));
    let mut nodes = Nodes::new_2d();
    assert_eq!(nodes.populate(&vertices), Err(MeshError::TopologyError));
    // The failed build hands back an empty collection, never a
    // half-built one.
    assert!(nodes.is_empty());
}

#[test]
fn test_populate_skips_boundary_vertices() {
    // A partially populated container without anchors yields no cell:
    // only vertex 3 (the north-east corner itself) and its row exist.
    let mut vertices = Vertices::<f64>::new_2d(2, 2);
    vertices.add_vertex(Vertex::new_2d(2, 0.0, 1.0));
    vertices.add_vertex(Vertex::new_2d(3, 1.0, 1.0));
    let mut nodes = Nodes::new_2d();
    assert!(nodes.populate(&vertices).is_ok());
    assert!(nodes.is_empty());
}

#[test]
fn test_nodes_dimensionality() {
    let nodes: Nodes<Frac> = Nodes::new_2d();
    // An empty collection counts as 2D until its first cell arrives.
    assert!(nodes.is_empty());
    assert!(nodes.is_2d());
    assert_eq!(nodes.dimensions(), 2);
}
