use meshgrid::errors::MeshError;
use meshgrid::geometry::line::{Line, LineCollection};
use meshgrid::geometry::points::{Dimensioned, Dimensions};
use meshgrid::geometry::vertex::Vertex;
use meshgrid::mesh::block::{BlockBuilder, BoundaryType};

#[test]
fn test_line_endpoints() {
    let a = Vertex::new_2d(0, 0.0, 0.0);
    let b = Vertex::new_2d(1, 1.0, 0.0);
    let line = Line::new_2d(&a, &b);
    assert_eq!(line.start.get_id(), 0);
    assert_eq!(line.end.get_id(), 1);
    assert!(line.is_2d());
    assert_eq!(line.dimensions(), 2);

    let c = Vertex::new_3d(2, 0.0, 0.0, 1.0);
    let d = Vertex::new_3d(3, 1.0, 0.0, 1.0);
    let line3 = Line::new_3d(&c, &d);
    assert!(!line3.is_2d());
    assert_eq!(line3.dimensions(), 3);
}

#[test]
fn test_line_collection_add() {
    let a = Vertex::new_2d(0, 0.0, 0.0);
    let b = Vertex::new_2d(1, 1.0, 0.0);
    let c = Vertex::new_3d(2, 0.0, 0.0, 1.0);
    let d = Vertex::new_3d(3, 1.0, 0.0, 1.0);

    let mut collection = LineCollection::new();
    assert!(collection.is_empty());
    // The first line fixes the collection's dimensionality.
    assert!(collection.add_line(Line::new_2d(&a, &b)).is_ok());
    assert!(!collection.is_empty());
    assert!(collection.is_2d());
    // A line of the other dimensionality is refused.
    assert_eq!(
        collection.add_line(Line::new_3d(&c, &d)),
        Err(MeshError::DimensionMismatch)
    );
    assert!(collection.add_line(Line::new_2d(&b, &a)).is_ok());
}

#[test]
fn test_block_builder() {
    let builder = BlockBuilder::new(7);
    assert_eq!(builder.id, 7);
    assert!(builder.dimensions.is_none());
    let builder = builder.with_dimensions(Dimensions::Two { nx: 3, ny: 3 });
    assert_eq!(builder.id, 7);
    assert!(matches!(builder.dimensions, Some(Dimensions::Two { nx: 3, ny: 3 })));
}

#[test]
fn test_boundary_types_exist() {
    // The boundary vocabulary covers the four 2D sides and the two
    // 3D caps.
    let sides = [
        BoundaryType::North,
        BoundaryType::South,
        BoundaryType::East,
        BoundaryType::West,
        BoundaryType::Top,
        BoundaryType::Bottom,
    ];
    assert_eq!(sides.len(), 6);
}
