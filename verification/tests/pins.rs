//! Pin types and graph boundaries.
use nodegraph::boundary::{BoundaryPort, GraphBoundary};
use nodegraph::column::IdColumn;
use nodegraph::library_kernel::LibraryKernel;
use nodegraph::pin::PinType;

#[test]
fn exact_match_is_compatible() {
    assert!(PinType::is_compatible(PinType::Density, PinType::Density));
    assert!(PinType::is_compatible(PinType::Material, PinType::Material));
}

#[test]
fn scalar_coerces_to_density_one_way() {
    assert!(PinType::is_compatible(PinType::Scalar, PinType::Density));
    assert!(!PinType::is_compatible(PinType::Density, PinType::Scalar));
}

#[test]
fn curve_coerces_to_scalar() {
    assert!(PinType::is_compatible(PinType::Curve, PinType::Scalar));
    assert!(!PinType::is_compatible(PinType::Scalar, PinType::Curve));
}

#[test]
fn unrelated_types_incompatible() {
    assert!(!PinType::is_compatible(PinType::Material, PinType::Density));
    assert!(!PinType::is_compatible(PinType::Positions, PinType::Terrain));
}

#[test]
fn new_types_are_strict() {
    for t in [PinType::SurfaceField, PinType::FluidProvider, PinType::ZoneId] {
        assert!(PinType::is_compatible(t, t));
    }
    assert!(!PinType::is_compatible(PinType::Scalar, PinType::SurfaceField));
    assert!(!PinType::is_compatible(PinType::SurfaceField, PinType::Density));
    assert!(!PinType::is_compatible(PinType::ZoneId, PinType::BiomeId));
    assert!(!PinType::is_compatible(PinType::FluidProvider, PinType::Material));
}

#[test]
fn default_boundary_is_empty() {
    let b = GraphBoundary::default();
    assert!(b.is_empty());
    assert!(b.output("x").is_none());
}

#[test]
fn lookup_by_name_finds_ports() {
    let b = GraphBoundary {
        inputs: vec![BoundaryPort::new("distance".to_string(), PinType::SurfaceField)],
        outputs: vec![
            BoundaryPort::new("weight".to_string(), PinType::SurfaceField)
                .with_description("own-biome fade weight".to_string()),
        ],
    };
    assert!(!b.is_empty());
    assert_eq!(b.input("distance").unwrap().ty, PinType::SurfaceField);
    assert_eq!(b.output("weight").unwrap().description, "own-biome fade weight");
    assert!(b.output("distance").is_none());
}

#[test]
fn id_column_roundtrips() {
    let mut c = IdColumn::zeroed();
    c.set(2, 4, 7);
    assert_eq!(c.get(2, 4), 7);
    assert_eq!(c.get(0, 0), 0);
    assert_eq!(IdColumn::filled(3).get(9, 9), 3);
}

#[test]
fn kernel_names_round_trip() {
    for k in [
        LibraryKernel::BiomeBorderFade,
        LibraryKernel::StandardCaveNoise,
        LibraryKernel::SurfaceLayering,
        LibraryKernel::ExposureLayering,
        LibraryKernel::PoissonPlacement,
    ] {
        assert_eq!(LibraryKernel::from_name(k.name()), Some(k));
    }
    assert_eq!(LibraryKernel::from_name("nope"), None);
}
