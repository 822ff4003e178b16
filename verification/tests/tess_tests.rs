use agent_flow::bbox::BoundingBox;
use agent_flow::errors::DegenerateInputError;
use agent_flow::pos::Pos;
use agent_flow::tess::{validate_sites, check_partition, polygon_area_x2, strictly_inside};
use voronoice::{Point, VoronoiBuilder, BoundingBox as VorBox};

fn fp(px: f64) -> i64 {
    (px * 1000.0).round() as i64
}

fn to_point(p: Pos) -> Point {
    Point { x: p.x as f64 / 1000.0, y: p.y as f64 / 1000.0 }
}

fn build(sites: &[Pos], width_px: f64, height_px: f64) -> Option<voronoice::Voronoi> {
    VoronoiBuilder::default()
        .set_sites(sites.iter().map(|&p| to_point(p)).collect())
        .set_bounding_box(VorBox::new_centered(width_px, height_px))
        .build()
}

#[test]
fn validator_rejects_exactly_the_degenerate_sets() {
    assert_eq!(validate_sites(&vec![]).err().unwrap(), DegenerateInputError::Empty);
    assert_eq!(
        validate_sites(&vec![Pos::new(0, 0), Pos::new(0, 0)]).err().unwrap(),
        DegenerateInputError::Coincident
    );
    assert_eq!(
        validate_sites(&vec![Pos::new(0, 0), Pos::new(5_000, 0), Pos::new(0, 0)]).err().unwrap(),
        DegenerateInputError::Coincident
    );
    assert_eq!(
        validate_sites(&vec![Pos::new(0, 0), Pos::new(1_000, 1_000), Pos::new(2_000, 2_000)])
            .err()
            .unwrap(),
        DegenerateInputError::Collinear
    );
    // a single site, and any two distinct sites, give no triangle either
    assert_eq!(
        validate_sites(&vec![Pos::new(0, 0)]).err().unwrap(),
        DegenerateInputError::Collinear
    );
    assert_eq!(
        validate_sites(&vec![Pos::new(0, 0), Pos::new(9_000, 1_000)]).err().unwrap(),
        DegenerateInputError::Collinear
    );
    assert!(
        validate_sites(&vec![Pos::new(0, 0), Pos::new(5_000, 0), Pos::new(0, 5_000)]).is_ok()
    );
    assert_eq!(
        DegenerateInputError::Coincident.describe(),
        "degenerate sites: coincident pair"
    );
}

#[test]
fn engine_agrees_with_the_validator_on_degenerate_sites() {
    // coincident pair: the engine must refuse, not panic
    let coincident = [Pos::new(0, 0), Pos::new(0, 0)];
    assert!(build(&coincident, 100.0, 100.0).is_none());
    assert!(validate_sites(&coincident.to_vec()).is_err());
    // collinear sites: refused too
    let collinear = [Pos::new(-10_000, 0), Pos::new(0, 0), Pos::new(10_000, 0)];
    assert!(build(&collinear, 100.0, 100.0).is_none());
    assert!(validate_sites(&collinear.to_vec()).is_err());
    // a non-degenerate set is accepted by both
    let good = [Pos::new(-20_000, -10_000), Pos::new(25_000, 5_000), Pos::new(0, 30_000)];
    assert!(build(&good, 100.0, 100.0).is_some());
    assert!(validate_sites(&good.to_vec()).is_ok());
}

#[test]
fn shoelace_measures_the_unit_squares() {
    // a 10 x 10 px axis-aligned square, counterclockwise
    let square = vec![
        Pos::new(0, 0),
        Pos::new(10_000, 0),
        Pos::new(10_000, 10_000),
        Pos::new(0, 10_000),
    ];
    assert_eq!(polygon_area_x2(&square), 200_000_000);
    let clockwise: Vec<Pos> = square.iter().rev().cloned().collect();
    assert_eq!(polygon_area_x2(&clockwise), -200_000_000);
    assert!(strictly_inside(Pos::new(5_000, 5_000), &square));
    assert!(strictly_inside(Pos::new(5_000, 5_000), &clockwise));
    assert!(!strictly_inside(Pos::new(0, 0), &square));
    assert!(!strictly_inside(Pos::new(-1, 5_000), &square));
}

#[test]
fn tessellation_partitions_the_box_with_each_site_in_its_cell() {
    // a spread-out, non-degenerate site set in a 200 x 200 px box
    let sites = vec![
        Pos::new(-60_000, -40_000),
        Pos::new(50_000, -55_000),
        Pos::new(10_000, 20_000),
        Pos::new(-30_000, 60_000),
        Pos::new(70_000, 65_000),
        Pos::new(0, -80_000),
    ];
    assert!(validate_sites(&sites).is_ok());
    let v = build(&sites, 200.0, 200.0).expect("valid sites must tessellate");
    // one cell per site, in input order
    let cells: Vec<Vec<Pos>> = v
        .iter_cells()
        .map(|c| c.iter_vertices().map(|p| Pos::new(fp(p.x), fp(p.y))).collect())
        .collect();
    assert_eq!(cells.len(), sites.len());
    for (i, cell) in v.iter_cells().enumerate() {
        let s = cell.site_position();
        assert_eq!(Pos::new(fp(s.x), fp(s.y)), sites[i], "cell order must follow site order");
    }
    // cell areas sum to the box area within tolerance, and every site is
    // strictly inside its own cell
    let win = BoundingBox::new(200_000, 200_000).unwrap();
    assert!(check_partition(&sites, &cells, &win, 10_000_000));
    // the check itself is discriminating: pairing sites with the wrong
    // cells fails the containment half
    let mut rotated = cells.clone();
    rotated.rotate_left(1);
    assert!(!check_partition(&sites, &rotated, &win, 10_000_000));
    // and a halved tolerance with a mutilated cell fails the area half
    let mut clipped = cells.clone();
    clipped[0] = vec![Pos::new(0, 0), Pos::new(1_000, 0), Pos::new(0, 1_000)];
    assert!(!check_partition(&sites, &clipped, &win, 10_000_000));
}
