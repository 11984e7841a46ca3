use plansvg::color::Color;
use plansvg::coordinate::Coordinate;
use plansvg::error::{Error, PreconditionError};
use plansvg::fmt::{path_data, rat_to_string};
use plansvg::graphic::{Area, Circle, Line, Path, World};
use plansvg::rat::Rat;
use plansvg::svg::Document;
use plansvg::text::{Description, Label, Title};
use plansvg::tree::Tree;

fn rat(n: i64) -> Rat {
    Rat::from_int(n)
}

fn ratq(n: i64, d: i64) -> Rat {
    Rat::new(n, d).unwrap()
}

fn coord(x: i64, y: i64) -> Coordinate {
    Coordinate::new(rat(x), rat(y))
}

#[test]
fn path_serialization() {
    let corners = vec![coord(0, 0), coord(10, 0), coord(10, 10)];
    let d = path_data(&corners).unwrap();
    assert_eq!(d, "M0,0 L10,0 L10,10 z");
}

#[test]
fn path_serialization_rejects_empty() {
    let corners: Vec<Coordinate> = Vec::new();
    assert!(matches!(path_data(&corners), Err(PreconditionError::TooFewPoints)));
}

#[test]
fn decimal_rendering() {
    assert_eq!(rat_to_string(&rat(0)), "0");
    assert_eq!(rat_to_string(&rat(10)), "10");
    assert_eq!(rat_to_string(&rat(-10)), "-10");
    assert_eq!(rat_to_string(&ratq(6, 10)), "0.6");
    assert_eq!(rat_to_string(&ratq(3, 5)), "0.6");
    assert_eq!(rat_to_string(&ratq(1, 4)), "0.25");
    assert_eq!(rat_to_string(&ratq(-5, 2)), "-2.5");
    assert_eq!(rat_to_string(&ratq(1, 3)), "0.333333333");
    assert_eq!(rat_to_string(&ratq(1234, 1)), "1234");
}

#[test]
fn color_names() {
    assert_eq!(Color::Transparent.name(), "none");
    assert_eq!(Color::Black.name(), "black");
    assert_eq!(Color::DarkGreen.name(), "darkgreen");
    assert_eq!(Color::LightGrey.name(), "lightgrey");
}

#[test]
fn label_markup() {
    let l = Label::new(coord(10, 6), "hi").size(Rat::one());
    let x = l.to_xml();
    assert_eq!(
        x.to_string(),
        r#"<text text-anchor="middle" x="10" y="6" font-size="1">hi</text>"#
    );
}

#[test]
fn title_and_description_markup() {
    assert_eq!(Title("t".to_string()).to_xml().to_string(), "<title>t</title>");
    assert_eq!(Description("d".to_string()).to_xml().to_string(), "<desc>d</desc>");
}

#[test]
fn circle_markup() {
    let c = Circle::new(rat(1), rat(2), ratq(1, 2), Color::Brown, Color::Maroon);
    assert_eq!(
        c.to_xml().to_string(),
        r#"<circle r="0.5" cx="1" cy="2" fill="maroon" stroke="brown" stroke-width="0.25"/>"#
    );
}

#[test]
fn line_markup() {
    let l = Line::new(coord(0, 0), coord(3, 4), Color::Grey);
    assert_eq!(
        l.to_xml().to_string(),
        r#"<line x1="0" y1="0" x2="3" y2="4" stroke="grey"/>"#
    );
}

#[test]
fn world_transform_markup() {
    let w = World::new("w", coord(0, 0).flip_x());
    let markup = w.to_xml().unwrap().to_string();
    assert!(markup.contains(r#"transform="translate(0 0) matrix(-1 0 0 1 0 0)""#));
    assert!(markup.contains(r#"id="world-w""#));
}

#[test]
fn world_scaled_transform_markup() {
    let loc = coord(2, 3).scale_x(ratq(1, 2)).scale_y(rat(2));
    let w = World::new("s", loc);
    let markup = w.to_xml().unwrap().to_string();
    assert!(markup.contains(r#"transform="translate(2 3) matrix(0.5 0 0 2 0 0)""#));
}

#[test]
fn area_markup_and_world() {
    let corners = vec![coord(0, 0), coord(10, 0), coord(10, 6), coord(0, 6)];
    let area = Area::new("plot", corners)
        .unwrap()
        .color(Color::Blue)
        .fill(Color::LightGrey)
        .world(coord(1, 1), Some(ratq(1, 4)))
        .unwrap();
    let w = area.world.as_ref().unwrap();
    assert!(w.axis_scale.eq_rat(&ratq(3, 5)));
    let markup = area.to_xml().unwrap().to_string();
    assert!(markup.contains(r#"d="M0,0 L10,0 L10,6 L0,6 z""#));
    assert!(markup.contains(r#"fill="lightgrey""#));
    assert!(markup.contains(r#"stroke="blue""#));
    assert!(markup.contains(r#"id="world-world-plot""#));
}

#[test]
fn area_needs_three_corners() {
    let corners = vec![coord(0, 0), coord(1, 1)];
    assert!(matches!(
        Area::new("a", corners),
        Err(Error::Precondition(PreconditionError::TooFewPoints))
    ));
}

#[test]
fn path_markup() {
    let p = Path::new("route", vec![coord(0, 0), coord(5, 5)])
        .unwrap()
        .color(Color::Red)
        .stroke_width(ratq(1, 2))
        .stroke_dash("2 1");
    let markup = p.to_xml().to_string();
    assert!(markup.contains(r#"d="M0,0 L5,5 ""#));
    assert!(markup.contains(r#"stroke="red""#));
    assert!(markup.contains(r#"stroke-width="0.5""#));
    assert!(markup.contains(r#"stroke-dasharray="2 1""#));
}

#[test]
fn tree_markup() {
    let t = Tree {
        name: "oak".to_string(),
        species: "quercus".to_string(),
        trunk_diameter: rat(1),
        crown_diameter: Some(rat(7)),
        location: coord(4, 4),
        label_location: coord(4, 6),
    };
    let markup = t.to_xml().unwrap().to_string();
    assert!(markup.contains(r#"id="tree-oak""#));
    assert!(markup.contains("<title>Tree oak</title>"));
    assert!(markup.contains(r#"r="3.5""#));
    assert!(markup.contains(r#"r="0.5""#));
    assert!(markup.contains(r#"fill="darkgreen""#));
}

#[test]
fn document_markup() {
    let mut doc = Document::new(rat(0), rat(0), rat(10), ratq(15, 2), 100).unwrap();
    assert!(doc.origin.y.eq_rat(&ratq(15, 2)));
    assert!(doc.origin.fy);
    doc.add(Circle::new(rat(1), rat(1), rat(1), Color::Black, Color::Transparent).to_xml());
    let markup = doc.to_markup().unwrap();
    assert!(markup.starts_with("<svg"));
    assert!(markup.contains(r#"width="1000""#));
    assert!(markup.contains(r#"height="750""#));
    assert!(markup.contains(r#"viewBox="0 0 10 7.5""#));
    assert!(markup.contains(r#"xmlns="http://www.w3.org/2000/svg""#));
    assert!(markup.contains("<circle"));
}

#[test]
fn document_rounds_pixel_size_up() {
    let doc = Document::new(rat(0), rat(0), ratq(5, 2), rat(1), 3).unwrap();
    let markup = doc.to_markup().unwrap();
    // 2.5 units at 3 pixels per unit is 7.5 pixels, rounded up to 8.
    assert!(markup.contains(r#"width="8""#));
    assert!(markup.contains(r#"height="3""#));
}

#[test]
fn world_nests_children() {
    let mut w = World::new("n", coord(0, 0));
    w.add(Line::new(coord(0, 0), coord(1, 1), Color::Black).to_xml());
    w.add_all(vec![Circle::new(rat(2), rat(2), rat(1), Color::Red, Color::Transparent).to_xml()]);
    let markup = w.to_xml().unwrap().to_string();
    assert!(markup.contains("<line"));
    assert!(markup.contains("<circle"));
    assert!(markup.contains("<title>n</title>"));
}

#[test]
fn label_without_size() {
    let l = Label::new(coord(0, 0), "plain");
    assert_eq!(
        l.to_xml().to_string(),
        r#"<text text-anchor="middle" x="0" y="0">plain</text>"#
    );
}
