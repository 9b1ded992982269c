use planner::format::{Choice, Format, SVG, ThreeDICE};
use planner::layout::{Configuration, Element, Layout, Tiles};
use planner::text::{same_text, to_decimal};
use planner::Error;

fn element(name: &str, position: (u64, u64), dimension: (u64, u64)) -> Element {
    Element { name: name.to_string(), position, dimension }
}

fn tiles(core_count: usize) -> Vec<Element> {
    let configuration = Configuration { core_count, core_area: 1_000_000, l3_area: 2_000_000 };
    Tiles.construct(&configuration).unwrap()
}

fn written<F: Format>(format: &F, elements: &[Element]) -> String {
    let mut text = String::new();
    format.write(elements, &mut text).unwrap();
    text
}

const STYLE: &str = "  <style type=\"text/css\">
    rect {
        fill: none;
        stroke: black;
        stroke-width: 2;
    }
    rect[id^=\"Core\"] {
        fill: #0071bc;
    }
    rect[id^=\"L3\"] {
        fill: #ecb01f;
    }
  </style>
";

#[test]
fn threed_ice_of_nothing_is_empty() {
    assert_eq!(written(&ThreeDICE::new(), &[]), "");
}

#[test]
fn threed_ice_of_one_element() {
    let elements = [element("Core0", (0, 7), (708, 1412))];
    assert_eq!(
        written(&ThreeDICE, &elements),
        "Core0:\n  position 0, 7;\n  dimension 708, 1412;\n\n  power values 0;\n"
    );
}

#[test]
fn threed_ice_of_a_tiling() {
    let expected = "Core0:
  position 0, 0;
  dimension 708, 1412;

  power values 0;

Core1:
  position 708, 0;
  dimension 708, 1412;

  power values 0;

Core2:
  position 1416, 0;
  dimension 708, 1412;

  power values 0;

Core3:
  position 2124, 0;
  dimension 708, 1412;

  power values 0;

L30:
  position 0, 1412;
  dimension 2832, 706;

  power values 0;
";
    assert_eq!(written(&ThreeDICE, &tiles(4)), expected);
}

#[test]
fn threed_ice_keeps_order_and_duplicates() {
    let elements = [element("b", (2, 3), (4, 5)), element("a", (0, 0), (1, 1)), element("b", (2, 3), (4, 5))];
    let one = "b:\n  position 2, 3;\n  dimension 4, 5;\n\n  power values 0;\n";
    let two = "a:\n  position 0, 0;\n  dimension 1, 1;\n\n  power values 0;\n";
    assert_eq!(written(&ThreeDICE, &elements), format!("{}\n{}\n{}", one, two, one));
}

#[test]
fn threed_ice_twice_is_the_same() {
    let elements = tiles(16);
    assert_eq!(written(&ThreeDICE, &elements), written(&ThreeDICE, &elements));
}

#[test]
fn threed_ice_appends_to_the_writer() {
    let mut text = String::from("% floorplan\n");
    ThreeDICE.write(&[element("x", (1, 2), (3, 4))], &mut text).unwrap();
    assert_eq!(text, "% floorplan\nx:\n  position 1, 2;\n  dimension 3, 4;\n\n  power values 0;\n");
}

#[test]
fn svg_of_nothing_is_refused() {
    let mut text = String::from("kept");
    assert_eq!(SVG::new().write(&[], &mut text), Err(Error::Precondition));
    assert_eq!(text, "kept");
}

#[test]
fn svg_of_no_width_is_refused() {
    let mut text = String::new();
    let elements = [element("thin", (3, 0), (0, 10))];
    assert_eq!(SVG.write(&elements, &mut text), Err(Error::Precondition));
    assert_eq!(text, "");
}

#[test]
fn svg_of_a_tiling() {
    let expected = format!(
        "<svg xmlns=\"http://www.w3.org/2000/svg\" version=\"1.1\" width=\"810\" height=\"608\">
{}  <g transform=\"translate(0, 608) scale(1, -1)\">
    <rect id=\"Core0\" x=\"5\" y=\"5\" width=\"200\" height=\"399\" />
    <rect id=\"Core1\" x=\"205\" y=\"5\" width=\"200\" height=\"399\" />
    <rect id=\"Core2\" x=\"405\" y=\"5\" width=\"200\" height=\"399\" />
    <rect id=\"Core3\" x=\"605\" y=\"5\" width=\"200\" height=\"399\" />
    <rect id=\"L30\" x=\"5\" y=\"404\" width=\"800\" height=\"199\" />
  </g>
</svg>
",
        STYLE
    );
    assert_eq!(written(&SVG, &tiles(4)), expected);
}

#[test]
fn svg_rounds_ties_to_even() {
    let elements = [element("a", (0, 0), (1600, 1)), element("b", (1, 0), (3, 5))];
    let expected = format!(
        "<svg xmlns=\"http://www.w3.org/2000/svg\" version=\"1.1\" width=\"810\" height=\"12\">
{}  <g transform=\"translate(0, 12) scale(1, -1)\">
    <rect id=\"a\" x=\"5\" y=\"5\" width=\"800\" height=\"0\" />
    <rect id=\"b\" x=\"6\" y=\"5\" width=\"2\" height=\"2\" />
  </g>
</svg>
",
        STYLE
    );
    assert_eq!(written(&SVG, &elements), expected);
}

#[test]
fn svg_moves_the_bounding_box_to_the_margin() {
    let elements = [element("far", (1000, 500), (400, 100)), element("near", (900, 550), (100, 150))];
    let text = written(&SVG, &elements);
    assert!(text.contains("width=\"810\" height=\"330\""));
    assert!(text.contains("<rect id=\"far\" x=\"165\" y=\"5\" width=\"640\" height=\"160\" />"));
    assert!(text.contains("<rect id=\"near\" x=\"5\" y=\"85\" width=\"160\" height=\"240\" />"));
}

#[test]
fn svg_takes_the_largest_coordinates() {
    let elements = [element("a", (u64::MAX, u64::MAX), (u64::MAX, u64::MAX)), element("b", (0, 0), (1, 1))];
    let text = written(&SVG, &elements);
    assert!(text.contains("<rect id=\"a\" x=\"405\" y=\"405\" width=\"400\" height=\"400\" />"));
    assert!(text.contains("<rect id=\"b\" x=\"5\" y=\"5\" width=\"0\" height=\"0\" />"));
    assert!(text.contains("height=\"810\""));
}

#[test]
fn svg_draws_between_the_margins() {
    let text = written(&SVG, &tiles(40));
    for line in text.lines().filter(|line| line.trim_start().starts_with("<rect id")) {
        let start = line.find(" x=\"").unwrap() + 4;
        let end = start + line[start..].find('"').unwrap();
        let x: u64 = line[start..end].parse().unwrap();
        assert!(5 <= x && x <= 805);
    }
}

#[test]
fn choice_by_name() {
    assert_eq!(Choice::select("svg"), Ok(Choice::SVG));
    assert_eq!(Choice::select("3d-ice"), Ok(Choice::ThreeDICE));
    assert_eq!(Choice::select("SVG"), Err(Error::FormatSelection));
    assert_eq!(Choice::select(""), Err(Error::FormatSelection));
    assert_eq!(Choice::select("3d-ice "), Err(Error::FormatSelection));
}

#[test]
fn choice_writes_as_its_format() {
    let elements = tiles(8);
    assert_eq!(written(&Choice::SVG, &elements), written(&SVG, &elements));
    assert_eq!(written(&Choice::ThreeDICE, &elements), written(&ThreeDICE, &elements));
    let mut text = String::new();
    assert_eq!(Choice::SVG.write(&[], &mut text), Err(Error::Precondition));
    assert_eq!(Choice::ThreeDICE.write(&[], &mut text), Ok(()));
}

#[test]
fn messages_of_errors() {
    assert_eq!(Error::Configuration.message(), "the number of cores should be a multiple of 4");
    assert_eq!(Error::Lookup.message(), "failed to find a required value in the table");
    assert_eq!(Error::Precondition.message(), "no elements to render");
    assert_eq!(Error::FormatSelection.message(), "the output format is unknown");
}

#[test]
fn decimal_numerals() {
    assert_eq!(to_decimal(0), "0");
    assert_eq!(to_decimal(7), "7");
    assert_eq!(to_decimal(10), "10");
    assert_eq!(to_decimal(1234567890), "1234567890");
    assert_eq!(to_decimal(u128::MAX), "340282366920938463463374607431768211455");
}

#[test]
fn comparison_of_texts() {
    assert!(same_text("", ""));
    assert!(same_text("svg", "svg"));
    assert!(!same_text("svg", "svh"));
    assert!(!same_text("svg", "sv"));
}
