use planner::layout::{Configuration, Layout, Tiles};
use planner::format::{Format, ThreeDICE, SVG};
use planner::{plan, Error};

fn configuration(core_count: usize) -> Configuration {
    Configuration { core_count, core_area: 1_000_000, l3_area: 2_000_000 }
}

#[test]
fn plan_in_either_format() {
    let configuration = configuration(8);
    let elements = Tiles.construct(&configuration).unwrap();

    let mut expected = String::new();
    ThreeDICE.write(&elements, &mut expected).unwrap();
    let mut text = String::new();
    assert_eq!(plan(&configuration, "3d-ice", &mut text), Ok(()));
    assert_eq!(text, expected);
    assert!(text.starts_with("Core0:\n  position 0, 0;\n"));

    let mut expected = String::new();
    SVG.write(&elements, &mut expected).unwrap();
    let mut text = String::new();
    assert_eq!(plan(&configuration, "svg", &mut text), Ok(()));
    assert_eq!(text, expected);
    assert!(text.starts_with("<svg "));
    assert!(text.ends_with("</svg>\n"));
}

#[test]
fn plan_of_an_unknown_format_is_refused() {
    let mut text = String::new();
    assert_eq!(plan(&configuration(8), "pdf", &mut text), Err(Error::FormatSelection));
    assert_eq!(text, "");
}

#[test]
fn plan_of_a_wrong_count_is_refused() {
    let mut text = String::from("kept");
    assert_eq!(plan(&configuration(5), "svg", &mut text), Err(Error::Configuration));
    assert_eq!(plan(&configuration(5), "3d-ice", &mut text), Err(Error::Configuration));
    assert_eq!(text, "kept");
}

#[test]
fn plan_names_the_format_first() {
    let mut text = String::new();
    assert_eq!(plan(&configuration(5), "pdf", &mut text), Err(Error::FormatSelection));
}
