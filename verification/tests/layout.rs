use planner::layout::tiles::sizes;
use planner::layout::{Configuration, Element, Layout, Tiles};
use planner::rounding::{round_even, round_half_root, round_quotient};
use planner::Error;

fn configuration(core_count: usize) -> Configuration {
    Configuration { core_count, core_area: 1_000_000, l3_area: 2_000_000 }
}

fn construct(core_count: usize) -> Vec<Element> {
    let configuration = configuration(core_count);
    assert!(Tiles::new().admits(&configuration));
    Tiles::new().construct(&configuration).unwrap()
}

fn names(elements: &[Element]) -> Vec<String> {
    elements.iter().map(|element| element.name.clone()).collect()
}

fn overlap(a: &Element, b: &Element) -> bool {
    a.position.0 < b.position.0 + b.dimension.0
        && b.position.0 < a.position.0 + a.dimension.0
        && a.position.1 < b.position.1 + b.dimension.1
        && b.position.1 < a.position.1 + a.dimension.1
}

#[test]
fn four_cores_share_one_cache() {
    let elements = construct(4);
    assert_eq!(names(&elements), vec!["Core0", "Core1", "Core2", "Core3", "L30"]);
    for (i, element) in elements.iter().take(4).enumerate() {
        assert_eq!(element.position, (708 * i as u64, 0));
        assert_eq!(element.dimension, (708, 1412));
    }
    assert_eq!(elements[4].position, (0, 1412));
    assert_eq!(elements[4].dimension, (2832, 706));
    assert_eq!(elements[4].dimension.0, 4 * elements[0].dimension.0);
}

#[test]
fn eight_cores_share_two_caches() {
    let elements = construct(8);
    assert_eq!(
        names(&elements),
        vec!["Core0", "Core1", "Core2", "Core3", "L30", "L31", "Core4", "Core5", "Core6", "Core7"]
    );
    assert_eq!(elements[4].position, (0, 1412));
    assert_eq!(elements[5].position, (0, 2118));
    assert_eq!(elements[5].dimension, (2832, 706));
    assert_eq!(elements[6].position, (0, 2824));
    assert_eq!(elements[9].position, (2124, 2824));
    assert_eq!(elements[9].dimension, (708, 1412));
}

#[test]
fn twelve_cores_open_a_second_block() {
    let elements = construct(12);
    assert_eq!(elements.len(), 15);
    assert_eq!(elements[10].name, "Core8");
    assert_eq!(elements[10].position, (2832, 0));
    assert_eq!(elements[13].name, "Core11");
    assert_eq!(elements[13].position, (4956, 0));
    assert_eq!(elements[14].name, "L32");
    assert_eq!(elements[14].position, (2832, 1412));
}

#[test]
fn count_not_a_multiple_of_four_is_refused() {
    for core_count in [1usize, 2, 3, 5, 6, 7, 9, 13] {
        let configuration = configuration(core_count);
        assert!(Tiles.admits(&configuration));
        match Tiles.construct(&configuration) {
            Err(error) => assert_eq!(error, Error::Configuration),
            Ok(_) => panic!("a layout of {} cores", core_count),
        }
    }
}

#[test]
fn no_cores_are_refused() {
    let configuration = configuration(0);
    assert!(Tiles.admits(&configuration));
    assert!(matches!(Tiles.construct(&configuration), Err(Error::Configuration)));
}

#[test]
fn census_of_elements() {
    for blocks in 1usize..=10 {
        let core_count = 4 * blocks;
        let elements = construct(core_count);
        let cores = elements.iter().filter(|e| e.name.starts_with("Core")).count();
        let caches = elements.iter().filter(|e| e.name.starts_with("L3")).count();
        assert_eq!(cores, core_count);
        assert_eq!(caches, core_count / 4);
        assert_eq!(elements.len(), cores + caches);
    }
}

#[test]
fn elements_do_not_overlap_and_names_differ() {
    let elements = construct(24);
    for (i, a) in elements.iter().enumerate() {
        for b in elements.iter().skip(i + 1) {
            assert!(!overlap(a, b), "{} and {}", a.name, b.name);
            assert_ne!(a.name, b.name);
        }
    }
}

#[test]
fn lengths_are_even() {
    for core_area in [1u64, 2, 3, 17, 999, 1_000_000, 123_456_789] {
        let configuration = Configuration { core_count: 8, core_area, l3_area: 3 * core_area };
        assert!(Tiles.admits(&configuration));
        for element in Tiles.construct(&configuration).unwrap() {
            assert_eq!(element.dimension.0 % 2, 0);
            assert_eq!(element.dimension.1 % 2, 0);
        }
    }
}

#[test]
fn core_is_about_twice_as_high_as_wide() {
    for core_area in [1u64, 2, 7, 50, 1_000_000, 987_654_321, u64::MAX] {
        let configuration = Configuration { core_count: 4, core_area, l3_area: 1 };
        assert!(Tiles.admits(&configuration));
        let elements = Tiles.construct(&configuration).unwrap();
        let (width, height) = elements[0].dimension;
        assert!(height + 6 >= 2 * width && height <= 2 * width + 2);
    }
}

#[test]
fn core_of_twice_an_even_square_is_exactly_twice_as_high() {
    let configuration = Configuration { core_count: 4, core_area: 2 * 500 * 500, l3_area: 1 };
    let elements = Tiles.construct(&configuration).unwrap();
    assert_eq!(elements[0].dimension, (500, 1000));
}

#[test]
fn small_cache_has_no_height() {
    let configuration = Configuration { core_count: 4, core_area: 1_000_000, l3_area: 1 };
    let elements = Tiles.construct(&configuration).unwrap();
    assert_eq!(elements[4].dimension, (2832, 0));
}

#[test]
fn zero_area_is_not_admitted() {
    assert!(!Tiles.admits(&Configuration { core_count: 4, core_area: 0, l3_area: 1 }));
    assert!(!Tiles.admits(&Configuration { core_count: 4, core_area: 1, l3_area: 0 }));
}

#[test]
fn too_wide_a_tiling_is_not_admitted() {
    let configuration = Configuration { core_count: usize::MAX - 3, core_area: u64::MAX, l3_area: 1 };
    if usize::BITS == 64 {
        assert!(!Tiles.admits(&configuration));
    }
}

#[test]
fn rounding_of_roots() {
    assert_eq!(round_half_root(0), 0);
    assert_eq!(round_half_root(1), 1);
    assert_eq!(round_half_root(2), 1);
    assert_eq!(round_half_root(5), 2);
    assert_eq!(round_half_root(1_000_000), 707);
    assert_eq!(round_half_root(2 * 3000 * 3000), 3000);
    assert_eq!(round_half_root(u64::MAX), 3037000500);
}

#[test]
fn rounding_of_quotients() {
    assert_eq!(round_quotient(1_000_000, 708), 1412);
    assert_eq!(round_quotient(5, 2), 3);
    assert_eq!(round_quotient(12, 5), 2);
    assert_eq!(round_quotient(13, 5), 3);
    assert_eq!(round_quotient(0, 7), 0);
    assert_eq!(round_quotient(u64::MAX, 1), u64::MAX);
}

#[test]
fn rounding_to_even() {
    assert_eq!(round_even(0), 0);
    assert_eq!(round_even(707), 708);
    assert_eq!(round_even(708), 708);
}

#[test]
fn sizes_of_a_configuration() {
    let s = sizes(&configuration(4));
    assert_eq!((s.core_width, s.core_height, s.l3_width, s.l3_height), (708, 1412, 2832, 706));
    let s = sizes(&Configuration { core_count: 4, core_area: 1, l3_area: 1 });
    assert_eq!((s.core_width, s.core_height, s.l3_width, s.l3_height), (2, 2, 8, 0));
    let s = sizes(&Configuration { core_count: 4, core_area: u64::MAX, l3_area: u64::MAX });
    assert_eq!(s.core_width, 3037000500);
    assert_eq!(s.core_height, 6074001000);
    assert_eq!(s.l3_width, 12148002000);
    assert_eq!(s.l3_height, 1518500250);
}

fn rounded(meters: f64) -> f64 {
    let mut size = (1e6 * meters).round() as u64;
    size += size % 2;
    (size as f64) / 1e6
}

#[test]
fn sizes_agree_with_floating_point() {
    let areas: [(u64, u64); 6] = [
        (1_000_000, 2_000_000),
        (3_500_000, 8_000_000),
        (123_456_789, 987_654_321),
        (50, 70),
        (7, 1_000),
        (2_000_000_000_000, 5_000_000_000_000),
    ];
    for (core_area, l3_area) in areas {
        let core = core_area as f64 * 1e-12;
        let l3 = l3_area as f64 * 1e-12;
        let core_width = rounded((core * 0.5).sqrt());
        let core_height = rounded(core / core_width);
        let l3_width = rounded(4.0 * core_width);
        let l3_height = rounded(l3 / l3_width);
        let s = sizes(&Configuration { core_count: 4, core_area, l3_area });
        assert_eq!(s.core_width, (core_width * 1e6).round() as u64);
        assert_eq!(s.core_height, (core_height * 1e6).round() as u64);
        assert_eq!(s.l3_width, (l3_width * 1e6).round() as u64);
        assert_eq!(s.l3_height, (l3_height * 1e6).round() as u64);
    }
}
