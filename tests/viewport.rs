use gol_rust::{get_viewport_data, Dimensions, GoL, Position};

fn sides_pattern() -> GoL {
    // 1 1
    // 1 1
    // 1 1
    let mut gol = GoL::new(Dimensions { width: 3, height: 3 });
    gol.set_cell_at(Position { x: 0, y: 0 }, true).unwrap();
    gol.set_cell_at(Position { x: 2, y: 0 }, true).unwrap();
    gol.set_cell_at(Position { x: 0, y: 1 }, true).unwrap();
    gol.set_cell_at(Position { x: 2, y: 1 }, true).unwrap();
    gol.set_cell_at(Position { x: 0, y: 2 }, true).unwrap();
    gol.set_cell_at(Position { x: 2, y: 2 }, true).unwrap();
    gol
}

fn diagonal_pattern() -> GoL {
    let mut gol = GoL::new(Dimensions { width: 5, height: 5 });
    gol.set_cell_at(Position { x: 1, y: 1 }, true).unwrap();
    gol.set_cell_at(Position { x: 3, y: 2 }, true).unwrap();
    gol.set_cell_at(Position { x: 3, y: 3 }, true).unwrap();
    gol
}

#[test]
fn viewport_test() {
    let gol = diagonal_pattern();

    // Test get_viewport_data returns the correct viewport
    let viewport = get_viewport_data(
        Position { x: 0, y: 0 },
        Dimensions { width: 5, height: 5 }, &gol).unwrap();
    assert!(viewport[0] == String::from("     "), "Failed: First viewport row not set properly");
    assert!(viewport[1] == String::from(" 1   "), "Failed: Second viewport row not set properly");
    assert!(viewport[2] == String::from("   1 "), "Failed: Third viewport row not set properly");
    assert!(viewport[3] == String::from("   1 "), "Failed: Fourth viewport row not set properly");
    assert!(viewport[4] == String::from("     "), "Failed: Fifth viewport row not set properly");

    let gol = sides_pattern();

    // Test gol width smaller than viewport
    let viewport = get_viewport_data(
        Position { x: 0, y: 0 },
        Dimensions { width: 5, height: 3 }, &gol).unwrap();

    assert!(viewport[0] == String::from(" 1 1 "), "Failed: First viewport row not padded properly");
    assert!(viewport[1] == String::from(" 1 1 "), "Failed: Second viewport row not padded properly");
    assert!(viewport[2] == String::from(" 1 1 "), "Failed: Third viewport row not padded properly");

    // Test gol height smaller than viewport
    let viewport = get_viewport_data(
        Position { x: 0, y: 0 },
        Dimensions { width: 3, height: 5 }, &gol).unwrap();

    assert!(viewport[0] == String::from("\n"), "Failed: First viewport row not set to newline");
    assert!(viewport[4] == String::from("\n"), "Failed: Fifth viewport row not set to newline");
}

#[test]
fn viewport_full_window_has_exact_rows() {
    let gol = diagonal_pattern();
    let viewport = get_viewport_data(
        Position { x: 0, y: 0 }, Dimensions { width: 5, height: 5 }, &gol).unwrap();
    assert_eq!(viewport, vec!["     ", " 1   ", "   1 ", "   1 ", "     "]);
}

#[test]
fn viewport_taller_window_has_marker_rows() {
    let gol = sides_pattern();
    let viewport = get_viewport_data(
        Position { x: 0, y: 0 }, Dimensions { width: 3, height: 5 }, &gol).unwrap();
    assert_eq!(viewport, vec!["\n", "1 1", "1 1", "1 1", "\n"]);
}

#[test]
fn viewport_larger_both_ways_pads_both() {
    let gol = sides_pattern();
    let viewport = get_viewport_data(
        Position { x: 0, y: 0 }, Dimensions { width: 5, height: 5 }, &gol).unwrap();
    assert_eq!(viewport, vec!["\n", " 1 1 ", " 1 1 ", " 1 1 ", "\n"]);
}

#[test]
fn viewport_odd_excess_rounds_padding_down() {
    let gol = sides_pattern();
    let viewport = get_viewport_data(
        Position { x: 0, y: 0 }, Dimensions { width: 6, height: 6 }, &gol).unwrap();
    assert_eq!(viewport, vec!["\n", " 1 1 ", " 1 1 ", " 1 1 ", "\n"]);
}

#[test]
fn viewport_inner_window_clips() {
    let gol = diagonal_pattern();
    let viewport = get_viewport_data(
        Position { x: 1, y: 1 }, Dimensions { width: 3, height: 2 }, &gol).unwrap();
    assert_eq!(viewport, vec!["1  ", "  1"]);
}

#[test]
fn viewport_out_of_bounds_origin_fails() {
    let gol = GoL::new(Dimensions { width: 5, height: 5 });
    let r = get_viewport_data(Position { x: 5, y: 5 }, Dimensions { width: 5, height: 5 }, &gol);
    assert_eq!(r, Err(String::from("Viewport out of bounds")));
}

#[test]
fn viewport_past_right_edge_fails() {
    let gol = GoL::new(Dimensions { width: 5, height: 5 });
    let r = get_viewport_data(Position { x: 1, y: 0 }, Dimensions { width: 5, height: 5 }, &gol);
    assert!(r.is_err());
    let r = get_viewport_data(Position { x: 0, y: 3 }, Dimensions { width: 2, height: 3 }, &gol);
    assert!(r.is_err());
}

#[test]
fn viewport_twice_gives_same_rows_and_leaves_grid() {
    let gol = diagonal_pattern();
    let first = get_viewport_data(
        Position { x: 0, y: 0 }, Dimensions { width: 5, height: 5 }, &gol).unwrap();
    let second = get_viewport_data(
        Position { x: 0, y: 0 }, Dimensions { width: 5, height: 5 }, &gol).unwrap();
    assert_eq!(first, second);
    assert!(gol.get_cell_at(Position { x: 1, y: 1 }).unwrap());
    assert!(!gol.get_cell_at(Position { x: 0, y: 0 }).unwrap());
}
