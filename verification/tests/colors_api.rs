use named_colors::colors::add_color;
use named_colors::colors::get_color_by_name;
use named_colors::colors::load_colors;
use named_colors::colors::load_colors_from_file;

#[test]
fn colors_test_get_color_by_name() {
    let color_map = load_colors().unwrap();
    let color = get_color_by_name(&color_map, "red");
    assert_eq!(color, Some((255, 0, 0))); // Expected RGB for "red"
}

#[test]
fn colors_test_get_color_by_invalid_name() {
    let color_map = load_colors().unwrap();
    let color = get_color_by_name(&color_map, "invalid_color");
    assert_eq!(color, None); // No valid color found
}

#[test]
fn colors_test_get_color_case_insensitive() {
    let color_map = load_colors().unwrap();
    let color = get_color_by_name(&color_map, "Red");
    assert_eq!(color, Some((255, 0, 0))); // Function should be case insensitive

    let color_lowercase = get_color_by_name(&color_map, "red");
    assert_eq!(color_lowercase, Some((255, 0, 0))); // Check with a lowercase name
}

#[test]
fn colors_test_add_new_color() {
    let mut color_map = load_colors().unwrap();
    let result = add_color(&mut color_map, "sunset_orange", 255, 94, 77);
    assert!(result.is_ok(), "Failed to add the new color.");
    let color = get_color_by_name(&color_map, "sunset_orange");
    assert_eq!(color, Some((255, 94, 77))); // Verify the added color
}

#[test]
fn test_load_colors_from_file() {
    let json_data = "{\"blue\": {\"r\": 0, \"g\": 0, \"b\": 255}}";
    let color_map = load_colors_from_file(json_data).unwrap();
    let color = get_color_by_name(&color_map, "blue");
    assert_eq!(color, Some((0, 0, 255))); // Verify loading from user-defined JSON
}

#[test]
fn colors_test_add_duplicate_color() {
    let mut color_map = load_colors().unwrap();
    let result = add_color(&mut color_map, "blue", 0, 0, 255);
    assert!(result.is_ok(), "Failed to add the new color.");

    let result = add_color(&mut color_map, "blue", 255, 0, 0);
    assert!(result.is_err(), "Failed to detect duplicate color.");

    assert_eq!(
        result.err().unwrap().message(),
        "The color 'blue' already exists."
    );
}
