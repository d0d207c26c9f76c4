use hue::error::HueError;
use hue::rgb::{parse_rgb, Rgb};
use hue::text::{eq_ignoring_case, sort_strings, str_lt};

#[test]
fn rgb_examples_from_readme() {
    assert_eq!(parse_rgb("255,128,0"), Ok(Rgb(255, 128, 0)));
    assert_eq!(parse_rgb("200,0,100"), Ok(Rgb(200, 0, 100)));
    assert_eq!("255,0,128".parse::<Rgb>(), Ok(Rgb(255, 0, 128)));
}

#[test]
fn rgb_fields_are_trimmed_and_may_have_plus() {
    assert_eq!(parse_rgb(" 1, 2 ,\t3 "), Ok(Rgb(1, 2, 3)));
    assert_eq!(parse_rgb("+7,007,0"), Ok(Rgb(7, 7, 0)));
}

#[test]
fn rgb_wrong_shape() {
    assert_eq!(
        parse_rgb("255,128"),
        Err("Expected R,G,B format (e.g. 255,128,0), got '255,128'".to_string())
    );
    assert_eq!(
        parse_rgb("red"),
        Err("Expected R,G,B format (e.g. 255,128,0), got 'red'".to_string())
    );
}

#[test]
fn rgb_bad_values() {
    assert_eq!(parse_rgb("256,0,0"), Err("'256' is not a valid 0–255 value".to_string()));
    assert_eq!(parse_rgb("1, x ,3"), Err("' x ' is not a valid 0–255 value".to_string()));
    assert_eq!(parse_rgb("1,2,3,4"), Err("'3,4' is not a valid 0–255 value".to_string()));
    assert_eq!(parse_rgb("1,2,"), Err("'' is not a valid 0–255 value".to_string()));
    assert_eq!(parse_rgb("-1,2,3"), Err("'-1' is not a valid 0–255 value".to_string()));
    assert_eq!(parse_rgb("+,2,3"), Err("'+' is not a valid 0–255 value".to_string()));
}

#[test]
fn rgb_round_trip_of_written_colours() {
    for (r, g, b) in [(0u8, 0u8, 0u8), (255, 128, 0), (9, 10, 99), (100, 255, 1)] {
        assert_eq!(parse_rgb(&format!("{r},{g},{b}")), Ok(Rgb(r, g, b)));
    }
}

#[test]
fn case_insensitive_equality() {
    assert!(eq_ignoring_case("Living Room", "living room"));
    assert!(eq_ignoring_case("ÉTAGE", "étage"));
    assert!(eq_ignoring_case("Küche", "KÜCHE"));
    assert!(!eq_ignoring_case("hall", "halls"));
    assert!(!eq_ignoring_case("Bad", "Bed"));
}

#[test]
fn string_order_matches_std() {
    let words = ["b", "a", "ab", "", "Z", "é", "aa"];
    for x in words {
        for y in words {
            assert_eq!(str_lt(x, y), x < y, "{x} < {y}");
        }
    }
    let sorted = sort_strings(words.iter().map(|w| w.to_string()).collect());
    let mut expected: Vec<String> = words.iter().map(|w| w.to_string()).collect();
    expected.sort();
    assert_eq!(sorted, expected);
}

#[test]
fn every_error_message() {
    let cases = vec![
        (HueError::BridgeNotConfigured, "Bridge not configured — run `hue init` first"),
        (HueError::NotAuthenticated, "Not authenticated — run `hue init` first"),
        (HueError::NoBridgesFound, "No bridges found via cloud discovery"),
        (HueError::EmptyResponse, "Empty response from bridge"),
        (HueError::NoUsername, "No username in success response"),
        (HueError::UnexpectedResponse, "Unexpected response from bridge"),
        (HueError::ApiError("x".to_string()), "Hue API error: x"),
        (HueError::MissingPresetSettings, "Specify at least --dim or --rgb"),
        (
            HueError::PresetNotFoundForAdd("p".to_string()),
            "Preset 'p' not found — use `preset save` to create it",
        ),
        (HueError::PresetNotFound("p".to_string()), "Preset 'p' not found"),
        (
            HueError::GroupNotFound { name: "g".to_string(), available: vec![] },
            "Group 'g' not found. Available groups: ",
        ),
    ];
    for (e, m) in cases {
        assert_eq!(e.message(), m);
    }
}
