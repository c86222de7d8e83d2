use cascade::config::color_from_digits;
use cascade::config::find_duplicate_layout;
use cascade::config::parse_color;
use cascade::config::BackgroundColor;
use cascade::config::ColorError;
use cascade::config::ImageMode;
use cascade::entities::is_blocked_title;
use cascade::input_inhibitor::InputInhibitor;

fn layouts(names: &[&str]) -> Vec<String> {
    names.iter().map(|name| name.to_string()).collect()
}

#[test]
fn color_is_read_from_hex() {
    assert_eq!(parse_color("#ff8000"), Ok(BackgroundColor { red: 255, green: 128, blue: 0 }));
    assert_eq!(parse_color("#000000"), Ok(BackgroundColor { red: 0, green: 0, blue: 0 }));
    assert_eq!(parse_color("#FFFFFF"), Ok(BackgroundColor { red: 255, green: 255, blue: 255 }));
    assert_eq!(parse_color("  #0a1B2c\t\n"), Ok(BackgroundColor { red: 10, green: 27, blue: 44 }));
}

#[test]
fn color_needs_the_hash_form() {
    assert_eq!(parse_color("ff8000"), Err(ColorError::Format));
    assert_eq!(parse_color("#ff80"), Err(ColorError::Format));
    assert_eq!(parse_color("#ff800000"), Err(ColorError::Format));
    assert_eq!(parse_color("#gg0000"), Err(ColorError::Format));
    assert_eq!(parse_color("x #ff8000"), Err(ColorError::Format));
    assert_eq!(parse_color(""), Err(ColorError::Format));
}

#[test]
fn digits_give_the_color() {
    assert_eq!(color_from_digits("0a1B2c"), Ok(BackgroundColor { red: 10, green: 27, blue: 44 }));
    assert_eq!(color_from_digits("12345"), Err(ColorError::Digits));
    assert_eq!(color_from_digits("1234567"), Err(ColorError::Digits));
    assert_eq!(color_from_digits("zzzzzz"), Err(ColorError::Digits));
    assert_eq!(color_from_digits("12345g"), Err(ColorError::Digits));
    assert_eq!(color_from_digits("#12345"), Err(ColorError::Digits));
}

#[test]
fn duplicate_layouts_are_found() {
    assert_eq!(find_duplicate_layout(&layouts(&["us", "se", "de"])), None);
    assert_eq!(find_duplicate_layout(&layouts(&[])), None);
    assert_eq!(find_duplicate_layout(&layouts(&["us", "se", "us"])), Some((0, 2)));
    assert_eq!(find_duplicate_layout(&layouts(&["de", "us", "se", "se", "us"])), Some((1, 4)));
}

#[test]
fn image_mode_names() {
    assert_eq!(ImageMode::default(), ImageMode::Fill);
    assert_eq!(ImageMode::Stretch.to_string(), "stretch");
    assert_eq!(ImageMode::Fit.to_string(), "fit");
    assert_eq!(ImageMode::Fill.to_string(), "fill");
    assert_eq!(ImageMode::Center.to_string(), "center");
    assert_eq!(ImageMode::Tile.to_string(), "tile");
}

#[test]
fn launcher_title_is_blocked() {
    assert!(is_blocked_title("Ulauncher window title"));
    assert!(!is_blocked_title("ulauncher window title"));
    assert!(!is_blocked_title("Ulauncher window titles"));
    assert!(!is_blocked_title(""));
}

#[test]
fn inhibitor_lets_only_the_exclusive_client_in() {
    let mut inhibitor = InputInhibitor::new();
    assert!(!inhibitor.is_inhibited());
    assert!(inhibitor.is_allowed(7));
    assert!(!inhibitor.is_excluse(7));
    inhibitor.set(7);
    assert!(inhibitor.is_inhibited());
    assert!(inhibitor.is_allowed(7));
    assert!(!inhibitor.is_allowed(8));
    assert!(inhibitor.is_excluse(7));
    inhibitor.clear();
    assert!(!inhibitor.is_inhibited());
    assert!(inhibitor.is_allowed(8));
}
