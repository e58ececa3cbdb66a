use declart_core::{parse_hex, theme_colors_from_toml, Color, DeclartError};

const VALID_TOML: &str = r##"
[colors]
apex       = "#003087"
base       = "#B8D0E8"
background = "#FFFFFF"
on_dark    = "#FFFFFF"
on_light   = "#003087"
title      = "#003087"
"##;

#[test]
fn is_dark_boundary() {
    // lum = 0.299*127 + 0.587*127 + 0.114*127 ≈ 127 < 128 → dark
    let dark = Color::new(127, 127, 127);
    assert!(dark.is_dark());
    // lum = 0.299*128 + 0.587*128 + 0.114*128 ≈ 128 → not dark
    let light = Color::new(128, 128, 128);
    assert!(!light.is_dark());
}

#[test]
fn from_toml_rejects_invalid_hex() {
    let bad = VALID_TOML.replace("#003087", "ZZZZZ");
    let err = theme_colors_from_toml(&bad).unwrap_err();
    let msg = err.message();
    assert!(msg.contains("invalid hex color") || msg.contains("invalid theme"), "unexpected error: {msg}");
}

#[test]
fn from_toml_rejects_missing_field() {
    let bad = "[colors]\napex = \"#003087\"\n"; // missing fields
    let err = theme_colors_from_toml(bad).unwrap_err();
    assert!(err.message().contains("invalid theme") || err.message().contains("missing field"));
}

#[test]
fn theme_colors_read_from_valid_toml() {
    let c = theme_colors_from_toml(VALID_TOML).unwrap();
    assert_eq!(c.apex, Color::new(0x00, 0x30, 0x87));
    assert_eq!(c.base, Color::new(0xB8, 0xD0, 0xE8));
    assert_eq!(c.background, Color::new(255, 255, 255));
    assert_eq!(c.title, Color::new(0x00, 0x30, 0x87));
}

#[test]
fn theme_colors_accept_numeric_typography() {
    let toml = format!("{}\n[typography]\ntitle_size = 22.0\nlabel_size = 16\nlabel_size_min = 12.0", VALID_TOML);
    assert!(theme_colors_from_toml(&toml).is_ok());
}

#[test]
fn theme_colors_reject_text_typography() {
    let toml = format!("{}\n[typography]\ntitle_size = \"big\"", VALID_TOML);
    assert!(matches!(theme_colors_from_toml(&toml), Err(DeclartError::InvalidTheme(_))));
}

#[test]
fn theme_colors_report_the_first_bad_color() {
    let bad = VALID_TOML.replace("#B8D0E8", "#12345").replace("#003087", "nope");
    match theme_colors_from_toml(&bad) {
        Err(DeclartError::InvalidThemeColor { field, hex }) => {
            assert_eq!(field, "colors.apex");
            assert_eq!(hex, "nope");
        }
        other => panic!("unexpected: {other:?}"),
    }
}

#[test]
fn theme_colors_reject_broken_toml() {
    assert!(matches!(theme_colors_from_toml("[colors"), Err(DeclartError::InvalidTheme(_))));
}

#[test]
fn to_hex_writes_upper_case_digits() {
    assert_eq!(Color::new(0, 48, 135).to_hex(), "#003087");
    assert_eq!(Color::new(171, 205, 239).to_hex(), "#ABCDEF");
}

#[test]
fn parse_hex_reads_either_case_with_or_without_hash() {
    assert_eq!(parse_hex("f", "#abcdef").unwrap(), Color::new(0xAB, 0xCD, 0xEF));
    assert_eq!(parse_hex("f", "003087").unwrap(), Color::new(0, 0x30, 0x87));
}

#[test]
fn parse_hex_takes_only_six_digits_after_one_hash() {
    for bad in ["##ABCDEF", "#+A0000", "#+F+F+F", "+F+F+F", "#ABCDE ", "#ÄBCDEF"] {
        assert!(matches!(parse_hex("f", bad), Err(DeclartError::InvalidThemeColor { .. })), "{bad} should be refused");
    }
}

#[test]
fn parse_hex_rejects_wrong_length_and_digits() {
    for bad in ["#12345", "#1234567", "#12345G", ""] {
        match parse_hex("colors.base", bad) {
            Err(DeclartError::InvalidThemeColor { field, hex }) => {
                assert_eq!(field, "colors.base");
                assert_eq!(hex, bad);
            }
            other => panic!("unexpected: {other:?}"),
        }
    }
}

#[test]
fn hex_round_trip() {
    for c in [Color::new(0, 0, 0), Color::new(255, 255, 255), Color::new(18, 52, 86), Color::new(160, 11, 250)] {
        assert_eq!(parse_hex("x", &c.to_hex()).unwrap(), c);
    }
}

#[test]
fn is_dark_weights_green_most() {
    assert!(!Color::new(0, 255, 0).is_dark());
    assert!(Color::new(255, 0, 255).is_dark());
    assert!(Color::new(255, 0, 0).is_dark());
    assert!(Color::new(0, 200, 0).is_dark());
}

#[test]
fn is_dark_follows_single_precision_at_the_boundary() {
    assert!(Color::new(75, 175, 25).is_dark());
    assert!(Color::new(202, 114, 6).is_dark());
    assert!(Color::new(237, 55, 218).is_dark());
    assert!(!Color::new(128, 128, 128).is_dark());
    assert!(!Color::new(1, 189, 147).is_dark());
}

#[test]
fn refused_themes_say_invalid_theme_or_invalid_hex_color() {
    let missing_base = VALID_TOML.lines().filter(|l| !l.starts_with("base")).collect::<Vec<_>>().join("\n");
    let bad_hex = VALID_TOML.replace("#B8D0E8", "ZZZZZ");
    for (text, prefix) in [
        ("[colors", "invalid theme: "),
        (missing_base.as_str(), "invalid theme: "),
        (bad_hex.as_str(), "invalid hex color `ZZZZZ`"),
    ] {
        let e = theme_colors_from_toml(text).unwrap_err();
        assert!(e.message().starts_with(prefix), "{}", e.message());
    }
}
