use grate_bot::canvas::{generate_canvas_png, parse_hex_color, CanvasPreset, ColorParseError, Rgb};
use grate_bot::choices::{grateic_help_text, BackgroundChoice, BackgroundError, HelpTopicChoice, PresetChoice};

#[test]
fn maps_presets_to_dimensions() {
    assert_eq!(CanvasPreset::Square.dimensions(), (1024, 1024));
    assert_eq!(CanvasPreset::Portrait.dimensions(), (1080, 1920));
    assert_eq!(CanvasPreset::Landscape.dimensions(), (1920, 1080));
}

#[test]
fn parses_hex_color() {
    assert_eq!(parse_hex_color("#00aAFF").unwrap(), Rgb([0, 170, 255]));
    assert_eq!(parse_hex_color("00aAFF"), Err(ColorParseError::InvalidFormat));
    assert_eq!(parse_hex_color("#00aa"), Err(ColorParseError::InvalidFormat));
    assert_eq!(parse_hex_color("#00xxff"), Err(ColorParseError::InvalidFormat));
}

#[test]
fn generates_png_with_expected_dimensions_and_color() {
    let bytes = generate_canvas_png(CanvasPreset::Square, Rgb([12, 34, 56])).unwrap();
    let decoded = image::load_from_memory(&bytes).unwrap().into_rgb8();

    assert_eq!(decoded.dimensions(), (1024, 1024));
    assert_eq!(*decoded.get_pixel(0, 0), image::Rgb([12, 34, 56]));
    assert_eq!(*decoded.get_pixel(1023, 1023), image::Rgb([12, 34, 56]));
}

#[test]
fn png_output_starts_with_png_signature() {
    let bytes = generate_canvas_png(CanvasPreset::Landscape, Rgb([255, 255, 255])).unwrap();
    assert_eq!(&bytes[..8], &[0x89, b'P', b'N', b'G', 0x0d, 0x0a, 0x1a, 0x0a]);
}

#[test]
fn preset_choices_map_to_presets_and_labels() {
    assert_eq!(CanvasPreset::from(PresetChoice::Portrait), CanvasPreset::Portrait);
    assert_eq!(CanvasPreset::Square.label(), "square");
    assert_eq!(CanvasPreset::Landscape.label(), "landscape");
}

#[test]
fn background_choices_give_hex_or_refuse() {
    assert_eq!(BackgroundChoice::WarmPaper.hex(None).unwrap(), "#f8f1df");
    assert_eq!(BackgroundChoice::Black.hex(Some("#123456")).unwrap(), "#000000");
    assert_eq!(BackgroundChoice::Custom.hex(Some("#FF00aa")).unwrap(), "#FF00aa");
    assert_eq!(
        BackgroundChoice::Custom.hex(None),
        Err(BackgroundError::MissingCustomBackground)
    );
    let error = BackgroundChoice::Custom.hex(Some("ff00aa")).unwrap_err();
    assert_eq!(error, BackgroundError::InvalidColor(ColorParseError::InvalidFormat));
    assert_eq!(error.message(), "background color must use #RRGGBB format");
}

#[test]
fn help_topics_have_their_own_text() {
    assert!(grateic_help_text(HelpTopicChoice::Overview).starts_with("Grateic Phone help"));
    assert!(grateic_help_text(HelpTopicChoice::CanvasSizeRule).contains("1080x1920"));
    assert!(grateic_help_text(HelpTopicChoice::Modes).contains("`short`"));
}
