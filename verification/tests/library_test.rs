use lib::color::converter::{convert_to_color, is_valid_color, shorten_color, try_convert_color};
use lib::color::model::{Color, Conversion, Shortening};
use lib::color::shortener;
use lib::color::validator;
use lib::{finish_hsl, shorten_css_color};

fn text(input: &str) -> Vec<u8> {
    match shorten_css_color(input) {
        Shortening::Text(bytes) => bytes,
        Shortening::NeedsHsl(_) => panic!("an hsl() colour was not expected here"),
    }
}

fn ready(input: &str) -> Option<Color> {
    match try_convert_color(input) {
        Some(Conversion::Ready(c)) => Some(c),
        Some(Conversion::NeedsHsl(_)) => panic!("an hsl() colour was not expected here"),
        None => None,
    }
}

#[test]
fn color_constructors_and_predicates() {
    let c = Color::new(1, 2, 3, 4);
    assert_eq!((c.r, c.g, c.b, c.a), (1, 2, 3, 4));
    let o = Color::new_rgb(10, 20, 30);
    assert_eq!(o, Color::new(10, 20, 30, 255));
    assert!(o.is_opaque());
    assert!(!o.is_transparent());
    let t = Color::new(0, 0, 0, 0);
    assert!(t.is_transparent());
    assert!(!t.is_opaque());
    assert!(!Color::new(0, 0, 0, 128).is_opaque());
    assert!(!Color::new(0, 0, 0, 128).is_transparent());
}

#[test]
fn converter_reads_hex_functions_and_names() {
    assert_eq!(ready("#abc"), Some(Color::new(170, 187, 204, 255)));
    assert_eq!(ready("#abcd"), Some(Color::new(170, 187, 204, 221)));
    assert_eq!(ready("#123456"), Some(Color::new(18, 52, 86, 255)));
    assert_eq!(ready("#12345678"), Some(Color::new(18, 52, 86, 120)));
    assert_eq!(ready("#12345"), None);
    assert_eq!(ready("#xyz"), None);
    assert_eq!(ready("rgb(255, 0, 0)"), Some(Color::new(255, 0, 0, 255)));
    assert_eq!(ready("rgb(255 0 0)"), Some(Color::new(255, 0, 0, 255)));
    assert_eq!(ready("rgb(255.9, 0, 0)"), Some(Color::new(255, 0, 0, 255)));
    assert_eq!(ready("rgb(256, 0, 0)"), None);
    assert_eq!(ready("rgb(-1, 0, 0)"), None);
    assert_eq!(ready("rgba(aqua, 0.5)"), Some(Color::new(0, 255, 255, 128)));
    assert_eq!(ready("rgba(255, 0, 0, 50%)"), Some(Color::new(255, 0, 0, 128)));
    assert_eq!(ready("rgba(255, 0, 0, 1.5)"), None);
    assert_eq!(ready("rgba(255,0,0,0.5,9)"), Some(Color::new(255, 0, 0, 128)));
    assert_eq!(ready("rgb(1,2,3,4)"), None);
    assert_eq!(ready("rgb(255, 0)"), None);
    assert_eq!(ready("rgb(\u{3000}255, 0, 0)"), Some(Color::new(255, 0, 0, 255)));
    assert_eq!(ready("red"), Some(Color::new(255, 0, 0, 255)));
    assert_eq!(ready("Red"), None);
    assert_eq!(ready("RGB(1, 2, 3)"), None);
    assert_eq!(ready("transparent"), Some(Color::new(0, 0, 0, 0)));
}

#[test]
fn converter_hands_back_hsl_parts() {
    match try_convert_color("hsla(120deg, 100%, 50%, 0.5)") {
        Some(Conversion::NeedsHsl(t)) => {
            assert_eq!(t.hue, b"120deg".to_vec());
            assert_eq!(t.saturation, b"100%".to_vec());
            assert_eq!(t.lightness, b"50%".to_vec());
            assert_eq!(t.alpha, 128);
        }
        _ => panic!("expected the parts of an hsl() colour"),
    }
    assert!(try_convert_color("hsl(120, 100%)").is_none());
    assert!(try_convert_color("hsl(120, 101%, 50%)").is_none());
    match try_convert_color("hsla(navy, 1)") {
        Some(Conversion::Ready(c)) => assert_eq!(c, Color::new(0, 0, 128, 255)),
        _ => panic!("expected a named colour"),
    }
}

#[test]
fn converter_validity_and_convert_to_color() {
    assert!(is_valid_color("#fff"));
    assert!(is_valid_color("hsl(0, 0%, 0%)"));
    assert!(!is_valid_color("invalid"));
    assert!(!is_valid_color("rgb(1, 2)"));
    assert!(convert_to_color("#fff").is_some());
    assert!(convert_to_color("nope").is_none());
}

#[test]
fn shorten_color_picks_the_shortest_text() {
    assert_eq!(shorten_color(&Color::new_rgb(255, 0, 0)), "red");
    assert_eq!(shorten_color(&Color::new_rgb(0, 0, 128)), "navy");
    assert_eq!(shorten_color(&Color::new_rgb(0, 255, 255)), "#0ff");
    assert_eq!(shorten_color(&Color::new_rgb(210, 180, 140)), "tan");
    assert_eq!(shorten_color(&Color::new_rgb(18, 52, 86)), "#123456");
    assert_eq!(shorten_color(&Color::new_rgb(17, 34, 51)), "#123");
    assert_eq!(shorten_color(&Color::new(255, 255, 255, 0)), "#fff0");
    assert_eq!(shorten_color(&Color::new(255, 0, 0, 128)), "#ff000080");
    assert_eq!(shorten_color(&Color::new(255, 0, 0, 0)), "#f000");
    assert_eq!(shortener::shorten_color(&Color::new_rgb(128, 128, 128)), "gray");
    assert_eq!(shortener::shorten_color(&Color::new_rgb(250, 250, 210)), "#fafad2");
}

#[test]
fn shorten_hex_shortens_colours_and_keeps_other_text() {
    let t = |s: &str| match shortener::shorten_hex(s) {
        Shortening::Text(b) => String::from_utf8(b).unwrap(),
        Shortening::NeedsHsl(_) => panic!("an hsl() colour was not expected here"),
    };
    assert_eq!(t("#ffffff"), "#fff");
    assert_eq!(t("#ff0000"), "red");
    assert_eq!(t("rgb(0, 0, 128)"), "navy");
    assert_eq!(t("zzz"), "zzz");
    assert_eq!(t("WHITE"), "WHITE");
    assert_eq!(t("#ff000080"), "#ff000080");
    assert!(matches!(
        shortener::shorten_hex("hsl(0, 100%, 50%)"),
        Shortening::NeedsHsl(_)
    ));
}

#[test]
fn validator_checks_form_and_range() {
    let cases: [(&str, bool); 33] = [
        ("#abc", true),
        ("#ABC", false),
        ("#abcd", true),
        ("#abcde", false),
        ("rgb(255, 0, 0)", true),
        ("rgb(256, 0, 0)", false),
        ("rgb(255.9, 0, 0)", true),
        ("rgb(255.91, 0, 0)", false),
        ("rgba(255,0,0,1.00000005)", true),
        ("rgba(255,0,0,1.0000001)", false),
        ("hsl(120deg, 100%, 50%)", true),
        ("hsl(120DEG, 100%, 50%)", false),
        ("hsla(red, 0.5)", true),
        ("", false),
        ("red", true),
        ("Red", false),
        ("rgb(255, 0, 0", false),
        ("hsl(x, 1%, 1%)", false),
        ("rgba(-0, 0, 0, 1)", false),
        ("rgba(0.5, 0, 0, -0)", true),
        ("rgb(255,\u{3000}0,0)", true),
        ("hsl(-90, 0%, 100%)", true),
        ("hsla(0, 100%, 50%, 50%)", true),
        ("rgb(1,2,3,4)", false),
        ("rgba(1,2,3,0.5,9)", true),
        ("rgb( 1 , 2 , 3 )", true),
        ("rgb(1\t,2,3)", true),
        ("hsl(1.5turn, 10.5%, 20%)", true),
        ("hsl(, 10%, 20%)", false),
        ("rgbx(1,2,3)", false),
        ("rgb(100.0001, 0, 0)", true),
        ("rgba(1,2,3,100.000003%)", true),
        ("rgba(1,2,3,100.000004%)", false),
    ];
    for (input, expected) in cases {
        assert_eq!(validator::is_valid_color(input), expected, "{:?}", input);
    }
}

#[test]
fn shorten_css_edges() {
    assert_eq!(text("#F00"), b"red".to_vec());
    assert_eq!(text("#f00"), b"red".to_vec());
    assert_eq!(text("   "), b"".to_vec());
    assert_eq!(text("@ABC"), b"`abc".to_vec());
    assert_eq!(text("lightgoldenrodyellow"), b"#fafad2".to_vec());
    assert_eq!(text("rgb(18, 52, 86)"), b"#123456".to_vec());
    assert_eq!(text("rgb(1.2345, 0, 0)"), b"#010000".to_vec());
    assert_eq!(text("rgb(1.23456789, 0, 0)"), b"rgb(1.23456789, 0, 0)".to_vec());
    assert_eq!(text("hsla(RED, 50%)"), b"#ff000080".to_vec());
    assert_eq!(text("rgb(255 0 0 / 50%)"), b"rgb(255 0 0 / 50%)".to_vec());
    assert_eq!(text("\u{e9}"), vec![0xE3, 0xA9]);
    assert_eq!(finish_hsl(255, 0, 0, 255), b"red".to_vec());
    assert_eq!(finish_hsl(255, 0, 0, 0), b"#f000".to_vec());
}

#[test]
fn blanks_around_a_value_are_ignored() {
    for s in ["#ABC", "WHITE", "rgb(1, 2, 3)", "nonsense", "#f00"] {
        let padded = format!(" \t\n{}\r ", s);
        assert_eq!(text(&padded), text(s));
    }
}

#[test]
fn case_is_ignored_except_in_rgba_and_hsla() {
    for s in ["WHITE", "#ABCDEF", "RGB(255, 0, 0)", "Rgba(255, 0, 0, 0.5)", "NoColour"] {
        assert_eq!(text(s), text(&s.to_ascii_lowercase()));
    }
    assert_eq!(text("RGBA(255,0,0,0.5)"), b"rgba(255,0,0,0.5)".to_vec());
    assert_eq!(text("rgba(255,0,0,0.5)"), b"#ff000080".to_vec());
}

#[test]
fn shortest_hex_text_reads_back() {
    for c in [
        Color::new(18, 52, 86, 120),
        Color::new_rgb(18, 52, 86),
        Color::new(17, 34, 51, 68),
        Color::new_rgb(0, 255, 255),
    ] {
        let s = shorten_color(&c);
        assert!(s.starts_with('#'));
        assert_eq!(ready(&s), Some(c));
    }
}

#[test]
fn shortest_text_is_stable_and_reads_back() {
    for c in [
        Color::new_rgb(255, 0, 0),
        Color::new_rgb(0, 0, 128),
        Color::new_rgb(210, 180, 140),
        Color::new_rgb(255, 165, 0),
        Color::new_rgb(17, 34, 51),
        Color::new(255, 0, 0, 0),
        Color::new(18, 52, 86, 120),
    ] {
        let s = shorten_color(&c);
        assert_eq!(text(&s), s.as_bytes().to_vec(), "{}", s);
        assert_eq!(ready(&s), Some(c), "{}", s);
    }
}

#[test]
fn no_name_is_shorter_than_the_result() {
    for i in 0..lib::keywords::KEYWORD_COUNT {
        let (name, c) = lib::keywords::keyword_at(i);
        let s = shorten_color(&c);
        if c.is_opaque() {
            assert!(s.len() <= name.len(), "{} -> {}", name, s);
        }
        if name.len() >= 5 {
            assert_eq!(text(name), s.as_bytes().to_vec(), "{}", name);
        } else {
            assert_eq!(text(name), name.as_bytes().to_vec(), "{}", name);
        }
        assert_eq!(ready(name), Some(c), "{}", name);
    }
}
