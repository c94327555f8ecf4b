use lib::color::model::{HslTokens, Shortening};

/// A decimal of at most eight bytes in single precision: digits and one `.`, four fraction
/// digits read; with `signed`, a leading `-`. Values above `max` are refused.
fn decimal(s: &[u8], max: f32, signed: bool) -> Option<f32> {
    let len = s.len();
    if len == 0 || len > 8 {
        return None;
    }
    if !signed && !s.contains(&b'.') {
        let mut r = 0u32;
        for &v in s {
            if !v.is_ascii_digit() {
                return None;
            }
            r = r * 10 + (v - b'0') as u32;
        }
        let f = r as f32;
        return if f > max { None } else { Some(f) };
    }
    let mut r = 0.0f32;
    let mut in_fraction = false;
    let mut scale = 10.0f32;
    let negative = signed && s[0] == b'-';
    let start = if negative {
        if len == 1 {
            return None;
        }
        1
    } else {
        if !signed && s[0] == b'-' {
            return None;
        }
        0
    };
    for &v in &s[start..] {
        match v {
            b'0'..=b'9' => {
                let digit = (v - b'0') as f32;
                if in_fraction {
                    r += digit / scale;
                    scale *= 10.0;
                    if scale > 10000.0 {
                        break;
                    }
                } else {
                    r = r * 10.0 + digit;
                    if r > max && !negative {
                        return None;
                    }
                }
            }
            b'.' => {
                if in_fraction {
                    return None;
                }
                in_fraction = true;
            }
            _ => return None,
        }
    }
    let f = if negative { -r } else { r };
    if f > max || (!signed && f < 0.0) {
        None
    } else {
        Some(f)
    }
}

fn percent(s: &[u8]) -> Option<f32> {
    let len = s.len();
    if !(2..=6).contains(&len) || s[len - 1] != b'%' {
        return None;
    }
    let r = decimal(&s[..len - 1], 100.0, true)?;
    if !(0.0..=100.0).contains(&r) {
        return None;
    }
    Some(r)
}

fn ends_with_ignore_case(s: &[u8], suffix: &[u8]) -> bool {
    s.len() >= suffix.len() && s[s.len() - suffix.len()..].eq_ignore_ascii_case(suffix)
}

fn hue(s: &[u8]) -> Option<f32> {
    let len = s.len();
    if len == 0 {
        return None;
    }
    let (number, factor) = if ends_with_ignore_case(s, b"grad") {
        (&s[..len - 4], 0.9)
    } else if ends_with_ignore_case(s, b"turn") {
        (&s[..len - 4], 360.0)
    } else if ends_with_ignore_case(s, b"deg") {
        (&s[..len - 3], 1.0)
    } else if ends_with_ignore_case(s, b"rad") {
        (&s[..len - 3], 57.29578)
    } else {
        (s, 1.0)
    };
    let h = decimal(number, f32::MAX, true)?;
    Some(((h * factor % 360.0) + 360.0) % 360.0)
}

fn hsl_to_rgb(hue: f32, s: f32, l: f32) -> (u8, u8, u8) {
    let sn = s * 0.01;
    let ln = l * 0.01;
    let chroma = (1.0 - (2.0 * ln - 1.0).abs()) * sn;
    let sector = hue / 60.0;
    let x = chroma * (1.0 - ((sector % 2.0) - 1.0).abs());
    let m = ln - chroma * 0.5;
    let (r, g, b) = match sector as u8 {
        0 => (chroma, x, 0.0),
        1 => (x, chroma, 0.0),
        2 => (0.0, chroma, x),
        3 => (0.0, x, chroma),
        4 => (x, 0.0, chroma),
        _ => (chroma, 0.0, x),
    };
    (
        ((r + m) * 255.0 + 0.5) as u8,
        ((g + m) * 255.0 + 0.5) as u8,
        ((b + m) * 255.0 + 0.5) as u8,
    )
}

fn finish(t: &HslTokens) -> String {
    let h = hue(&t.hue).expect("hue");
    let s = percent(&t.saturation).expect("saturation");
    let l = percent(&t.lightness).expect("lightness");
    let (r, g, b) = hsl_to_rgb(h, s, l);
    String::from_utf8(lib::finish_hsl(r, g, b, t.alpha)).expect("ascii")
}

fn shorten_css_color(input: &str) -> String {
    match lib::shorten_css_color(input) {
        Shortening::Text(bytes) => String::from_utf8(bytes).expect("utf-8"),
        Shortening::NeedsHsl(t) => finish(&t),
    }
}

#[test]
fn test_hex_colors() {
    assert_eq!(shorten_css_color("#ff0000"), "red");
    assert_eq!(shorten_css_color("#008000"), "green");
    assert_eq!(shorten_css_color("#000080"), "navy");
    assert_eq!(shorten_css_color("#800080"), "purple");
    assert_eq!(shorten_css_color("#808080"), "gray");

    assert_eq!(shorten_css_color("#000000"), "#000");
    assert_eq!(shorten_css_color("#ffffff"), "#fff");
    assert_eq!(shorten_css_color("#ff00ff"), "#f0f");
    assert_eq!(shorten_css_color("#00ffff"), "#0ff");
    assert_eq!(shorten_css_color("#ffff00"), "#ff0");
    assert_eq!(shorten_css_color("#aabbcc"), "#abc");

    assert_eq!(shorten_css_color("#FF0000"), "red");
    assert_eq!(shorten_css_color("#FFFFFF"), "#fff");
    assert_eq!(shorten_css_color("#d2b48c"), "tan");
    assert_eq!(shorten_css_color("#F00"), "red");
}

#[test]
fn test_hex_with_alpha() {
    assert_eq!(shorten_css_color("#ff000080"), "#ff000080");
    assert_eq!(shorten_css_color("#ffffff00"), "#fff0");
    assert_eq!(shorten_css_color("#000000ff"), "#000");
    assert_eq!(shorten_css_color("#aabbccdd"), "#abcd");
}

#[test]
fn test_rgb_colors() {
    assert_eq!(shorten_css_color("rgb(255, 0, 0)"), "red");
    assert_eq!(shorten_css_color("rgb(170, 187, 204)"), "#abc");
    assert_eq!(shorten_css_color("rgb(0, 255, 255)"), "#0ff");
    assert_eq!(shorten_css_color("rgb(0, 0, 0)"), "#000");
    assert_eq!(shorten_css_color("rgb(255, 255, 255)"), "#fff");

    assert_eq!(shorten_css_color("rgb(255,0,0)"), "red");
    assert_eq!(shorten_css_color("rgb( 255 , 0 , 0 )"), "red");
    assert_eq!(shorten_css_color("rgb(255 0 0)"), "red");
    assert_eq!(shorten_css_color("rgb(  255  0  0  )"), "red");

    assert_eq!(shorten_css_color("rgb(255.0, 0.0, 0.0)"), "red");
    assert_eq!(shorten_css_color("rgb(255.5, 0.5, 0.5)"), "#ff0101");
    assert_eq!(shorten_css_color("rgb(0.4, 0.4, 0.4)"), "#000");
    assert_eq!(shorten_css_color("rgb(0.6, 0.6, 0.6)"), "#010101");

    assert_eq!(shorten_css_color("RGB(255, 0, 0)"), "red");
}

#[test]
fn test_rgba_colors() {
    assert_eq!(shorten_css_color("rgba(255, 0, 0, 0.5)"), "#ff000080");
    assert_eq!(shorten_css_color("rgba(170, 187, 204, 0.2)"), "#abc3");
    assert_eq!(shorten_css_color("rgba(255, 255, 255, 1)"), "#fff");
    assert_eq!(shorten_css_color("rgba(255, 0, 0, 1.0)"), "red");
    assert_eq!(shorten_css_color("rgba(0, 0, 0, 0)"), "#0000");

    assert_eq!(shorten_css_color("rgba(255, 0, 0, 50%)"), "#ff000080");
    assert_eq!(shorten_css_color("rgba(255, 0, 0, 100%)"), "red");
    assert_eq!(shorten_css_color("rgba(255, 0, 0, 0%)"), "#f000");

    assert_eq!(shorten_css_color("rgba(255,0,0,0.5)"), "#ff000080");
    assert_eq!(shorten_css_color("rgba( 255 , 0 , 0 , 0.5 )"), "#ff000080");
    assert_eq!(shorten_css_color("rgba(255 0 0 0.5)"), "#ff000080");

    assert_eq!(shorten_css_color("rgba(255, 0, 0, .5)"), "#ff000080");
    assert_eq!(shorten_css_color("rgba(255, 0, 0, 0.)"), "#f000");
    assert_eq!(shorten_css_color("rgba(255, 0, 0, 0.001)"), "#f000");
    assert_eq!(shorten_css_color("rgba(255, 0, 0, 0.999)"), "red");

    assert_eq!(shorten_css_color("rgba(aqua, 0.5)"), "#00ffff80");
    assert_eq!(shorten_css_color("rgba(navy, 0.5)"), "#00008080");
}

#[test]
fn test_hsl_colors() {
    assert_eq!(shorten_css_color("hsl(0, 100%, 50%)"), "red");
    assert_eq!(shorten_css_color("hsl(120, 100%, 50%)"), "#0f0");
    assert_eq!(shorten_css_color("hsl(240, 100%, 50%)"), "#00f");
    assert_eq!(shorten_css_color("hsl(300, 100%, 50%)"), "#f0f");
    assert_eq!(shorten_css_color("hsl(60, 100%, 50%)"), "#ff0");
    assert_eq!(shorten_css_color("hsl(180, 100%, 50%)"), "#0ff");

    assert_eq!(shorten_css_color("hsl(0deg, 100%, 50%)"), "red");
    assert_eq!(shorten_css_color("hsl(360deg, 100%, 50%)"), "red");
    assert_eq!(shorten_css_color("hsl(1turn, 100%, 50%)"), "red");
    assert_eq!(shorten_css_color("hsl(6.283rad, 100%, 50%)"), "red");
    assert_eq!(shorten_css_color("hsl(400grad, 100%, 50%)"), "red");

    assert_eq!(shorten_css_color("hsl(0,100%,50%)"), "red");
    assert_eq!(shorten_css_color("hsl( 0 , 100% , 50% )"), "red");
    assert_eq!(shorten_css_color("hsl(0 100% 50%)"), "red");

    assert_eq!(shorten_css_color("hsl(720deg, 100%, 50%)"), "red");
    assert_eq!(shorten_css_color("hsl(-360deg, 100%, 50%)"), "red");
    assert_eq!(shorten_css_color("hsl(-90deg, 100%, 50%)"), "#8000ff");

    assert_eq!(shorten_css_color("hsl(0, 0%, 0%)"), "#000");
    assert_eq!(shorten_css_color("hsl(0, 0%, 100%)"), "#fff");
    assert_eq!(shorten_css_color("hsl(0, 0%, 50%)"), "gray");

    assert_eq!(shorten_css_color("HSL(0, 100%, 50%)"), "red");
}

#[test]
fn test_hsla_colors() {
    assert_eq!(shorten_css_color("hsla(0, 100%, 50%, 0.5)"), "#ff000080");
    assert_eq!(shorten_css_color("hsla(240, 100%, 50%, 1)"), "#00f");
    assert_eq!(shorten_css_color("hsla(0, 100%, 50%, 100%)"), "red");
    assert_eq!(shorten_css_color("hsla(0, 100%, 50%, 50%)"), "#ff000080");

    assert_eq!(shorten_css_color("hsla(0,100%,50%,0.5)"), "#ff000080");
    assert_eq!(
        shorten_css_color("hsla( 0 , 100% , 50% , 0.5 )"),
        "#ff000080"
    );
    assert_eq!(shorten_css_color("hsla(0 100% 50% 0.5)"), "#ff000080");

    assert_eq!(shorten_css_color("rgba(lime, 0.5)"), "#00ff0080");
    assert_eq!(shorten_css_color("rgba(teal, 0.5)"), "#00808080");
}

#[test]
fn test_color_keywords() {
    assert_eq!(shorten_css_color("red"), "red");
    assert_eq!(shorten_css_color("blue"), "blue");
    assert_eq!(shorten_css_color("white"), "#fff");
    assert_eq!(shorten_css_color("black"), "#000");
    assert_eq!(shorten_css_color("yellow"), "#ff0");
    assert_eq!(shorten_css_color("magenta"), "#f0f");
    assert_eq!(shorten_css_color("cyan"), "cyan");

    assert_eq!(shorten_css_color("rebeccapurple"), "#639");
    assert_eq!(shorten_css_color("transparent"), "#0000");
    assert_eq!(shorten_css_color("silver"), "silver");
    assert_eq!(shorten_css_color("gray"), "gray");
    assert_eq!(shorten_css_color("maroon"), "maroon");
    assert_eq!(shorten_css_color("olive"), "olive");
    assert_eq!(shorten_css_color("fuchsia"), "#f0f");
    assert_eq!(shorten_css_color("lime"), "lime");
    assert_eq!(shorten_css_color("aqua"), "aqua");
    assert_eq!(shorten_css_color("navy"), "navy");
    assert_eq!(shorten_css_color("teal"), "teal");
    assert_eq!(shorten_css_color("purple"), "purple");

    assert_eq!(shorten_css_color("WHITE"), "#fff");
    assert_eq!(shorten_css_color("Red"), "red");
    assert_eq!(shorten_css_color("BLUE"), "blue");
}

#[test]
fn test_whitespace_handling() {
    assert_eq!(shorten_css_color("  #ff0000  "), "red");
    assert_eq!(shorten_css_color(" rgb(255, 0, 0) "), "red");
    assert_eq!(shorten_css_color("  white  "), "#fff");
    assert_eq!(shorten_css_color("   red   "), "red");
    assert_eq!(shorten_css_color("       #ffffff "), "#fff");
    assert_eq!(shorten_css_color("\n rgb(0, 255, 0) \n"), "#0f0");
    assert_eq!(shorten_css_color("  transparent  "), "#0000");
}

#[test]
fn test_invalid_colors() {
    assert_eq!(shorten_css_color(""), "");
    assert_eq!(shorten_css_color("invalid"), "invalid");
    assert_eq!(shorten_css_color("rgb(300, 0, 0)"), "rgb(300, 0, 0)");
    assert_eq!(shorten_css_color("#gggggg"), "#gggggg");
    assert_eq!(
        shorten_css_color("hsl(400, 200%, 150%)"),
        "hsl(400, 200%, 150%)"
    );
    assert_eq!(shorten_css_color("rgb(255, 0)"), "rgb(255, 0)");
    assert_eq!(shorten_css_color("rgba(255, 0, 0)"), "rgba(255, 0, 0)");
    assert_eq!(shorten_css_color("hsl(0, 100%)"), "hsl(0, 100%)");
    assert_eq!(
        shorten_css_color("hsla(0, 100%, 50%)"),
        "hsla(0, 100%, 50%)"
    );
    assert_eq!(
        shorten_css_color("rgb(-10, -10, -10)"),
        "rgb(-10, -10, -10)"
    );
    assert_eq!(
        shorten_css_color("rgba(255, 0, 0, 1.5)"),
        "rgba(255, 0, 0, 1.5)"
    );
    assert_eq!(
        shorten_css_color("rgba(255, 0, 0, -0.5)"),
        "rgba(255, 0, 0, -0.5)"
    );
}

#[test]
fn test_edge_cases() {
    assert_eq!(shorten_css_color("a"), "a");
    assert_eq!(shorten_css_color("ab"), "ab");
    assert_eq!(shorten_css_color("abc"), "abc");
    assert_eq!(shorten_css_color("abcd"), "abcd");

    assert_eq!(shorten_css_color("#fff"), "#fff");
    assert_eq!(shorten_css_color("#abc"), "#abc");
    assert_eq!(shorten_css_color("#f0a2"), "#f0a2");

    assert_eq!(shorten_css_color("rgb(255.4, 255.4, 255.4)"), "#fff");
    assert_eq!(shorten_css_color("rgb(255.6, 255.6, 255.6)"), "#fff");
    assert_eq!(shorten_css_color("rgba(255, 0, 0, 0.004)"), "#ff000001");
    assert_eq!(shorten_css_color("rgba(255, 0, 0, 0.996)"), "#ff0000fe");

    assert_eq!(shorten_css_color("rgba(128, 128, 128, 0.5)"), "#80808080");
    assert_eq!(shorten_css_color("rgba(64, 128, 192, 0.25)"), "#4080c040");

    assert_eq!(shorten_css_color("hsl(0.001deg, 100%, 50%)"), "red");
    assert_eq!(shorten_css_color("hsl(359.999deg, 100%, 50%)"), "red");
}
