use rustflame::color::{Channel, Sextant};

#[derive(Clone, Copy, Debug, PartialEq)]
struct Rgb {
    r: f32,
    g: f32,
    b: f32,
}

#[derive(Clone, Copy, Debug, PartialEq)]
struct Hsv {
    h: f32,
    s: f32,
    v: f32,
}

fn rgb(r: f32, g: f32, b: f32) -> Option<Rgb> {
    if r > 1.0 || r < 0.0 || g > 1.0 || g < 0.0 || b > 1.0 || b < 0.0 {
        None
    } else {
        Some(Rgb { r, g, b })
    }
}

fn hsv(h: f32, s: f32, v: f32) -> Option<Hsv> {
    if h > 360.0 || h < 0.0 || s > 1.0 || s < 0.0 || v > 1.0 || v < 0.0 {
        None
    } else {
        Some(Hsv { h, s, v })
    }
}

fn to_rgb(c: Hsv) -> Rgb {
    let chrominance = c.v * c.s;
    let sextant = Sextant::of_sixths((c.h / 60.0).floor() as u8);
    let min = c.v - chrominance;
    let mid = (chrominance * (1.0 - (((c.h / 60.0) % 2.0) - 1.0).abs())) + min;
    let max = chrominance + min;
    let (r, g, b) = sextant.arrange(max, mid, min);
    rgb(r, g, b).unwrap()
}

fn to_hsv(c: Rgb) -> Hsv {
    let max = c.r.max(c.g.max(c.b));
    let min = c.r.min(c.g.min(c.b));
    let chrominance = max - min;
    if max == 0.0 {
        return Hsv { h: 0.0, s: 0.0, v: 0.0 };
    }
    if chrominance == 0.0 {
        return Hsv { h: 0.0, s: 0.0, v: max };
    }
    let channel = Channel::dominant(max == c.r, max == c.g);
    let (ahead, behind) = channel.correction(c.r, c.g, c.b);
    let hue = (channel.hue_degrees() as f32 + 60.0 * ((ahead - behind) / chrominance))
        .rem_euclid(360.0);
    hsv(hue, chrominance / max, max).unwrap()
}

fn close(a: f32, b: f32) -> bool {
    (a - b).abs() < 0.0001
}

#[test]
#[allow(non_snake_case)]
fn fRGB_to_fHSV_and_back() {
    let red = rgb(1.0, 0.0, 0.0).unwrap();
    let green = rgb(1.0, 0.0, 0.0).unwrap();
    let blue = hsv(240.0, 1.0, 1.0).unwrap();

    let red_hsv = to_hsv(red);
    let green_hsv = to_hsv(green);
    let blue_rgb = to_rgb(blue);

    assert_eq!(to_rgb(red_hsv), red);
    assert_eq!(to_rgb(green_hsv), green);
    assert_eq!(to_hsv(blue_rgb), blue);

    let yellow = rgb(1.0, 1.0, 0.0).unwrap();
    let orange = hsv(30.0, 1.0, 1.0).unwrap();
    let desat = hsv(70.0, 0.3, 0.7).unwrap();

    let yellow_hsv = to_hsv(yellow);
    let orange_rgb = to_rgb(orange);
    let desat_rgb = to_rgb(desat);

    assert_eq!(to_rgb(yellow_hsv), yellow);
    assert_eq!(to_hsv(orange_rgb), orange);

    let desat_back = to_hsv(desat_rgb);
    assert!((desat_back.h - desat.h).abs() < 0.0001);
    assert!((desat_back.s - desat.s).abs() < 0.0001);
    assert!((desat_back.v - desat.v).abs() < 0.0001);
}

#[test]
fn sextants_arrange_the_levels() {
    assert_eq!(Sextant::RedToYellow.arrange(3, 2, 1), (3, 2, 1));
    assert_eq!(Sextant::YellowToGreen.arrange(3, 2, 1), (2, 3, 1));
    assert_eq!(Sextant::GreenToCyan.arrange(3, 2, 1), (1, 3, 2));
    assert_eq!(Sextant::CyanToBlue.arrange(3, 2, 1), (1, 2, 3));
    assert_eq!(Sextant::BlueToMagenta.arrange(3, 2, 1), (2, 1, 3));
    assert_eq!(Sextant::MagentaToRed.arrange(3, 2, 1), (3, 1, 2));
}

#[test]
fn sextants_are_counted_from_red_and_the_circle_closes() {
    let all = [
        Sextant::RedToYellow,
        Sextant::YellowToGreen,
        Sextant::GreenToCyan,
        Sextant::CyanToBlue,
        Sextant::BlueToMagenta,
        Sextant::MagentaToRed,
    ];
    for sixths in 0u8..=255 {
        let sextant = Sextant::of_sixths(sixths);
        assert_eq!(sextant, all[(sixths % 6) as usize]);
        assert_eq!(sextant.index(), sixths % 6);
    }
    assert_eq!(Sextant::of_sixths(6), Sextant::RedToYellow);
}

#[test]
fn dominant_channel_goes_by_red_then_green() {
    assert_eq!(Channel::dominant(true, true), Channel::Red);
    assert_eq!(Channel::dominant(true, false), Channel::Red);
    assert_eq!(Channel::dominant(false, true), Channel::Green);
    assert_eq!(Channel::dominant(false, false), Channel::Blue);
}

#[test]
fn channels_have_their_hues_and_corrections() {
    assert_eq!(Channel::Red.hue_degrees(), 0);
    assert_eq!(Channel::Green.hue_degrees(), 120);
    assert_eq!(Channel::Blue.hue_degrees(), 240);
    assert_eq!(Channel::Red.correction('r', 'g', 'b'), ('g', 'b'));
    assert_eq!(Channel::Green.correction('r', 'g', 'b'), ('b', 'r'));
    assert_eq!(Channel::Blue.correction('r', 'g', 'b'), ('r', 'g'));
}

#[test]
fn primaries_and_secondaries_convert_exactly() {
    assert_eq!(to_rgb(hsv(0.0, 1.0, 1.0).unwrap()), rgb(1.0, 0.0, 0.0).unwrap());
    assert_eq!(to_rgb(hsv(60.0, 1.0, 1.0).unwrap()), rgb(1.0, 1.0, 0.0).unwrap());
    assert_eq!(to_rgb(hsv(120.0, 1.0, 1.0).unwrap()), rgb(0.0, 1.0, 0.0).unwrap());
    assert_eq!(to_rgb(hsv(180.0, 1.0, 1.0).unwrap()), rgb(0.0, 1.0, 1.0).unwrap());
    assert_eq!(to_rgb(hsv(240.0, 1.0, 1.0).unwrap()), rgb(0.0, 0.0, 1.0).unwrap());
    assert_eq!(to_rgb(hsv(300.0, 1.0, 1.0).unwrap()), rgb(1.0, 0.0, 1.0).unwrap());
    assert_eq!(to_rgb(hsv(360.0, 1.0, 1.0).unwrap()), rgb(1.0, 0.0, 0.0).unwrap());
    assert_eq!(to_hsv(rgb(1.0, 0.0, 1.0).unwrap()), hsv(300.0, 1.0, 1.0).unwrap());
    assert_eq!(to_hsv(rgb(0.0, 1.0, 1.0).unwrap()), hsv(180.0, 1.0, 1.0).unwrap());
}

#[test]
fn grey_and_black_have_hue_zero() {
    assert_eq!(to_hsv(rgb(0.0, 0.0, 0.0).unwrap()), hsv(0.0, 0.0, 0.0).unwrap());
    assert_eq!(to_hsv(rgb(0.5, 0.5, 0.5).unwrap()), hsv(0.0, 0.0, 0.5).unwrap());
    assert_eq!(to_rgb(hsv(200.0, 0.0, 0.5).unwrap()), rgb(0.5, 0.5, 0.5).unwrap());
}

#[test]
fn colours_round_trip_in_every_sextant() {
    for step in 0..72 {
        let colour = hsv(step as f32 * 5.0 + 1.5, 0.6, 0.8).unwrap();
        let back = to_hsv(to_rgb(colour));
        assert!(close(back.h, colour.h));
        assert!(close(back.s, colour.s));
        assert!(close(back.v, colour.v));
        let there = to_rgb(colour);
        let again = to_rgb(to_hsv(there));
        assert!(close(again.r, there.r));
        assert!(close(again.g, there.g));
        assert!(close(again.b, there.b));
    }
}
