use palette::color_difference::EuclideanDistance;
use palette::{FromColor, Mix, Oklab, Srgb};
use recolor::{nearest, plan, Match, Palette};

fn working(c: (u8, u8, u8)) -> Oklab {
    Oklab::from_color(Srgb::new(c.0, c.1, c.2).into_format::<f32>())
}

#[test]
fn one_red_pixel_against_blue_and_green() {
    let p = Palette::parse("#0000FF #00FF00").unwrap();
    assert_eq!(p.len(), 2);
    let entries: Vec<Oklab> = (0..p.len()).map(|i| working(p.color(i))).collect();
    let pixel = Oklab::from_color(Srgb::new(1.0f32, 0.0, 0.0));
    let d: Vec<f32> = entries.iter().map(|c| c.distance_squared(pixel)).collect();
    let closer = if d[0] <= d[1] { 0 } else { 1 };
    // Measured, not assumed: in Oklab pure red lies nearer green than blue.
    assert!(d[1] < d[0], "{:?}", d);
    assert_eq!(closer, 1);

    let keys: Vec<u32> = d.iter().map(|x| x.to_bits()).collect();
    let m = nearest(&keys, None);
    assert_eq!(m, Some(Match::Nearest { index: closer }));
    assert_eq!(plan(&vec![keys], None), Ok(vec![Match::Nearest { index: closer }]));

    // Full strength: the result is the matched entry alone.
    let out = Srgb::from_color(pixel.mix(entries[closer], 1.0));
    let want = Srgb::new(p.color(closer).0, p.color(closer).1, p.color(closer).2)
        .into_format::<f32>();
    assert!((out.red - want.red).abs() < 1e-4);
    assert!((out.green - want.green).abs() < 1e-4);
    assert!((out.blue - want.blue).abs() < 1e-4);
}

#[test]
fn distance_keys_follow_float_order() {
    let ds = [0.0f32, 1e-30, 0.001, 0.27, 0.2885, 1.0, 3.5];
    for w in ds.windows(2) {
        assert!(w[0].to_bits() < w[1].to_bits());
    }
}
