use logen::algorithms::{DrawOp, Scene};
use logen::base::geometry::{Circle, Rect, Shape};
use logen::base::palette::{hsl_to_rgb, Rgb};
use logen::render::canvas::Pixel;
use logen::render::png::{encode_png, isqrt, rasterize, render_png};
use logen::render::svg::{esc, render_svg};
use logen::RenderOptions;

fn px_at(px: &[u8], w: usize, x: usize, y: usize) -> [u8; 4] {
    let b = (y * w + x) * 4;
    [px[b], px[b + 1], px[b + 2], px[b + 3]]
}

#[test]
fn hsl_primaries_and_gray() {
    let red = hsl_to_rgb(0, 1000, 500);
    assert_eq!((red.r, red.g, red.b), (255, 0, 0));
    let green = hsl_to_rgb(1200, 1000, 500);
    assert_eq!((green.r, green.g, green.b), (0, 255, 0));
    let blue = hsl_to_rgb(2400, 1000, 500);
    assert_eq!((blue.r, blue.g, blue.b), (0, 0, 255));
    let gray = hsl_to_rgb(1234, 0, 500);
    assert_eq!((gray.r, gray.g, gray.b), (128, 128, 128));
    let wrapped = hsl_to_rgb(3600 + 1200, 1000, 500);
    assert_eq!((wrapped.r, wrapped.g, wrapped.b), (0, 255, 0));
    let teal = hsl_to_rgb(1800, 500, 250);
    assert_eq!((teal.r, teal.g, teal.b), (32, 96, 96));
}

#[test]
fn rgb_hex_is_upper_case() {
    assert_eq!(Rgb { r: 255, g: 10, b: 171 }.to_hex(), "#FF0AAB");
    assert_eq!(Rgb { r: 0, g: 0, b: 0 }.to_hex(), "#000000");
}

#[test]
fn esc_replaces_reserved_characters() {
    assert_eq!(esc("a&b<c>d\"e'f"), "a&amp;b&lt;c&gt;d&quot;e&apos;f");
    assert_eq!(esc("plain"), "plain");
}

#[test]
fn isqrt_rounds_down() {
    assert_eq!(isqrt(0), 0);
    assert_eq!(isqrt(15), 3);
    assert_eq!(isqrt(16), 4);
    assert_eq!(isqrt(1_000_000_000_000), 1_000_000);
}

fn sample_scene() -> Scene {
    Scene {
        width: 10,
        height: 10,
        ops: vec![
            DrawOp::Background { color: Some(Rgb { r: 1, g: 2, b: 3 }) },
            DrawOp::ShapeFill {
                shape: Shape::Rect { rect: Rect { x: 100, y: 200, w: 300, h: 250 }, rx: 0, ry: 0 },
                color: Rgb { r: 200, g: 0, b: 0 },
            },
            DrawOp::ShapeFill {
                shape: Shape::Circle(Circle { cx: 750, cy: 750, r: 150 }),
                color: Rgb { r: 0, g: 200, b: 0 },
            },
            DrawOp::ShapeStroke {
                shape: Shape::Circle(Circle { cx: 750, cy: 750, r: 150 }),
                color: Rgb { r: 9, g: 9, b: 9 },
                width: 25,
            },
            DrawOp::Text {
                text: "A&B".to_string(),
                x: 500,
                y: 512,
                font_family: "Sans".to_string(),
                font_weight: 700,
                font_size: 205,
                color: Rgb { r: 0, g: 0, b: 255 },
                anchor_middle: true,
            },
        ],
    }
}

#[test]
fn svg_of_a_scene_is_exact() {
    let svg = render_svg(&sample_scene(), &RenderOptions::default()).unwrap();
    let expected = "<?xml version=\"1.0\" encoding=\"UTF-8\"?>\n\
<svg xmlns=\"http://www.w3.org/2000/svg\" width=\"10\" height=\"10\" viewBox=\"0 0 10 10\">\n\
<rect x=\"0\" y=\"0\" width=\"10\" height=\"10\" fill=\"#010203\"/>\n\
<rect x=\"1.00\" y=\"2.00\" width=\"3.00\" height=\"2.50\" rx=\"0.00\" ry=\"0.00\" fill=\"#C80000\"/>\n\
<circle cx=\"7.50\" cy=\"7.50\" r=\"1.50\" fill=\"#00C800\"/>\n\
<circle cx=\"7.50\" cy=\"7.50\" r=\"1.50\" fill=\"none\" stroke=\"#090909\" stroke-width=\"0.25\"/>\n\
<text x=\"5.00\" y=\"5.12\" text-anchor=\"middle\" font-family=\"Sans\" font-weight=\"700\" font-size=\"2.05\" fill=\"#0000FF\">A&amp;B</text>\n\
</svg>\n";
    assert_eq!(svg, expected);
}

#[test]
fn raster_paints_ops_in_order() {
    let scene = sample_scene();
    let px = rasterize(&scene);
    assert_eq!(px.len(), 10 * 10 * 4);
    // Background everywhere the shapes do not reach.
    assert_eq!(px_at(&px, 10, 0, 0), [1, 2, 3, 255]);
    // The sharp rectangle covers pixels 1..4 by 2..4.
    assert_eq!(px_at(&px, 10, 1, 2), [200, 0, 0, 255]);
    assert_eq!(px_at(&px, 10, 3, 3), [200, 0, 0, 255]);
    assert_eq!(px_at(&px, 10, 4, 3), [1, 2, 3, 255]);
    assert_eq!(px_at(&px, 10, 1, 4), [1, 2, 3, 255]);
    // The circle at (7, 7) with radius 1.
    assert_eq!(px_at(&px, 10, 7, 7), [0, 200, 0, 255]);
    assert_eq!(px_at(&px, 10, 8, 7), [0, 200, 0, 255]);
    assert_eq!(px_at(&px, 10, 9, 9), [1, 2, 3, 255]);
}

#[test]
fn raster_rounded_rect_blends_corners() {
    let scene = Scene {
        width: 20,
        height: 20,
        ops: vec![DrawOp::ShapeFill {
            shape: Shape::Rect { rect: Rect { x: 0, y: 0, w: 2000, h: 2000 }, rx: 500, ry: 500 },
            color: Rgb { r: 100, g: 100, b: 100 },
        }],
    };
    let px = rasterize(&scene);
    // The middle is filled, the outer corner is left transparent.
    assert_eq!(px_at(&px, 20, 10, 10), [100, 100, 100, 255]);
    assert_eq!(px_at(&px, 20, 0, 0), [0, 0, 0, 0]);
    // On the corner's edge the color is blended over the transparent pixel.
    assert_eq!(px_at(&px, 20, 0, 5), [100, 100, 100, 255]);
    // Exactly on the radius: opacity zero, the pixel stays transparent.
    assert_eq!(px_at(&px, 20, 1, 2), [0, 0, 0, 0]);
    // Inside the last pixel of the radius: 135 of 255 of the color.
    assert_eq!(px_at(&px, 20, 1, 3), [52, 52, 52, 255]);
}

#[test]
fn render_png_encodes_the_canvas() {
    let png = render_png(&sample_scene(), &RenderOptions::default()).unwrap();
    assert_eq!(png[0..8], [0x89, 0x50, 0x4E, 0x47, 0x0D, 0x0A, 0x1A, 0x0A]);
    let direct = encode_png(&rasterize(&sample_scene()), 10, 10).unwrap();
    assert_eq!(png, direct);
    let decoded = image::load_from_memory(&png).unwrap().to_rgba8();
    assert_eq!(decoded.get_pixel(7, 7).0, [0, 200, 0, 255]);
    assert_eq!(decoded.get_pixel(0, 0).0, [1, 2, 3, 255]);
}

#[test]
fn encode_png_rejects_wrong_length() {
    assert!(encode_png(&vec![0u8; 10], 2, 2).is_err());
}

#[test]
fn render_png_rejects_empty_canvas() {
    let scene = Scene { width: 0, height: 10, ops: vec![] };
    assert!(render_png(&scene, &RenderOptions::default()).is_err());
}

#[test]
fn pixel_type_is_plain_rgba() {
    let p = Pixel { r: 1, g: 2, b: 3, a: 4 };
    assert_eq!(p, Pixel { r: 1, g: 2, b: 3, a: 4 });
}

#[test]
fn encode_png_accepts_a_matching_buffer() {
    let png = encode_png(&vec![7u8; 3 * 2 * 4], 3, 2).unwrap();
    let decoded = image::load_from_memory(&png).unwrap().to_rgba8();
    assert_eq!(decoded.dimensions(), (3, 2));
    assert_eq!(decoded.get_pixel(2, 1).0, [7, 7, 7, 7]);
}

#[test]
fn single_background_fills_every_pixel() {
    let c = Rgb { r: 10, g: 20, b: 30 };
    let scene = Scene { width: 5, height: 4, ops: vec![DrawOp::Background { color: Some(c) }] };
    let png = render_png(&scene, &RenderOptions::default()).unwrap();
    let decoded = image::load_from_memory(&png).unwrap().to_rgba8();
    assert!(decoded.pixels().all(|p| p.0 == [10, 20, 30, 255]));
    let clear = Scene { width: 5, height: 4, ops: vec![DrawOp::Background { color: None }] };
    let png = render_png(&clear, &RenderOptions::default()).unwrap();
    let decoded = image::load_from_memory(&png).unwrap().to_rgba8();
    assert!(decoded.pixels().all(|p| p.0 == [0, 0, 0, 0]));
}
