use logen::algorithms::{geometric_pattern, monogram_badge, DrawOp};
use logen::base::palette::PaletteDraws;
use logen::RenderOptions;
use rand::SeedableRng;
use rand_chacha::ChaCha20Rng;

#[test]
fn initials_multiple_words() {
    let s = "Alice Bob";
    assert_eq!(monogram_badge::initials_from_normalized(s), "AB");
}

#[test]
fn initials_single_word_three_chars() {
    let s = "abr";
    assert_eq!(monogram_badge::initials_from_normalized(s), "ABR");
}

#[test]
fn initials_no_alnum() {
    let s = "!! --";
    assert_eq!(monogram_badge::initials_from_normalized(s), "?");
}

#[test]
fn initials_fall_back_to_later_words() {
    assert_eq!(monogram_badge::initials_from_normalized("!! -- ab"), "AB");
}

#[test]
fn initials_skip_leading_punctuation_in_words() {
    assert_eq!(monogram_badge::initials_from_normalized("(acme) #corp inc"), "AC");
    assert_eq!(monogram_badge::initials_from_normalized("x1234"), "X12");
}

#[test]
fn build_returns_scene_with_text() {
    let mut rng = ChaCha20Rng::seed_from_u64(123);
    let opts = RenderOptions {
        size_px: 128,
        padding_permille: 100,
        variant: None,
        transparent_background: false,
    };
    let scene = monogram_badge::build("Alice", &mut rng, &opts).expect("build failed");
    assert_eq!(scene.width, 128);
    assert_eq!(scene.height, 128);
    let has_text = scene.ops.iter().any(|op| matches!(op, DrawOp::Text { .. }));
    assert!(has_text, "expected a Text draw op in the scene");
}

#[test]
fn build_returns_scene_with_shapes() {
    let mut rng = ChaCha20Rng::seed_from_u64(456);
    let opts = RenderOptions {
        size_px: 256,
        padding_permille: 100,
        variant: None,
        transparent_background: false,
    };
    let scene = geometric_pattern::build("TestCompany", &mut rng, &opts).expect("build failed");

    assert_eq!(scene.width, 256);
    assert_eq!(scene.height, 256);

    // Background, three to six shapes, then the text.
    assert!(scene.ops.len() >= 5);

    let has_text = scene.ops.iter().any(|op| matches!(op, DrawOp::Text { .. }));
    assert!(has_text, "expected a Text draw op in the scene");
}

#[test]
fn geometric_lettermark_is_two_upper_alphanumerics() {
    let mut rng = ChaCha20Rng::seed_from_u64(7);
    let opts = RenderOptions::default();
    let scene = geometric_pattern::build("test co", &mut rng, &opts).expect("build failed");
    match scene.ops.last() {
        Some(DrawOp::Text { text, font_size, x, .. }) => {
            assert_eq!(text, "TE");
            assert_eq!(*font_size, 512 * 100 * 180 / 1000);
            assert_eq!(*x, 512 * 100 / 2);
        }
        _ => panic!("last op should be the lettermark"),
    }
    let n_shapes = scene.ops.len() - 2;
    assert!((3..=6).contains(&n_shapes));
}

#[test]
fn monogram_scene_from_draws_is_exact() {
    let opts = RenderOptions {
        size_px: 200,
        padding_permille: 100,
        variant: None,
        transparent_background: true,
    };
    let d = monogram_badge::MonogramDraws {
        palette: PaletteDraws {
            hue: 0,
            saturation: 600,
            lightness: 400,
            hue_offset: 300,
            background_saturation: 0,
            background_lightness: 0,
        },
        circle: false,
        corner_permille: 200,
        font_permille: 600,
        border: true,
    };
    let scene = monogram_badge::monogram_scene("Big Co", &opts, &d);
    assert_eq!(scene.ops.len(), 4);
    assert!(matches!(scene.ops[0], DrawOp::Background { color: None }));
    match &scene.ops[1] {
        DrawOp::ShapeFill { shape: logen::base::geometry::Shape::Rect { rect, rx, ry }, .. } => {
            // 10% of 200 px = 20 px padding, badge 160 px, corner 20% of it.
            assert_eq!((rect.x, rect.y, rect.w, rect.h), (2000, 2000, 16000, 16000));
            assert_eq!((*rx, *ry), (3200, 3200));
        }
        _ => panic!("expected the badge"),
    }
    assert!(matches!(scene.ops[2], DrawOp::ShapeStroke { width: 500, .. }));
    match &scene.ops[3] {
        DrawOp::Text { text, x, y, font_size, font_weight, anchor_middle, .. } => {
            assert_eq!(text, "BC");
            assert_eq!(*font_size, 12000);
            assert_eq!(*x, 10000);
            assert_eq!(*y, 10000 + 4200);
            assert_eq!(*font_weight, 700);
            assert!(*anchor_middle);
        }
        _ => panic!("expected the initials"),
    }
}

fn marks(s: &str) -> Vec<(char, bool)> {
    s.chars().map(|c| (c, c.is_alphanumeric())).collect()
}

#[test]
fn raw_initials_follow_the_word_rule() {
    assert_eq!(monogram_badge::raw_initials_of_marked(&marks("Alice Bob")), vec!['A', 'B']);
    assert_eq!(monogram_badge::raw_initials_of_marked(&marks("abr")), vec!['a', 'b', 'r']);
    assert_eq!(monogram_badge::raw_initials_of_marked(&marks("!! --")), vec!['?']);
    assert_eq!(monogram_badge::raw_initials_of_marked(&marks("!! -- xy")), vec!['x', 'y']);
    // The flags decide, not the characters themselves.
    let flagged = vec![('#', true), (' ', false), ('b', false), ('c', true)];
    assert_eq!(monogram_badge::raw_initials_of_marked(&flagged), vec!['#', 'c']);
}

#[test]
fn raw_lettermark_takes_two_alphanumerics() {
    assert_eq!(geometric_pattern::raw_lettermark_of_marked(&marks("a-b-c")), vec!['a', 'b']);
    assert_eq!(geometric_pattern::raw_lettermark_of_marked(&marks("--")), vec!['?']);
    assert_eq!(geometric_pattern::raw_lettermark_of_marked(&marks("q")), vec!['q']);
}

#[test]
fn mark_alphanumerics_pairs_each_character() {
    assert_eq!(
        logen::text::mark_alphanumerics("a1 é-"),
        vec![('a', true), ('1', true), (' ', false), ('é', true), ('-', false)]
    );
}
