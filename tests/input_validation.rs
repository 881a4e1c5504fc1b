use logen::{LogoGenError, LogoGenerator, Preset, RenderOptions};

#[test]
fn test_empty_input() {
    let opts = RenderOptions::default();
    let result = LogoGenerator::generate_svg("", Preset::MonogramBadge, &opts);
    assert!(matches!(result, Err(LogoGenError::InvalidOptions(_))));
}

#[test]
fn test_whitespace_only_input() {
    let opts = RenderOptions::default();
    let result = LogoGenerator::generate_svg("   \t\n  ", Preset::MonogramBadge, &opts);
    assert!(matches!(result, Err(LogoGenError::InvalidOptions(_))));
}

#[test]
fn test_padding_too_large() {
    let opts = RenderOptions {
        padding_permille: 600,
        ..Default::default()
    };
    let result = LogoGenerator::generate_svg("Test", Preset::MonogramBadge, &opts);
    assert!(matches!(result, Err(LogoGenError::InvalidOptions(_))));
}

#[test]
fn test_padding_negative() {
    let opts = RenderOptions {
        padding_permille: -100,
        ..Default::default()
    };
    let result = LogoGenerator::generate_svg("Test", Preset::MonogramBadge, &opts);
    assert!(matches!(result, Err(LogoGenError::InvalidOptions(_))));
}

#[test]
fn test_size_too_small() {
    let opts = RenderOptions {
        size_px: 32,
        ..Default::default()
    };
    let result = LogoGenerator::generate_svg("Test", Preset::MonogramBadge, &opts);
    assert!(matches!(result, Err(LogoGenError::InvalidOptions(_))));
}

#[test]
fn test_size_too_large() {
    let opts = RenderOptions {
        size_px: 10000,
        ..Default::default()
    };
    let result = LogoGenerator::generate_svg("Test", Preset::MonogramBadge, &opts);
    assert!(matches!(result, Err(LogoGenError::InvalidOptions(_))));
}

#[test]
fn test_valid_edge_case_padding() {
    let opts = RenderOptions {
        padding_permille: 500,
        ..Default::default()
    };
    let result = LogoGenerator::generate_svg("Test", Preset::MonogramBadge, &opts);
    assert!(result.is_ok());
}

#[test]
fn test_valid_edge_case_size_min() {
    let opts = RenderOptions {
        size_px: 64,
        ..Default::default()
    };
    let result = LogoGenerator::generate_svg("Test", Preset::MonogramBadge, &opts);
    assert!(result.is_ok());
}

#[test]
fn test_valid_edge_case_size_max() {
    let opts = RenderOptions {
        size_px: 8192,
        ..Default::default()
    };
    let result = LogoGenerator::generate_svg("Test", Preset::MonogramBadge, &opts);
    assert!(result.is_ok());
}

#[test]
fn padding_just_above_half_is_rejected() {
    let opts = RenderOptions {
        padding_permille: 510,
        ..Default::default()
    };
    let svg = LogoGenerator::generate_svg("Test", Preset::GeometricPattern, &opts);
    assert!(matches!(svg, Err(LogoGenError::InvalidOptions(_))));
    let png = LogoGenerator::generate_png("Test", Preset::MonogramBadge, &opts);
    assert!(matches!(png, Err(LogoGenError::InvalidOptions(_))));
}

#[test]
fn sizes_just_outside_the_range_are_rejected() {
    for size in [63, 8193] {
        let opts = RenderOptions {
            size_px: size,
            ..Default::default()
        };
        let r = LogoGenerator::generate_svg("Test", Preset::MonogramBadge, &opts);
        assert!(matches!(r, Err(LogoGenError::InvalidOptions(_))));
    }
}

#[test]
fn odd_size_with_half_padding_is_accepted() {
    let opts = RenderOptions {
        size_px: 65,
        padding_permille: 500,
        ..Default::default()
    };
    assert!(LogoGenerator::generate_svg("Test", Preset::MonogramBadge, &opts).is_ok());
    assert!(LogoGenerator::generate_png("Test", Preset::MonogramBadge, &opts).is_ok());
}

#[test]
fn validation_messages_name_the_value() {
    let opts = RenderOptions {
        padding_permille: -100,
        ..Default::default()
    };
    match LogoGenerator::generate_svg("Test", Preset::MonogramBadge, &opts) {
        Err(e) => assert!(e.to_string().ends_with("got -100")),
        Ok(_) => panic!("negative padding accepted"),
    }
    let opts = RenderOptions {
        size_px: 32,
        ..Default::default()
    };
    match LogoGenerator::generate_svg("Test", Preset::MonogramBadge, &opts) {
        Err(e) => assert!(e.to_string().ends_with("got 32")),
        Ok(_) => panic!("small size accepted"),
    }
}
