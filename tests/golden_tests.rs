use logen::{LogoGenerator, Preset, RenderOptions};

const MONOGRAM_BADGE_256: &str = "<?xml version=\"1.0\" encoding=\"UTF-8\"?>\n\
<svg xmlns=\"http://www.w3.org/2000/svg\" width=\"256\" height=\"256\" viewBox=\"0 0 256 256\">\n\
<rect x=\"0\" y=\"0\" width=\"256\" height=\"256\" fill=\"#EBF1E8\"/>\n\
<rect x=\"31.00\" y=\"31.00\" width=\"194.00\" height=\"194.00\" rx=\"32.78\" ry=\"32.78\" fill=\"#9224B8\"/>\n\
<text x=\"128.00\" y=\"182.20\" text-anchor=\"middle\" font-family=\"system-ui, -apple-system, Segoe UI, Roboto, Arial, sans-serif\" font-weight=\"700\" font-size=\"154.88\" fill=\"#C33B30\">AC</text>\n\
</svg>\n";

const GEOMETRIC_PATTERN_256: &str = "<?xml version=\"1.0\" encoding=\"UTF-8\"?>\n\
<svg xmlns=\"http://www.w3.org/2000/svg\" width=\"256\" height=\"256\" viewBox=\"0 0 256 256\">\n\
<rect x=\"0\" y=\"0\" width=\"256\" height=\"256\" fill=\"#F6F8F8\"/>\n\
<circle cx=\"112.97\" cy=\"139.72\" r=\"22.78\" fill=\"#A82D47\"/>\n\
<circle cx=\"179.64\" cy=\"117.83\" r=\"28.41\" fill=\"#B26938\"/>\n\
<rect x=\"60.75\" y=\"159.03\" width=\"72.19\" height=\"62.72\" rx=\"12.98\" ry=\"12.98\" fill=\"#761F66\"/>\n\
<rect x=\"122.08\" y=\"178.22\" width=\"51.45\" height=\"57.34\" rx=\"11.67\" ry=\"11.67\" fill=\"#A82D47\"/>\n\
<circle cx=\"154.24\" cy=\"201.69\" r=\"28.28\" fill=\"#B26938\"/>\n\
<text x=\"128.00\" y=\"144.12\" text-anchor=\"middle\" font-family=\"system-ui, -apple-system, Segoe UI, Roboto, Arial, sans-serif\" font-weight=\"700\" font-size=\"46.08\" fill=\"#761F66\">TE</text>\n\
</svg>\n";

#[test]
fn test_monogram_badge_golden_svg() {
    let opts = RenderOptions {
        size_px: 256,
        padding_permille: 120,
        variant: Some(42),
        transparent_background: false,
    };
    let svg = LogoGenerator::generate_svg("Acme Corp", Preset::MonogramBadge, &opts).expect("svg generation");
    assert_eq!(svg, MONOGRAM_BADGE_256);
}

#[test]
fn test_geometric_pattern_golden_svg() {
    let opts = RenderOptions {
        size_px: 256,
        padding_permille: 120,
        variant: Some(99),
        transparent_background: false,
    };
    let svg = LogoGenerator::generate_svg("TestCo", Preset::GeometricPattern, &opts).expect("svg generation");
    assert_eq!(svg, GEOMETRIC_PATTERN_256);
}
