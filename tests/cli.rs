use logen::cli::debug_initials_svg;
use logen::RenderOptions;

#[test]
fn debug_initials_returns_svg() {
    let opts = RenderOptions::default();
    let svg = debug_initials_svg("ABR", &opts).expect("svg");
    assert!(svg.contains("<svg") || svg.contains("<svg"));
}

#[test]
fn debug_initials_shows_the_initials() {
    let opts = RenderOptions::default();
    let svg = debug_initials_svg("ABR", &opts).expect("svg");
    assert!(svg.contains(">ABR</text>"));
}
