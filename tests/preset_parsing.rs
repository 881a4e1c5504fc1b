use logen::{LogoGenError, Preset};
use std::str::FromStr;

#[test]
fn test_parse_monogram_badge() {
    assert!(matches!(Preset::from_str("monogram-badge"), Ok(Preset::MonogramBadge)));
}

#[test]
fn test_parse_monogram_alias() {
    assert!(matches!(Preset::from_str("monogram"), Ok(Preset::MonogramBadge)));
}

#[test]
fn test_parse_badge_alias() {
    assert!(matches!(Preset::from_str("badge"), Ok(Preset::MonogramBadge)));
}

#[test]
fn test_parse_case_insensitive() {
    assert!(matches!(Preset::from_str("MONOGRAM-BADGE"), Ok(Preset::MonogramBadge)));
}

#[test]
fn test_parse_with_whitespace() {
    assert!(matches!(Preset::from_str("  monogram-badge  "), Ok(Preset::MonogramBadge)));
}

#[test]
fn test_parse_unknown() {
    assert!(Preset::from_str("unknown").is_err());
}

#[test]
fn test_preset_id() {
    assert_eq!(Preset::MonogramBadge.id(), "monogram-badge");
}

#[test]
fn parse_geometric_aliases_mixed_case() {
    assert!(matches!(Preset::parse("\tGeometric\n"), Ok(Preset::GeometricPattern)));
    assert!(matches!(Preset::parse("PaTtErN"), Ok(Preset::GeometricPattern)));
}

#[test]
fn parse_unknown_keeps_the_given_text() {
    match Preset::parse("  Nope ") {
        Err(LogoGenError::UnknownPreset(s)) => assert_eq!(s, "  Nope "),
        _ => panic!("expected an unknown preset"),
    }
    assert!(Preset::parse("monogram badge").is_err());
}

#[test]
fn every_id_parses_back() {
    for p in Preset::all() {
        assert_eq!(Preset::from_str(p.id()).unwrap(), p);
        let padded = format!("  {}  ", p.id().to_uppercase());
        assert_eq!(Preset::from_str(&padded).unwrap(), p);
    }
}
