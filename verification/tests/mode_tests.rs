use img_widget::mode::ImgMode;
use img_widget::source::{Color, Variant};

#[test]
fn parse_all_mode_strings() {
    assert_eq!(ImgMode::from_str("").unwrap(), ImgMode::Fit);
    assert_eq!(ImgMode::from_str("fit").unwrap(), ImgMode::Fit);
    assert_eq!(ImgMode::from_str("cover").unwrap(), ImgMode::Cover);
    assert_eq!(ImgMode::from_str("stretch").unwrap(), ImgMode::Stretch);
    assert_eq!(ImgMode::from_str("source").unwrap(), ImgMode::Source);
}

#[test]
fn parse_is_case_sensitive() {
    assert_eq!(ImgMode::from_str("Fit").unwrap_err(), "Fit".to_string());
    assert_eq!(ImgMode::from_str("COVER").unwrap_err(), "COVER".to_string());
}

#[test]
fn parse_failure_names_the_text() {
    assert_eq!(ImgMode::from_str("fill").unwrap_err(), "fill".to_string());
    assert_eq!(ImgMode::from_str(" fit").unwrap_err(), " fit".to_string());
}

#[test]
fn default_mode_is_fit() {
    assert_eq!(ImgMode::default(), ImgMode::Fit);
}

#[test]
fn try_from_owned_string() {
    assert_eq!(ImgMode::try_from("stretch".to_string()).unwrap(), ImgMode::Stretch);
    assert_eq!(ImgMode::try_from("nope".to_string()).unwrap_err(), "nope".to_string());
}

#[test]
fn mode_from_variant() {
    assert_eq!(ImgMode::from_variant(Variant::Mode(ImgMode::Cover)).unwrap(), ImgMode::Cover);
    assert_eq!(ImgMode::from_variant(Variant::String("source".to_string())).unwrap(), ImgMode::Source);
    assert_eq!(
        ImgMode::from_variant(Variant::String("bogus".to_string())).unwrap_err(),
        "bogus".to_string()
    );
    assert_eq!(ImgMode::from_variant(Variant::Handle(7)).unwrap_err(), "handle".to_string());
    assert_eq!(
        ImgMode::from_variant(Variant::Color(Color::default())).unwrap_err(),
        "color".to_string()
    );
}

#[test]
fn mode_into_variant_and_back() {
    let v = Variant::from(ImgMode::Stretch);
    assert_eq!(ImgMode::from_variant(v).unwrap(), ImgMode::Stretch);
}
