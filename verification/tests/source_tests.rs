use img_widget::mode::ImgMode;
use img_widget::source::{AssetSource, Variant};

#[test]
fn default_is_empty_path() {
    match AssetSource::default() {
        AssetSource::Path(p) => assert_eq!(p, String::new()),
        AssetSource::Handle(_) => panic!("default must be a path"),
    }
}

#[test]
fn paths_compare_by_text() {
    let a = AssetSource::from("icons/ok.png".to_string());
    let b = AssetSource::from("icons/ok.png".to_string());
    let c = AssetSource::from("icons/no.png".to_string());
    assert!(a == b);
    assert!(a != c);
}

#[test]
fn handles_compare_by_identity() {
    let a = AssetSource::from(41);
    let b = AssetSource::from(41);
    let c = AssetSource::from(42);
    assert!(a == b);
    assert!(a != c);
}

#[test]
fn path_never_equals_handle() {
    let p = AssetSource::from("41".to_string());
    let h = AssetSource::from(41);
    assert!(p != h);
    assert!(h != p);
    let empty_p = AssetSource::from(String::new());
    let null_h = AssetSource::from(0);
    assert!(empty_p != null_h);
}

#[test]
fn source_from_variant() {
    match AssetSource::try_from(Variant::String("a.png".to_string())).unwrap() {
        AssetSource::Path(p) => assert_eq!(p, "a.png".to_string()),
        AssetSource::Handle(_) => panic!("expected a path"),
    }
    match AssetSource::try_from(Variant::Handle(9)).unwrap() {
        AssetSource::Handle(h) => assert_eq!(h, 9),
        AssetSource::Path(_) => panic!("expected a handle"),
    }
}

#[test]
fn source_from_variant_failure_describes_value() {
    assert_eq!(
        AssetSource::try_from(Variant::Mode(ImgMode::Fit)).unwrap_err(),
        "mode".to_string()
    );
    assert_eq!(
        AssetSource::try_from(Variant::Other("three of clubs".to_string())).unwrap_err(),
        "three of clubs".to_string()
    );
}

#[test]
fn variant_describe() {
    assert_eq!(Variant::String("txt".to_string()).describe(), "txt".to_string());
    assert_eq!(Variant::Handle(1).describe(), "handle".to_string());
}
