use std::str::FromStr;

use veiled_path::dimension::{same_text, Dimension};

#[test]
fn switching_toggles() {
    let mut d = Dimension::Light;
    d.switch_dimension();
    assert_eq!(d, Dimension::Dark);
    d.switch_dimension();
    assert_eq!(d, Dimension::Light);
}

#[test]
fn dimension_names() {
    assert_eq!(Dimension::from_name("light"), Ok(Dimension::Light));
    assert_eq!(Dimension::from_name("dark"), Ok(Dimension::Dark));
    assert_eq!(Dimension::from_name("Light"), Err(()));
    assert_eq!(Dimension::from_name("darker"), Err(()));
    assert_eq!(Dimension::from_name(""), Err(()));
    assert_eq!(Dimension::from_str("dark"), Ok(Dimension::Dark));
    assert_eq!(Dimension::from_str("light"), Ok(Dimension::Light));
    assert_eq!(Dimension::from_str("Dark"), Err(()));
    assert_eq!(Dimension::from_str(""), Err(()));
    assert_eq!("light".parse::<Dimension>(), Ok(Dimension::Light));
}

#[test]
fn same_text_compares_characters() {
    assert!(same_text("é", "é"));
    assert!(!same_text("ab", "abc"));
    assert!(!same_text("ab", "ba"));
    assert!(same_text("", ""));
}
