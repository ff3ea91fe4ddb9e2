use resec::metadata::{Examination, Language, Level, Type};
use std::str::FromStr;

#[test]
fn parse_type() {
    let paper_type = Type::ExamPaper;
    assert_eq!(
        String::from("Exam_Papers"),
        paper_type.get_str("name").unwrap()
    );
    assert_eq!("exampapers", paper_type.get_str("id").unwrap());
}

#[test]
fn parse_language() {
    let language = Language::Irish;
    assert_eq!(Language::from_str("IV").unwrap(), language);
    assert_eq!("IV", language.to_string());
}

#[test]
fn parse_level() {
    let level = Level::OrdinaryLevel;
    assert_eq!(Level::from_str("Ordinary Level").unwrap(), level);
    assert_eq!("Ordinary Level", level.to_string());
}

#[test]
fn parse_examination() {
    let examination = Examination::LeavingCertificate;
    assert_eq!(
        String::from("Leaving_Certificate"),
        examination.get_str("name").unwrap()
    );
    assert_eq!("lc", examination.get_str("id").unwrap());
}

#[test]
fn unknown_property_is_none() {
    assert_eq!(Type::MarkingScheme.get_str("colour"), None);
    assert_eq!(Examination::JuniorCertificate.get_str("id"), Some("jc"));
    assert_eq!(
        Examination::JuniorCertificate.get_str("name"),
        Some("Junior_Certificate/Cycle")
    );
}

#[test]
fn unknown_names_are_refused() {
    assert!(Language::from_str("FR").is_err());
    assert!(Level::from_str("ordinary level").is_err());
    assert_eq!(Level::from_str("Higher Level"), Ok(Level::HigherLevel));
}

#[test]
fn label_with_english_code() {
    let raw = String::from("Ordinary Level (EV)");
    assert_eq!(Language::from(raw.clone()), Language::English);
    // The level is the second part between slashes; this label has none.
    assert_eq!(Level::from(raw), Level::NoLevel);
}

#[test]
fn label_with_level_and_language() {
    let raw = String::from("Leaving Certificate / Ordinary Level (EV)");
    assert_eq!(Level::from(raw.clone()), Level::OrdinaryLevel);
    assert_eq!(Language::from(raw), Language::English);
    let irish = String::from("Junior Cycle /  Common Level  / Extra (IV))");
    assert_eq!(Level::from(irish.clone()), Level::CommonLevel);
    assert_eq!(Language::from(irish), Language::Irish);
}

#[test]
fn label_with_unknown_language() {
    let raw = String::from("Leaving Certificate / Higher Level (XV)");
    assert_eq!(Language::from(raw.clone()), Language::NoLanguage);
    assert_eq!(Level::from(raw), Level::HigherLevel);
}

#[test]
fn label_without_parenthesis() {
    let raw = String::from("Leaving Certificate / Foundation Level");
    assert_eq!(Language::from(raw.clone()), Language::NoLanguage);
    assert_eq!(Level::from(raw), Level::FoundationLevel);
    assert_eq!(Level::from(String::from("")), Level::NoLevel);
    assert_eq!(Language::from(String::from("")), Language::NoLanguage);
}

#[test]
fn names_of_variants() {
    assert_eq!(Language::English.to_string(), "EV");
    assert_eq!(Language::NoLanguage.to_string(), "NoLanguage");
    assert_eq!(Level::NoLevel.to_string(), "NoLevel");
    assert_eq!(Type::all(), vec![Type::ExamPaper, Type::MarkingScheme]);
    assert_eq!(Examination::all().len(), 3);
}
