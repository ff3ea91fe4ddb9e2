use resec::stages::{FormField, Stage, StageBuilder};

fn owned(pairs: &[(&str, &str)]) -> Vec<(String, String)> {
    pairs
        .iter()
        .map(|(k, v)| (k.to_string(), v.to_string()))
        .collect()
}

#[test]
fn stage_one_without_consent_is_empty() {
    assert!(Stage::One(false).form_fields().is_empty());
    assert!(StageBuilder::new().fields().is_empty());
}

#[test]
fn stage_one_with_consent() {
    assert_eq!(
        Stage::One(true).form_fields(),
        owned(&[
            ("MaterialArchive__noTable__cbv__AgreeCheck", "Y"),
            ("MaterialArchive__noTable__cbh__AgreeCheck", "N"),
        ])
    );
}

#[test]
fn stage_four_fields_in_order() {
    let fields = Stage::Four("exampapers".into(), 2019, "lc".into()).form_fields();
    assert_eq!(
        fields,
        owned(&[
            ("MaterialArchive__noTable__cbv__AgreeCheck", "Y"),
            ("MaterialArchive__noTable__cbh__AgreeCheck", "N"),
            ("MaterialArchive__noTable__sbv__ViewType", "exampapers"),
            ("MaterialArchive__noTable__sbh__ViewType", "id"),
            ("MaterialArchive__noTable__sbv__YearSelect", "2019"),
            ("MaterialArchive__noTable__sbh__YearSelect", "id"),
            ("MaterialArchive__noTable__sbv__ExaminationSelect", "lc"),
            ("MaterialArchive__noTable__sbh__ExaminationSelect", "id"),
        ])
    );
}

#[test]
fn stage_five_matches_builder() {
    let stage = Stage::Five("exampapers".into(), 2019, "lc".into(), 1.to_string());
    let built = StageBuilder::new()
        .agree_flag(true)
        .paper_type("exampapers")
        .year(2019)
        .examination("lc")
        .subject("1");
    assert_eq!(stage.form_fields(), built.fields());
    assert_eq!(built.fields().len(), 10);
    assert_eq!(
        built.fields()[8],
        (
            FormField::SubjectValue.name().to_string(),
            "1".to_string()
        )
    );
}

#[test]
fn setting_twice_keeps_last_value() {
    let b = StageBuilder::new()
        .agree_flag(true)
        .paper_type("exampapers")
        .paper_type("markingschemes")
        .year(-7);
    assert_eq!(
        b.fields(),
        owned(&[
            ("MaterialArchive__noTable__cbv__AgreeCheck", "Y"),
            ("MaterialArchive__noTable__cbh__AgreeCheck", "N"),
            ("MaterialArchive__noTable__sbv__ViewType", "markingschemes"),
            ("MaterialArchive__noTable__sbh__ViewType", "id"),
            ("MaterialArchive__noTable__sbv__YearSelect", "-7"),
            ("MaterialArchive__noTable__sbh__YearSelect", "id"),
        ])
    );
    assert_eq!(b.agree_flag(false).fields().len(), 4);
}
