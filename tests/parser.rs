use resec::consts::{exam_paper_years, marking_scheme_years, years_between, EXAM_URL};
use resec::error::SecError;
use resec::parser::{
    absolute_link, dedup_pairs, pair_materials, parse_exams, parse_papers, parse_subjects,
    parse_types, parse_years, EXAM_FIELD_MISSING, SUBJECT_FIELD_MISSING, TYPE_FIELD_MISSING,
    YEAR_FIELD_MISSING,
};
use std::collections::HashMap;

fn select(name: &str, options: &str) -> String {
    format!(
        "<html><body><form><select name=\"{}\">{}</select></form></body></html>",
        name, options
    )
}

fn as_map(pairs: Vec<(String, String)>) -> HashMap<String, String> {
    let n = pairs.len();
    let map: HashMap<String, String> = pairs.into_iter().collect();
    assert_eq!(map.len(), n);
    map
}

#[test]
fn paper_type() {
    let mut result = HashMap::new();
    result.insert("exampapers".to_string(), "Exam Papers".to_string());
    result.insert("markingschemes".to_string(), "Marking Schemes".to_string());

    let html = select(
        "MaterialArchive__noTable__sbv__ViewType",
        "<option value=\"\">Please choose</option>\
         <option value=\"exampapers\">Exam Papers</option>\
         <option value=\"markingschemes\">Marking Schemes</option>",
    );
    let output = as_map(parse_types(&html).unwrap());
    assert_eq!(output, result);
}

#[test]
fn examinations() {
    let mut result = HashMap::new();
    result.insert("lb".to_string(), "Leaving Certificate Applied".to_string());
    result.insert("lc".to_string(), "Leaving Certificate".to_string());
    result.insert("jc".to_string(), "Junior Certificate / Cycle".to_string());

    let html = select(
        "MaterialArchive__noTable__sbv__ExaminationSelect",
        "<option>Please choose</option>\
         <option value=\"lb\">Leaving Certificate Applied</option>\
         <option value=\"lc\">Leaving Certificate</option>\
         <option value=\"jc\">Junior Certificate / Cycle</option>",
    );
    let output = as_map(parse_exams(&html).unwrap());
    assert_eq!(output, result);
}

#[test]
fn subjects() {
    let mut result = HashMap::new();
    result.insert(14, "Art".to_string());
    result.insert(2, "English".to_string());
    result.insert(10, "French".to_string());
    result.insert(11, "German".to_string());
    result.insert(1, "Irish".to_string());

    let html = select(
        "MaterialArchive__noTable__sbv__SubjectSelect",
        "<option value=\"\">Please choose</option>\
         <option value=\"14\">Art</option>\
         <option value=\"2\">English</option>\
         <option value=\"10\">French</option>\
         <option value=\"11\">German</option>\
         <option value=\"1\">Irish</option>",
    );
    let output = parse_subjects(&html).unwrap();
    assert_eq!(output, result);
}

#[test]
fn paper_years() {
    let expected = exam_paper_years();
    let options: String = expected
        .iter()
        .rev()
        .map(|y| format!("<option value=\"{}\">{}</option>", y, y))
        .collect();
    let html = select("MaterialArchive__noTable__sbv__YearSelect", &options);
    let output: Vec<u32> = parse_years(&html).unwrap().into_iter().rev().collect();
    assert_eq!(output, expected);
}

#[test]
fn only_placeholders_give_empty_map() {
    let html = select(
        "MaterialArchive__noTable__sbv__ViewType",
        "<option value=\"\">Please choose</option><option>Nothing</option>",
    );
    assert!(parse_types(&html).unwrap().is_empty());
    let html = select(
        "MaterialArchive__noTable__sbv__SubjectSelect",
        "<option value=\"\">Please choose</option>",
    );
    assert!(parse_subjects(&html).unwrap().is_empty());
}

#[test]
fn missing_control_is_field_not_found() {
    let html = select("SomethingElse", "<option value=\"a\">A</option>");
    assert!(matches!(parse_types(&html), Err(SecError::Value(m)) if m == TYPE_FIELD_MISSING));
    assert!(matches!(parse_exams(&html), Err(SecError::Value(m)) if m == EXAM_FIELD_MISSING));
    assert!(matches!(parse_years(&html), Err(SecError::Value(m)) if m == YEAR_FIELD_MISSING));
    assert!(
        matches!(parse_subjects(&html), Err(SecError::Value(m)) if m == SUBJECT_FIELD_MISSING)
    );
    assert!(matches!(parse_types(""), Err(SecError::Value(_))));
}

#[test]
fn duplicate_values_keep_last_label() {
    let html = select(
        "MaterialArchive__noTable__sbv__ExaminationSelect",
        "<option value=\"lc\">Old</option><option value=\"jc\">Junior</option>\
         <option value=\"lc\">New</option>",
    );
    let output = as_map(parse_exams(&html).unwrap());
    assert_eq!(output.len(), 2);
    assert_eq!(output["lc"], "New");
    let html = select(
        "MaterialArchive__noTable__sbv__SubjectSelect",
        "<option value=\"3\">Old</option><option value=\"+3\">New</option>",
    );
    let output = parse_subjects(&html).unwrap();
    assert_eq!(output.len(), 1);
    assert_eq!(output[&3], "New");
}

#[test]
fn non_numeric_year_is_parse_failure() {
    let html = select(
        "MaterialArchive__noTable__sbv__YearSelect",
        "<option value=\"2019\">2019</option><option value=\"20x9\">bad</option>",
    );
    assert!(matches!(parse_years(&html), Err(SecError::ParseInt(_))));
    let html = select(
        "MaterialArchive__noTable__sbv__SubjectSelect",
        "<option value=\"-1\">Negative</option>",
    );
    assert!(matches!(parse_subjects(&html), Err(SecError::ParseInt(_))));
    let html = select(
        "MaterialArchive__noTable__sbv__YearSelect",
        "<option value=\"4294967296\">too large</option>",
    );
    assert!(matches!(parse_years(&html), Err(SecError::ParseInt(_))));
}

#[test]
fn years_keep_page_order_and_duplicates() {
    let html = select(
        "MaterialArchive__noTable__sbv__YearSelect",
        "<option value=\"\">Year</option><option value=\"2020\">2020</option>\
         <option value=\"007\">7</option><option value=\"2020\">2020</option>",
    );
    assert_eq!(parse_years(&html).unwrap(), vec![2020, 7, 2020]);
}

fn blocks(contents: &[&str]) -> String {
    let body: String = contents
        .iter()
        .map(|c| format!("<td class=\"materialbody\">{}</td>", c))
        .collect();
    format!(
        "<html><body><table><tr>{}</tr></table></body></html>",
        body
    )
}

#[test]
fn materials_pair_names_with_links() {
    let html = blocks(&[
        "  Paper One  ",
        "<a href=\"local/one.pdf\">Click Here</a>",
        "Paper Two",
        "Click Here <a href=\"https://www.examinations.ie/x\">now</a>",
    ]);
    let output = parse_papers(&html).unwrap();
    assert_eq!(
        output,
        vec![
            (
                "Paper One".to_string(),
                "https://www.examinations.ie/exammaterialarchive/local/one.pdf".to_string()
            ),
            (
                "Paper Two".to_string(),
                "https://www.examinations.ie/x".to_string()
            ),
        ]
    );
}

#[test]
fn odd_trailing_block_is_dropped() {
    let html = blocks(&["A", "B", "C"]);
    assert_eq!(
        parse_papers(&html).unwrap(),
        vec![("A".to_string(), "B".to_string())]
    );
}

#[test]
fn no_blocks_is_no_material() {
    let html = blocks(&[]);
    assert!(matches!(parse_papers(&html), Err(SecError::NoMaterial)));
    let html = blocks(&["Only a name"]);
    assert!(matches!(parse_papers(&html), Err(SecError::NoMaterial)));
}

#[test]
fn click_here_without_link_is_empty() {
    let html = blocks(&[
        "Paper",
        "Click Here <a>none</a><a href=\"\">empty</a>",
        "Other",
        "<span><a href=\"deep.pdf\">Click Here</a></span>",
    ]);
    assert_eq!(
        parse_papers(&html).unwrap(),
        vec![
            ("Paper".to_string(), String::new()),
            ("Other".to_string(), String::new()),
        ]
    );
}

#[test]
fn first_anchor_with_link_is_taken() {
    let html = blocks(&[
        "Paper",
        "Click Here <a>none</a><a href=\"two.pdf\">2</a><a href=\"three.pdf\">3</a>",
    ]);
    assert_eq!(
        parse_papers(&html).unwrap()[0].1,
        format!("{}two.pdf", EXAM_URL)
    );
}

#[test]
fn relative_and_absolute_links() {
    assert_eq!(
        absolute_link("local/file.pdf"),
        "https://www.examinations.ie/exammaterialarchive/local/file.pdf"
    );
    assert_eq!(
        absolute_link("https://www.examinations.ie/x"),
        "https://www.examinations.ie/x"
    );
}

#[test]
fn pairing_values() {
    let vals: Vec<String> = ["a", "b", "c", "d", "e"].iter().map(|s| s.to_string()).collect();
    assert_eq!(
        pair_materials(&vals),
        vec![
            ("a".to_string(), "b".to_string()),
            ("c".to_string(), "d".to_string())
        ]
    );
    assert!(pair_materials(&Vec::new()).is_empty());
}

#[test]
fn dedup_keeps_last() {
    let pairs = vec![
        ("k".to_string(), "1".to_string()),
        ("j".to_string(), "2".to_string()),
        ("k".to_string(), "3".to_string()),
    ];
    let map = as_map(dedup_pairs(pairs));
    assert_eq!(map["k"], "3");
    assert_eq!(map["j"], "2");
}

#[test]
fn year_ranges() {
    assert_eq!(years_between(1995, 1998), vec![1995, 1996, 1997]);
    assert!(years_between(2001, 2001).is_empty());
    assert!(years_between(2001, -3).is_empty());
    let papers = exam_paper_years();
    let schemes = marking_scheme_years();
    assert_eq!(papers[0], 1995);
    assert_eq!(schemes[0], 2001);
    assert_eq!(papers.len(), schemes.len() + 6);
}
