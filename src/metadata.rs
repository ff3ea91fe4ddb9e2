//! The fixed choices that the archive offers, and the decoding of the labels
//! that it shows next to each paper.
use crate::text::{opt_text, find_char, first_at, same_text, strip_char, strip_end_char};
use vstd::prelude::*;

verus! {

/// The document types offered by the archive.
#[derive(Debug, Clone, Copy, PartialEq, Eq, Structural)]
pub enum Type {
    ExamPaper,
    MarkingScheme,
}

impl Type {
    /// The `name` and `id` properties of each document type.
    pub open spec fn prop(self, key: Seq<char>) -> Option<Seq<char>> {
        if key == "name"@ {
            Some(
                match self {
                    Type::ExamPaper => "Exam_Papers"@,
                    Type::MarkingScheme => "Marking_Schemes"@,
                },
            )
        } else if key == "id"@ {
            Some(
                match self {
                    Type::ExamPaper => "exampapers"@,
                    Type::MarkingScheme => "markingschemes"@,
                },
            )
        } else {
            None
        }
    }

    /// Looks up the property `key` (`"name"` or `"id"`).
    pub fn get_str(&self, key: &str) -> (r: Option<&'static str>)
        ensures
            opt_text(r) == self.prop(key@),
    {
        if same_text(key, "name") {
            match self {
                Type::ExamPaper => Some("Exam_Papers"),
                Type::MarkingScheme => Some("Marking_Schemes"),
            }
        } else if same_text(key, "id") {
            match self {
                Type::ExamPaper => Some("exampapers"),
                Type::MarkingScheme => Some("markingschemes"),
            }
        } else {
            None
        }
    }

    /// Every document type, in the order the archive lists them.
    pub fn all() -> (r: Vec<Type>)
        ensures
            r@ == seq![Type::ExamPaper, Type::MarkingScheme],
    {
        vec![Type::ExamPaper, Type::MarkingScheme]
    }
}

/// The examinations offered by the archive.
#[derive(Debug, Clone, Copy, PartialEq, Eq, Structural)]
pub enum Examination {
    LeavingCertificateApplied,
    LeavingCertificate,
    JuniorCertificate,
}

impl Examination {
    /// The `name` and `id` properties of each examination.
    pub open spec fn prop(self, key: Seq<char>) -> Option<Seq<char>> {
        if key == "name"@ {
            Some(
                match self {
                    Examination::LeavingCertificateApplied => "Leaving_Certificate_Applied"@,
                    Examination::LeavingCertificate => "Leaving_Certificate"@,
                    Examination::JuniorCertificate => "Junior_Certificate/Cycle"@,
                },
            )
        } else if key == "id"@ {
            Some(
                match self {
                    Examination::LeavingCertificateApplied => "lb"@,
                    Examination::LeavingCertificate => "lc"@,
                    Examination::JuniorCertificate => "jc"@,
                },
            )
        } else {
            None
        }
    }

    /// Looks up the property `key` (`"name"` or `"id"`).
    pub fn get_str(&self, key: &str) -> (r: Option<&'static str>)
        ensures
            opt_text(r) == self.prop(key@),
    {
        if same_text(key, "name") {
            match self {
                Examination::LeavingCertificateApplied => Some("Leaving_Certificate_Applied"),
                Examination::LeavingCertificate => Some("Leaving_Certificate"),
                Examination::JuniorCertificate => Some("Junior_Certificate/Cycle"),
            }
        } else if same_text(key, "id") {
            match self {
                Examination::LeavingCertificateApplied => Some("lb"),
                Examination::LeavingCertificate => Some("lc"),
                Examination::JuniorCertificate => Some("jc"),
            }
        } else {
            None
        }
    }

    /// Every examination, in the order the archive lists them.
    pub fn all() -> (r: Vec<Examination>)
        ensures
            r@ == seq![
                Examination::LeavingCertificateApplied,
                Examination::LeavingCertificate,
                Examination::JuniorCertificate,
            ],
    {
        vec![
            Examination::LeavingCertificateApplied,
            Examination::LeavingCertificate,
            Examination::JuniorCertificate,
        ]
    }
}

/// Returned when a text names no variant.
#[derive(Debug, Clone, Copy, PartialEq, Eq, Structural)]
pub struct UnknownName;

/// The language a paper is written in.
#[derive(Debug, Clone, Copy, PartialEq, Eq, Structural)]
pub enum Language {
    Irish,
    English,
    NoLanguage,
}

impl Language {
    /// The text that names each language.
    pub open spec fn code(self) -> Seq<char> {
        match self {
            Language::Irish => "IV"@,
            Language::English => "EV"@,
            Language::NoLanguage => "NoLanguage"@,
        }
    }

    /// The language that `s` names, if any.
    pub open spec fn named(s: Seq<char>) -> Option<Language> {
        if s == "IV"@ {
            Some(Language::Irish)
        } else if s == "EV"@ {
            Some(Language::English)
        } else if s == "NoLanguage"@ {
            Some(Language::NoLanguage)
        } else {
            None
        }
    }

    /// The language that a label such as `"Higher Level (EV)"` carries: the
    /// text after the first `(`, up to the next `(`, without trailing `)`.
    pub open spec fn of_label(raw: Seq<char>) -> Language {
        match first_at(raw, '(', 0) {
            None => Language::NoLanguage,
            Some(i) => {
                let rest = raw.subrange(i + 1, raw.len() as int);
                let piece = match first_at(rest, '(', 0) {
                    None => rest,
                    Some(j) => rest.subrange(0, j),
                };
                match Language::named(strip_end_char(piece, ')')) {
                    Some(l) => l,
                    None => Language::NoLanguage,
                }
            }
        }
    }

    /// The language that `s` names, if any.
    pub fn from_code(s: &str) -> (r: Option<Language>)
        ensures
            r == Language::named(s@),
    {
        if same_text(s, "IV") {
            Some(Language::Irish)
        } else if same_text(s, "EV") {
            Some(Language::English)
        } else if same_text(s, "NoLanguage") {
            Some(Language::NoLanguage)
        } else {
            None
        }
    }

    /// The text that names the language.
    pub fn to_string(&self) -> (r: String)
        ensures
            r@ == self.code(),
    {
        match self {
            Language::Irish => String::from_str("IV"),
            Language::English => String::from_str("EV"),
            Language::NoLanguage => String::from_str("NoLanguage"),
        }
    }

    /// Decodes the language of a label; never fails.
    pub fn from_label(raw: &str) -> (r: Language)
        ensures
            r == Language::of_label(raw@),
    {
        let n = raw.unicode_len();
        match find_char(raw, '(', 0) {
            None => Language::NoLanguage,
            Some(i) => {
                let rest = raw.substring_char(i + 1, n);
                let piece = match find_char(rest, '(', 0) {
                    None => rest,
                    Some(j) => rest.substring_char(0, j),
                };
                let code = strip_end(piece, ')');
                match Language::from_code(code) {
                    Some(l) => l,
                    None => Language::NoLanguage,
                }
            }
        }
    }
}

impl std::str::FromStr for Language {
    type Err = UnknownName;

    fn from_str(s: &str) -> Result<Language, UnknownName> {
        match Language::from_code(s) {
            Some(l) => Ok(l),
            None => Err(UnknownName),
        }
    }
}

impl From<String> for Language {
    fn from(raw: String) -> (r: Language) {
        Language::from_label(raw.as_str())
    }
}

impl vstd::std_specs::convert::FromSpecImpl<String> for Language {
    open spec fn obeys_from_spec() -> bool {
        true
    }

    open spec fn from_spec(raw: String) -> Language {
        Language::of_label(raw@)
    }
}

/// The level a paper is set at.
#[derive(Debug, Clone, Copy, PartialEq, Eq, Structural)]
pub enum Level {
    HigherLevel,
    OrdinaryLevel,
    FoundationLevel,
    CommonLevel,
    NoLevel,
}

impl Level {
    /// The text that names each level.
    pub open spec fn title(self) -> Seq<char> {
        match self {
            Level::HigherLevel => "Higher Level"@,
            Level::OrdinaryLevel => "Ordinary Level"@,
            Level::FoundationLevel => "Foundation Level"@,
            Level::CommonLevel => "Common Level"@,
            Level::NoLevel => "NoLevel"@,
        }
    }

    /// The level that `s` names, if any.
    pub open spec fn named(s: Seq<char>) -> Option<Level> {
        if s == "Higher Level"@ {
            Some(Level::HigherLevel)
        } else if s == "Ordinary Level"@ {
            Some(Level::OrdinaryLevel)
        } else if s == "Foundation Level"@ {
            Some(Level::FoundationLevel)
        } else if s == "Common Level"@ {
            Some(Level::CommonLevel)
        } else if s == "NoLevel"@ {
            Some(Level::NoLevel)
        } else {
            None
        }
    }

    /// The level that a label such as `"Leaving Certificate / Higher Level (EV)"`
    /// carries: in the text before the first `(`, the part between the first
    /// and the second `/`, without surrounding spaces.
    pub open spec fn of_label(raw: Seq<char>) -> Level {
        let head = match first_at(raw, '(', 0) {
            None => raw,
            Some(i) => raw.subrange(0, i),
        };
        match first_at(head, '/', 0) {
            None => Level::NoLevel,
            Some(i) => {
                let rest = head.subrange(i + 1, head.len() as int);
                let piece = match first_at(rest, '/', 0) {
                    None => rest,
                    Some(j) => rest.subrange(0, j),
                };
                match Level::named(strip_char(piece, ' ')) {
                    Some(l) => l,
                    None => Level::NoLevel,
                }
            }
        }
    }

    /// The level that `s` names, if any.
    pub fn from_title(s: &str) -> (r: Option<Level>)
        ensures
            r == Level::named(s@),
    {
        if same_text(s, "Higher Level") {
            Some(Level::HigherLevel)
        } else if same_text(s, "Ordinary Level") {
            Some(Level::OrdinaryLevel)
        } else if same_text(s, "Foundation Level") {
            Some(Level::FoundationLevel)
        } else if same_text(s, "Common Level") {
            Some(Level::CommonLevel)
        } else if same_text(s, "NoLevel") {
            Some(Level::NoLevel)
        } else {
            None
        }
    }

    /// The text that names the level.
    pub fn to_string(&self) -> (r: String)
        ensures
            r@ == self.title(),
    {
        match self {
            Level::HigherLevel => String::from_str("Higher Level"),
            Level::OrdinaryLevel => String::from_str("Ordinary Level"),
            Level::FoundationLevel => String::from_str("Foundation Level"),
            Level::CommonLevel => String::from_str("Common Level"),
            Level::NoLevel => String::from_str("NoLevel"),
        }
    }

    /// Decodes the level of a label; never fails.
    pub fn from_label(raw: &str) -> (r: Level)
        ensures
            r == Level::of_label(raw@),
    {
        let head = match find_char(raw, '(', 0) {
            None => raw,
            Some(i) => raw.substring_char(0, i),
        };
        let h = head.unicode_len();
        match find_char(head, '/', 0) {
            None => Level::NoLevel,
            Some(i) => {
                let rest = head.substring_char(i + 1, h);
                let piece = match find_char(rest, '/', 0) {
                    None => rest,
                    Some(j) => rest.substring_char(0, j),
                };
                let title = strip_both(piece, ' ');
                match Level::from_title(title) {
                    Some(l) => l,
                    None => Level::NoLevel,
                }
            }
        }
    }
}

impl std::str::FromStr for Level {
    type Err = UnknownName;

    fn from_str(s: &str) -> Result<Level, UnknownName> {
        match Level::from_title(s) {
            Some(l) => Ok(l),
            None => Err(UnknownName),
        }
    }
}

impl From<String> for Level {
    fn from(raw: String) -> (r: Level) {
        Level::from_label(raw.as_str())
    }
}

impl vstd::std_specs::convert::FromSpecImpl<String> for Level {
    open spec fn obeys_from_spec() -> bool {
        true
    }

    open spec fn from_spec(raw: String) -> Level {
        Level::of_label(raw@)
    }
}

/// `s` without the character `c` at its end.
fn strip_end(s: &str, c: char) -> (r: &str)
    ensures
        r@ == strip_end_char(s@, c),
{
    let mut j = s.unicode_len();
    assert(s@.subrange(0, j as int) =~= s@);
    while j > 0 && s.get_char(j - 1) == c
        invariant
            j <= s@.len(),
            strip_end_char(s@.subrange(0, j as int), c) == strip_end_char(s@, c),
        decreases j,
    {
        assert(s@.subrange(0, j as int).drop_last() =~= s@.subrange(0, j - 1));
        j = j - 1;
    }
    s.substring_char(0, j)
}

/// `s` without the character `c` at either end.
fn strip_both(s: &str, c: char) -> (r: &str)
    ensures
        r@ == strip_char(s@, c),
{
    let n = s.unicode_len();
    let mut i: usize = 0;
    assert(s@.subrange(0, n as int) =~= s@);
    while i < n && s.get_char(i) == c
        invariant
            n == s@.len(),
            i <= n,
            strip_char(s@.subrange(i as int, n as int), c) == strip_char(s@, c),
        decreases n - i,
    {
        assert(s@.subrange(i as int, n as int).drop_first() =~= s@.subrange(i + 1, n as int));
        i = i + 1;
    }
    let rest = s.substring_char(i, n);
    let r = strip_end(rest, c);
    proof {
        lemma_strip_char_tail(rest@, c);
    }
    r
}

/// Once the first character is not `c`, stripping both ends strips only the end.
proof fn lemma_strip_char_tail(s: Seq<char>, c: char)
    requires
        s.len() == 0 || s[0] != c,
    ensures
        strip_char(s, c) == strip_end_char(s, c),
    decreases s.len(),
{
    if s.len() > 0 && s.last() == c {
        let t = s.drop_last();
        if t.len() > 0 {
            assert(t[0] == s[0]);
        }
        lemma_strip_char_tail(t, c);
    }
}

} // verus!
