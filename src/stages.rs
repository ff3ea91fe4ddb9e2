//! The stages of the archive's query form.
//!
//! The archive walks through six stages: terms and conditions, document type,
//! year, examination, subject and the list of papers. Each stage needs the
//! fields of all the stages before it; [`StageBuilder`] collects them and
//! [`Stage`] names a stage together with the values it needs.
use crate::text::{i32_text, int_text};
use vstd::prelude::*;

verus! {

/// The fields of the archive's form. Each selection comes as a value field
/// and a mode field beside it.
#[derive(Debug, Clone, Copy, PartialEq, Eq, Structural)]
pub enum FormField {
    AgreeValue,
    AgreeMode,
    TypeValue,
    TypeMode,
    YearValue,
    YearMode,
    ExaminationValue,
    ExaminationMode,
    SubjectValue,
    SubjectMode,
}

impl FormField {
    /// The name the archive's form gives the field.
    pub open spec fn spec_name(self) -> Seq<char> {
        match self {
            FormField::AgreeValue => "MaterialArchive__noTable__cbv__AgreeCheck"@,
            FormField::AgreeMode => "MaterialArchive__noTable__cbh__AgreeCheck"@,
            FormField::TypeValue => "MaterialArchive__noTable__sbv__ViewType"@,
            FormField::TypeMode => "MaterialArchive__noTable__sbh__ViewType"@,
            FormField::YearValue => "MaterialArchive__noTable__sbv__YearSelect"@,
            FormField::YearMode => "MaterialArchive__noTable__sbh__YearSelect"@,
            FormField::ExaminationValue => "MaterialArchive__noTable__sbv__ExaminationSelect"@,
            FormField::ExaminationMode => "MaterialArchive__noTable__sbh__ExaminationSelect"@,
            FormField::SubjectValue => "MaterialArchive__noTable__sbv__SubjectSelect"@,
            FormField::SubjectMode => "MaterialArchive__noTable__sbh__SubjectSelect"@,
        }
    }

    /// The name the archive's form gives the field.
    pub fn name(&self) -> (r: &'static str)
        ensures
            r@ == self.spec_name(),
    {
        match self {
            FormField::AgreeValue => "MaterialArchive__noTable__cbv__AgreeCheck",
            FormField::AgreeMode => "MaterialArchive__noTable__cbh__AgreeCheck",
            FormField::TypeValue => "MaterialArchive__noTable__sbv__ViewType",
            FormField::TypeMode => "MaterialArchive__noTable__sbh__ViewType",
            FormField::YearValue => "MaterialArchive__noTable__sbv__YearSelect",
            FormField::YearMode => "MaterialArchive__noTable__sbh__YearSelect",
            FormField::ExaminationValue => "MaterialArchive__noTable__sbv__ExaminationSelect",
            FormField::ExaminationMode => "MaterialArchive__noTable__sbh__ExaminationSelect",
            FormField::SubjectValue => "MaterialArchive__noTable__sbv__SubjectSelect",
            FormField::SubjectMode => "MaterialArchive__noTable__sbh__SubjectSelect",
        }
    }

    /// The stage (1 to 5) that sets the field.
    pub open spec fn stage(self) -> nat {
        match self {
            FormField::AgreeValue | FormField::AgreeMode => 1,
            FormField::TypeValue | FormField::TypeMode => 2,
            FormField::YearValue | FormField::YearMode => 3,
            FormField::ExaminationValue | FormField::ExaminationMode => 4,
            FormField::SubjectValue | FormField::SubjectMode => 5,
        }
    }

    /// The other field of the same pair.
    pub open spec fn companion(self) -> FormField {
        match self {
            FormField::AgreeValue => FormField::AgreeMode,
            FormField::AgreeMode => FormField::AgreeValue,
            FormField::TypeValue => FormField::TypeMode,
            FormField::TypeMode => FormField::TypeValue,
            FormField::YearValue => FormField::YearMode,
            FormField::YearMode => FormField::YearValue,
            FormField::ExaminationValue => FormField::ExaminationMode,
            FormField::ExaminationMode => FormField::ExaminationValue,
            FormField::SubjectValue => FormField::SubjectMode,
            FormField::SubjectMode => FormField::SubjectValue,
        }
    }

    /// Whether the field is the mode field of its pair.
    pub open spec fn is_mode(self) -> bool {
        match self {
            FormField::AgreeMode | FormField::TypeMode | FormField::YearMode
            | FormField::ExaminationMode | FormField::SubjectMode => true,
            _ => false,
        }
    }

    /// The fixed value of a mode field.
    pub open spec fn mode_value(self) -> Seq<char> {
        if self == FormField::AgreeMode {
            "N"@
        } else {
            "id"@
        }
    }
}

/// The form after the terms are agreed to, or not.
pub open spec fn with_agree(m: Map<FormField, Seq<char>>, agree: bool) -> Map<
    FormField,
    Seq<char>,
> {
    if agree {
        m.insert(FormField::AgreeValue, "Y"@).insert(FormField::AgreeMode, "N"@)
    } else {
        m.remove(FormField::AgreeValue).remove(FormField::AgreeMode)
    }
}

/// The form after a selection: the value field holds `v`, the mode field `"id"`.
pub open spec fn with_selection(
    m: Map<FormField, Seq<char>>,
    value: FormField,
    mode: FormField,
    v: Seq<char>,
) -> Map<FormField, Seq<char>> {
    m.insert(value, v).insert(mode, "id"@)
}

pub open spec fn with_type(m: Map<FormField, Seq<char>>, t: Seq<char>) -> Map<FormField, Seq<char>> {
    with_selection(m, FormField::TypeValue, FormField::TypeMode, t)
}

pub open spec fn with_year(m: Map<FormField, Seq<char>>, y: int) -> Map<FormField, Seq<char>> {
    with_selection(m, FormField::YearValue, FormField::YearMode, int_text(y))
}

pub open spec fn with_examination(m: Map<FormField, Seq<char>>, e: Seq<char>) -> Map<
    FormField,
    Seq<char>,
> {
    with_selection(m, FormField::ExaminationValue, FormField::ExaminationMode, e)
}

pub open spec fn with_subject(m: Map<FormField, Seq<char>>, s: Seq<char>) -> Map<
    FormField,
    Seq<char>,
> {
    with_selection(m, FormField::SubjectValue, FormField::SubjectMode, s)
}

/// The form after the first `n` stages, set in order on an empty form with
/// the terms agreed to.
pub open spec fn ordered_form(n: nat, t: Seq<char>, y: int, e: Seq<char>, s: Seq<char>) -> Map<
    FormField,
    Seq<char>,
>
    decreases n,
{
    if n == 0 {
        Map::empty()
    } else if n == 1 {
        with_agree(Map::empty(), true)
    } else if n == 2 {
        with_type(ordered_form(1, t, y, e, s), t)
    } else if n == 3 {
        with_year(ordered_form(2, t, y, e, s), y)
    } else if n == 4 {
        with_examination(ordered_form(3, t, y, e, s), e)
    } else {
        with_subject(ordered_form(4, t, y, e, s), s)
    }
}

/// The selected value of a field, as the form sends it.
pub open spec fn entry(m: Map<FormField, Seq<char>>, f: FormField) -> Seq<(Seq<char>, Seq<char>)> {
    if m.contains_key(f) {
        seq![(f.spec_name(), m[f])]
    } else {
        seq![]
    }
}

/// The form's fields in the order they are sent.
pub open spec fn form_entries(m: Map<FormField, Seq<char>>) -> Seq<(Seq<char>, Seq<char>)> {
    entry(m, FormField::AgreeValue) + entry(m, FormField::AgreeMode) + entry(m, FormField::TypeValue)
        + entry(m, FormField::TypeMode) + entry(m, FormField::YearValue) + entry(
        m,
        FormField::YearMode,
    ) + entry(m, FormField::ExaminationValue) + entry(m, FormField::ExaminationMode) + entry(
        m,
        FormField::SubjectValue,
    ) + entry(m, FormField::SubjectMode)
}

/// The characters of each name and value of a list of pairs.
pub open spec fn pairs_view(v: Seq<(String, String)>) -> Seq<(Seq<char>, Seq<char>)> {
    v.map_values(|p: (String, String)| (p.0@, p.1@))
}

/// Collects the fields of the archive's form, one stage at a time.
pub struct StageBuilder {
    agree: bool,
    view_type: Option<String>,
    year: Option<String>,
    examination: Option<String>,
    subject: Option<String>,
}

pub open spec fn opt_selection(
    m: Map<FormField, Seq<char>>,
    value: FormField,
    mode: FormField,
    v: Option<String>,
) -> Map<FormField, Seq<char>> {
    match v {
        Some(x) => with_selection(m, value, mode, x@),
        None => m,
    }
}

impl View for StageBuilder {
    type V = Map<FormField, Seq<char>>;

    /// The fields that are set, each with its value.
    closed spec fn view(&self) -> Map<FormField, Seq<char>> {
        let m = if self.agree {
            with_agree(Map::empty(), true)
        } else {
            Map::empty()
        };
        let m = opt_selection(m, FormField::TypeValue, FormField::TypeMode, self.view_type);
        let m = opt_selection(m, FormField::YearValue, FormField::YearMode, self.year);
        let m = opt_selection(
            m,
            FormField::ExaminationValue,
            FormField::ExaminationMode,
            self.examination,
        );
        opt_selection(m, FormField::SubjectValue, FormField::SubjectMode, self.subject)
    }
}

impl StageBuilder {
    /// An empty form: nothing agreed to, nothing selected.
    pub fn new() -> (r: StageBuilder)
        ensures
            r@ == Map::<FormField, Seq<char>>::empty(),
    {
        let r = StageBuilder {
            agree: false,
            view_type: None,
            year: None,
            examination: None,
            subject: None,
        };
        assert(r@ =~= Map::<FormField, Seq<char>>::empty());
        r
    }

    /// Agrees to the archive's terms, or withdraws the agreement.
    pub fn agree_flag(self, agree: bool) -> (r: StageBuilder)
        ensures
            r@ == with_agree(self@, agree),
    {
        let r = StageBuilder { agree, ..self };
        assert(r@ =~= with_agree(self@, agree));
        r
    }

    /// Selects the document type.
    pub fn paper_type(self, type_id: &str) -> (r: StageBuilder)
        ensures
            r@ == with_type(self@, type_id@),
    {
        let r = StageBuilder { view_type: Some(String::from_str(type_id)), ..self };
        assert(r@ =~= with_type(self@, type_id@));
        r
    }

    /// Selects the year.
    pub fn year(self, year: i32) -> (r: StageBuilder)
        ensures
            r@ == with_year(self@, year as int),
    {
        let r = StageBuilder { year: Some(i32_text(year)), ..self };
        assert(r@ =~= with_year(self@, year as int));
        r
    }

    /// Selects the examination.
    pub fn examination(self, exam_id: &str) -> (r: StageBuilder)
        ensures
            r@ == with_examination(self@, exam_id@),
    {
        let r = StageBuilder { examination: Some(String::from_str(exam_id)), ..self };
        assert(r@ =~= with_examination(self@, exam_id@));
        r
    }

    /// Selects the subject.
    pub fn subject(self, subject_id: &str) -> (r: StageBuilder)
        ensures
            r@ == with_subject(self@, subject_id@),
    {
        let r = StageBuilder { subject: Some(String::from_str(subject_id)), ..self };
        assert(r@ =~= with_subject(self@, subject_id@));
        r
    }
}

impl StageBuilder {
    /// The fields that are set, as the form sends them: each field's name with
    /// its value, in the order of the stages.
    pub fn fields(&self) -> (r: Vec<(String, String)>)
        ensures
            pairs_view(r@) == form_entries(self@),
    {
        let mut r: Vec<(String, String)> = Vec::new();
        if self.agree {
            push_field(&mut r, FormField::AgreeValue, "Y");
            push_field(&mut r, FormField::AgreeMode, "N");
        }
        match &self.view_type {
            Some(v) => {
                push_field(&mut r, FormField::TypeValue, v.as_str());
                push_field(&mut r, FormField::TypeMode, "id");
            },
            None => {},
        }
        match &self.year {
            Some(v) => {
                push_field(&mut r, FormField::YearValue, v.as_str());
                push_field(&mut r, FormField::YearMode, "id");
            },
            None => {},
        }
        match &self.examination {
            Some(v) => {
                push_field(&mut r, FormField::ExaminationValue, v.as_str());
                push_field(&mut r, FormField::ExaminationMode, "id");
            },
            None => {},
        }
        match &self.subject {
            Some(v) => {
                push_field(&mut r, FormField::SubjectValue, v.as_str());
                push_field(&mut r, FormField::SubjectMode, "id");
            },
            None => {},
        }
        assert(pairs_view(r@) =~= form_entries(self@));
        r
    }
}

fn push_field(v: &mut Vec<(String, String)>, f: FormField, value: &str)
    ensures
        pairs_view(final(v)@) == pairs_view(old(v)@).push((f.spec_name(), value@)),
{
    v.push((String::from_str(f.name()), String::from_str(value)));
    assert(pairs_view(final(v)@) =~= pairs_view(old(v)@).push((f.spec_name(), value@)));
}

/// A stage of the archive's form, with the values that it and the stages
/// before it need.
pub enum Stage {
    /// Terms and conditions: whether they are agreed to.
    One(bool),
    /// Document type.
    Two(String),
    /// Document type and year.
    Three(String, i32),
    /// Document type, year and examination.
    Four(String, i32, String),
    /// Document type, year, examination and subject.
    Five(String, i32, String, String),
}

impl Stage {
    /// The form that reaches the stage.
    pub open spec fn form(&self) -> Map<FormField, Seq<char>> {
        match self {
            Stage::One(a) => if *a {
                ordered_form(1, seq![], 0, seq![], seq![])
            } else {
                ordered_form(0, seq![], 0, seq![], seq![])
            },
            Stage::Two(t) => ordered_form(2, t@, 0, seq![], seq![]),
            Stage::Three(t, y) => ordered_form(3, t@, *y as int, seq![], seq![]),
            Stage::Four(t, y, e) => ordered_form(4, t@, *y as int, e@, seq![]),
            Stage::Five(t, y, e, s) => ordered_form(5, t@, *y as int, e@, s@),
        }
    }

    /// A builder holding the form that reaches the stage.
    pub fn builder(&self) -> (r: StageBuilder)
        ensures
            r@ == self.form(),
    {
        proof {
            reveal_with_fuel(ordered_form, 5);
        }
        match self {
            Stage::One(a) => {
                let b = StageBuilder::new();
                if *a {
                    let r = b.agree_flag(true);
                    assert(r@ == ordered_form(1, seq![], 0, seq![], seq![]));
                    r
                } else {
                    assert(b@ == ordered_form(0, seq![], 0, seq![], seq![]));
                    b
                }
            },
            Stage::Two(t) => StageBuilder::new().agree_flag(true).paper_type(t.as_str()),
            Stage::Three(t, y) => StageBuilder::new().agree_flag(true).paper_type(t.as_str()).year(
                *y,
            ),
            Stage::Four(t, y, e) => StageBuilder::new().agree_flag(true).paper_type(
                t.as_str(),
            ).year(*y).examination(e.as_str()),
            Stage::Five(t, y, e, s) => StageBuilder::new().agree_flag(true).paper_type(
                t.as_str(),
            ).year(*y).examination(e.as_str()).subject(s.as_str()),
        }
    }

    /// The fields that the form sends to reach the stage.
    pub fn form_fields(&self) -> (r: Vec<(String, String)>)
        ensures
            pairs_view(r@) == form_entries(self.form()),
    {
        self.builder().fields()
    }
}

/// Stages set in their documented order on an empty form (terms, type, year,
/// examination, subject) give exactly the fields of the stages set: each
/// value field comes with its mode field, and each mode field holds its fixed
/// value.
pub proof fn lemma_ordered_stages(n: nat, t: Seq<char>, y: int, e: Seq<char>, s: Seq<char>)
    requires
        n <= 5,
    ensures
        forall|f: FormField| #[trigger]
            ordered_form(n, t, y, e, s).contains_key(f) <==> f.stage() <= n,
        forall|f: FormField| #[trigger]
            ordered_form(n, t, y, e, s).contains_key(f) ==> ordered_form(
                n,
                t,
                y,
                e,
                s,
            ).contains_key(f.companion()),
        forall|f: FormField|
            #[trigger] ordered_form(n, t, y, e, s).contains_key(f) && f.is_mode() ==> ordered_form(
                n,
                t,
                y,
                e,
                s,
            )[f] == f.mode_value(),
    decreases n,
{
    let m = ordered_form(n, t, y, e, s);
    if n > 1 {
        lemma_ordered_stages((n - 1) as nat, t, y, e, s);
    }
    assert forall|f: FormField| #[trigger] m.contains_key(f) <==> f.stage() <= n by {
        if n > 1 {
            let p = ordered_form((n - 1) as nat, t, y, e, s);
            assert(p.contains_key(f) <==> f.stage() <= n - 1);
        }
    }
    assert forall|f: FormField| #[trigger] m.contains_key(f) implies m.contains_key(
        f.companion(),
    ) by {
        assert(f.companion().stage() == f.stage());
    }
    assert forall|f: FormField| #[trigger] m.contains_key(f) && f.is_mode() implies m[f]
        == f.mode_value() by {
        if n > 1 && f.stage() < n {
            let p = ordered_form((n - 1) as nat, t, y, e, s);
            assert(p.contains_key(f));
            assert(m[f] == p[f]);
        }
    }
}

} // verus!
