//! Reading the pages of each stage of the archive's form.
//!
//! Each stage's page holds a control, found by its `name` attribute, with one
//! option per choice; the last stage's page holds the material as blocks that
//! alternate between a paper's name and its link.
use crate::consts::EXAM_URL;
use crate::error::SecError;
use crate::page::{
    attr_at, children_at, first_with_attr, name_at, named_below, text_at, with_class, Page,
};
use crate::stages::{pairs_view, FormField};
use crate::text::{
    contains_text, digits_value, has_infix, is_u32_text, parse_u32, same_text, trim_text, trimmed,
    unsigned_body,
};
use std::collections::HashMap;
use vstd::prelude::*;

verus! {

broadcast use vstd::std_specs::hash::group_hash_axioms;

/// The message when the document type control is missing.
pub const TYPE_FIELD_MISSING: &'static str = "could not get paper type field";

/// The message when the year control is missing.
pub const YEAR_FIELD_MISSING: &'static str = "could not get paper year field";

/// The message when the examination control is missing.
pub const EXAM_FIELD_MISSING: &'static str = "could not get exam field";

/// The message when the subject control is missing.
pub const SUBJECT_FIELD_MISSING: &'static str = "could not get subject field";

/// The options that can be chosen: for each option node, in order, its
/// `value` attribute and its text, leaving out those whose value is missing or
/// empty.
pub open spec fn selectable(html: Seq<char>, opts: Seq<usize>) -> Seq<(Seq<char>, Seq<char>)>
    decreases opts.len(),
{
    if opts.len() == 0 {
        seq![]
    } else {
        let rest = selectable(html, opts.drop_last());
        let o = opts.last();
        match attr_at(html, o, "value"@) {
            Some(v) => if v.len() > 0 {
                rest.push((v, text_at(html, o)))
            } else {
                rest
            },
            None => rest,
        }
    }
}

/// The choosable options of the first control whose `name` attribute is
/// `control`; none when the page has no such control.
pub open spec fn control_options(html: Seq<char>, control: Seq<char>) -> Option<
    Seq<(Seq<char>, Seq<char>)>,
> {
    match first_with_attr(html, "name"@, control) {
        None => None,
        Some(i) => Some(selectable(html, named_below(html, i, "option"@))),
    }
}

/// A list of pairs read as a map: a later pair replaces an earlier one with
/// the same key.
pub open spec fn pairs_map<K, V>(s: Seq<(K, V)>) -> Map<K, V>
    decreases s.len(),
{
    if s.len() == 0 {
        Map::empty()
    } else {
        pairs_map(s.drop_last()).insert(s.last().0, s.last().1)
    }
}

/// No key occurs twice.
pub open spec fn distinct_keys<K, V>(s: Seq<(K, V)>) -> bool {
    forall|i: int, j: int| 0 <= i < j < s.len() ==> s[i].0 != s[j].0
}

/// The number that a value reads as.
pub open spec fn number_of(s: Seq<char>) -> u32 {
    digits_value(unsigned_body(s)) as u32
}

/// Every value reads as a number.
pub open spec fn all_numeric(sel: Seq<(Seq<char>, Seq<char>)>) -> bool {
    forall|i: int| 0 <= i < sel.len() ==> is_u32_text(#[trigger] sel[i].0)
}

/// The options with their values read as numbers.
pub open spec fn numbered(sel: Seq<(Seq<char>, Seq<char>)>) -> Seq<(u32, Seq<char>)> {
    sel.map_values(|p: (Seq<char>, Seq<char>)| (number_of(p.0), p.1))
}

/// The page of a stage read as a map from option value to label.
pub open spec fn label_map_result(
    html: Seq<char>,
    control: Seq<char>,
    missing: &'static str,
    r: Result<Vec<(String, String)>, SecError>,
) -> bool {
    match control_options(html, control) {
        None => r == Err::<Vec<(String, String)>, SecError>(SecError::Value(missing)),
        Some(sel) => r matches Ok(v) && distinct_keys(pairs_view(v@)) && pairs_map(pairs_view(v@))
            == pairs_map(sel),
    }
}

/// Setting the pair at the position of its key replaces that key's value.
proof fn lemma_pairs_map_update<K, V>(s: Seq<(K, V)>, j: int, k: K, v: V)
    requires
        distinct_keys(s),
        0 <= j < s.len(),
        s[j].0 == k,
    ensures
        pairs_map(s.update(j, (k, v))) == pairs_map(s).insert(k, v),
        distinct_keys(s.update(j, (k, v))),
    decreases s.len(),
{
    let t = s.update(j, (k, v));
    if j == s.len() - 1 {
        assert(t.drop_last() =~= s.drop_last());
        assert(pairs_map(t) =~= pairs_map(s).insert(k, v));
    } else {
        assert(t.drop_last() =~= s.drop_last().update(j, (k, v)));
        lemma_pairs_map_update(s.drop_last(), j, k, v);
        assert(s.last().0 != k);
        assert(pairs_map(t) =~= pairs_map(s).insert(k, v));
    }
}

/// Adds a pair to a list with distinct keys, replacing the pair with the same
/// key if there is one.
fn insert_pair(m: &mut Vec<(String, String)>, k: String, v: String)
    requires
        distinct_keys(pairs_view(old(m)@)),
    ensures
        distinct_keys(pairs_view(final(m)@)),
        pairs_map(pairs_view(final(m)@)) == pairs_map(pairs_view(old(m)@)).insert(k@, v@),
{
    let ghost s = pairs_view(m@);
    let mut j: usize = 0;
    while j < m.len()
        invariant
            pairs_view(m@) == s,
            s == pairs_view(old(m)@),
            distinct_keys(s),
            s.len() == m@.len(),
            j <= m@.len(),
            forall|i: int| 0 <= i < j ==> s[i].0 != k@,
        decreases m@.len() - j,
    {
        if m[j].0 == k {
            let ghost kv = k@;
            let ghost vv = v@;
            m.set(j, (k, v));
            proof {
                assert(s[j as int].0 == kv);
                assert(pairs_view(m@) =~= s.update(j as int, (kv, vv)));
                lemma_pairs_map_update(s, j as int, kv, vv);
                assert(pairs_map(pairs_view(m@)) == pairs_map(s).insert(kv, vv));
            }
            return ;
        }
        j = j + 1;
    }
    let ghost kv = k@;
    let ghost vv = v@;
    m.push((k, v));
    proof {
        assert(pairs_view(m@) =~= s.push((kv, vv)));
        assert(pairs_view(m@).drop_last() =~= s);
    }
}

/// The pairs with each key once, the last value of a key kept.
pub fn dedup_pairs(pairs: Vec<(String, String)>) -> (r: Vec<(String, String)>)
    ensures
        distinct_keys(pairs_view(r@)),
        pairs_map(pairs_view(r@)) == pairs_map(pairs_view(pairs@)),
{
    let mut r: Vec<(String, String)> = Vec::new();
    let n = pairs.len();
    let mut i: usize = 0;
    while i < n
        invariant
            n == pairs@.len(),
            i <= n,
            distinct_keys(pairs_view(r@)),
            pairs_map(pairs_view(r@)) == pairs_map(pairs_view(pairs@).subrange(0, i as int)),
        decreases n - i,
    {
        let k = pairs[i].0.clone();
        let v = pairs[i].1.clone();
        insert_pair(&mut r, k, v);
        proof {
            let p = pairs_view(pairs@);
            assert(p.subrange(0, i + 1).drop_last() =~= p.subrange(0, i as int));
        }
        i = i + 1;
    }
    proof {
        assert(pairs_view(pairs@).subrange(0, n as int) =~= pairs_view(pairs@));
    }
    r
}

/// Reads the choosable options of the first control whose `name` attribute
/// is `control`.
pub fn read_options(page: &Page, control: &str) -> (r: Option<Vec<(String, String)>>)
    ensures
        r matches Some(v) ==> control_options(page.source(), control@) == Some(pairs_view(v@)),
        r is None ==> control_options(page.source(), control@) is None,
{
    match page.first_with_attr("name", control) {
        None => None,
        Some(node) => {
            let opts = page.named_below(node, "option");
            let ghost html = page.source();
            let mut out: Vec<(String, String)> = Vec::new();
            let mut k: usize = 0;
            while k < opts.len()
                invariant
                    html == page.source(),
                    k <= opts@.len(),
                    pairs_view(out@) == selectable(html, opts@.subrange(0, k as int)),
                decreases opts@.len() - k,
            {
                let o = opts[k];
                let ghost before = out@;
                match page.attr(o, "value") {
                    Some(v) => {
                        if v.as_str().unicode_len() > 0 {
                            let t = page.text(o);
                            out.push((v, t));
                            assert(pairs_view(out@) =~= pairs_view(before).push(
                                (attr_at(html, o, "value"@)->Some_0, text_at(html, o)),
                            ));
                        }
                    },
                    None => {},
                }
                assert(opts@.subrange(0, k + 1).drop_last() =~= opts@.subrange(0, k as int));
                k = k + 1;
            }
            assert(opts@.subrange(0, opts@.len() as int) =~= opts@);
            Some(out)
        },
    }
}

/// Reads the options of a control as a map from value to label.
fn read_label_map(page: &Page, control: &str, missing: &'static str) -> (r: Result<
    Vec<(String, String)>,
    SecError,
>)
    ensures
        label_map_result(page.source(), control@, missing, r),
{
    match read_options(page, control) {
        None => Err(SecError::Value(missing)),
        Some(v) => Ok(dedup_pairs(v)),
    }
}

/// Reads the document types offered on the page of the second stage, as a
/// map from type id to label.
pub fn parse_types(html: &str) -> (r: Result<Vec<(String, String)>, SecError>)
    ensures
        label_map_result(html@, FormField::TypeValue.spec_name(), TYPE_FIELD_MISSING, r),
{
    let page = Page::parse(html);
    read_label_map(&page, FormField::TypeValue.name(), TYPE_FIELD_MISSING)
}

/// Reads the examinations offered on the page of the fourth stage, as a map
/// from examination id to label.
pub fn parse_exams(html: &str) -> (r: Result<Vec<(String, String)>, SecError>)
    ensures
        label_map_result(html@, FormField::ExaminationValue.spec_name(), EXAM_FIELD_MISSING, r),
{
    let page = Page::parse(html);
    read_label_map(&page, FormField::ExaminationValue.name(), EXAM_FIELD_MISSING)
}

/// Reads the years offered on the page of the third stage, in page order.
pub fn parse_years(html: &str) -> (r: Result<Vec<u32>, SecError>)
    ensures
        match control_options(html@, FormField::YearValue.spec_name()) {
            None => r == Err::<Vec<u32>, SecError>(SecError::Value(YEAR_FIELD_MISSING)),
            Some(sel) => if all_numeric(sel) {
                r matches Ok(v) && v@ == numbered(sel).map_values(|p: (u32, Seq<char>)| p.0)
            } else {
                r matches Err(SecError::ParseInt(_))
            },
        },
{
    let page = Page::parse(html);
    match read_options(&page, FormField::YearValue.name()) {
        None => Err(SecError::Value(YEAR_FIELD_MISSING)),
        Some(opts) => {
            let ghost sel = pairs_view(opts@);
            let mut years: Vec<u32> = Vec::new();
            let mut k: usize = 0;
            while k < opts.len()
                invariant
                    sel == pairs_view(opts@),
                    control_options(html@, FormField::YearValue.spec_name()) == Some(sel),
                    k <= opts@.len(),
                    years@.len() == k,
                    forall|i: int| 0 <= i < k ==> is_u32_text(#[trigger] sel[i].0),
                    forall|i: int| 0 <= i < k ==> years@[i] == number_of(#[trigger] sel[i].0),
                decreases opts@.len() - k,
            {
                match parse_u32(opts[k].0.as_str()) {
                    Ok(y) => {
                        years.push(y);
                    },
                    Err(e) => {
                        assert(sel[k as int].0 == opts@[k as int].0@);
                        assert(!is_u32_text(sel[k as int].0));
                        assert(!all_numeric(sel));
                        return Err(SecError::ParseInt(e));
                    },
                }
                k = k + 1;
            }
            assert(years@ =~= numbered(sel).map_values(|p: (u32, Seq<char>)| p.0));
            Ok(years)
        },
    }
}

/// Reads the subjects offered on the page of the fifth stage, as a map from
/// subject id to name.
pub fn parse_subjects(html: &str) -> (r: Result<HashMap<u32, String>, SecError>)
    ensures
        match control_options(html@, FormField::SubjectValue.spec_name()) {
            None => r == Err::<HashMap<u32, String>, SecError>(
                SecError::Value(SUBJECT_FIELD_MISSING),
            ),
            Some(sel) => if all_numeric(sel) {
                r matches Ok(m) && m@.map_values(|s: String| s@) == pairs_map(numbered(sel))
            } else {
                r matches Err(SecError::ParseInt(_))
            },
        },
{
    let page = Page::parse(html);
    match read_options(&page, FormField::SubjectValue.name()) {
        None => Err(SecError::Value(SUBJECT_FIELD_MISSING)),
        Some(opts) => {
            let ghost sel = pairs_view(opts@);
            let mut map: HashMap<u32, String> = HashMap::new();
            let mut k: usize = 0;
            assert(map@.map_values(|s: String| s@) =~= pairs_map(
                numbered(sel.subrange(0, 0)),
            ));
            while k < opts.len()
                invariant
                    sel == pairs_view(opts@),
                    control_options(html@, FormField::SubjectValue.spec_name()) == Some(sel),
                    k <= opts@.len(),
                    forall|i: int| 0 <= i < k ==> is_u32_text(#[trigger] sel[i].0),
                    map@.map_values(|s: String| s@) == pairs_map(
                        numbered(sel.subrange(0, k as int)),
                    ),
                decreases opts@.len() - k,
            {
                match parse_u32(opts[k].0.as_str()) {
                    Ok(id) => {
                        let ghost before = map@;
                        let name = opts[k].1.clone();
                        map.insert(id, name);
                        proof {
                            let n = numbered(sel.subrange(0, k + 1));
                            assert(n.drop_last() =~= numbered(sel.subrange(0, k as int)));
                            assert(map@.map_values(|s: String| s@) =~= pairs_map(n));
                        }
                    },
                    Err(e) => {
                        assert(sel[k as int].0 == opts@[k as int].0@);
                        assert(!is_u32_text(sel[k as int].0));
                        assert(!all_numeric(sel));
                        return Err(SecError::ParseInt(e));
                    },
                }
                k = k + 1;
            }
            assert(sel.subrange(0, opts@.len() as int) =~= sel);
            Ok(map)
        },
    }
}

/// A link made absolute: kept as it is when it holds the archive's host,
/// otherwise put after the archive's address.
pub open spec fn absolute(href: Seq<char>) -> Seq<char> {
    if has_infix(href, "https://www.examinations.ie"@) {
        href
    } else {
        EXAM_URL@ + href
    }
}

/// The first child that is an anchor with a non-empty `href`, and its link.
pub open spec fn first_link(html: Seq<char>, kids: Seq<usize>) -> Option<Seq<char>>
    decreases kids.len(),
{
    if kids.len() == 0 {
        None
    } else {
        let k = kids[0];
        let rest = first_link(html, kids.drop_first());
        if name_at(html, k) == Some("a"@) {
            match attr_at(html, k, "href"@) {
                Some(h) => if h.len() > 0 {
                    Some(h)
                } else {
                    rest
                },
                None => rest,
            }
        } else {
            rest
        }
    }
}

/// What a material block says: its trimmed text, or, where that text holds
/// `Click Here`, the absolute link of its first anchor (empty if it has
/// none).
pub open spec fn block_value(html: Seq<char>, block: usize) -> Seq<char> {
    let t = trimmed(text_at(html, block));
    if has_infix(t, "Click Here"@) {
        match first_link(html, children_at(html, block)) {
            Some(h) => absolute(h),
            None => seq![],
        }
    } else {
        t
    }
}

/// Consecutive values taken two at a time; an odd last value is left out.
pub open spec fn pair_up(vals: Seq<Seq<char>>) -> Seq<(Seq<char>, Seq<char>)> {
    Seq::new(vals.len() / 2, |i: int| (vals[2 * i], vals[2 * i + 1]))
}

/// The material on the page of the last stage: pairs of name and link.
pub open spec fn materials(html: Seq<char>) -> Seq<(Seq<char>, Seq<char>)> {
    pair_up(with_class(html, "materialbody"@).map_values(|b: usize| block_value(html, b)))
}

/// Makes a link absolute.
pub fn absolute_link(href: &str) -> (r: String)
    ensures
        r@ == absolute(href@),
{
    if contains_text(href, "https://www.examinations.ie") {
        String::from_str(href)
    } else {
        String::from_str(EXAM_URL).concat(href)
    }
}

/// Reads what a material block says.
fn filter_node(page: &Page, block: usize) -> (r: String)
    ensures
        r@ == block_value(page.source(), block),
{
    let text = page.text(block);
    let t = trim_text(text.as_str());
    if !contains_text(t, "Click Here") {
        return String::from_str(t);
    }
    let kids = page.children(block);
    let ghost html = page.source();
    let mut k: usize = 0;
    assert(kids@.subrange(0, kids@.len() as int) =~= kids@);
    while k < kids.len()
        invariant
            html == page.source(),
            kids@ == children_at(html, block),
            has_infix(trimmed(text_at(html, block)), "Click Here"@),
            k <= kids@.len(),
            first_link(html, kids@) == first_link(
                html,
                kids@.subrange(k as int, kids@.len() as int),
            ),
        decreases kids@.len() - k,
    {
        let c = kids[k];
        assert(kids@.subrange(k as int, kids@.len() as int).drop_first() =~= kids@.subrange(
            k + 1,
            kids@.len() as int,
        ));
        let is_anchor = match page.name(c) {
            Some(n) => same_text(n.as_str(), "a"),
            None => false,
        };
        if is_anchor {
            match page.attr(c, "href") {
                Some(h) => {
                    if h.as_str().unicode_len() > 0 {
                        assert(kids@.subrange(k as int, kids@.len() as int)[0] == c);
                        assert(name_at(html, c) == Some("a"@));
                        assert(first_link(html, kids@.subrange(k as int, kids@.len() as int))
                            == Some(h@));
                        return absolute_link(h.as_str());
                    }
                },
                None => {},
            }
        }
        k = k + 1;
    }
    String::new()
}

/// Takes consecutive values two at a time, as name and link; an odd last
/// value is left out.
pub fn pair_materials(vals: &Vec<String>) -> (r: Vec<(String, String)>)
    ensures
        pairs_view(r@) == pair_up(vals@.map_values(|s: String| s@)),
{
    let ghost vs = vals@.map_values(|s: String| s@);
    let mut r: Vec<(String, String)> = Vec::new();
    let len = vals.len();
    let half = len / 2;
    let mut i: usize = 0;
    while i < half
        invariant
            len == vals@.len(),
            half == vals@.len() / 2,
            2 * half <= vals@.len(),
            vs == vals@.map_values(|s: String| s@),
            i <= half,
            pairs_view(r@) == pair_up(vs).subrange(0, i as int),
        decreases half - i,
    {
        assert(2 * i + 1 < vals@.len());
        let name = vals[2 * i].clone();
        let link = vals[2 * i + 1].clone();
        let ghost before = pairs_view(r@);
        r.push((name, link));
        assert(pairs_view(r@) =~= before.push((vs[2 * i], vs[2 * i + 1])));
        assert(pairs_view(r@) =~= pair_up(vs).subrange(0, i + 1));
        i = i + 1;
    }
    assert(pair_up(vs).subrange(0, half as int) =~= pair_up(vs));
    r
}

/// Reads the material on the page of the last stage, as pairs of paper name
/// and link.
pub fn parse_papers(html: &str) -> (r: Result<Vec<(String, String)>, SecError>)
    ensures
        materials(html@).len() == 0 ==> r matches Err(SecError::NoMaterial),
        materials(html@).len() > 0 ==> (r matches Ok(v) && pairs_view(v@) == materials(html@)),
{
    let page = Page::parse(html);
    let blocks = page.with_class("materialbody");
    let ghost src = page.source();
    let mut vals: Vec<String> = Vec::new();
    let mut k: usize = 0;
    while k < blocks.len()
        invariant
            src == page.source(),
            src == html@,
            k <= blocks@.len(),
            vals@.map_values(|s: String| s@) == blocks@.subrange(0, k as int).map_values(
                |b: usize| block_value(src, b),
            ),
        decreases blocks@.len() - k,
    {
        let v = filter_node(&page, blocks[k]);
        let ghost before = vals@;
        vals.push(v);
        assert(vals@.map_values(|s: String| s@) =~= before.map_values(|s: String| s@).push(
            block_value(src, blocks@[k as int]),
        ));
        assert(blocks@.subrange(0, k + 1) =~= blocks@.subrange(0, k as int).push(
            blocks@[k as int],
        ));
        assert(vals@.map_values(|s: String| s@) =~= blocks@.subrange(0, k + 1).map_values(
            |b: usize| block_value(src, b),
        ));
        k = k + 1;
    }
    assert(blocks@.subrange(0, blocks@.len() as int) =~= blocks@);
    let pairs = pair_materials(&vals);
    if pairs.len() == 0 {
        Err(SecError::NoMaterial)
    } else {
        Ok(pairs)
    }
}

/// A control whose options all lack a value, or have an empty one, reads as
/// no options at all: an empty result, not a failure.
pub proof fn lemma_placeholders_only(html: Seq<char>, control: Seq<char>, node: usize)
    requires
        first_with_attr(html, "name"@, control) == Some(node),
        forall|i: int|
            0 <= i < named_below(html, node, "option"@).len() ==> match attr_at(
                html,
                #[trigger] named_below(html, node, "option"@)[i],
                "value"@,
            ) {
                Some(v) => v.len() == 0,
                None => true,
            },
    ensures
        control_options(html, control) == Some(Seq::<(Seq<char>, Seq<char>)>::empty()),
        pairs_map(Seq::<(Seq<char>, Seq<char>)>::empty()) == Map::<Seq<char>, Seq<char>>::empty(),
{
    lemma_selectable_placeholders(html, named_below(html, node, "option"@));
}

proof fn lemma_selectable_placeholders(html: Seq<char>, opts: Seq<usize>)
    requires
        forall|i: int|
            0 <= i < opts.len() ==> match attr_at(html, #[trigger] opts[i], "value"@) {
                Some(v) => v.len() == 0,
                None => true,
            },
    ensures
        selectable(html, opts) == Seq::<(Seq<char>, Seq<char>)>::empty(),
    decreases opts.len(),
{
    if opts.len() > 0 {
        let t = opts.drop_last();
        assert forall|i: int| 0 <= i < t.len() implies match attr_at(html, #[trigger] t[i], "value"@) {
            Some(v) => v.len() == 0,
            None => true,
        } by {
            assert(t[i] == opts[i]);
        }
        lemma_selectable_placeholders(html, t);
        assert(opts.last() == opts[opts.len() - 1]);
    }
}

/// Material blocks are read two at a time, in document order: one pair for
/// every two blocks, the name being the block just before its link, and an
/// odd last block left out.
pub proof fn lemma_pairs_in_order(html: Seq<char>)
    ensures
        materials(html).len() == with_class(html, "materialbody"@).len() / 2,
        forall|i: int|
            0 <= i < materials(html).len() ==> #[trigger] materials(html)[i] == (
                block_value(html, with_class(html, "materialbody"@)[2 * i]),
                block_value(html, with_class(html, "materialbody"@)[2 * i + 1]),
            ),
{
    let blocks = with_class(html, "materialbody"@);
    let vals = blocks.map_values(|b: usize| block_value(html, b));
    assert forall|i: int| 0 <= i < materials(html).len() implies #[trigger] materials(html)[i] == (
        block_value(html, blocks[2 * i]),
        block_value(html, blocks[2 * i + 1]),
    ) by {
        assert(materials(html)[i] == (vals[2 * i], vals[2 * i + 1]));
    }
}

/// A page without material blocks has no material.
pub proof fn lemma_no_blocks(html: Seq<char>)
    requires
        with_class(html, "materialbody"@).len() == 0,
    ensures
        materials(html).len() == 0,
{
}

} // verus!
