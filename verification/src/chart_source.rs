//! The XML of a series data source: a literal cache of values, or a
//! formula reference with its optional full reference.
use vstd::prelude::*;
use crate::chart_types::{chart_type_uses_xy_values, uses_xy_values, ChartType};
use crate::chart_xml::{partially_escaped, text_escape};
use crate::text::{chars_of, decimal, decimal_text, string_of, sub_vec};
use crate::errors::{OmError, OmErrorCode};
use crate::parts::{opt_view, string_views};

verus! {

/// Which source of a series an element holds.
#[derive(Clone, Copy, Debug, PartialEq, Eq, Structural)]
pub enum ChartSourceXmlSlot {
    Name,
    XValues,
    Values,
    BubbleSize,
}

/// A value of a resolved formula array. Numbers are held as the text that
/// finding them gives, errors as their lexical text; objects and nested
/// arrays are only told apart.
pub enum OmValue {
    Missing,
    Empty,
    Null,
    Bool(bool),
    Number(String),
    Text(String),
    Error(String),
    Object,
    Array,
}

/// A cell value that a source resolves to. Numbers are held as the text that
/// finding them gives, errors as their lexical text.
pub enum CellValue {
    Blank,
    Bool(bool),
    Number(String),
    Text(String),
    Error(String),
    IsoDateTime(String),
    RichText(String),
}

/// What a source's formula resolves to: an array of values, a single cell
/// value, or something else (a range), which the chart XML refers to.
pub enum ReferenceTarget {
    Array(Vec<OmValue>),
    Value(CellValue),
    Other,
}

/// A series data source: its formula, the full reference it was cut from,
/// and what the formula resolves to, when it was resolved.
pub struct ChartSourceExpr {
    pub formula: String,
    pub full_reference: Option<String>,
    pub resolved: Option<ReferenceTarget>,
}

/// The text of a formula value; none for an object or nested array.
pub open spec fn om_value_text_of(v: OmValue) -> Option<Seq<char>> {
    match v {
        OmValue::Missing | OmValue::Empty | OmValue::Null => Some(Seq::empty()),
        OmValue::Bool(b) => Some(if b { "TRUE"@ } else { "FALSE"@ }),
        OmValue::Number(t) => Some(t@),
        OmValue::Text(t) => Some(t@),
        OmValue::Error(t) => Some(t@),
        OmValue::Object | OmValue::Array => None,
    }
}

/// The text of a cell value.
pub open spec fn cell_value_text(v: CellValue) -> Seq<char> {
    match v {
        CellValue::Blank => Seq::empty(),
        CellValue::Bool(b) => if b { "TRUE"@ } else { "FALSE"@ },
        CellValue::Number(t) => t@,
        CellValue::Text(t) => t@,
        CellValue::Error(t) => t@,
        CellValue::IsoDateTime(t) => t@,
        CellValue::RichText(t) => t@,
    }
}

/// The message for an array holding an object or a nested array.
pub open spec fn nested_value_message() -> Seq<char> {
    "chart literal arrays cannot contain object or nested array values"@
}

/// The texts of an array's values, unless one of them is an object or a
/// nested array.
pub open spec fn array_texts(values: Seq<OmValue>) -> Option<Seq<Seq<char>>> {
    if forall|i: int| 0 <= i < values.len() ==> (#[trigger] om_value_text_of(values[i])) is Some {
        Some(values.map_values(|v: OmValue| om_value_text_of(v)->0))
    } else {
        None
    }
}

/// The literal values of a source: the texts of a resolved array (failing
/// on an object or nested array), the text of a resolved cell value, or none.
pub open spec fn literal_values_of(source: ChartSourceExpr) -> Result<Option<Seq<Seq<char>>>, crate::package_xml::ErrorView> {
    match source.resolved {
        Some(ReferenceTarget::Array(values)) => match array_texts(values@) {
            Some(t) => Ok(Some(t)),
            None => Err((OmErrorCode::TypeMismatch, nested_value_message())),
        },
        Some(ReferenceTarget::Value(v)) => Ok(Some(seq![cell_value_text(v)])),
        _ => Ok(None),
    }
}

/// The container element of a source slot.
pub open spec fn container_name(t: ChartType, slot: ChartSourceXmlSlot) -> Seq<char> {
    match slot {
        ChartSourceXmlSlot::Name => "tx"@,
        ChartSourceXmlSlot::XValues => if uses_xy_values(t) { "xVal"@ } else { "cat"@ },
        ChartSourceXmlSlot::Values => if uses_xy_values(t) { "yVal"@ } else { "val"@ },
        ChartSourceXmlSlot::BubbleSize => "bubbleSize"@,
    }
}

/// The reference element of a source slot.
pub open spec fn reference_name(t: ChartType, slot: ChartSourceXmlSlot) -> Seq<char> {
    match slot {
        ChartSourceXmlSlot::Name => "strRef"@,
        ChartSourceXmlSlot::XValues => if uses_xy_values(t) { "numRef"@ } else { "strRef"@ },
        ChartSourceXmlSlot::Values => "numRef"@,
        ChartSourceXmlSlot::BubbleSize => "numRef"@,
    }
}

/// The literal element of a source slot.
pub open spec fn literal_name(t: ChartType, slot: ChartSourceXmlSlot) -> Seq<char> {
    if slot == ChartSourceXmlSlot::XValues && !uses_xy_values(t) {
        "strLit"@
    } else {
        "numLit"@
    }
}

/// A text without its leading `=` signs.
pub open spec fn trim_leading_equals(s: Seq<char>) -> Seq<char>
    decreases s.len(),
{
    if s.len() > 0 && s[0] == '=' {
        trim_leading_equals(s.drop_first())
    } else {
        s
    }
}

/// The point elements of the first `k` literal values.
pub open spec fn literal_points(values: Seq<Seq<char>>, k: int) -> Seq<char>
    decreases k,
{
    if k <= 0 || k > values.len() {
        Seq::empty()
    } else {
        literal_points(values, k - 1) + "<c:pt idx=\""@ + decimal((k - 1) as nat) + "\"><c:v>"@ + partially_escaped(
            values[k - 1],
        ) + "</c:v></c:pt>"@
    }
}

/// The full-reference extension of a source.
pub open spec fn full_reference_text(full_reference: Option<String>) -> Seq<char> {
    match full_reference {
        Some(r) => "<c:extLst><c:ext uri=\"{02D57815-91ED-43cb-92C2-25804820EDAC}\"><c15:fullRef xmlns:c15=\"http://schemas.microsoft.com/office/drawing/2012/chart\"><c15:sqref>"@
            + partially_escaped(trim_leading_equals(r@)) + "</c15:sqref></c15:fullRef></c:ext></c:extLst>"@,
        None => Seq::empty(),
    }
}

/// The XML of a series source with the given literal values: the first
/// literal as the series name; a literal cache with its point count and
/// points; or, without literals, the formula reference.
pub open spec fn source_container_text(
    t: ChartType,
    slot: ChartSourceXmlSlot,
    source: ChartSourceExpr,
    literals: Option<Seq<Seq<char>>>,
) -> Seq<char> {
    let container = container_name(t, slot);
    match literals {
        Some(values) => if slot == ChartSourceXmlSlot::Name {
            "<c:tx><c:v>"@ + (if values.len() > 0 { partially_escaped(values[0]) } else { Seq::empty() })
                + "</c:v></c:tx>"@
        } else {
            let lit = literal_name(t, slot);
            "<c:"@ + container + "><c:"@ + lit + "><c:ptCount val=\""@ + decimal(values.len()) + "\"/>"@
                + literal_points(values, values.len() as int) + "</c:"@ + lit + "></c:"@ + container + ">"@
        },
        None => {
            let reference = reference_name(t, slot);
            "<c:"@ + container + "><c:"@ + reference + "><c:f>"@ + partially_escaped(trim_leading_equals(source.formula@))
                + "</c:f>"@ + full_reference_text(source.full_reference) + "</c:"@ + reference + "></c:"@ + container
                + ">"@
        },
    }
}

/// The XML of a series source, or why its literal values cannot be written.
pub open spec fn source_container(t: ChartType, slot: ChartSourceXmlSlot, source: ChartSourceExpr) -> Result<
    Seq<char>,
    crate::package_xml::ErrorView,
> {
    match literal_values_of(source) {
        Err(e) => Err(e),
        Ok(literals) => Ok(source_container_text(t, slot, source, literals)),
    }
}

/// The view of a text result.
pub open spec fn text_result_view(r: Result<String, OmError>) -> Result<Seq<char>, crate::package_xml::ErrorView> {
    match r {
        Ok(t) => Ok(t@),
        Err(e) => Err((e.code, e.message@)),
    }
}

/// The text of a formula value: empty for a missing, empty or null value,
/// `TRUE` or `FALSE`, the number's or text's or error's text; none for an
/// object or nested array.
pub fn om_value_text(value: &OmValue) -> (r: Option<String>)
    ensures
        opt_view(r) == om_value_text_of(*value),
{
    proof {
        reveal_strlit("TRUE");
        reveal_strlit("FALSE");
    }
    match value {
        OmValue::Missing | OmValue::Empty | OmValue::Null => {
            let e = String::new();
            assert(e@ =~= Seq::<char>::empty());
            Some(e)
        },
        OmValue::Bool(b) => Some(String::from_str(if *b { "TRUE" } else { "FALSE" })),
        OmValue::Number(t) => Some(t.clone()),
        OmValue::Text(t) => Some(t.clone()),
        OmValue::Error(t) => Some(t.clone()),
        OmValue::Object | OmValue::Array => None,
    }
}

/// The text of a cell value found by a source: empty for a blank cell,
/// `TRUE` or `FALSE`, else the value's text.
pub fn find_cell_value_text(value: &CellValue) -> (r: String)
    ensures
        r@ == cell_value_text(*value),
{
    proof {
        reveal_strlit("TRUE");
        reveal_strlit("FALSE");
    }
    match value {
        CellValue::Blank => {
            let e = String::new();
            assert(e@ =~= Seq::<char>::empty());
            e
        },
        CellValue::Bool(b) => String::from_str(if *b { "TRUE" } else { "FALSE" }),
        CellValue::Number(t) => t.clone(),
        CellValue::Text(t) => t.clone(),
        CellValue::Error(t) => t.clone(),
        CellValue::IsoDateTime(t) => t.clone(),
        CellValue::RichText(t) => t.clone(),
    }
}

/// The literal values of a source: the texts of a resolved array, which
/// must hold no object or nested array; the text of a resolved cell value;
/// or none when the source is not resolved to values.
pub fn chart_source_literal_values(source: &ChartSourceExpr) -> (r: Result<Option<Vec<String>>, OmError>)
    ensures
        match r {
            Ok(v) => literal_values_of(*source) == Ok::<Option<Seq<Seq<char>>>, crate::package_xml::ErrorView>(
                match v {
                    Some(t) => Some(string_views(t@)),
                    None => None,
                },
            ),
            Err(e) => literal_values_of(*source) == Err::<Option<Seq<Seq<char>>>, crate::package_xml::ErrorView>(
                (e.code, e.message@),
            ),
        },
{
    match &source.resolved {
        Some(ReferenceTarget::Array(values)) => {
            let mut texts: Vec<String> = Vec::new();
            let mut i: usize = 0;
            while i < values.len()
                invariant
                    i <= values@.len(),
                    source.resolved matches Some(ReferenceTarget::Array(v)) && v@ == values@,
                    texts@.len() == i,
                    forall|j: int| 0 <= j < i ==> (#[trigger] om_value_text_of(values@[j])) == Some(texts@[j]@),
                decreases values@.len() - i,
            {
                match om_value_text(&values[i]) {
                    Some(t) => texts.push(t),
                    None => {
                        proof {
                            reveal_strlit("chart literal arrays cannot contain object or nested array values");
                            assert(om_value_text_of(values@[i as int]) is None);
                            assert(array_texts(values@) is None);
                            assert(literal_values_of(*source) == Err::<Option<Seq<Seq<char>>>, crate::package_xml::ErrorView>(
                                (OmErrorCode::TypeMismatch, nested_value_message()),
                            ));
                        }
                        return Err(OmError {
                            code: OmErrorCode::TypeMismatch,
                            message: String::from_str("chart literal arrays cannot contain object or nested array values"),
                        });
                    },
                }
                i += 1;
            }
            assert(string_views(texts@) =~= values@.map_values(|v: OmValue| om_value_text_of(v)->0));
            Ok(Some(texts))
        },
        Some(ReferenceTarget::Value(v)) => {
            let t = find_cell_value_text(v);
            let out = vec![t];
            assert(string_views(out@) =~= seq![cell_value_text(*v)]);
            Ok(Some(out))
        },
        _ => Ok(None),
    }
}

fn trim_leading_equals_str(s: &str) -> (r: String)
    ensures
        r@ == trim_leading_equals(s@),
{
    let v = chars_of(s);
    let mut i: usize = 0;
    assert(v@.skip(0) =~= v@);
    while i < v.len() && v[i] == '='
        invariant
            i <= v@.len(),
            v@ == s@,
            trim_leading_equals(v@) == trim_leading_equals(v@.skip(i as int)),
        decreases v@.len() - i,
    {
        assert(v@.skip(i + 1) =~= v@.skip(i as int).drop_first());
        i += 1;
    }
    let t = sub_vec(&v, i, v.len());
    assert(t@ =~= v@.skip(i as int));
    string_of(&t)
}

fn container_str(t: &ChartType, slot: ChartSourceXmlSlot) -> (r: &'static str)
    ensures
        r@ == container_name(*t, slot),
{
    proof {
        reveal_strlit("tx");
        reveal_strlit("xVal");
        reveal_strlit("cat");
        reveal_strlit("yVal");
        reveal_strlit("val");
        reveal_strlit("bubbleSize");
    }
    match slot {
        ChartSourceXmlSlot::Name => "tx",
        ChartSourceXmlSlot::XValues => if chart_type_uses_xy_values(t) { "xVal" } else { "cat" },
        ChartSourceXmlSlot::Values => if chart_type_uses_xy_values(t) { "yVal" } else { "val" },
        ChartSourceXmlSlot::BubbleSize => "bubbleSize",
    }
}

fn reference_str(t: &ChartType, slot: ChartSourceXmlSlot) -> (r: &'static str)
    ensures
        r@ == reference_name(*t, slot),
{
    proof {
        reveal_strlit("strRef");
        reveal_strlit("numRef");
    }
    match slot {
        ChartSourceXmlSlot::Name => "strRef",
        ChartSourceXmlSlot::XValues => if chart_type_uses_xy_values(t) { "numRef" } else { "strRef" },
        ChartSourceXmlSlot::Values => "numRef",
        ChartSourceXmlSlot::BubbleSize => "numRef",
    }
}

fn push_literal_points(xml: &mut String, values: &Vec<String>)
    ensures
        final(xml)@ == old(xml)@ + literal_points(string_views(values@), values@.len() as int),
{
    proof {
        reveal_strlit("<c:pt idx=\"");
        reveal_strlit("\"><c:v>");
        reveal_strlit("</c:v></c:pt>");
    }
    let ghost start = xml@;
    let mut k: usize = 0;
    let ghost views = string_views(values@);
    assert(xml@ =~= start + literal_points(views, 0));
    while k < values.len()
        invariant
            k <= values@.len(),
            views == string_views(values@),
            xml@ == start + literal_points(views, k as int),
        decreases values@.len() - k,
    {
        let index = decimal_text(k as u64);
        let value = text_escape(values[k].as_str());
        xml.append("<c:pt idx=\"");
        xml.append(index.as_str());
        xml.append("\"><c:v>");
        xml.append(value.as_str());
        xml.append("</c:v></c:pt>");
        assert(views[k as int] == values@[k as int]@);
        assert(xml@ =~= start + literal_points(views, k + 1));
        k += 1;
    }
}

fn push_full_reference(xml: &mut String, full_reference: &Option<String>)
    ensures
        final(xml)@ == old(xml)@ + full_reference_text(*full_reference),
{
    proof {
        reveal_strlit("<c:extLst><c:ext uri=\"{02D57815-91ED-43cb-92C2-25804820EDAC}\"><c15:fullRef xmlns:c15=\"http://schemas.microsoft.com/office/drawing/2012/chart\"><c15:sqref>");
        reveal_strlit("</c15:sqref></c15:fullRef></c:ext></c:extLst>");
    }
    match full_reference {
        Some(r) => {
            let trimmed = trim_leading_equals_str(r.as_str());
            let escaped_reference = text_escape(trimmed.as_str());
            let ghost start = xml@;
            xml.append("<c:extLst><c:ext uri=\"{02D57815-91ED-43cb-92C2-25804820EDAC}\"><c15:fullRef xmlns:c15=\"http://schemas.microsoft.com/office/drawing/2012/chart\"><c15:sqref>");
            xml.append(escaped_reference.as_str());
            xml.append("</c15:sqref></c15:fullRef></c:ext></c:extLst>");
            assert(xml@ =~= start + full_reference_text(*full_reference));
        },
        None => {
            assert(xml@ + Seq::<char>::empty() =~= xml@);
        },
    }
}

/// The XML of a series source for a chart type and slot: its literal
/// values when it resolves to values (failing on an object or nested array),
/// else its formula reference.
pub fn chart_source_container_xml_string(
    chart_type: &ChartType,
    slot: ChartSourceXmlSlot,
    source: &ChartSourceExpr,
) -> (r: Result<String, OmError>)
    ensures
        text_result_view(r) == source_container(*chart_type, slot, *source),
{
    proof {
        reveal_strlit("<c:tx><c:v>");
        reveal_strlit("</c:v></c:tx>");
        reveal_strlit("<c:");
        reveal_strlit("><c:");
        reveal_strlit("><c:ptCount val=\"");
        reveal_strlit("\"/>");
        reveal_strlit("</c:");
        reveal_strlit("></c:");
        reveal_strlit(">");
        reveal_strlit("><c:f>");
        reveal_strlit("</c:f>");
        reveal_strlit("strLit");
        reveal_strlit("numLit");
    }
    let literals = match chart_source_literal_values(source) {
        Ok(l) => l,
        Err(e) => return Err(e),
    };
    let ghost lv = match &literals {
        Some(t) => Some(string_views(t@)),
        None => None::<Seq<Seq<char>>>,
    };
    let container = container_str(chart_type, slot);
    match &literals {
        Some(values) => {
            if slot == ChartSourceXmlSlot::Name {
                let mut xml = String::from_str("<c:tx><c:v>");
                if values.len() > 0 {
                    let first = text_escape(values[0].as_str());
                    assert(string_views(values@)[0] == values@[0]@);
                    xml.append(first.as_str());
                } else {
                    assert(xml@ + Seq::<char>::empty() =~= xml@);
                }
                xml.append("</c:v></c:tx>");
                assert(xml@ =~= source_container_text(*chart_type, slot, *source, lv));
                return Ok(xml);
            }
            let literal = if slot == ChartSourceXmlSlot::XValues && !chart_type_uses_xy_values(chart_type) {
                "strLit"
            } else {
                "numLit"
            };
            let count = decimal_text(values.len() as u64);
            let mut xml = String::from_str("<c:");
            xml.append(container);
            xml.append("><c:");
            xml.append(literal);
            xml.append("><c:ptCount val=\"");
            xml.append(count.as_str());
            xml.append("\"/>");
            push_literal_points(&mut xml, values);
            xml.append("</c:");
            xml.append(literal);
            xml.append("></c:");
            xml.append(container);
            xml.append(">");
            assert(xml@ =~= source_container_text(*chart_type, slot, *source, lv));
            Ok(xml)
        },
        None => {
            let reference = reference_str(chart_type, slot);
            let trimmed = trim_leading_equals_str(source.formula.as_str());
            let formula = text_escape(trimmed.as_str());
            let mut xml = String::from_str("<c:");
            xml.append(container);
            xml.append("><c:");
            xml.append(reference);
            xml.append("><c:f>");
            xml.append(formula.as_str());
            xml.append("</c:f>");
            push_full_reference(&mut xml, &source.full_reference);
            xml.append("</c:");
            xml.append(reference);
            xml.append("></c:");
            xml.append(container);
            xml.append(">");
            assert(xml@ =~= source_container_text(*chart_type, slot, *source, lv));
            Ok(xml)
        },
    }
}

} // verus!
