//! DrawingML chart fragments written as text: data labels, data tables,
//! protection, 3-D view, and the shells of chart groups and axes added to
//! loaded chart XML.
use vstd::prelude::*;
use crate::chart_model::{
    chart_axis_cross_target_id, chart_group_direct_property_value, cross_target_id, flag_text,
    group_property_value, opt_flag_text, AxisModel, ChartDataLabelsModel, ChartDataTableModel,
    ChartGroupModel, ChartModel, ChartProtectionModel, ChartView3DModel, SeriesModel,
};
use crate::chart_types::{
    axis_kind_name, bar_shape_name, chart_axis_xml_name, chart_bar_shape_xml_value,
    chart_data_label_position_xml_value, chart_type_from_group_name, data_label_position_name,
    type_of_group_name,
};
use crate::errors::{OmError, OmErrorCode};
use crate::parts::opt_view;
use crate::xml::append_bytes;
use crate::text::{chars_of, decimal, decimal_text, signed_decimal, signed_decimal_text};

verus! {

/// How quick-xml escapes one character of an attribute value.
pub open spec fn escape_char(c: char) -> Seq<char> {
    if c == '<' {
        "&lt;"@
    } else if c == '>' {
        "&gt;"@
    } else if c == '&' {
        "&amp;"@
    } else if c == '\'' {
        "&apos;"@
    } else if c == '"' {
        "&quot;"@
    } else {
        seq![c]
    }
}

/// A text with `<`, `>`, `&`, `'` and `"` replaced by their entities.
pub open spec fn escaped(s: Seq<char>) -> Seq<char>
    decreases s.len(),
{
    if s.len() == 0 {
        Seq::empty()
    } else {
        escaped(s.drop_last()) + escape_char(s.last())
    }
}

/// How quick-xml partially escapes one character of text content.
pub open spec fn partial_escape_char(c: char) -> Seq<char> {
    if c == '<' {
        "&lt;"@
    } else if c == '>' {
        "&gt;"@
    } else if c == '&' {
        "&amp;"@
    } else {
        seq![c]
    }
}

/// A text with `<`, `>` and `&` replaced by their entities.
pub open spec fn partially_escaped(s: Seq<char>) -> Seq<char>
    decreases s.len(),
{
    if s.len() == 0 {
        Seq::empty()
    } else {
        partially_escaped(s.drop_last()) + partial_escape_char(s.last())
    }
}

/// Escapes an attribute value: calls `quick_xml::escape::escape`, which
/// replaces each of `<`, `>`, `&`, `'` and `"` by its entity and keeps every
/// other character.
#[verifier::external_body]
pub(crate) fn attribute_escape(s: &str) -> (r: String)
    ensures
        r@ == escaped(s@),
{
    quick_xml::escape::escape(s).into_owned()
}

/// Escapes text content: calls `quick_xml::escape::partial_escape`, which
/// replaces each of `<`, `>` and `&` by its entity and keeps every other
/// character.
#[verifier::external_body]
pub(crate) fn text_escape(s: &str) -> (r: String)
    ensures
        r@ == partially_escaped(s@),
{
    quick_xml::escape::partial_escape(s).into_owned()
}

/// An empty chart element with a `val` attribute: `<c:NAME val="VALUE"/>`.
pub open spec fn val_element(name: Seq<char>, value: Seq<char>) -> Seq<char> {
    "<c:"@ + name + " val=\""@ + value + "\"/>"@
}

/// The element for an optional flag: none when the flag is unset.
pub open spec fn opt_flag_element(name: Seq<char>, value: Option<bool>) -> Seq<char> {
    match value {
        Some(b) => val_element(name, flag_text(b)),
        None => Seq::empty(),
    }
}

fn push_val_element(out: &mut String, name: &str, value: &str)
    ensures
        final(out)@ == old(out)@ + val_element(name@, value@),
{
    proof {
        reveal_strlit("<c:");
        reveal_strlit(" val=\"");
        reveal_strlit("\"/>");
    }
    out.append("<c:");
    out.append(name);
    out.append(" val=\"");
    out.append(value);
    out.append("\"/>");
}

fn push_opt_flag_element(out: &mut String, name: &str, value: Option<bool>)
    ensures
        final(out)@ == old(out)@ + opt_flag_element(name@, value),
{
    proof {
        reveal_strlit("1");
        reveal_strlit("0");
    }
    match value {
        Some(b) => push_val_element(out, name, if b { "1" } else { "0" }),
        None => {
            assert(out@ + Seq::<char>::empty() =~= out@);
        },
    }
}

/// The number-format element of data labels: linked to the source unless said otherwise.
pub open spec fn number_format_part(d: ChartDataLabelsModel) -> Seq<char> {
    match d.number_format {
        Some(f) => "<c:numFmt formatCode=\""@ + partially_escaped(f@) + "\" sourceLinked=\""@ + flag_text(
            match d.number_format_linked {
                Some(b) => b,
                None => true,
            },
        ) + "\"/>"@,
        None => Seq::empty(),
    }
}

/// The position element of data labels.
pub open spec fn position_part(d: ChartDataLabelsModel) -> Seq<char> {
    match d.position {
        Some(p) => val_element("dLblPos"@, data_label_position_name(p)@),
        None => Seq::empty(),
    }
}

/// The flag elements of data labels, in schema order.
pub open spec fn label_flags_part(d: ChartDataLabelsModel) -> Seq<char> {
    opt_flag_element("showLegendKey"@, d.show_legend_key) + opt_flag_element("showLeaderLines"@, d.has_leader_lines)
        + opt_flag_element("showSerName"@, d.show_series_name) + opt_flag_element("showCatName"@, d.show_category_name)
        + opt_flag_element("showVal"@, d.show_value) + opt_flag_element("showPercent"@, d.show_percentage)
        + opt_flag_element("showBubbleSize"@, d.show_bubble_size)
}

/// The separator element of data labels.
pub open spec fn separator_part(d: ChartDataLabelsModel) -> Seq<char> {
    match d.separator {
        Some(s) => "<c:separator>"@ + partially_escaped(s@) + "</c:separator>"@,
        None => Seq::empty(),
    }
}

/// The properties written inside a data-label element.
pub open spec fn data_label_properties(d: ChartDataLabelsModel) -> Seq<char> {
    number_format_part(d) + position_part(d) + label_flags_part(d) + separator_part(d)
}

fn push_number_format(xml: &mut String, data_labels: &ChartDataLabelsModel)
    ensures
        final(xml)@ == old(xml)@ + number_format_part(*data_labels),
{
    proof {
        reveal_strlit("<c:numFmt formatCode=\"");
        reveal_strlit("\" sourceLinked=\"");
        reveal_strlit("\"/>");
        reveal_strlit("1");
        reveal_strlit("0");
    }
    if let Some(format_code) = &data_labels.number_format {
        let escaped_code = text_escape(format_code.as_str());
        let linked = match data_labels.number_format_linked {
            Some(b) => b,
            None => true,
        };
        let ghost start = xml@;
        xml.append("<c:numFmt formatCode=\"");
        xml.append(escaped_code.as_str());
        xml.append("\" sourceLinked=\"");
        xml.append(if linked { "1" } else { "0" });
        xml.append("\"/>");
        assert(xml@ =~= start + number_format_part(*data_labels));
    } else {
        assert(xml@ + Seq::<char>::empty() =~= xml@);
    }
}

fn push_label_flags(xml: &mut String, data_labels: &ChartDataLabelsModel)
    ensures
        final(xml)@ == old(xml)@ + label_flags_part(*data_labels),
{
    proof {
        reveal_strlit("showLegendKey");
        reveal_strlit("showLeaderLines");
        reveal_strlit("showSerName");
        reveal_strlit("showCatName");
        reveal_strlit("showVal");
        reveal_strlit("showPercent");
        reveal_strlit("showBubbleSize");
    }
    let ghost start = xml@;
    push_opt_flag_element(xml, "showLegendKey", data_labels.show_legend_key);
    push_opt_flag_element(xml, "showLeaderLines", data_labels.has_leader_lines);
    push_opt_flag_element(xml, "showSerName", data_labels.show_series_name);
    push_opt_flag_element(xml, "showCatName", data_labels.show_category_name);
    push_opt_flag_element(xml, "showVal", data_labels.show_value);
    push_opt_flag_element(xml, "showPercent", data_labels.show_percentage);
    push_opt_flag_element(xml, "showBubbleSize", data_labels.show_bubble_size);
    assert(xml@ =~= start + label_flags_part(*data_labels));
}

fn push_separator(xml: &mut String, data_labels: &ChartDataLabelsModel)
    ensures
        final(xml)@ == old(xml)@ + separator_part(*data_labels),
{
    proof {
        reveal_strlit("<c:separator>");
        reveal_strlit("</c:separator>");
    }
    if let Some(separator) = &data_labels.separator {
        let escaped_separator = text_escape(separator.as_str());
        let ghost start = xml@;
        xml.append("<c:separator>");
        xml.append(escaped_separator.as_str());
        xml.append("</c:separator>");
        assert(xml@ =~= start + separator_part(*data_labels));
    } else {
        assert(xml@ + Seq::<char>::empty() =~= xml@);
    }
}

/// Appends the properties of a data-label element.
pub fn push_chart_data_label_properties_xml(xml: &mut String, data_labels: &ChartDataLabelsModel)
    ensures
        final(xml)@ == old(xml)@ + data_label_properties(*data_labels),
{
    proof {
        reveal_strlit("dLblPos");
    }
    let ghost start = xml@;
    push_number_format(xml, data_labels);
    match data_labels.position {
        Some(p) => push_val_element(xml, "dLblPos", chart_data_label_position_xml_value(p)),
        None => {
            assert(xml@ + Seq::<char>::empty() =~= xml@);
        },
    }
    push_label_flags(xml, data_labels);
    push_separator(xml, data_labels);
    assert(xml@ =~= start + data_label_properties(*data_labels));
}

/// The data-label element of a group or chart: `<c:dLbls>` with its properties.
pub open spec fn data_labels_text(d: ChartDataLabelsModel) -> Seq<char> {
    "<c:dLbls>"@ + data_label_properties(d) + "</c:dLbls>"@
}

/// The data-label element for data-label settings.
pub fn chart_data_labels_xml_string(data_labels: &ChartDataLabelsModel) -> (r: String)
    ensures
        r@ == data_labels_text(*data_labels),
{
    proof {
        reveal_strlit("<c:dLbls>");
        reveal_strlit("</c:dLbls>");
    }
    let mut xml = String::from_str("<c:dLbls>");
    push_chart_data_label_properties_xml(&mut xml, data_labels);
    xml.append("</c:dLbls>");
    xml
}

/// The labels of single points: per point, `<c:dLbl>` with its index and
/// its label properties.
pub open spec fn point_labels_text(points: Seq<(u32, ChartDataLabelsModel)>) -> Seq<char>
    decreases points.len(),
{
    if points.len() == 0 {
        Seq::empty()
    } else {
        point_labels_text(points.drop_last()) + "<c:dLbl><c:idx val=\""@ + decimal(points.last().0 as nat) + "\"/>"@
            + data_label_properties(points.last().1) + "</c:dLbl>"@
    }
}

/// The data labels of a series: nothing when neither the series nor any
/// point has labels, else `<c:dLbls>` with the point labels first and the
/// series' own label properties after them.
pub open spec fn series_labels_text(s: SeriesModel) -> Seq<char> {
    if s.data_labels is None && s.point_data_labels@.len() == 0 {
        Seq::empty()
    } else {
        "<c:dLbls>"@ + point_labels_text(s.point_data_labels@) + match s.data_labels {
            Some(d) => data_label_properties(d),
            None => Seq::empty(),
        } + "</c:dLbls>"@
    }
}

fn push_point_labels(xml: &mut String, index: u32, labels: &ChartDataLabelsModel)
    ensures
        final(xml)@ == old(xml)@ + "<c:dLbl><c:idx val=\""@ + decimal(index as nat) + "\"/>"@ + data_label_properties(*labels)
            + "</c:dLbl>"@,
{
    xml.append("<c:dLbl><c:idx val=\"");
    let number = decimal_text(index as u64);
    xml.append(number.as_str());
    xml.append("\"/>");
    push_chart_data_label_properties_xml(xml, labels);
    xml.append("</c:dLbl>");
}

/// The data-label element of a series.
#[verifier::spinoff_prover]
pub fn chart_series_data_labels_xml_string(series: &SeriesModel) -> (r: String)
    ensures
        r@ == series_labels_text(*series),
{
    proof {
        reveal_strlit("<c:dLbls>");
        reveal_strlit("</c:dLbls>");
        reveal_strlit("<c:dLbl><c:idx val=\"");
        reveal_strlit("\"/>");
        reveal_strlit("</c:dLbl>");
    }
    if series.data_labels.is_none() && series.point_data_labels.len() == 0 {
        return String::new();
    }
    let mut xml = String::from_str("<c:dLbls>");
    let ghost head = xml@;
    let points = &series.point_data_labels;
    let mut k: usize = 0;
    assert(points@.subrange(0, 0) =~= Seq::<(u32, ChartDataLabelsModel)>::empty());
    assert(xml@ =~= head + point_labels_text(points@.subrange(0, 0)));
    while k < points.len()
        invariant
            k <= points@.len(),
            xml@ == head + point_labels_text(points@.subrange(0, k as int)),
        decreases points@.len() - k,
    {
        let (index, labels) = &points[k];
        push_point_labels(&mut xml, *index, labels);
        assert(points@.subrange(0, k + 1).drop_last() =~= points@.subrange(0, k as int));
        assert(xml@ =~= head + point_labels_text(points@.subrange(0, k + 1)));
        k += 1;
    }
    assert(points@.subrange(0, points@.len() as int) =~= points@);
    let ghost mid = xml@;
    if let Some(labels) = &series.data_labels {
        push_chart_data_label_properties_xml(&mut xml, labels);
    } else {
        assert(xml@ =~= mid + Seq::<char>::empty());
    }
    xml.append("</c:dLbls>");
    assert(xml@ =~= series_labels_text(*series));
    xml
}

/// The data-table element: `<c:dTable>` with the flags that are set.
pub open spec fn data_table_text(t: ChartDataTableModel) -> Seq<char> {
    "<c:dTable>"@ + opt_flag_element("showHorzBorder"@, t.has_border_horizontal) + opt_flag_element(
        "showVertBorder"@,
        t.has_border_vertical,
    ) + opt_flag_element("showOutline"@, t.has_border_outline) + opt_flag_element(
        "showKeys"@,
        t.show_legend_key,
    ) + "</c:dTable>"@
}

/// The data-table element of a chart.
pub fn chart_data_table_xml_string(data_table: &ChartDataTableModel) -> (r: String)
    ensures
        r@ == data_table_text(*data_table),
{
    proof {
        reveal_strlit("<c:dTable>");
        reveal_strlit("</c:dTable>");
        reveal_strlit("showHorzBorder");
        reveal_strlit("showVertBorder");
        reveal_strlit("showOutline");
        reveal_strlit("showKeys");
    }
    let mut xml = String::from_str("<c:dTable>");
    push_opt_flag_element(&mut xml, "showHorzBorder", data_table.has_border_horizontal);
    push_opt_flag_element(&mut xml, "showVertBorder", data_table.has_border_vertical);
    push_opt_flag_element(&mut xml, "showOutline", data_table.has_border_outline);
    push_opt_flag_element(&mut xml, "showKeys", data_table.show_legend_key);
    xml.append("</c:dTable>");
    xml
}

/// The element for a protection that is on: `<c:NAME val="1"/>`.
pub open spec fn protected_element(name: Seq<char>, on: bool) -> Seq<char> {
    if on {
        val_element(name, "1"@)
    } else {
        Seq::empty()
    }
}

/// The children of a protection element.
pub open spec fn protection_children(p: ChartProtectionModel) -> Seq<char> {
    protected_element("chartObject"@, p.contents) + protected_element("data"@, p.data) + protected_element(
        "formatting"@,
        p.formatting,
    ) + protected_element("selection"@, p.selection) + protected_element("userInterface"@, p.user_interface_only)
}

/// The protection element of a chart: empty when nothing is protected.
pub open spec fn protection_text(p: ChartProtectionModel) -> Seq<char> {
    if protection_children(p).len() == 0 {
        Seq::empty()
    } else {
        "<c:protection>"@ + protection_children(p) + "</c:protection>"@
    }
}

fn push_protected_element(out: &mut String, name: &str, on: bool)
    ensures
        final(out)@ == old(out)@ + protected_element(name@, on),
{
    proof {
        reveal_strlit("1");
    }
    if on {
        push_val_element(out, name, "1");
    } else {
        assert(out@ + Seq::<char>::empty() =~= out@);
    }
}

/// The protection element of a chart.
pub fn chart_protection_xml(protection: ChartProtectionModel) -> (r: String)
    ensures
        r@ == protection_text(protection),
{
    proof {
        reveal_strlit("chartObject");
        reveal_strlit("data");
        reveal_strlit("formatting");
        reveal_strlit("selection");
        reveal_strlit("userInterface");
        reveal_strlit("<c:protection>");
        reveal_strlit("</c:protection>");
    }
    let mut children = String::new();
    assert(children@ =~= Seq::<char>::empty());
    push_protected_element(&mut children, "chartObject", protection.contents);
    push_protected_element(&mut children, "data", protection.data);
    push_protected_element(&mut children, "formatting", protection.formatting);
    push_protected_element(&mut children, "selection", protection.selection);
    push_protected_element(&mut children, "userInterface", protection.user_interface_only);
    assert(children@ =~= protection_children(protection));
    if children.unicode_len() == 0 {
        return String::new();
    }
    let mut xml = String::from_str("<c:protection>");
    xml.append(children.as_str());
    xml.append("</c:protection>");
    xml
}

/// The element for an optional count.
pub open spec fn opt_count_element(name: Seq<char>, value: Option<u32>) -> Seq<char> {
    match value {
        Some(v) => val_element(name, decimal(v as nat)),
        None => Seq::empty(),
    }
}

fn push_opt_count_element(out: &mut String, name: &str, value: Option<u32>)
    ensures
        final(out)@ == old(out)@ + opt_count_element(name@, value),
{
    match value {
        Some(v) => {
            let text = decimal_text(v as u64);
            push_val_element(out, name, text.as_str());
        },
        None => {
            assert(out@ + Seq::<char>::empty() =~= out@);
        },
    }
}

/// The children of a 3-D view element.
pub open spec fn view_3d_children(v: ChartView3DModel) -> Seq<char> {
    (match v.elevation {
        Some(e) => val_element("rotX"@, signed_decimal(e as int)),
        None => Seq::empty(),
    }) + opt_count_element("hPercent"@, v.height_percent) + opt_count_element("rotY"@, v.rotation)
        + opt_count_element("depthPercent"@, v.depth_percent) + opt_flag_element("rAngAx"@, v.right_angle_axes)
        + opt_count_element("perspective"@, v.perspective)
}

/// The 3-D view element of a chart, unless no setting is made.
pub open spec fn view_3d_text(v: ChartView3DModel) -> Option<Seq<char>> {
    if view_3d_children(v).len() == 0 {
        None
    } else {
        Some("<c:view3D>"@ + view_3d_children(v) + "</c:view3D>"@)
    }
}

/// The 3-D view element of a chart, if any setting is made.
pub fn chart_view_3d_xml_string(view_3d: &ChartView3DModel) -> (r: Option<String>)
    ensures
        opt_view(r) == view_3d_text(*view_3d),
{
    proof {
        reveal_strlit("rotX");
        reveal_strlit("hPercent");
        reveal_strlit("rotY");
        reveal_strlit("depthPercent");
        reveal_strlit("rAngAx");
        reveal_strlit("perspective");
        reveal_strlit("<c:view3D>");
        reveal_strlit("</c:view3D>");
    }
    let mut children = String::new();
    assert(children@ =~= Seq::<char>::empty());
    match view_3d.elevation {
        Some(e) => {
            let text = signed_decimal_text(e as i64);
            push_val_element(&mut children, "rotX", text.as_str());
        },
        None => {},
    }
    push_opt_count_element(&mut children, "hPercent", view_3d.height_percent);
    push_opt_count_element(&mut children, "rotY", view_3d.rotation);
    push_opt_count_element(&mut children, "depthPercent", view_3d.depth_percent);
    push_opt_flag_element(&mut children, "rAngAx", view_3d.right_angle_axes);
    push_opt_count_element(&mut children, "perspective", view_3d.perspective);
    assert(children@ =~= view_3d_children(*view_3d));
    if children.unicode_len() == 0 {
        return None;
    }
    let mut xml = String::from_str("<c:view3D>");
    xml.append(children.as_str());
    xml.append("</c:view3D>");
    Some(xml)
}

/// An empty chart element whose `val` attribute is written escaped; none
/// when there is no value.
pub open spec fn opt_val_element(name: Seq<char>, value: Option<Seq<char>>) -> Seq<char> {
    match value {
        Some(v) => val_element(name, escaped(v)),
        None => Seq::empty(),
    }
}

fn push_escaped_val_element(out: &mut String, name: &str, value: &str)
    ensures
        final(out)@ == old(out)@ + val_element(name@, escaped(value@)),
{
    let v = attribute_escape(value);
    push_val_element(out, name, v.as_str());
}

fn push_opt_val_element(out: &mut String, name: &str, value: &Option<String>)
    ensures
        final(out)@ == old(out)@ + opt_val_element(name@, opt_view(*value)),
{
    match value {
        Some(v) => push_escaped_val_element(out, name, v.as_str()),
        None => {
            assert(out@ + Seq::<char>::empty() =~= out@);
        },
    }
}

/// The start tag of a chart element that declares the chart namespace.
pub open spec fn shell_head(name: Seq<char>) -> Seq<char> {
    "<c:"@ + name + " xmlns:c=\"http://schemas.openxmlformats.org/drawingml/2006/chart\">"@
}

/// The end tag of a chart element.
pub open spec fn shell_end(name: Seq<char>) -> Seq<char> {
    "</c:"@ + name + ">"@
}

/// The style elements of a new group: bar direction, grouping, scatter,
/// radar and of-pie styles.
#[verifier::opaque]
pub open spec fn shell_styles(g: ChartGroupModel) -> Seq<char> {
    opt_val_element("barDir"@, opt_view(g.bar_direction)) + opt_val_element("grouping"@, opt_view(g.chart_grouping))
        + opt_val_element("scatterStyle"@, opt_view(g.scatter_style)) + opt_val_element(
        "radarStyle"@,
        opt_view(g.radar_style),
    ) + opt_val_element("ofPieType"@, opt_view(g.of_pie_type))
}

/// The flag elements of a new group: wireframe, varied colours, markers.
#[verifier::opaque]
pub open spec fn shell_flags(g: ChartGroupModel) -> Seq<char> {
    opt_val_element("wireframe"@, opt_flag_text(g.surface_wireframe)) + opt_val_element(
        "varyColors"@,
        opt_flag_text(g.vary_by_categories),
    ) + opt_val_element("marker"@, opt_flag_text(g.line_has_markers))
}

/// The data labels of a new group.
#[verifier::opaque]
pub open spec fn shell_labels(g: ChartGroupModel) -> Seq<char> {
    match g.data_labels {
        Some(d) => data_labels_text(d),
        None => Seq::empty(),
    }
}

/// The direct property elements of a new group, in schema order.
#[verifier::opaque]
pub open spec fn shell_properties(g: ChartGroupModel) -> Seq<char> {
    opt_val_element("gapWidth"@, group_property_value(g, "gapWidth"@)) + opt_val_element(
        "gapDepth"@,
        group_property_value(g, "gapDepth"@),
    ) + opt_val_element("overlap"@, group_property_value(g, "overlap"@)) + opt_val_element(
        "firstSliceAng"@,
        group_property_value(g, "firstSliceAng"@),
    ) + opt_val_element("bubbleScale"@, group_property_value(g, "bubbleScale"@)) + opt_val_element(
        "showNegBubbles"@,
        group_property_value(g, "showNegBubbles"@),
    ) + opt_val_element("bubble3D"@, group_property_value(g, "bubble3D"@)) + opt_val_element(
        "holeSize"@,
        group_property_value(g, "holeSize"@),
    ) + opt_val_element("secondPieSize"@, group_property_value(g, "secondPieSize"@)) + opt_val_element(
        "sizeRepresents"@,
        group_property_value(g, "sizeRepresents"@),
    ) + opt_val_element("splitType"@, group_property_value(g, "splitType"@)) + opt_val_element(
        "splitPos"@,
        group_property_value(g, "splitPos"@),
    )
}

/// An empty chart element written only when the flag is set: `<c:NAME/>`.
pub open spec fn enabled_element(name: Seq<char>, value: Option<bool>) -> Seq<char> {
    if value == Some(true) {
        "<c:"@ + name + "/>"@
    } else {
        Seq::empty()
    }
}

/// The shape and line elements of a new group.
#[verifier::opaque]
pub open spec fn shell_shape_and_lines(g: ChartGroupModel) -> Seq<char> {
    (match g.bar_shape {
        Some(shape) => val_element("shape"@, escaped(bar_shape_name(shape)@)),
        None => Seq::empty(),
    }) + enabled_element("serLines"@, g.has_series_lines) + enabled_element("dropLines"@, g.has_drop_lines)
        + enabled_element("hiLowLines"@, g.has_hi_lo_lines) + enabled_element("upDownBars"@, g.has_up_down_bars)
}

/// The axis-id elements for a list of axis ids.
pub open spec fn axis_id_elements(ids: Seq<String>) -> Seq<char>
    decreases ids.len(),
{
    if ids.len() == 0 {
        Seq::empty()
    } else {
        axis_id_elements(ids.drop_last()) + val_element("axId"@, escaped(ids.last()@))
    }
}

/// The XML of a chart group added to loaded chart XML.
#[verifier::opaque]
pub open spec fn group_shell_text(g: ChartGroupModel) -> Seq<char> {
    shell_head(g.raw_name@) + shell_styles(g) + shell_flags(g) + shell_labels(g) + shell_properties(g)
        + shell_shape_and_lines(g) + axis_id_elements(g.axis_ids@) + shell_end(g.raw_name@)
}

/// The message for a new group of unknown type.
pub open spec fn unknown_group_message() -> Seq<char> {
    "new loaded chart groups require a recognized chart-group type"@
}

/// The message for a new group without axes.
pub open spec fn group_without_axes_message() -> Seq<char> {
    "new loaded chart groups require existing target axis identifiers"@
}

/// The bytes of a new group's XML, or why it cannot be written.
#[verifier::opaque]
pub open spec fn group_shell(g: ChartGroupModel) -> Result<Seq<u8>, (OmErrorCode, Seq<char>)> {
    if type_of_group_name(g.raw_name@) is None {
        Err((OmErrorCode::Unsupported, unknown_group_message()))
    } else if g.axis_ids@.len() == 0 {
        Err((OmErrorCode::Unsupported, group_without_axes_message()))
    } else {
        Ok(vstd::utf8::encode_utf8(group_shell_text(g)))
    }
}

fn push_flag_val(out: &mut String, name: &str, value: Option<bool>)
    ensures
        final(out)@ == old(out)@ + opt_val_element(name@, opt_flag_text(value)),
{
    proof {
        reveal_strlit("1");
        reveal_strlit("0");
    }
    match value {
        Some(b) => push_escaped_val_element(out, name, if b { "1" } else { "0" }),
        None => {
            assert(out@ + Seq::<char>::empty() =~= out@);
        },
    }
}

fn push_property(out: &mut String, group: &ChartGroupModel, name: &str)
    ensures
        final(out)@ == old(out)@ + opt_val_element(name@, group_property_value(*group, name@)),
{
    let n = chars_of(name);
    let value = chart_group_direct_property_value(group, &n);
    push_opt_val_element(out, name, &value);
}

fn push_enabled(out: &mut String, name: &str, value: Option<bool>)
    ensures
        final(out)@ == old(out)@ + enabled_element(name@, value),
{
    proof {
        reveal_strlit("<c:");
        reveal_strlit("/>");
    }
    if value == Some(true) {
        out.append("<c:");
        out.append(name);
        out.append("/>");
    } else {
        assert(out@ + Seq::<char>::empty() =~= out@);
    }
}

fn push_group_styles_and_flags(out: &mut String, group: &ChartGroupModel)
    ensures
        final(out)@ == old(out)@ + shell_styles(*group) + shell_flags(*group),
{
    let ghost start = out@;
    push_opt_val_element(out, "barDir", &group.bar_direction);
    push_opt_val_element(out, "grouping", &group.chart_grouping);
    push_opt_val_element(out, "scatterStyle", &group.scatter_style);
    push_opt_val_element(out, "radarStyle", &group.radar_style);
    push_opt_val_element(out, "ofPieType", &group.of_pie_type);
    push_flag_val(out, "wireframe", group.surface_wireframe);
    push_flag_val(out, "varyColors", group.vary_by_categories);
    push_flag_val(out, "marker", group.line_has_markers);
    assert(out@ =~= start + shell_styles(*group) + shell_flags(*group)) by {
        reveal(shell_styles);
        reveal(shell_flags);
    }
}

#[verifier::spinoff_prover]
#[verifier::rlimit(40)]
fn push_group_properties(out: &mut String, group: &ChartGroupModel)
    ensures
        final(out)@ == old(out)@ + shell_properties(*group),
{
    let ghost start = out@;
    push_property(out, group, "gapWidth");
    push_property(out, group, "gapDepth");
    push_property(out, group, "overlap");
    push_property(out, group, "firstSliceAng");
    push_property(out, group, "bubbleScale");
    push_property(out, group, "showNegBubbles");
    push_property(out, group, "bubble3D");
    push_property(out, group, "holeSize");
    push_property(out, group, "secondPieSize");
    push_property(out, group, "sizeRepresents");
    push_property(out, group, "splitType");
    push_property(out, group, "splitPos");
    assert(out@ =~= start + shell_properties(*group)) by {
        reveal(shell_properties);
    }
}

fn push_group_shape_and_lines(out: &mut String, group: &ChartGroupModel)
    ensures
        final(out)@ == old(out)@ + shell_shape_and_lines(*group),
{
    let ghost start = out@;
    match group.bar_shape {
        Some(shape) => push_escaped_val_element(out, "shape", chart_bar_shape_xml_value(shape)),
        None => {
            assert(out@ + Seq::<char>::empty() =~= out@);
        },
    }
    push_enabled(out, "serLines", group.has_series_lines);
    push_enabled(out, "dropLines", group.has_drop_lines);
    push_enabled(out, "hiLowLines", group.has_hi_lo_lines);
    push_enabled(out, "upDownBars", group.has_up_down_bars);
    assert(out@ =~= start + shell_shape_and_lines(*group)) by {
        reveal(shell_shape_and_lines);
    }
}

fn push_axis_ids(out: &mut String, ids: &Vec<String>)
    ensures
        final(out)@ == old(out)@ + axis_id_elements(ids@),
{
    proof {
        reveal_strlit("axId");
    }
    let ghost start = out@;
    let mut k: usize = 0;
    assert(ids@.subrange(0, 0) =~= Seq::<String>::empty());
    assert(out@ =~= start + axis_id_elements(ids@.subrange(0, 0)));
    while k < ids.len()
        invariant
            k <= ids@.len(),
            out@ == start + axis_id_elements(ids@.subrange(0, k as int)),
        decreases ids@.len() - k,
    {
        push_escaped_val_element(out, "axId", ids[k].as_str());
        assert(ids@.subrange(0, k + 1).drop_last() =~= ids@.subrange(0, k as int));
        assert(out@ =~= start + axis_id_elements(ids@.subrange(0, k + 1)));
        k += 1;
    }
    assert(ids@.subrange(0, ids@.len() as int) =~= ids@);
}

/// The view of a byte result with its error.
pub open spec fn shell_result_view(r: Result<Vec<u8>, OmError>) -> Result<Seq<u8>, (OmErrorCode, Seq<char>)> {
    match r {
        Ok(v) => Ok(v@),
        Err(e) => Err((e.code, e.message@)),
    }
}

#[verifier::spinoff_prover]
fn group_shell_string(group: &ChartGroupModel) -> (r: String)
    ensures
        r@ == group_shell_text(*group),
{
    proof {
        reveal_strlit("<c:");
        reveal_strlit(" xmlns:c=\"http://schemas.openxmlformats.org/drawingml/2006/chart\">");
        reveal_strlit("</c:");
        reveal_strlit(">");
    }
    let mut xml = String::from_str("<c:");
    xml.append(group.raw_name.as_str());
    xml.append(" xmlns:c=\"http://schemas.openxmlformats.org/drawingml/2006/chart\">");
    let ghost s0 = xml@;
    assert(s0 =~= shell_head(group.raw_name@));
    push_group_styles_and_flags(&mut xml, group);
    let ghost s1 = xml@;
    if let Some(labels) = &group.data_labels {
        let text = chart_data_labels_xml_string(labels);
        xml.append(text.as_str());
    } else {
        assert(xml@ + Seq::<char>::empty() =~= xml@);
    }
    let ghost s2 = xml@;
    assert(s2 == s1 + shell_labels(*group)) by {
        reveal(shell_labels);
    }
    push_group_properties(&mut xml, group);
    push_group_shape_and_lines(&mut xml, group);
    push_axis_ids(&mut xml, &group.axis_ids);
    let ghost s5 = xml@;
    xml.append("</c:");
    xml.append(group.raw_name.as_str());
    xml.append(">");
    assert(xml@ =~= s5 + shell_end(group.raw_name@));
    assert(xml@ =~= shell_head(group.raw_name@) + shell_styles(*group) + shell_flags(*group) + shell_labels(*group)
        + shell_properties(*group) + shell_shape_and_lines(*group) + axis_id_elements(group.axis_ids@)
        + shell_end(group.raw_name@));
    proof {
        lemma_group_shell_text(*group);
    }
    xml
}

proof fn lemma_group_shell_text(g: ChartGroupModel)
    ensures
        group_shell_text(g) == shell_head(g.raw_name@) + shell_styles(g) + shell_flags(g) + shell_labels(g)
            + shell_properties(g) + shell_shape_and_lines(g) + axis_id_elements(g.axis_ids@) + shell_end(
            g.raw_name@,
        ),
{
    reveal(group_shell_text);
}

/// The XML of a chart group to add to loaded chart XML; the group must be
/// of a known type and plot on existing axes.
pub fn serialize_loaded_chart_group_shell(group: &ChartGroupModel) -> (r: Result<Vec<u8>, OmError>)
    ensures
        shell_result_view(r) == group_shell(*group),
{
    proof {
        reveal(group_shell);
    }
    let name = chars_of(group.raw_name.as_str());
    if chart_type_from_group_name(&name).is_none() {
        return Err(OmError {
            code: OmErrorCode::Unsupported,
            message: String::from_str("new loaded chart groups require a recognized chart-group type"),
        });
    }
    if group.axis_ids.len() == 0 {
        return Err(OmError {
            code: OmErrorCode::Unsupported,
            message: String::from_str("new loaded chart groups require existing target axis identifiers"),
        });
    }
    let xml = group_shell_string(group);
    Ok(xml.as_str().as_bytes_vec())
}

/// The XML of an axis added to loaded chart XML: its id, whether it is
/// deleted, and the axis it crosses.
pub open spec fn axis_shell_text(chart: ChartModel, axis: AxisModel, id: Seq<char>) -> Seq<char> {
    shell_head(axis_kind_name(axis.kind)@) + val_element("axId"@, escaped(id)) + opt_val_element(
        "delete"@,
        opt_flag_text(axis.deleted),
    ) + opt_val_element("crossAx"@, cross_target_id(chart.axes@, axis)) + shell_end(axis_kind_name(axis.kind)@)
}

/// The message for a new axis without an id.
pub open spec fn axis_without_id_message() -> Seq<char> {
    "new loaded chart axes require a stable axis identity"@
}

/// The bytes of a new axis's XML, or why it cannot be written.
pub open spec fn axis_shell(chart: ChartModel, axis: AxisModel) -> Result<Seq<u8>, (OmErrorCode, Seq<char>)> {
    match axis.raw_id {
        None => Err((OmErrorCode::InvalidState, axis_without_id_message())),
        Some(id) => Ok(vstd::utf8::encode_utf8(axis_shell_text(chart, axis, id@))),
    }
}

/// The XML of an axis to add to loaded chart XML; the axis needs an id.
pub fn serialize_loaded_chart_axis_shell(chart: &ChartModel, axis: &AxisModel) -> (r: Result<Vec<u8>, OmError>)
    ensures
        shell_result_view(r) == axis_shell(*chart, *axis),
{
    let axis_id = match &axis.raw_id {
        Some(id) => id,
        None => {
            return Err(OmError {
                code: OmErrorCode::InvalidState,
                message: String::from_str("new loaded chart axes require a stable axis identity"),
            });
        },
    };
    proof {
        reveal_strlit("<c:");
        reveal_strlit(" xmlns:c=\"http://schemas.openxmlformats.org/drawingml/2006/chart\">");
        reveal_strlit("</c:");
        reveal_strlit(">");
        reveal_strlit("axId");
        reveal_strlit("delete");
        reveal_strlit("crossAx");
    }
    let name = chart_axis_xml_name(axis.kind);
    let mut xml = String::from_str("<c:");
    xml.append(name);
    xml.append(" xmlns:c=\"http://schemas.openxmlformats.org/drawingml/2006/chart\">");
    push_escaped_val_element(&mut xml, "axId", axis_id.as_str());
    push_flag_val(&mut xml, "delete", axis.deleted);
    let cross = chart_axis_cross_target_id(&chart.axes, axis);
    push_opt_val_element(&mut xml, "crossAx", &cross);
    xml.append("</c:");
    xml.append(name);
    xml.append(">");
    assert(xml@ =~= axis_shell_text(*chart, *axis, axis_id@));
    Ok(xml.as_str().as_bytes_vec())
}

/// Writes the data-table element to an XML byte buffer.
pub fn write_chart_data_table_element(out: &mut Vec<u8>, data_table: &ChartDataTableModel)
    ensures
        final(out)@ == old(out)@ + vstd::utf8::encode_utf8(data_table_text(*data_table)),
{
    let text = chart_data_table_xml_string(data_table);
    append_bytes(out, text.as_str().as_bytes());
}

/// Writes the protection element, when anything is protected, to an XML
/// byte buffer; tells whether it wrote one.
pub fn write_chart_protection_element(out: &mut Vec<u8>, protection: ChartProtectionModel) -> (r: bool)
    ensures
        final(out)@ == old(out)@ + vstd::utf8::encode_utf8(protection_text(protection)),
        r == (protection_text(protection).len() > 0),
{
    let text = chart_protection_xml(protection);
    append_bytes(out, text.as_str().as_bytes());
    let any = protection.contents || protection.data || protection.formatting || protection.selection
        || protection.user_interface_only;
    proof {
        reveal_strlit("<c:");
        let p = protection;
        assert(protection_children(p).len() >= protected_element("chartObject"@, p.contents).len());
        assert(protection_children(p).len() >= protected_element("userInterface"@, p.user_interface_only).len());
        assert(protection_children(p).len() == 0 <==> !any);
    }
    any
}

/// Writes the 3-D view element, when any setting is present, to an XML
/// byte buffer; tells whether it wrote one.
pub fn write_chart_view_3d_element(out: &mut Vec<u8>, view_3d: &ChartView3DModel) -> (r: bool)
    ensures
        match view_3d_text(*view_3d) {
            Some(t) => r && final(out)@ == old(out)@ + vstd::utf8::encode_utf8(t),
            None => !r && final(out)@ == old(out)@,
        },
{
    match chart_view_3d_xml_string(view_3d) {
        Some(text) => {
            append_bytes(out, text.as_str().as_bytes());
            true
        },
        None => false,
    }
}

} // verus!
