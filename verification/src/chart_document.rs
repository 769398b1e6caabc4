//! A whole chart part written from a chart model: the chart groups with
//! their series, the axes and the references between them, and the chart
//! space around the plot area.
use vstd::prelude::*;
use crate::chart_model::{
    flag_text, validate_volume_stock_chart, volume_stock_failure, AxisModel, ChartLegendModel,
    ChartManualLayoutModel, ChartModel,
};
use crate::chart_serialize::{
    chart_axis_element_xml_string, chart_series_xml_for_axis_group, axis_element_text, push_enabled,
    push_flag, push_opt_count, push_opt_flag, push_opt_text_val, push_title, push_val, opt_text_val,
    series_xml_for_axis_group, title_element,
};
use crate::chart_types::{
    bar_direction_name, bar_shape_name, bar_shape_of_type, chart_bar_shape_from_chart_type, chart_bar_shape_xml_value,
    chart_display_blanks_as_xml_value, chart_group_xml_name, chart_layout_mode_xml_value,
    chart_layout_target_xml_value, chart_legend_position_xml_value, chart_size_represents_xml_value,
    chart_split_type_xml_value, chart_type_bar_direction_xml_value, chart_type_grouping_xml_value,
    chart_type_has_axes, chart_type_is_volume_stock, chart_type_line_marker_xml_value, chart_type_of_pie_xml_value,
    chart_type_radar_style_xml_value, chart_type_scatter_style_xml_value, chart_type_supports_bar_shape,
    chart_type_supports_gap_depth, chart_type_surface_wireframe_xml_value, display_blanks_name, group_xml_name,
    grouping_name, has_axes, is_volume_stock, layout_mode_name, layout_target_name, legend_position_name,
    line_marker_name, of_pie_name, radar_style_name, scatter_style_name, size_represents_name, split_type_name,
    supports_bar_shape, supports_gap_depth, wireframe_name, ChartAxisGroup, ChartAxisKind, ChartBarShape,
    ChartLegendPosition, ChartType,
};
use crate::chart_xml::{
    chart_data_labels_xml_string, chart_data_table_xml_string, chart_protection_xml, chart_view_3d_xml_string,
    data_labels_text, data_table_text, enabled_element, opt_count_element, opt_flag_element, partially_escaped, partial_escape_char,
    protection_text, shell_result_view, text_escape, val_element, view_3d_text,
};
use crate::chart_model::is_category_like;
use crate::chart_axis_topology::{axis_topology, rewrite_loaded_chart_axis_additions};
use crate::chart_patch::{lossy_text, utf8_lossy};
use crate::chart_topology::bytes_error_result;
use crate::errors::{OmError, OmErrorCode};
use crate::package_xml::xml_error;
use crate::xml::{xml_read_result, XmlEventKind, XmlReader};
use crate::package_xml::ErrorView;
use crate::text::{decimal, decimal_text, signed_decimal, signed_decimal_text};

verus! {

/// An element with a fixed value, when there is one.
pub open spec fn opt_name_element(name: Seq<char>, value: Option<&'static str>) -> Seq<char> {
    match value {
        Some(v) => val_element(name, v@),
        None => Seq::empty(),
    }
}

/// An element with a signed count, when there is one.
pub open spec fn opt_signed_element(name: Seq<char>, value: Option<i32>) -> Seq<char> {
    match value {
        Some(v) => val_element(name, signed_decimal(v as int)),
        None => Seq::empty(),
    }
}

/// The bar shape a chart writes: its own, else the one its type implies,
/// on bar types that have shapes.
pub open spec fn effective_bar_shape(chart: ChartModel) -> Option<ChartBarShape> {
    if supports_bar_shape(chart.chart_type) {
        match chart.bar_shape {
            Some(s) => Some(s),
            None => bar_shape_of_type(chart.chart_type),
        }
    } else {
        None
    }
}

/// Whether the type is one of the stock chart types.
pub open spec fn is_stock(t: ChartType) -> bool {
    t == ChartType::StockHLC || t == ChartType::StockOHLC || t == ChartType::StockVHLC || t == ChartType::StockVOHLC
}

/// High-low lines: as set, else on for stock charts.
pub open spec fn hi_lo_lines(chart: ChartModel) -> Option<bool> {
    match chart.has_hi_lo_lines {
        Some(b) => Some(b),
        None => if is_stock(chart.chart_type) { Some(true) } else { None },
    }
}

/// Up-down bars: as set, else on for open-high-low-close stock charts.
pub open spec fn up_down_bars(chart: ChartModel) -> Option<bool> {
    match chart.has_up_down_bars {
        Some(b) => Some(b),
        None => if chart.chart_type == ChartType::StockOHLC || chart.chart_type == ChartType::StockVOHLC {
            Some(true)
        } else {
            None
        },
    }
}

/// 3-D bubbles: as set, else on for the 3-D bubble type.
pub open spec fn bubble_3d(chart: ChartModel) -> Option<bool> {
    match chart.has_3d_shading {
        Some(b) => Some(b),
        None => if chart.chart_type == ChartType::Bubble3DEffect { Some(true) } else { None },
    }
}

/// The shape element of a chart group, when its type has shapes.
pub open spec fn group_shape_text(chart: ChartModel) -> Seq<char> {
    match effective_bar_shape(chart) {
        Some(s) => val_element("shape"@, bar_shape_name(s)@),
        None => Seq::empty(),
    }
}

/// The style elements that a chart type implies.
pub open spec fn type_styles_text(t: ChartType) -> Seq<char> {
    opt_name_element("marker"@, line_marker_name(t)) + opt_name_element("scatterStyle"@, scatter_style_name(t))
        + opt_name_element("radarStyle"@, radar_style_name(t)) + opt_name_element("ofPieType"@, of_pie_name(t))
        + opt_name_element("wireframe"@, wireframe_name(t))
}

/// The elements of a chart group before its series.
pub open spec fn group_head_text(chart: ChartModel) -> Seq<char> {
    let t = chart.chart_type;
    opt_name_element("barDir"@, bar_direction_name(t)) + opt_name_element("grouping"@, grouping_name(t))
        + group_shape_text(chart) + type_styles_text(t) + opt_flag_element("varyColors"@, chart.vary_by_categories)
}

/// The sizing elements of a chart group after its series.
pub open spec fn group_sizes_text(chart: ChartModel) -> Seq<char> {
    opt_count_element("gapWidth"@, chart.gap_width) + (if supports_gap_depth(chart.chart_type) {
        opt_count_element("gapDepth"@, chart.gap_depth)
    } else {
        Seq::empty()
    }) + opt_signed_element("overlap"@, chart.overlap) + opt_count_element("firstSliceAng"@, chart.first_slice_angle)
        + opt_count_element("bubbleScale"@, chart.bubble_scale) + opt_flag_element(
        "showNegBubbles"@,
        chart.show_negative_bubbles,
    ) + opt_flag_element("bubble3D"@, bubble_3d(chart)) + opt_count_element("holeSize"@, chart.doughnut_hole_size)
        + opt_count_element("secondPieSize"@, chart.second_plot_size)
}

/// The split elements of a chart group and its data labels.
pub open spec fn group_split_text(chart: ChartModel) -> Seq<char> {
    (match chart.size_represents {
        Some(v) => val_element("sizeRepresents"@, size_represents_name(v)@),
        None => Seq::empty(),
    }) + (match chart.split_type {
        Some(v) => val_element("splitType"@, split_type_name(v)@),
        None => Seq::empty(),
    }) + opt_text_val("splitPos"@, chart.split_value_text) + match chart.data_labels {
        Some(d) => data_labels_text(d),
        None => Seq::empty(),
    }
}

/// The line and bar elements of a chart group.
pub open spec fn group_lines_text(chart: ChartModel) -> Seq<char> {
    enabled_element("serLines"@, chart.has_series_lines) + enabled_element("dropLines"@, chart.has_drop_lines)
        + enabled_element("hiLowLines"@, hi_lo_lines(chart)) + enabled_element("upDownBars"@, up_down_bars(chart))
}

/// The extension list that holds filtered series, when there are any.
pub open spec fn ext_list(filtered: Seq<char>) -> Seq<char> {
    if filtered.len() == 0 {
        Seq::empty()
    } else {
        "<c:extLst>"@ + filtered + "</c:extLst>"@
    }
}

/// A chart group named `name` with the given series, filtered series and
/// axis references.
pub open spec fn chart_group_text(
    chart: ChartModel,
    name: Seq<char>,
    series: Seq<char>,
    filtered: Seq<char>,
    refs: Seq<char>,
) -> Seq<char> {
    "<c:"@ + name + ">"@ + group_head_text(chart) + series + group_sizes_text(chart) + group_split_text(chart)
        + group_lines_text(chart) + refs + ext_list(filtered) + "</c:"@ + name + ">"@
}

/// The bar and stock groups of a volume-stock chart.
pub open spec fn volume_stock_groups_text(
    chart: ChartModel,
    primary: (Seq<char>, Seq<char>),
    secondary: (Seq<char>, Seq<char>),
    primary_refs: Seq<char>,
    secondary_refs: Seq<char>,
) -> Seq<char> {
    "<c:barChart><c:barDir val=\"col\"/><c:grouping val=\"clustered\"/>"@ + opt_flag_element(
        "varyColors"@,
        chart.vary_by_categories,
    ) + primary.0 + opt_count_element("gapWidth"@, chart.gap_width) + opt_signed_element("overlap"@, chart.overlap)
        + primary_refs + ext_list(primary.1) + "</c:barChart><c:stockChart>"@ + secondary.0 + (match chart.data_labels {
        Some(d) => data_labels_text(d),
        None => Seq::empty(),
    }) + enabled_element("dropLines"@, chart.has_drop_lines) + enabled_element("hiLowLines"@, hi_lo_lines(chart))
        + enabled_element("upDownBars"@, up_down_bars(chart)) + secondary_refs + ext_list(secondary.1)
        + "</c:stockChart>"@
}

/// The id of axis `k`: its own, else ten times its position counted from one.
pub open spec fn axis_id(axes: Seq<AxisModel>, k: int) -> Seq<char> {
    match axes[k].raw_id {
        Some(id) => id@,
        None => decimal(((k + 1) * 10) as nat),
    }
}

/// The reference to axis `k`.
pub open spec fn axis_ref(axes: Seq<AxisModel>, k: int) -> Seq<char> {
    val_element("axId"@, partially_escaped(axis_id(axes, k)))
}

/// Whether the chart has a secondary axis of the kind: category-like, or a
/// series axis.
pub open spec fn has_secondary_axis(axes: Seq<AxisModel>, category: bool) -> bool {
    exists|i: int|
        0 <= i < axes.len() && (#[trigger] axes[i]).axis_group == ChartAxisGroup::Secondary && if category {
            is_category_like(axes[i].kind)
        } else {
            axes[i].kind == ChartAxisKind::Series
        }
}

/// Whether the secondary group refers to axis `k`: a secondary axis, or,
/// when there are secondary series, a primary category-like or series axis
/// that has no secondary counterpart.
pub open spec fn secondary_refers(axes: Seq<AxisModel>, k: int, secondary_series: bool) -> bool {
    let a = axes[k];
    a.axis_group == ChartAxisGroup::Secondary || (secondary_series && ((is_category_like(a.kind)
        && !has_secondary_axis(axes, true)) || (a.kind == ChartAxisKind::Series && !has_secondary_axis(axes, false))))
}

/// Which references a list holds: all, those of the primary axes, or those
/// the secondary group refers to.
pub enum RefSelection {
    All,
    Primary,
    Secondary,
}

/// Whether a list of references of the selection holds axis `k`.
pub open spec fn selected(axes: Seq<AxisModel>, k: int, which: RefSelection, secondary_series: bool) -> bool {
    match which {
        RefSelection::All => true,
        RefSelection::Primary => axes[k].axis_group == ChartAxisGroup::Primary,
        RefSelection::Secondary => secondary_refers(axes, k, secondary_series),
    }
}

/// The selected references among the first `n` axes, in axis order.
pub open spec fn refs_upto(axes: Seq<AxisModel>, n: int, which: RefSelection, secondary_series: bool) -> Seq<char>
    decreases n,
{
    if n <= 0 {
        Seq::empty()
    } else {
        refs_upto(axes, n - 1, which, secondary_series) + if selected(axes, n - 1, which, secondary_series) {
            axis_ref(axes, n - 1)
        } else {
            Seq::empty()
        }
    }
}

/// The elements of the first `n` axes.
pub open spec fn axes_upto(axes: Seq<AxisModel>, n: int) -> Seq<char>
    decreases n,
{
    if n <= 0 {
        Seq::empty()
    } else {
        axes_upto(axes, n - 1) + axis_element_text(axes, axes[n - 1], axis_id(axes, n - 1))
    }
}

/// The references of a selection on a chart with axes; a list that would
/// be empty falls back to all references.
pub open spec fn refs_of(chart: ChartModel, which: RefSelection, secondary_series: bool) -> Seq<char> {
    let axes = chart.axes@;
    let all = if has_axes(chart.chart_type) { refs_upto(axes, axes.len() as int, RefSelection::All, false) } else {
        Seq::empty()
    };
    let own = if has_axes(chart.chart_type) { refs_upto(axes, axes.len() as int, which, secondary_series) } else {
        Seq::empty()
    };
    if own.len() == 0 { all } else { own }
}

/// The chart groups of the plot area, from the series of the two axis
/// groups.
#[verifier::opaque]
pub open spec fn chart_groups_text(
    chart: ChartModel,
    name: Seq<char>,
    primary: (Seq<char>, Seq<char>),
    secondary: (Seq<char>, Seq<char>),
) -> Seq<char> {
    let secondary_series = is_volume_stock(chart.chart_type) || secondary.0.len() > 0 || secondary.1.len() > 0;
    let primary_refs = refs_of(chart, RefSelection::Primary, secondary_series);
    let secondary_refs = refs_of(chart, RefSelection::Secondary, secondary_series);
    if is_volume_stock(chart.chart_type) {
        volume_stock_groups_text(chart, primary, secondary, primary_refs, secondary_refs)
    } else if secondary_series {
        (if primary.0.len() > 0 || primary.1.len() > 0 {
            chart_group_text(chart, name, primary.0, primary.1, primary_refs)
        } else {
            Seq::empty()
        }) + chart_group_text(chart, name, secondary.0, secondary.1, secondary_refs)
    } else {
        chart_group_text(chart, name, primary.0, primary.1, refs_of(chart, RefSelection::All, false))
    }
}

/// A manual layout of the plot area.
pub open spec fn layout_text(l: ChartManualLayoutModel) -> Seq<char> {
    "<c:layout><c:manualLayout>"@ + val_element("layoutTarget"@, layout_target_name(l.target)@) + val_element(
        "xMode"@,
        layout_mode_name(l.x_mode)@,
    ) + val_element("yMode"@, layout_mode_name(l.y_mode)@) + val_element("wMode"@, layout_mode_name(l.width_mode)@)
        + val_element("hMode"@, layout_mode_name(l.height_mode)@) + opt_text_val("x"@, l.x_text) + opt_text_val(
        "y"@,
        l.y_text,
    ) + opt_text_val("w"@, l.width_text) + opt_text_val("h"@, l.height_text) + "</c:manualLayout></c:layout>"@
}

/// The legend of a chart, when it is shown.
pub open spec fn legend_text(legend: Option<ChartLegendModel>) -> Seq<char> {
    match legend {
        Some(l) => if l.visible {
            "<c:legend>"@ + val_element(
                "legendPos"@,
                legend_position_name(
                    match l.position {
                        Some(p) => p,
                        None => ChartLegendPosition::Right,
                    },
                )@,
            ) + (match l.include_in_layout {
                Some(b) => val_element("overlay"@, flag_text(!b)),
                None => Seq::empty(),
            }) + "</c:legend>"@
        } else {
            Seq::empty()
        },
        None => Seq::empty(),
    }
}

/// The settings before the chart element: rounded corners, style and protection.
pub open spec fn space_head_text(chart: ChartModel) -> Seq<char> {
    opt_flag_element("roundedCorners"@, chart.rounded_corners) + opt_count_element("style"@, chart.style) + match chart.protection {
        Some(p) => protection_text(p),
        None => Seq::empty(),
    }
}

/// The title and 3-D view of a chart.
pub open spec fn chart_head_text(chart: ChartModel) -> Seq<char> {
    title_element(chart.title_text) + match chart.view_3d {
        Some(v) => match view_3d_text(v) {
            Some(t) => t,
            None => Seq::empty(),
        },
        None => Seq::empty(),
    }
}

/// The settings after the plot area: legend and how cells are plotted.
pub open spec fn chart_tail_text(chart: ChartModel) -> Seq<char> {
    legend_text(chart.legend) + opt_flag_element("plotVisOnly"@, chart.plot_visible_only) + (match chart.display_blanks_as {
        Some(v) => val_element("dispBlanksAs"@, display_blanks_name(v)@),
        None => Seq::empty(),
    }) + opt_flag_element("showDLblsOverMax"@, chart.show_data_labels_over_maximum)
}

/// The plot area: layout, chart groups, axes and data table.
pub open spec fn plot_area_text(chart: ChartModel, groups: Seq<char>) -> Seq<char> {
    "<c:plotArea>"@ + (match chart.plot_area_layout {
        Some(l) => layout_text(l),
        None => Seq::empty(),
    }) + groups + (if has_axes(chart.chart_type) {
        axes_upto(chart.axes@, chart.axes@.len() as int)
    } else {
        Seq::empty()
    }) + (match chart.data_table {
        Some(d) => data_table_text(d),
        None => Seq::empty(),
    }) + "</c:plotArea>"@
}

/// The start of a chart part, up to the content of the chart space.
pub open spec fn document_head() -> Seq<char> {
    "<?xml version=\"1.0\" encoding=\"UTF-8\"?>\n<c:chartSpace xmlns:c=\"http://schemas.openxmlformats.org/drawingml/2006/chart\" xmlns:a=\"http://schemas.openxmlformats.org/drawingml/2006/main\">\n  "@
}

/// The text of a chart part.
pub open spec fn document_text(
    chart: ChartModel,
    name: Seq<char>,
    primary: (Seq<char>, Seq<char>),
    secondary: (Seq<char>, Seq<char>),
) -> Seq<char> {
    document_head() + space_head_text(chart) + "<c:chart>"@ + chart_head_text(chart) + plot_area_text(
        chart,
        chart_groups_text(chart, name, primary, secondary),
    ) + chart_tail_text(chart) + "</c:chart>\n</c:chartSpace>"@
}

/// The message for a chart whose type has no chart-group element.
pub open spec fn unsupported_chart_message() -> Seq<char> {
    "saving dirty charts requires a supported chart type"@
}

/// The bytes of a new chart part for the chart, or why it cannot be
/// written: an invalid volume-stock chart, a filtered series that its
/// type cannot hold, or a type without a chart-group element.
pub open spec fn chart_serialization(chart: ChartModel) -> Result<Seq<u8>, ErrorView> {
    match volume_stock_failure(chart) {
        Some(m) => Err((OmErrorCode::InvalidState, m)),
        None => match series_xml_for_axis_group(chart, ChartAxisGroup::Primary) {
            Err(e) => Err(e),
            Ok(primary) => match series_xml_for_axis_group(chart, ChartAxisGroup::Secondary) {
                Err(e) => Err(e),
                Ok(secondary) => match group_xml_name(chart.chart_type) {
                    None => Err((OmErrorCode::Unsupported, unsupported_chart_message())),
                    Some(name) => Ok(vstd::utf8::encode_utf8(document_text(chart, name@, primary, secondary))),
                },
            },
        },
    }
}


fn push_opt_name(out: &mut String, name: &str, value: Option<&'static str>)
    ensures
        final(out)@ == old(out)@ + opt_name_element(name@, value),
{
    match value {
        Some(v) => push_val(out, name, v),
        None => {
            assert(out@ =~= out@ + Seq::<char>::empty());
        },
    }
}

fn push_opt_signed(out: &mut String, name: &str, value: Option<i32>)
    ensures
        final(out)@ == old(out)@ + opt_signed_element(name@, value),
{
    match value {
        Some(v) => {
            let text = signed_decimal_text(v as i64);
            push_val(out, name, text.as_str());
        },
        None => {
            assert(out@ =~= out@ + Seq::<char>::empty());
        },
    }
}

fn chart_effective_bar_shape(chart: &ChartModel) -> (r: Option<ChartBarShape>)
    ensures
        r == effective_bar_shape(*chart),
{
    if chart_type_supports_bar_shape(&chart.chart_type) {
        match chart.bar_shape {
            Some(s) => Some(s),
            None => chart_bar_shape_from_chart_type(&chart.chart_type),
        }
    } else {
        None
    }
}

fn chart_is_stock(t: &ChartType) -> (r: bool)
    ensures
        r == is_stock(*t),
{
    match t {
        ChartType::StockHLC | ChartType::StockOHLC | ChartType::StockVHLC | ChartType::StockVOHLC => true,
        _ => false,
    }
}

fn chart_hi_lo_lines(chart: &ChartModel) -> (r: Option<bool>)
    ensures
        r == hi_lo_lines(*chart),
{
    match chart.has_hi_lo_lines {
        Some(b) => Some(b),
        None => if chart_is_stock(&chart.chart_type) { Some(true) } else { None },
    }
}

fn chart_up_down_bars(chart: &ChartModel) -> (r: Option<bool>)
    ensures
        r == up_down_bars(*chart),
{
    match chart.has_up_down_bars {
        Some(b) => Some(b),
        None => match chart.chart_type {
            ChartType::StockOHLC | ChartType::StockVOHLC => Some(true),
            _ => None,
        },
    }
}

fn chart_bubble_3d(chart: &ChartModel) -> (r: Option<bool>)
    ensures
        r == bubble_3d(*chart),
{
    match chart.has_3d_shading {
        Some(b) => Some(b),
        None => match chart.chart_type {
            ChartType::Bubble3DEffect => Some(true),
            _ => None,
        },
    }
}

fn push_type_styles(out: &mut String, t: &ChartType)
    ensures
        final(out)@ == old(out)@ + type_styles_text(*t),
{
    let ghost start = out@;
    push_opt_name(out, "marker", chart_type_line_marker_xml_value(t));
    push_opt_name(out, "scatterStyle", chart_type_scatter_style_xml_value(t));
    push_opt_name(out, "radarStyle", chart_type_radar_style_xml_value(t));
    push_opt_name(out, "ofPieType", chart_type_of_pie_xml_value(t));
    push_opt_name(out, "wireframe", chart_type_surface_wireframe_xml_value(t));
    assert(out@ =~= start + type_styles_text(*t));
}

fn push_group_shape(out: &mut String, chart: &ChartModel)
    ensures
        final(out)@ == old(out)@ + group_shape_text(*chart),
{
    match chart_effective_bar_shape(chart) {
        Some(shape) => push_val(out, "shape", chart_bar_shape_xml_value(shape)),
        None => {
            assert(out@ =~= out@ + Seq::<char>::empty());
        },
    }
}

fn push_group_head(out: &mut String, chart: &ChartModel)
    ensures
        final(out)@ == old(out)@ + group_head_text(*chart),
{
    let ghost start = out@;
    let t = &chart.chart_type;
    push_opt_name(out, "barDir", chart_type_bar_direction_xml_value(t));
    push_opt_name(out, "grouping", chart_type_grouping_xml_value(t));
    push_group_shape(out, chart);
    push_type_styles(out, t);
    push_opt_flag(out, "varyColors", chart.vary_by_categories);
    assert(out@ =~= start + group_head_text(*chart));
}

#[verifier::spinoff_prover]
fn push_group_sizes(out: &mut String, chart: &ChartModel)
    ensures
        final(out)@ == old(out)@ + group_sizes_text(*chart),
{
    let ghost start = out@;
    push_opt_count(out, "gapWidth", chart.gap_width);
    let ghost s1 = out@;
    if chart_type_supports_gap_depth(&chart.chart_type) {
        push_opt_count(out, "gapDepth", chart.gap_depth);
    } else {
        assert(s1 + Seq::<char>::empty() =~= s1);
    }
    push_opt_signed(out, "overlap", chart.overlap);
    push_opt_count(out, "firstSliceAng", chart.first_slice_angle);
    push_opt_count(out, "bubbleScale", chart.bubble_scale);
    push_opt_flag(out, "showNegBubbles", chart.show_negative_bubbles);
    push_opt_flag(out, "bubble3D", chart_bubble_3d(chart));
    push_opt_count(out, "holeSize", chart.doughnut_hole_size);
    push_opt_count(out, "secondPieSize", chart.second_plot_size);
    assert(out@ =~= start + group_sizes_text(*chart));
}

fn push_data_labels(out: &mut String, chart: &ChartModel)
    ensures
        final(out)@ == old(out)@ + match chart.data_labels {
            Some(d) => data_labels_text(d),
            None => Seq::<char>::empty(),
        },
{
    match &chart.data_labels {
        Some(d) => {
            let text = chart_data_labels_xml_string(d);
            out.append(text.as_str());
        },
        None => {
            assert(out@ =~= out@ + Seq::<char>::empty());
        },
    }
}

fn push_group_split(out: &mut String, chart: &ChartModel)
    ensures
        final(out)@ == old(out)@ + group_split_text(*chart),
{
    let ghost start = out@;
    match chart.size_represents {
        Some(v) => push_val(out, "sizeRepresents", chart_size_represents_xml_value(v)),
        None => {
            assert(out@ =~= out@ + Seq::<char>::empty());
        },
    }
    let ghost s1 = out@;
    match chart.split_type {
        Some(v) => push_val(out, "splitType", chart_split_type_xml_value(v)),
        None => {
            assert(out@ =~= out@ + Seq::<char>::empty());
        },
    }
    let ghost s2 = out@;
    push_opt_text_val(out, "splitPos", &chart.split_value_text);
    push_data_labels(out, chart);
    assert(out@ =~= start + group_split_text(*chart));
}

fn push_group_lines(out: &mut String, chart: &ChartModel)
    ensures
        final(out)@ == old(out)@ + group_lines_text(*chart),
{
    let ghost start = out@;
    push_enabled(out, "serLines", chart.has_series_lines);
    push_enabled(out, "dropLines", chart.has_drop_lines);
    push_enabled(out, "hiLowLines", chart_hi_lo_lines(chart));
    push_enabled(out, "upDownBars", chart_up_down_bars(chart));
    assert(out@ =~= start + group_lines_text(*chart));
}

fn push_ext_list(out: &mut String, filtered: &str)
    ensures
        final(out)@ == old(out)@ + ext_list(filtered@),
{
    proof {
        reveal_strlit("<c:extLst>");
        reveal_strlit("</c:extLst>");
    }
    if filtered.unicode_len() == 0 {
        assert(out@ =~= out@ + Seq::<char>::empty());
    } else {
        out.append("<c:extLst>");
        out.append(filtered);
        out.append("</c:extLst>");
    }
}

fn chart_group_string(chart: &ChartModel, name: &str, series: &str, filtered: &str, refs: &str) -> (r: String)
    ensures
        r@ == chart_group_text(*chart, name@, series@, filtered@, refs@),
{
    proof {
        reveal_strlit("<c:");
        reveal_strlit(">");
        reveal_strlit("</c:");
    }
    let mut out = String::from_str("<c:");
    out.append(name);
    out.append(">");
    push_group_head(&mut out, chart);
    out.append(series);
    push_group_sizes(&mut out, chart);
    push_group_split(&mut out, chart);
    push_group_lines(&mut out, chart);
    out.append(refs);
    push_ext_list(&mut out, filtered);
    out.append("</c:");
    out.append(name);
    out.append(">");
    assert(out@ =~= chart_group_text(*chart, name@, series@, filtered@, refs@));
    out
}

fn volume_stock_groups_string(
    chart: &ChartModel,
    primary: &(String, String),
    secondary: &(String, String),
    primary_refs: &str,
    secondary_refs: &str,
) -> (r: String)
    ensures
        r@ == volume_stock_groups_text(*chart, (primary.0@, primary.1@), (secondary.0@, secondary.1@), primary_refs@, secondary_refs@),
{
    proof {
        reveal_strlit("<c:barChart><c:barDir val=\"col\"/><c:grouping val=\"clustered\"/>");
        reveal_strlit("</c:barChart><c:stockChart>");
        reveal_strlit("</c:stockChart>");
    }
    let mut out = String::from_str("<c:barChart><c:barDir val=\"col\"/><c:grouping val=\"clustered\"/>");
    push_opt_flag(&mut out, "varyColors", chart.vary_by_categories);
    out.append(primary.0.as_str());
    push_opt_count(&mut out, "gapWidth", chart.gap_width);
    push_opt_signed(&mut out, "overlap", chart.overlap);
    out.append(primary_refs);
    push_ext_list(&mut out, primary.1.as_str());
    out.append("</c:barChart><c:stockChart>");
    out.append(secondary.0.as_str());
    push_data_labels(&mut out, chart);
    push_enabled(&mut out, "dropLines", chart.has_drop_lines);
    push_enabled(&mut out, "hiLowLines", chart_hi_lo_lines(chart));
    push_enabled(&mut out, "upDownBars", chart_up_down_bars(chart));
    out.append(secondary_refs);
    push_ext_list(&mut out, secondary.1.as_str());
    out.append("</c:stockChart>");
    assert(out@ =~= volume_stock_groups_text(*chart, (primary.0@, primary.1@), (secondary.0@, secondary.1@), primary_refs@, secondary_refs@));
    out
}


proof fn lemma_decimal_tens(n: nat)
    requires
        n >= 1,
    ensures
        decimal(n * 10) == decimal(n) + "0"@,
{
    reveal_strlit("0");
    assert((n * 10) / 10 == n);
    assert((n * 10) % 10 == 0);
    assert(decimal(n * 10) == decimal(n).push('0'));
    assert(decimal(n).push('0') =~= decimal(n) + "0"@);
}

/// The id of axis `k` of a chart.
fn axis_id_string(axes: &Vec<AxisModel>, k: usize) -> (r: String)
    requires
        k < axes.len(),
    ensures
        r@ == axis_id(axes@, k as int),
{
    match &axes[k].raw_id {
        Some(id) => id.clone(),
        None => {
            proof {
                lemma_decimal_tens((k + 1) as nat);
                assert(((k + 1) * 10) as nat == ((k + 1) as nat) * 10);
            }
            let mut text = decimal_text((k as u64) + 1);
            text.append("0");
            text
        },
    }
}

/// Whether the chart has a secondary axis of the kind.
fn any_secondary_axis(axes: &Vec<AxisModel>, category: bool) -> (r: bool)
    ensures
        r == has_secondary_axis(axes@, category),
{
    let mut i: usize = 0;
    while i < axes.len()
        invariant
            i <= axes.len(),
            forall|j: int|
                0 <= j < i ==> !((#[trigger] axes@[j]).axis_group == ChartAxisGroup::Secondary && if category {
                    is_category_like(axes@[j].kind)
                } else {
                    axes@[j].kind == ChartAxisKind::Series
                }),
        decreases axes.len() - i,
    {
        let a = &axes[i];
        let kind_matches = if category {
            match a.kind {
                ChartAxisKind::Category | ChartAxisKind::Date => true,
                _ => false,
            }
        } else {
            match a.kind {
                ChartAxisKind::Series => true,
                _ => false,
            }
        };
        let secondary = match a.axis_group {
            ChartAxisGroup::Secondary => true,
            _ => false,
        };
        if secondary && kind_matches {
            return true;
        }
        i += 1;
    }
    false
}

/// The elements of a chart's axes with the lists of their references: all
/// of them, those of the primary axes, and those the secondary group refers to.
fn axes_and_refs(axes: &Vec<AxisModel>, secondary_series: bool) -> (r: (String, String, String, String))
    ensures
        r.0@ == axes_upto(axes@, axes@.len() as int),
        r.1@ == refs_upto(axes@, axes@.len() as int, RefSelection::All, false),
        r.2@ == refs_upto(axes@, axes@.len() as int, RefSelection::Primary, secondary_series),
        r.3@ == refs_upto(axes@, axes@.len() as int, RefSelection::Secondary, secondary_series),
{
    let secondary_category = any_secondary_axis(axes, true);
    let secondary_series_axis = any_secondary_axis(axes, false);
    let mut axes_xml = String::new();
    let mut all = String::new();
    let mut primary = String::new();
    let mut secondary = String::new();
    let mut k: usize = 0;
    while k < axes.len()
        invariant
            k <= axes.len(),
            secondary_category == has_secondary_axis(axes@, true),
            secondary_series_axis == has_secondary_axis(axes@, false),
            axes_xml@ == axes_upto(axes@, k as int),
            all@ == refs_upto(axes@, k as int, RefSelection::All, false),
            primary@ == refs_upto(axes@, k as int, RefSelection::Primary, secondary_series),
            secondary@ == refs_upto(axes@, k as int, RefSelection::Secondary, secondary_series),
        decreases axes.len() - k,
    {
        let a = &axes[k];
        let id = axis_id_string(axes, k);
        let escaped = text_escape(id.as_str());
        let ghost r = axis_ref(axes@, k as int);
        let ghost before = (all@, primary@, secondary@);
        push_val(&mut all, "axId", escaped.as_str());
        let is_primary = match a.axis_group {
            ChartAxisGroup::Primary => true,
            _ => false,
        };
        let category_like = match a.kind {
            ChartAxisKind::Category | ChartAxisKind::Date => true,
            _ => false,
        };
        let series_kind = match a.kind {
            ChartAxisKind::Series => true,
            _ => false,
        };
        let refers = !is_primary || (secondary_series && ((category_like && !secondary_category) || (series_kind
            && !secondary_series_axis)));
        if is_primary {
            push_val(&mut primary, "axId", escaped.as_str());
        } else {
            assert(primary@ =~= primary@ + Seq::<char>::empty());
        }
        if refers {
            push_val(&mut secondary, "axId", escaped.as_str());
        } else {
            assert(secondary@ =~= secondary@ + Seq::<char>::empty());
        }
        assert(refers == secondary_refers(axes@, k as int, secondary_series));
        let element = chart_axis_element_xml_string(axes, a, id.as_str());
        axes_xml.append(element.as_str());
        k += 1;
    }
    (axes_xml, all, primary, secondary)
}


/// The reference list of a selection, falling back to all references when empty.
fn refs_or_all(own: &String, all: &String) -> (r: String)
    ensures
        r@ == if own@.len() == 0 { all@ } else { own@ },
{
    if own.unicode_len() == 0 { all.clone() } else { own.clone() }
}

/// The chart groups of a chart and its axis elements.
fn chart_groups_and_axes(
    chart: &ChartModel,
    name: &str,
    primary: &(String, String),
    secondary: &(String, String),
) -> (r: (String, String))
    ensures
        r.0@ == chart_groups_text(*chart, name@, (primary.0@, primary.1@), (secondary.0@, secondary.1@)),
        r.1@ == if has_axes(chart.chart_type) {
            axes_upto(chart.axes@, chart.axes@.len() as int)
        } else {
            Seq::<char>::empty()
        },
{
    proof {
        reveal(chart_groups_text);
    }
    let volume = chart_type_is_volume_stock(&chart.chart_type);
    let secondary_series = volume || secondary.0.unicode_len() > 0 || secondary.1.unicode_len() > 0;
    let (axes_xml, all, primary_own, secondary_own) = if chart_type_has_axes(&chart.chart_type) {
        axes_and_refs(&chart.axes, secondary_series)
    } else {
        (String::new(), String::new(), String::new(), String::new())
    };
    let primary_refs = refs_or_all(&primary_own, &all);
    let secondary_refs = refs_or_all(&secondary_own, &all);
    let groups = if volume {
        volume_stock_groups_string(chart, primary, secondary, primary_refs.as_str(), secondary_refs.as_str())
    } else if secondary_series {
        let mut out = String::new();
        if primary.0.unicode_len() > 0 || primary.1.unicode_len() > 0 {
            let g = chart_group_string(chart, name, primary.0.as_str(), primary.1.as_str(), primary_refs.as_str());
            out.append(g.as_str());
        }
        let g = chart_group_string(chart, name, secondary.0.as_str(), secondary.1.as_str(), secondary_refs.as_str());
        out.append(g.as_str());
        out
    } else {
        let all_refs = refs_or_all(&all, &all);
        chart_group_string(chart, name, primary.0.as_str(), primary.1.as_str(), all_refs.as_str())
    };
    (groups, axes_xml)
}

fn push_layout(out: &mut String, layout: &Option<ChartManualLayoutModel>)
    ensures
        final(out)@ == old(out)@ + match *layout {
            Some(l) => layout_text(l),
            None => Seq::<char>::empty(),
        },
{
    proof {
        reveal_strlit("<c:layout><c:manualLayout>");
        reveal_strlit("</c:manualLayout></c:layout>");
    }
    match layout {
        Some(l) => {
            let ghost start = out@;
            out.append("<c:layout><c:manualLayout>");
            push_val(out, "layoutTarget", chart_layout_target_xml_value(l.target));
            push_val(out, "xMode", chart_layout_mode_xml_value(l.x_mode));
            push_val(out, "yMode", chart_layout_mode_xml_value(l.y_mode));
            push_val(out, "wMode", chart_layout_mode_xml_value(l.width_mode));
            push_val(out, "hMode", chart_layout_mode_xml_value(l.height_mode));
            push_opt_text_val(out, "x", &l.x_text);
            push_opt_text_val(out, "y", &l.y_text);
            push_opt_text_val(out, "w", &l.width_text);
            push_opt_text_val(out, "h", &l.height_text);
            out.append("</c:manualLayout></c:layout>");
            assert(out@ =~= start + layout_text(*l));
        },
        None => {
            assert(out@ =~= out@ + Seq::<char>::empty());
        },
    }
}

fn push_legend(out: &mut String, legend: &Option<ChartLegendModel>)
    ensures
        final(out)@ == old(out)@ + legend_text(*legend),
{
    proof {
        reveal_strlit("<c:legend>");
        reveal_strlit("</c:legend>");
    }
    match legend {
        Some(l) => {
            if l.visible {
                let ghost start = out@;
                out.append("<c:legend>");
                let position = match l.position {
                    Some(p) => p,
                    None => ChartLegendPosition::Right,
                };
                push_val(out, "legendPos", chart_legend_position_xml_value(position));
                match l.include_in_layout {
                    Some(b) => push_flag(out, "overlay", !b),
                    None => {},
                }
                out.append("</c:legend>");
                assert(out@ =~= start + legend_text(*legend));
            } else {
                assert(out@ =~= out@ + Seq::<char>::empty());
            }
        },
        None => {
            assert(out@ =~= out@ + Seq::<char>::empty());
        },
    }
}

fn push_space_head(out: &mut String, chart: &ChartModel)
    ensures
        final(out)@ == old(out)@ + space_head_text(*chart),
{
    let ghost start = out@;
    push_opt_flag(out, "roundedCorners", chart.rounded_corners);
    push_opt_count(out, "style", chart.style);
    let ghost s1 = out@;
    match chart.protection {
        Some(p) => {
            let text = chart_protection_xml(p);
            out.append(text.as_str());
        },
        None => {
            assert(out@ =~= out@ + Seq::<char>::empty());
        },
    }
    assert(out@ =~= start + space_head_text(*chart));
}

fn push_chart_head(out: &mut String, chart: &ChartModel)
    ensures
        final(out)@ == old(out)@ + chart_head_text(*chart),
{
    let ghost start = out@;
    push_title(out, &chart.title_text);
    let ghost s1 = out@;
    match &chart.view_3d {
        Some(v) => match chart_view_3d_xml_string(v) {
            Some(text) => out.append(text.as_str()),
            None => {
                assert(out@ =~= out@ + Seq::<char>::empty());
            },
        },
        None => {
            assert(out@ =~= out@ + Seq::<char>::empty());
        },
    }
    assert(out@ =~= start + chart_head_text(*chart));
}

fn push_chart_tail(out: &mut String, chart: &ChartModel)
    ensures
        final(out)@ == old(out)@ + chart_tail_text(*chart),
{
    let ghost start = out@;
    push_legend(out, &chart.legend);
    push_opt_flag(out, "plotVisOnly", chart.plot_visible_only);
    let ghost s1 = out@;
    match chart.display_blanks_as {
        Some(v) => push_val(out, "dispBlanksAs", chart_display_blanks_as_xml_value(v)),
        None => {
            assert(out@ =~= out@ + Seq::<char>::empty());
        },
    }
    push_opt_flag(out, "showDLblsOverMax", chart.show_data_labels_over_maximum);
    assert(out@ =~= start + chart_tail_text(*chart));
}

fn push_data_table(out: &mut String, chart: &ChartModel)
    ensures
        final(out)@ == old(out)@ + match chart.data_table {
            Some(d) => data_table_text(d),
            None => Seq::<char>::empty(),
        },
{
    match &chart.data_table {
        Some(d) => {
            let text = chart_data_table_xml_string(d);
            out.append(text.as_str());
        },
        None => {
            assert(out@ =~= out@ + Seq::<char>::empty());
        },
    }
}

#[verifier::spinoff_prover]
fn push_plot_area(out: &mut String, chart: &ChartModel, groups: &str, axes_xml: &str)
    requires
        axes_xml@ == if has_axes(chart.chart_type) {
            axes_upto(chart.axes@, chart.axes@.len() as int)
        } else {
            Seq::<char>::empty()
        },
    ensures
        final(out)@ == old(out)@ + plot_area_text(*chart, groups@),
{
    proof {
        reveal_strlit("<c:plotArea>");
        reveal_strlit("</c:plotArea>");
    }
    let ghost start = out@;
    out.append("<c:plotArea>");
    push_layout(out, &chart.plot_area_layout);
    out.append(groups);
    out.append(axes_xml);
    push_data_table(out, chart);
    out.append("</c:plotArea>");
    assert(out@ =~= start + plot_area_text(*chart, groups@));
}

/// The text of a chart part, from the series of its two axis groups.
fn document_string(chart: &ChartModel, name: &str, primary: &(String, String), secondary: &(String, String)) -> (r: String)
    ensures
        r@ == document_text(*chart, name@, (primary.0@, primary.1@), (secondary.0@, secondary.1@)),
{
    proof {
        reveal_strlit("<?xml version=\"1.0\" encoding=\"UTF-8\"?>\n<c:chartSpace xmlns:c=\"http://schemas.openxmlformats.org/drawingml/2006/chart\" xmlns:a=\"http://schemas.openxmlformats.org/drawingml/2006/main\">\n  ");
        reveal_strlit("<c:chart>");
        reveal_strlit("</c:chart>\n</c:chartSpace>");
    }
    let (groups, axes_xml) = chart_groups_and_axes(chart, name, primary, secondary);
    let mut out = String::from_str(
        "<?xml version=\"1.0\" encoding=\"UTF-8\"?>\n<c:chartSpace xmlns:c=\"http://schemas.openxmlformats.org/drawingml/2006/chart\" xmlns:a=\"http://schemas.openxmlformats.org/drawingml/2006/main\">\n  ",
    );
    push_space_head(&mut out, chart);
    out.append("<c:chart>");
    push_chart_head(&mut out, chart);
    push_plot_area(&mut out, chart, groups.as_str(), axes_xml.as_str());
    push_chart_tail(&mut out, chart);
    out.append("</c:chart>\n</c:chartSpace>");
    assert(out@ =~= document_text(*chart, name@, (primary.0@, primary.1@), (secondary.0@, secondary.1@)));
    out
}

/// Writes a chart model as a new chart part: the chart groups with their
/// series, the axes with the references that tie groups to them, and the
/// chart's title, view, legend and settings around the plot area. A
/// volume-stock chart must be valid, filtered series need a type that can
/// hold them, and the type must have a chart-group element.
pub fn serialize_chart_model_xml(chart: &ChartModel) -> (r: Result<Vec<u8>, OmError>)
    ensures
        shell_result_view(r) == chart_serialization(*chart),
{
    match validate_volume_stock_chart(chart) {
        Err(e) => return Err(e),
        Ok(()) => {},
    }
    let primary = match chart_series_xml_for_axis_group(chart, ChartAxisGroup::Primary) {
        Ok(p) => p,
        Err(e) => return Err(e),
    };
    let secondary = match chart_series_xml_for_axis_group(chart, ChartAxisGroup::Secondary) {
        Ok(p) => p,
        Err(e) => return Err(e),
    };
    let name = match chart_group_xml_name(&chart.chart_type) {
        Some(n) => n,
        None => {
            return Err(OmError {
                code: OmErrorCode::Unsupported,
                message: String::from_str("saving dirty charts requires a supported chart type"),
            });
        },
    };
    let text = document_string(chart, name, &primary, &secondary);
    Ok(text.as_str().as_bytes_vec())
}


/// A text as `str`'s `Debug` formatting writes it: in double quotes, with
/// quotes, backslashes and characters that need it escaped.
pub uninterp spec fn debug_quoted(text: Seq<char>) -> Seq<char>;

/// Formats a text with `str`'s `Debug` implementation (`format!("{:?}")`);
/// the result is the named result for the text.
#[verifier::external_body]
fn debug_text(text: &str) -> (r: String)
    ensures
        r@ == debug_quoted(text@),
{
    format!("{:?}", text)
}

/// Reads a document from event `i` on until its end, failing where the
/// reader fails.
pub open spec fn read_through(input: Seq<u8>, i: nat, fuel: nat) -> Result<(), ErrorView>
    decreases fuel,
{
    if fuel == 0 {
        Ok(())
    } else {
        match xml_read_result(input, false, i) {
            Err(m) => Err((OmErrorCode::Parse, m)),
            Ok(e) => if e.kind == XmlEventKind::Eof {
                Ok(())
            } else {
                read_through(input, i + 1, (fuel - 1) as nat)
            },
        }
    }
}

/// Whether a whole document reads without failure.
pub open spec fn reads_through(input: Seq<u8>) -> Result<(), ErrorView> {
    read_through(input, 0, input.len() + 1)
}

/// The first position from `i` on where two byte strings differ, or the
/// length of the shorter one where one is a prefix of the other.
pub open spec fn difference_from(a: Seq<u8>, b: Seq<u8>, i: int) -> int
    decreases a.len() - i,
{
    if i < 0 || i >= a.len() || i >= b.len() || a[i] != b[i] {
        i
    } else {
        difference_from(a, b, i + 1)
    }
}

/// The text around position `d` of a document: from 80 bytes before it to
/// 160 bytes after it, as far as the document goes, decoded and quoted.
pub open spec fn context_text(a: Seq<u8>, d: int) -> Seq<char> {
    let start = if d >= 80 { d - 80 } else { 0 };
    let end = if d + 160 <= a.len() { d + 160 } else { a.len() as int };
    debug_quoted(utf8_lossy(a.subrange(start, end)))
}

/// The message for a candidate that the axis rewrite changes.
pub open spec fn divergence_message(candidate: Seq<u8>, converged: Seq<u8>) -> Seq<char> {
    let d = difference_from(candidate, converged, 0);
    "chart XML encoder did not converge at byte "@ + decimal(d as nat) + ": candidate="@ + context_text(candidate, d)
        + ", converged="@ + context_text(converged, d)
}

/// A candidate chart part as the encoder hands it out: it must read as XML
/// to its end, and the axis rewrite must leave it as it is.
pub open spec fn converged_chart_xml(candidate: Seq<u8>, chart: ChartModel) -> Result<Seq<u8>, ErrorView> {
    match reads_through(candidate) {
        Err(e) => Err(e),
        Ok(_) => match axis_topology(candidate, chart) {
            Err(e) => Err(e),
            Ok(converged) => if converged == candidate {
                Ok(candidate)
            } else {
                Err((OmErrorCode::InvalidState, divergence_message(candidate, converged)))
            },
        },
    }
}

fn read_whole_document(input: &[u8]) -> (r: Result<(), OmError>)
    ensures
        match r {
            Ok(_) => reads_through(input@) is Ok,
            Err(e) => reads_through(input@) == Err::<(), ErrorView>((e.code, e.message@)),
        },
{
    let ghost fuel = input@.len() + 1;
    let mut reader = XmlReader::new(input, false);
    loop
        invariant
            reader.input() == input@,
            !reader.trim(),
            fuel == input@.len() + 1,
            reader.count() <= fuel,
            reader.pos() <= input@.len(),
            fuel - reader.count() >= input@.len() - reader.pos() + 1,
            reads_through(input@) == read_through(input@, reader.count(), (fuel - reader.count()) as nat),
        decreases input@.len() - reader.pos(),
    {
        let ev = match reader.read_event() {
            Ok(ev) => ev,
            Err(e) => {
                return Err(xml_error(e));
            },
        };
        if ev.kind == XmlEventKind::Eof {
            return Ok(());
        }
    }
}

/// The bytes of `a` from `start` to `end`.
fn byte_range(a: &[u8], start: usize, end: usize) -> (r: Vec<u8>)
    requires
        start <= end <= a@.len(),
    ensures
        r@ == a@.subrange(start as int, end as int),
{
    let mut out: Vec<u8> = Vec::new();
    let mut i = start;
    while i < end
        invariant
            start <= i <= end <= a@.len(),
            out@ == a@.subrange(start as int, i as int),
        decreases end - i,
    {
        out.push(a[i]);
        i += 1;
        assert(out@ =~= a@.subrange(start as int, i as int));
    }
    out
}

fn context_string(a: &[u8], d: usize) -> (r: String)
    requires
        d <= a@.len(),
    ensures
        r@ == context_text(a@, d as int),
{
    let start = if d >= 80 { d - 80 } else { 0 };
    let end = if d <= a.len() && a.len() - d >= 160 { d + 160 } else { a.len() };
    let bytes = byte_range(a, start, end);
    let text = lossy_text(bytes.as_slice());
    debug_text(text.as_str())
}

/// Checks a candidate chart part before the encoder hands it out: the part
/// must read as XML to its end, and rewriting its axes for the chart must
/// leave it unchanged; otherwise the failure names the first byte where the
/// two differ and shows the text around it in both.
pub fn check_chart_xml_converges(candidate_xml: Vec<u8>, chart: &ChartModel) -> (r: Result<Vec<u8>, OmError>)
    ensures
        bytes_error_result(r) == converged_chart_xml(candidate_xml@, *chart),
{
    match read_whole_document(candidate_xml.as_slice()) {
        Err(e) => return Err(e),
        Ok(()) => {},
    }
    let converged = match rewrite_loaded_chart_axis_additions(candidate_xml.as_slice(), chart) {
        Ok(c) => c,
        Err(e) => return Err(e),
    };
    let ghost a = candidate_xml@;
    let ghost b = converged@;
    let mut d: usize = 0;
    while d < candidate_xml.len() && d < converged.len() && candidate_xml[d] == converged[d]
        invariant
            a == candidate_xml@,
            b == converged@,
            d <= a.len(),
            d <= b.len(),
            difference_from(a, b, 0) == difference_from(a, b, d as int),
            forall|j: int| 0 <= j < d ==> a[j] == b[j],
        decreases a.len() - d,
    {
        d += 1;
    }
    if d == candidate_xml.len() && d == converged.len() {
        assert(a =~= b);
        return Ok(candidate_xml);
    }
    assert(difference_from(a, b, 0) == d as int);
    proof {
        reveal_strlit("chart XML encoder did not converge at byte ");
        reveal_strlit(": candidate=");
        reveal_strlit(", converged=");
    }
    let mut message = String::from_str("chart XML encoder did not converge at byte ");
    let at = decimal_text(d as u64);
    message.append(at.as_str());
    message.append(": candidate=");
    let before = context_string(candidate_xml.as_slice(), d);
    message.append(before.as_str());
    message.append(", converged=");
    let after = context_string(converged.as_slice(), d);
    message.append(after.as_str());
    assert(message@ =~= divergence_message(a, b));
    Err(OmError { code: OmErrorCode::InvalidState, message })
}


/// Whether `piece` occurs in `bytes`.
pub open spec fn bytes_occur(bytes: Seq<u8>, piece: Seq<u8>) -> bool {
    exists|k: int| 0 <= k && k + piece.len() <= bytes.len() && #[trigger] bytes.subrange(k, k + piece.len()) == piece
}

/// The start of the element of axis `i` of a new chart part: its tag and
/// its id, ten times its position counted from one.
pub open spec fn numbered_axis_start(axes: Seq<AxisModel>, i: int) -> Seq<char> {
    "<c:"@ + crate::chart_types::axis_kind_name(axes[i].kind)@ + ">"@ + val_element(
        "axId"@,
        decimal(((i + 1) * 10) as nat),
    )
}

proof fn lemma_encode_concat(a: Seq<char>, b: Seq<char>)
    ensures
        vstd::utf8::encode_utf8(a + b) == vstd::utf8::encode_utf8(a) + vstd::utf8::encode_utf8(b),
    decreases a.len(),
{
    if a.len() > 0 {
        lemma_encode_concat(a.drop_first(), b);
        assert((a + b).drop_first() =~= a.drop_first() + b);
        assert((a + b)[0] == a[0]);
    } else {
        assert(a + b =~= b);
    }
}

proof fn lemma_digit_plain(d: nat)
    ensures
        partial_escape_char(crate::text::digit_char(d)) == seq![crate::text::digit_char(d)],
{
}

proof fn lemma_decimal_plain(n: nat)
    ensures
        partially_escaped(decimal(n)) == decimal(n),
    decreases n,
{
    if n < 10 {
        lemma_digit_plain(n);
        let d = decimal(n);
        assert(d == seq![crate::text::digit_char(n)]);
        assert(d.drop_last() =~= Seq::<char>::empty());
        assert(partially_escaped(d) == partially_escaped(d.drop_last()) + partial_escape_char(d.last()));
        assert(partially_escaped(d) =~= d);
    } else {
        lemma_decimal_plain(n / 10);
        lemma_digit_plain(n % 10);
        let d = decimal(n);
        assert(d == decimal(n / 10).push(crate::text::digit_char(n % 10)));
        assert(d.drop_last() =~= decimal(n / 10));
        assert(partially_escaped(d) == partially_escaped(d.drop_last()) + partial_escape_char(d.last()));
        assert(partially_escaped(d) =~= d);
    }
}

proof fn lemma_axes_upto_split(axes: Seq<AxisModel>, i: int, n: int)
    requires
        0 <= i < n <= axes.len(),
    ensures
        exists|rest: Seq<char>|
            axes_upto(axes, n) == axes_upto(axes, i) + axis_element_text(axes, axes[i], axis_id(axes, i)) + rest,
    decreases n,
{
    if n == i + 1 {
        let rest = Seq::<char>::empty();
        assert(axes_upto(axes, n) =~= axes_upto(axes, i) + axis_element_text(axes, axes[i], axis_id(axes, i)) + rest);
    } else {
        lemma_axes_upto_split(axes, i, n - 1);
        let rest0 = choose|rest: Seq<char>|
            axes_upto(axes, n - 1) == axes_upto(axes, i) + axis_element_text(axes, axes[i], axis_id(axes, i)) + rest;
        let rest = rest0 + axis_element_text(axes, axes[n - 1], axis_id(axes, n - 1));
        assert(axes_upto(axes, n) =~= axes_upto(axes, i) + axis_element_text(axes, axes[i], axis_id(axes, i)) + rest);
    }
}

/// The start of an axis element: its tag and its escaped id.
spec fn axis_element_start(a: AxisModel, id: Seq<char>) -> Seq<char> {
    "<c:"@ + crate::chart_types::axis_kind_name(a.kind)@ + ">"@ + val_element("axId"@, partially_escaped(id))
}

#[verifier::spinoff_prover]
#[verifier::rlimit(40)]
proof fn lemma_axis_element_starts(axes: Seq<AxisModel>, a: AxisModel, id: Seq<char>)
    ensures
        exists|rest: Seq<char>| axis_element_text(axes, a, id) == axis_element_start(a, id) + rest,
{
    reveal(axis_element_text);
    let start = axis_element_start(a, id);
    let e = axis_element_text(axes, a, id);
    let rest = e.subrange(start.len() as int, e.len() as int);
    assert(e =~= start + rest);
}

#[verifier::spinoff_prover]
#[verifier::rlimit(40)]
proof fn lemma_axis_piece_occurs(before: Seq<char>, after: Seq<char>, axes: Seq<AxisModel>, i: int)
    requires
        0 <= i < axes.len(),
        axes[i].raw_id is None,
    ensures
        bytes_occur(
            vstd::utf8::encode_utf8(before + axes_upto(axes, axes.len() as int) + after),
            vstd::utf8::encode_utf8(numbered_axis_start(axes, i)),
        ),
{
    let all = axes_upto(axes, axes.len() as int);
    let x = vstd::utf8::encode_utf8(before + all + after);
    lemma_axes_upto_split(axes, i, axes.len() as int);
    let element = axis_element_text(axes, axes[i], axis_id(axes, i));
    let rest = choose|rest: Seq<char>| all == axes_upto(axes, i) + element + rest;
    let piece = numbered_axis_start(axes, i);
    lemma_decimal_plain(((i + 1) * 10) as nat);
    assert(axis_id(axes, i) == decimal(((i + 1) * 10) as nat));
    assert(axis_element_start(axes[i], axis_id(axes, i)) == piece);
    lemma_axis_element_starts(axes, axes[i], axis_id(axes, i));
    let element_rest = choose|r: Seq<char>| element == axis_element_start(axes[i], axis_id(axes, i)) + r;
    let pre = before + axes_upto(axes, i);
    let post = element_rest + rest + after;
    assert(before + all + after =~= pre + (piece + post));
    lemma_encode_concat(pre, piece + post);
    lemma_encode_concat(piece, post);
    let k = vstd::utf8::encode_utf8(pre).len() as int;
    let ep = vstd::utf8::encode_utf8(piece);
    assert(x =~= vstd::utf8::encode_utf8(pre) + (ep + vstd::utf8::encode_utf8(post)));
    assert(x.subrange(k, k + ep.len()) =~= ep);
}

/// The text before the axes of a chart part.
spec fn text_before_axes(chart: ChartModel, groups: Seq<char>) -> Seq<char> {
    document_head() + space_head_text(chart) + "<c:chart>"@ + chart_head_text(chart) + "<c:plotArea>"@ + (
    match chart.plot_area_layout {
        Some(l) => layout_text(l),
        None => Seq::<char>::empty(),
    }) + groups
}

/// The text after the axes of a chart part.
spec fn text_after_axes(chart: ChartModel) -> Seq<char> {
    (match chart.data_table {
        Some(d) => data_table_text(d),
        None => Seq::<char>::empty(),
    }) + "</c:plotArea>"@ + chart_tail_text(chart) + "</c:chart>\n</c:chartSpace>"@
}

#[verifier::spinoff_prover]
#[verifier::rlimit(40)]
proof fn lemma_regroup(
    h: Seq<char>,
    s1: Seq<char>,
    c1: Seq<char>,
    lay: Seq<char>,
    groups: Seq<char>,
    ax: Seq<char>,
    tab: Seq<char>,
    tl: Seq<char>,
)
    ensures
        h + s1 + "<c:chart>"@ + c1 + ("<c:plotArea>"@ + lay + groups + ax + tab + "</c:plotArea>"@) + tl
            + "</c:chart>\n</c:chartSpace>"@ == (h + s1 + "<c:chart>"@ + c1 + "<c:plotArea>"@ + lay + groups) + ax + (tab
            + "</c:plotArea>"@ + tl + "</c:chart>\n</c:chartSpace>"@),
{
    assert(h + s1 + "<c:chart>"@ + c1 + ("<c:plotArea>"@ + lay + groups + ax + tab + "</c:plotArea>"@) + tl
        + "</c:chart>\n</c:chartSpace>"@ =~= (h + s1 + "<c:chart>"@ + c1 + "<c:plotArea>"@ + lay + groups) + ax + (tab
        + "</c:plotArea>"@ + tl + "</c:chart>\n</c:chartSpace>"@));
}

proof fn lemma_plot_area_parts(chart: ChartModel, groups: Seq<char>)
    requires
        has_axes(chart.chart_type),
    ensures
        plot_area_text(chart, groups) == "<c:plotArea>"@ + (match chart.plot_area_layout {
            Some(l) => layout_text(l),
            None => Seq::<char>::empty(),
        }) + groups + axes_upto(chart.axes@, chart.axes@.len() as int) + (match chart.data_table {
            Some(d) => data_table_text(d),
            None => Seq::<char>::empty(),
        }) + "</c:plotArea>"@,
{
}

#[verifier::spinoff_prover]
#[verifier::rlimit(40)]
proof fn lemma_document_around_axes(
    chart: ChartModel,
    name: Seq<char>,
    primary: (Seq<char>, Seq<char>),
    secondary: (Seq<char>, Seq<char>),
)
    requires
        has_axes(chart.chart_type),
    ensures
        document_text(chart, name, primary, secondary) == text_before_axes(
            chart,
            chart_groups_text(chart, name, primary, secondary),
        ) + axes_upto(chart.axes@, chart.axes@.len() as int) + text_after_axes(chart),
{
    let groups = chart_groups_text(chart, name, primary, secondary);
    let lay = match chart.plot_area_layout {
        Some(l) => layout_text(l),
        None => Seq::<char>::empty(),
    };
    let tab = match chart.data_table {
        Some(d) => data_table_text(d),
        None => Seq::<char>::empty(),
    };
    lemma_plot_area_parts(chart, groups);
    lemma_regroup(
        document_head(),
        space_head_text(chart),
        chart_head_text(chart),
        lay,
        groups,
        axes_upto(chart.axes@, chart.axes@.len() as int),
        tab,
        chart_tail_text(chart),
    );
}

/// A new chart part starts with the XML declaration and the chart-space
/// start tag; and when its type has axes, the element of every axis without
/// an id of its own starts with the id ten times its position counted from one.
#[verifier::spinoff_prover]
#[verifier::rlimit(40)]
pub proof fn lemma_serialized_chart_start_and_axis_ids(chart: ChartModel)
    ensures
        chart_serialization(chart) matches Ok(x) ==> {
            &&& x.len() >= vstd::utf8::encode_utf8(document_head()).len()
            &&& x.subrange(0, vstd::utf8::encode_utf8(document_head()).len() as int) == vstd::utf8::encode_utf8(
                document_head(),
            )
            &&& has_axes(chart.chart_type) ==> forall|i: int|
                0 <= i < chart.axes@.len() && (#[trigger] chart.axes@[i]).raw_id is None ==> bytes_occur(
                    x,
                    vstd::utf8::encode_utf8(numbered_axis_start(chart.axes@, i)),
                )
        },
{
    if let Ok(x) = chart_serialization(chart) {
        let primary = series_xml_for_axis_group(chart, ChartAxisGroup::Primary)->Ok_0;
        let secondary = series_xml_for_axis_group(chart, ChartAxisGroup::Secondary)->Ok_0;
        let name = group_xml_name(chart.chart_type)->Some_0;
        let t = document_text(chart, name@, primary, secondary);
        let head = document_head();
        let tail_of_head = t.subrange(head.len() as int, t.len() as int);
        assert(t =~= head + tail_of_head);
        lemma_encode_concat(head, tail_of_head);
        assert(x.subrange(0, vstd::utf8::encode_utf8(head).len() as int) =~= vstd::utf8::encode_utf8(head));
        if has_axes(chart.chart_type) {
            lemma_document_around_axes(chart, name@, primary, secondary);
            let before = text_before_axes(chart, chart_groups_text(chart, name@, primary, secondary));
            let after = text_after_axes(chart);
            assert forall|i: int| 0 <= i < chart.axes@.len() && (#[trigger] chart.axes@[i]).raw_id is None implies bytes_occur(
                x,
                vstd::utf8::encode_utf8(numbered_axis_start(chart.axes@, i)),
            ) by {
                lemma_axis_piece_occurs(before, after, chart.axes@, i);
            }
        }
    }
}

} // verus!
