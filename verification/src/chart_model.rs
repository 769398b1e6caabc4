//! The part of the chart model that chart-XML encoding reads: groups, axes
//! and series with their loaded identities, and the checks made on them.
use vstd::prelude::*;
use crate::chart_types::{
    chart_size_represents_xml_value, chart_split_type_xml_value, chart_type_is_volume_stock,
    is_volume_stock, size_represents_name, split_type_name, volume_stock_count,
    volume_stock_series_count, ChartAxisGroup, ChartAxisKind, ChartBarShape, ChartSizeRepresents,
    ChartSplitType, ChartType, ChartBuiltInDisplayUnit, supports_explosion, chart_type_supports_explosion,
    ChartMarkerStyle, ChartTickMark, ChartTickLabelPosition, ChartAxisCrosses, ChartAxisTimeUnit,
};
use crate::chart_source::ChartSourceExpr;
use crate::errors::{OmError, OmErrorCode};
use crate::parts::opt_view;
use crate::text::{chars_eq_str, decimal, decimal_text, signed_decimal, signed_decimal_text};

verus! {

/// A chart group: one chart-type element of the plot area.
pub struct ChartGroupModel {
    /// The element's local name (`barChart`, `lineChart`, ...).
    pub raw_name: String,
    /// The group's position among the groups of the loaded XML, if it was loaded.
    pub loaded_index: Option<usize>,
    pub axis_group: ChartAxisGroup,
    /// The `c:idx` values of the group's series.
    pub series_raw_indices: Vec<u32>,
    /// The ids of the axes the group plots on.
    pub axis_ids: Vec<String>,
    pub bar_direction: Option<String>,
    pub chart_grouping: Option<String>,
    pub scatter_style: Option<String>,
    pub radar_style: Option<String>,
    pub of_pie_type: Option<String>,
    pub surface_wireframe: Option<bool>,
    pub vary_by_categories: Option<bool>,
    pub line_has_markers: Option<bool>,
    pub gap_width: Option<u32>,
    pub gap_depth: Option<u32>,
    pub overlap: Option<i32>,
    pub first_slice_angle: Option<u32>,
    pub bubble_scale: Option<u32>,
    pub show_negative_bubbles: Option<bool>,
    pub has_3d_shading: Option<bool>,
    pub doughnut_hole_size: Option<u32>,
    pub second_plot_size: Option<u32>,
    pub size_represents: Option<ChartSizeRepresents>,
    pub split_type: Option<ChartSplitType>,
    /// The split position, as its decimal text.
    pub split_value_text: Option<String>,
    pub bar_shape: Option<ChartBarShape>,
    pub has_series_lines: Option<bool>,
    pub has_drop_lines: Option<bool>,
    pub has_hi_lo_lines: Option<bool>,
    pub has_up_down_bars: Option<bool>,
    /// The data labels of the whole group, if set.
    pub data_labels: Option<ChartDataLabelsModel>,
    /// Whether the group changed since it was loaded.
    pub dirty: bool,
}

/// Data-label settings of a group, series or point.
pub struct ChartDataLabelsModel {
    pub number_format: Option<String>,
    pub number_format_linked: Option<bool>,
    pub position: Option<crate::chart_types::ChartDataLabelPosition>,
    pub show_legend_key: Option<bool>,
    pub has_leader_lines: Option<bool>,
    pub show_series_name: Option<bool>,
    pub show_category_name: Option<bool>,
    pub show_value: Option<bool>,
    pub show_percentage: Option<bool>,
    pub show_bubble_size: Option<bool>,
    pub separator: Option<String>,
    /// Whether the labels changed since they were loaded.
    pub dirty: bool,
}

/// The data table under a chart's plot area.
pub struct ChartDataTableModel {
    pub has_border_horizontal: Option<bool>,
    pub has_border_vertical: Option<bool>,
    pub has_border_outline: Option<bool>,
    pub show_legend_key: Option<bool>,
}

/// Which parts of a chart are protected.
#[derive(Clone, Copy, Debug, PartialEq, Eq, Structural)]
pub struct ChartProtectionModel {
    pub contents: bool,
    pub data: bool,
    pub formatting: bool,
    pub selection: bool,
    pub user_interface_only: bool,
}

/// The 3-D view of a chart.
pub struct ChartView3DModel {
    pub elevation: Option<i32>,
    pub height_percent: Option<u32>,
    pub rotation: Option<u32>,
    pub depth_percent: Option<u32>,
    pub right_angle_axes: Option<bool>,
    pub perspective: Option<u32>,
}

/// A chart axis.
pub struct AxisModel {
    pub kind: ChartAxisKind,
    pub axis_group: ChartAxisGroup,
    /// The axis's `c:axId`, if it has one.
    pub raw_id: Option<String>,
    /// The `c:crossAx` that the axis was loaded with, if any.
    pub cross_axis_raw_id: Option<String>,
    pub deleted: Option<bool>,
    /// The unit the axis values are shown in, if any.
    pub display_unit: Option<ChartAxisDisplayUnit>,
    /// The text of the display-unit label, when the axis has one.
    pub display_unit_label: Option<String>,
    /// Whether the display-unit label is shown.
    pub has_display_unit_label: Option<bool>,
    /// Whether the axis' scale type is logarithmic.
    pub logarithmic_scale: bool,
    /// The scale's log base, minimum and maximum, as their number texts.
    pub log_base_text: Option<String>,
    pub minimum_scale_text: Option<String>,
    pub maximum_scale_text: Option<String>,
    pub reverse_plot_order: Option<bool>,
    /// The text of the axis title, if it has one.
    pub title_text: Option<String>,
    pub has_major_gridlines: Option<bool>,
    pub has_minor_gridlines: Option<bool>,
    pub major_tick_mark: Option<ChartTickMark>,
    pub minor_tick_mark: Option<ChartTickMark>,
    pub tick_label_position: Option<ChartTickLabelPosition>,
    pub tick_label_number_format: Option<String>,
    pub tick_label_number_format_linked: Option<bool>,
    pub tick_label_spacing: Option<u32>,
    pub tick_mark_spacing: Option<u32>,
    /// The major and minor units, as their number texts.
    pub major_unit_text: Option<String>,
    pub minor_unit_text: Option<String>,
    /// Where the crossing axis crosses: at a value (its number text), or at
    /// a named position.
    pub crosses_at_text: Option<String>,
    pub crosses: Option<ChartAxisCrosses>,
    pub axis_between_categories: Option<bool>,
    pub category_type_auto: Option<bool>,
    pub base_unit: Option<ChartAxisTimeUnit>,
    pub major_unit_scale: Option<ChartAxisTimeUnit>,
    pub minor_unit_scale: Option<ChartAxisTimeUnit>,
}

/// The unit in which an axis shows its values: one of the built-in units,
/// or a custom divisor held as the number text that the chart XML writes.
pub enum ChartAxisDisplayUnit {
    BuiltIn(ChartBuiltInDisplayUnit),
    Custom(String),
}

/// A chart series.
pub struct SeriesModel {
    /// The series' `c:idx`, if known.
    pub raw_index: Option<u32>,
    pub axis_group: ChartAxisGroup,
    /// The series' `c:order`, if set.
    pub order: Option<u32>,
    /// Whether the series is hidden by a filter.
    pub is_filtered: bool,
    /// Whether the series' filter changed since the chart was loaded.
    pub filter_dirty: bool,
    /// The data labels of the whole series, if set.
    pub data_labels: Option<ChartDataLabelsModel>,
    /// The data labels of single points by point index, in increasing
    /// index order with each index once.
    pub point_data_labels: Vec<(u32, ChartDataLabelsModel)>,
    /// How far single points are pulled out, in percent, by point index, in
    /// increasing index order with each index once.
    pub point_explosions: Vec<(u32, u32)>,
    pub marker_style: Option<ChartMarkerStyle>,
    pub marker_size: Option<u32>,
    /// The series' name, categories or x values, values and bubble sizes.
    pub name: Option<ChartSourceExpr>,
    pub x_values: Option<ChartSourceExpr>,
    pub values: Option<ChartSourceExpr>,
    pub bubble_size: Option<ChartSourceExpr>,
    pub invert_if_negative: Option<bool>,
    pub bar_shape: Option<ChartBarShape>,
    pub smooth: Option<bool>,
}

/// A chart: its type, groups, axes and series.
pub struct ChartModel {
    pub chart_type: ChartType,
    pub groups: Vec<ChartGroupModel>,
    pub axes: Vec<AxisModel>,
    pub series: Vec<SeriesModel>,
    /// How far the slices of a pie or doughnut are pulled out, in percent.
    pub explosion: Option<u32>,
    /// Whether series were added, removed or moved since the chart was loaded.
    pub series_topology_dirty: bool,
    /// Chart-wide settings written into the chart group of a new chart part.
    pub vary_by_categories: Option<bool>,
    pub bar_shape: Option<ChartBarShape>,
    pub gap_width: Option<u32>,
    pub gap_depth: Option<u32>,
    pub overlap: Option<i32>,
    pub has_series_lines: Option<bool>,
    pub has_drop_lines: Option<bool>,
    pub has_hi_lo_lines: Option<bool>,
    pub has_up_down_bars: Option<bool>,
    pub first_slice_angle: Option<u32>,
    pub bubble_scale: Option<u32>,
    pub show_negative_bubbles: Option<bool>,
    pub has_3d_shading: Option<bool>,
    pub doughnut_hole_size: Option<u32>,
    pub second_plot_size: Option<u32>,
    pub size_represents: Option<ChartSizeRepresents>,
    pub split_type: Option<ChartSplitType>,
    /// The split position, as its number text.
    pub split_value_text: Option<String>,
    pub data_labels: Option<ChartDataLabelsModel>,
    /// The chart's title text, if it has a title.
    pub title_text: Option<String>,
    pub legend: Option<ChartLegendModel>,
    pub plot_visible_only: Option<bool>,
    pub display_blanks_as: Option<crate::chart_types::ChartDisplayBlanksAs>,
    pub show_data_labels_over_maximum: Option<bool>,
    pub view_3d: Option<ChartView3DModel>,
    pub rounded_corners: Option<bool>,
    pub style: Option<u32>,
    pub protection: Option<ChartProtectionModel>,
    pub data_table: Option<ChartDataTableModel>,
    pub plot_area_layout: Option<ChartManualLayoutModel>,
}

/// A chart's legend.
pub struct ChartLegendModel {
    pub visible: bool,
    pub position: Option<crate::chart_types::ChartLegendPosition>,
    pub include_in_layout: Option<bool>,
}

/// A manual layout of the plot area; its coordinates are held as the
/// number texts that the chart XML writes.
pub struct ChartManualLayoutModel {
    pub target: crate::chart_types::ChartLayoutTarget,
    pub x_mode: crate::chart_types::ChartLayoutMode,
    pub y_mode: crate::chart_types::ChartLayoutMode,
    pub width_mode: crate::chart_types::ChartLayoutMode,
    pub height_mode: crate::chart_types::ChartLayoutMode,
    pub x_text: Option<String>,
    pub y_text: Option<String>,
    pub width_text: Option<String>,
    pub height_text: Option<String>,
}

/// Whether an axis kind counts as a category axis (category or date).
pub open spec fn is_category_like(k: ChartAxisKind) -> bool {
    k == ChartAxisKind::Category || k == ChartAxisKind::Date
}

/// Whether an axis is on `group` (any group when none) and is a value axis
/// (`want_value`) or a category-like axis.
pub open spec fn axis_matches(a: AxisModel, group: Option<ChartAxisGroup>, want_value: bool) -> bool {
    (group matches Some(g) ==> a.axis_group == g) && if want_value {
        a.kind == ChartAxisKind::Value
    } else {
        is_category_like(a.kind)
    }
}

/// The first axis from position `i` on that matches.
pub open spec fn first_axis_from(axes: Seq<AxisModel>, group: Option<ChartAxisGroup>, want_value: bool, i: int) -> Option<int>
    decreases axes.len() - i,
{
    if i < 0 || i >= axes.len() {
        None
    } else if axis_matches(axes[i], group, want_value) {
        Some(i)
    } else {
        first_axis_from(axes, group, want_value, i + 1)
    }
}

/// The first axis that matches.
pub open spec fn first_axis(axes: Seq<AxisModel>, group: Option<ChartAxisGroup>, want_value: bool) -> Option<int> {
    first_axis_from(axes, group, want_value, 0)
}

/// The first of two lookups that finds something.
pub open spec fn or_else(a: Option<int>, b: Option<int>) -> Option<int> {
    match a {
        Some(x) => Some(x),
        None => b,
    }
}

/// The axis that an axis crosses when it has no usable loaded crossing: a
/// value axis crosses the first category-like axis of its group, else of the
/// primary group; other axes cross the first value axis of their group, else
/// of the primary group, else any value axis.
pub open spec fn cross_target_axis(axes: Seq<AxisModel>, axis: AxisModel) -> Option<int> {
    if axis.kind == ChartAxisKind::Value {
        or_else(
            first_axis(axes, Some(axis.axis_group), false),
            first_axis(axes, Some(ChartAxisGroup::Primary), false),
        )
    } else {
        or_else(
            or_else(
                first_axis(axes, Some(axis.axis_group), true),
                first_axis(axes, Some(ChartAxisGroup::Primary), true),
            ),
            first_axis(axes, None, true),
        )
    }
}

/// The id of the axis that an axis crosses: its loaded crossing when some
/// axis has that id, else the id of the axis it falls back to.
pub open spec fn cross_target_id(axes: Seq<AxisModel>, axis: AxisModel) -> Option<Seq<char>> {
    if axis.cross_axis_raw_id matches Some(id) && exists|k: int|
        0 <= k < axes.len() && opt_view(#[trigger] axes[k].raw_id) == Some(id@) {
        opt_view(axis.cross_axis_raw_id)
    } else {
        match cross_target_axis(axes, axis) {
            Some(k) => opt_view(axes[k].raw_id),
            None => None,
        }
    }
}

fn find_axis(axes: &Vec<AxisModel>, group: Option<ChartAxisGroup>, want_value: bool) -> (r: Option<usize>)
    ensures
        match r {
            Some(i) => first_axis(axes@, group, want_value) == Some(i as int),
            None => first_axis(axes@, group, want_value) is None,
        },
{
    let mut i: usize = 0;
    while i < axes.len()
        invariant
            i <= axes@.len(),
            first_axis(axes@, group, want_value) == first_axis_from(axes@, group, want_value, i as int),
        decreases axes@.len() - i,
    {
        let a = &axes[i];
        let group_ok = match group {
            Some(g) => a.axis_group == g,
            None => true,
        };
        let kind_ok = if want_value {
            a.kind == ChartAxisKind::Value
        } else {
            a.kind == ChartAxisKind::Category || a.kind == ChartAxisKind::Date
        };
        if group_ok && kind_ok {
            return Some(i);
        }
        i += 1;
    }
    None
}

fn same_text(a: &String, b: &String) -> (r: bool)
    ensures
        r == (a@ == b@),
{
    crate::text::str_eq(a.as_str(), b.as_str())
}

/// The id of the axis that `axis` crosses.
pub fn chart_axis_cross_target_id(axes: &Vec<AxisModel>, axis: &AxisModel) -> (r: Option<String>)
    ensures
        opt_view(r) == cross_target_id(axes@, *axis),
{
    if let Some(id) = &axis.cross_axis_raw_id {
        let mut k: usize = 0;
        while k < axes.len()
            invariant
                k <= axes@.len(),
                axis.cross_axis_raw_id == Some(*id),
                forall|j: int| 0 <= j < k ==> opt_view(#[trigger] axes@[j].raw_id) != Some(id@),
            decreases axes@.len() - k,
        {
            if let Some(candidate) = &axes[k].raw_id {
                if same_text(candidate, id) {
                    assert(opt_view(axes@[k as int].raw_id) == Some(id@));
                    return Some(id.clone());
                }
            }
            k += 1;
        }
    }
    let target = if axis.kind == ChartAxisKind::Value {
        match find_axis(axes, Some(axis.axis_group), false) {
            Some(i) => Some(i),
            None => find_axis(axes, Some(ChartAxisGroup::Primary), false),
        }
    } else {
        match find_axis(axes, Some(axis.axis_group), true) {
            Some(i) => Some(i),
            None => match find_axis(axes, Some(ChartAxisGroup::Primary), true) {
                Some(i) => Some(i),
                None => find_axis(axes, None, true),
            },
        }
    };
    match target {
        Some(i) => {
            proof {
                crate::chart_model::lemma_first_axis_bound(axes@, Some(axis.axis_group), false, 0);
                crate::chart_model::lemma_first_axis_bound(axes@, Some(ChartAxisGroup::Primary), false, 0);
                crate::chart_model::lemma_first_axis_bound(axes@, Some(axis.axis_group), true, 0);
                crate::chart_model::lemma_first_axis_bound(axes@, Some(ChartAxisGroup::Primary), true, 0);
                crate::chart_model::lemma_first_axis_bound(axes@, None, true, 0);
            }
            match &axes[i].raw_id {
                Some(id) => Some(id.clone()),
                None => None,
            }
        },
        None => None,
    }
}

/// The first matching axis lies within the axes.
pub proof fn lemma_first_axis_bound(axes: Seq<AxisModel>, group: Option<ChartAxisGroup>, want_value: bool, i: int)
    ensures
        first_axis_from(axes, group, want_value, i) matches Some(k) ==> 0 <= k < axes.len(),
    decreases axes.len() - i,
{
    if 0 <= i < axes.len() && !axis_matches(axes[i], group, want_value) {
        lemma_first_axis_bound(axes, group, want_value, i + 1);
    }
}

/// The `c:idx` values of the groups, each with its group's axis group, in order.
pub open spec fn grouped_indices(groups: Seq<ChartGroupModel>) -> Seq<(u32, ChartAxisGroup)>
    decreases groups.len(),
{
    if groups.len() == 0 {
        Seq::empty()
    } else {
        grouped_indices(groups.drop_last()) + groups.last().series_raw_indices@.map_values(
            |r: u32| (r, groups.last().axis_group),
        )
    }
}

/// Whether a series has `c:idx` `r` and sits on axis group `g`.
pub open spec fn series_on(series: Seq<SeriesModel>, r: u32, g: ChartAxisGroup) -> bool {
    exists|i: int| 0 <= i < series.len() && (#[trigger] series[i]).raw_index == Some(r) && series[i].axis_group == g
}

/// The groups of a chart can be overlaid as loaded: there is a group; every
/// series has its own `c:idx`; no index is in two groups or twice in one;
/// each grouped index belongs to a series on the group's axis group; and
/// every series is grouped.
pub open spec fn overlay_is_stable(chart: ChartModel) -> bool {
    let series = chart.series@;
    let grouped = grouped_indices(chart.groups@);
    &&& chart.groups@.len() > 0
    &&& forall|i: int| 0 <= i < series.len() ==> (#[trigger] series[i]).raw_index is Some
    &&& forall|i: int, j: int| 0 <= i < j < series.len() ==> series[i].raw_index != series[j].raw_index
    &&& forall|a: int, b: int| 0 <= a < b < grouped.len() ==> grouped[a].0 != grouped[b].0
    &&& forall|a: int| 0 <= a < grouped.len() ==> series_on(series, (#[trigger] grouped[a]).0, grouped[a].1)
    &&& grouped.len() == series.len()
}

fn collect_grouped_indices(groups: &Vec<ChartGroupModel>) -> (r: Vec<(u32, ChartAxisGroup)>)
    ensures
        r@ == grouped_indices(groups@),
{
    let mut out: Vec<(u32, ChartAxisGroup)> = Vec::new();
    let mut g: usize = 0;
    assert(groups@.subrange(0, 0) =~= Seq::<ChartGroupModel>::empty());
    while g < groups.len()
        invariant
            g <= groups@.len(),
            out@ == grouped_indices(groups@.subrange(0, g as int)),
        decreases groups@.len() - g,
    {
        let group = &groups[g];
        let ghost before = out@;
        let mut k: usize = 0;
        while k < group.series_raw_indices.len()
            invariant
                k <= group.series_raw_indices@.len(),
                out@ == before + group.series_raw_indices@.subrange(0, k as int).map_values(
                    |r: u32| (r, group.axis_group),
                ),
            decreases group.series_raw_indices@.len() - k,
        {
            out.push((group.series_raw_indices[k], group.axis_group));
            assert(group.series_raw_indices@.subrange(0, k + 1).map_values(|r: u32| (r, group.axis_group))
                =~= group.series_raw_indices@.subrange(0, k as int).map_values(|r: u32| (r, group.axis_group)).push(
                (group.series_raw_indices@[k as int], group.axis_group),
            ));
            k += 1;
        }
        assert(group.series_raw_indices@.subrange(0, k as int) =~= group.series_raw_indices@);
        assert(groups@.subrange(0, g + 1).drop_last() =~= groups@.subrange(0, g as int));
        g += 1;
    }
    assert(groups@.subrange(0, groups@.len() as int) =~= groups@);
    out
}

/// Whether a chart's groups can be overlaid as loaded.
pub fn chart_group_overlay_is_stable(chart: &ChartModel) -> (r: bool)
    ensures
        r == overlay_is_stable(*chart),
{
    if chart.groups.len() == 0 {
        return false;
    }
    let series = &chart.series;
    let mut i: usize = 0;
    while i < series.len()
        invariant
            i <= series@.len(),
            series@ == chart.series@,
            chart.groups@.len() > 0,
            forall|a: int| 0 <= a < i ==> (#[trigger] series@[a]).raw_index is Some,
            forall|a: int, b: int| 0 <= a < b < i ==> series@[a].raw_index != series@[b].raw_index,
        decreases series@.len() - i,
    {
        let raw = match series[i].raw_index {
            Some(r) => r,
            None => {
                assert(series@[i as int].raw_index is None);
                assert(!overlay_is_stable(*chart));
                return false;
            },
        };
        let mut j: usize = 0;
        while j < i
            invariant
                j <= i < series@.len(),
                series@ == chart.series@,
                series@[i as int].raw_index == Some(raw),
                forall|b: int| 0 <= b < j ==> series@[b].raw_index != Some(raw),
            decreases i - j,
        {
            if series[j].raw_index == Some(raw) {
                assert(series@[j as int].raw_index == series@[i as int].raw_index);
                assert(!overlay_is_stable(*chart));
                return false;
            }
            j += 1;
        }
        i += 1;
    }
    let grouped = collect_grouped_indices(&chart.groups);
    let mut a: usize = 0;
    while a < grouped.len()
        invariant
            a <= grouped@.len(),
            series@ == chart.series@,
            chart.groups@.len() > 0,
            forall|x: int| 0 <= x < series@.len() ==> (#[trigger] series@[x]).raw_index is Some,
            forall|x: int, y: int| 0 <= x < y < series@.len() ==> series@[x].raw_index != series@[y].raw_index,
            grouped@ == grouped_indices(chart.groups@),
            forall|x: int, y: int| 0 <= x < y < a ==> grouped@[x].0 != grouped@[y].0,
            forall|x: int| 0 <= x < a ==> series_on(series@, (#[trigger] grouped@[x]).0, grouped@[x].1),
        decreases grouped@.len() - a,
    {
        let (raw, group_axis) = grouped[a];
        let mut b: usize = 0;
        while b < a
            invariant
                b <= a < grouped@.len(),
                grouped@ == grouped_indices(chart.groups@),
                grouped@[a as int].0 == raw,
                forall|y: int| 0 <= y < b ==> grouped@[y].0 != raw,
            decreases a - b,
        {
            if grouped[b].0 == raw {
                assert(grouped@[b as int].0 == grouped@[a as int].0);
                assert(!overlay_is_stable(*chart));
                return false;
            }
            b += 1;
        }
        let mut found = false;
        let mut s: usize = 0;
        while s < series.len()
            invariant
                s <= series@.len(),
                found ==> series_on(series@, raw, group_axis),
                !found ==> forall|t: int| 0 <= t < s ==> !((#[trigger] series@[t]).raw_index == Some(raw) && series@[t].axis_group == group_axis),
            decreases series@.len() - s,
        {
            if series[s].raw_index == Some(raw) && series[s].axis_group == group_axis {
                assert(series@[s as int].raw_index == Some(raw) && series@[s as int].axis_group == group_axis);
                found = true;
            }
            s += 1;
        }
        if !found {
            assert(grouped@[a as int] == (raw, group_axis));
            assert(!series_on(series@, raw, group_axis));
            assert(!overlay_is_stable(*chart));
            return false;
        }
        assert(grouped@[a as int] == (raw, group_axis));
        a += 1;
    }
    grouped.len() == series.len()
}

/// Whether the group at position `g` lists the series `c:idx` `r`.
pub open spec fn group_has_series(groups: Seq<ChartGroupModel>, g: int, r: u32) -> bool {
    groups[g].series_raw_indices@.contains(r)
}

/// Whether the group at position `g` is the one group that lists series
/// `c:idx` `r`.
pub open spec fn sole_owner(groups: Seq<ChartGroupModel>, r: u32, g: int) -> bool {
    &&& 0 <= g < groups.len()
    &&& group_has_series(groups, g, r)
    &&& forall|h: int| 0 <= h < groups.len() && h != g ==> !group_has_series(groups, h, r)
}

/// The message for a series index that no group lists.
pub open spec fn no_owner_message(r: u32) -> Seq<char> {
    "chart series c:idx "@ + decimal(r as nat) + " has no owning chart group"@
}

/// The message for a series index that several groups list.
pub open spec fn many_owners_message(r: u32) -> Seq<char> {
    "chart series c:idx "@ + decimal(r as nat) + " belongs to multiple chart groups"@
}

fn group_lists(group: &ChartGroupModel, raw_index: u32) -> (r: bool)
    ensures
        r == group.series_raw_indices@.contains(raw_index),
{
    let mut k: usize = 0;
    while k < group.series_raw_indices.len()
        invariant
            k <= group.series_raw_indices@.len(),
            forall|j: int| 0 <= j < k ==> group.series_raw_indices@[j] != raw_index,
        decreases group.series_raw_indices@.len() - k,
    {
        if group.series_raw_indices[k] == raw_index {
            assert(group.series_raw_indices@[k as int] == raw_index);
            return true;
        }
        k += 1;
    }
    false
}

/// The position of the one group that lists series `c:idx` `raw_index`; an
/// invalid-state error when no group, or more than one, lists it.
pub fn chart_group_index_for_series_raw_index(chart: &ChartModel, raw_index: u32) -> (r: Result<usize, OmError>)
    ensures
        match r {
            Ok(g) => g < chart.groups@.len() && group_has_series(chart.groups@, g as int, raw_index)
                && forall|h: int| 0 <= h < chart.groups@.len() && h != g ==> !group_has_series(chart.groups@, h, raw_index),
            Err(e) => e.code == OmErrorCode::InvalidState && (forall|g: int| !sole_owner(chart.groups@, raw_index, g)) && (
                if forall|h: int| 0 <= h < chart.groups@.len() ==> !group_has_series(chart.groups@, h, raw_index) {
                    e.message@ == no_owner_message(raw_index)
                } else {
                    e.message@ == many_owners_message(raw_index)
                }),
        },
{
    let mut found: Option<usize> = None;
    let mut g: usize = 0;
    while g < chart.groups.len()
        invariant
            g <= chart.groups@.len(),
            match found {
                Some(f) => f < g && group_has_series(chart.groups@, f as int, raw_index)
                    && forall|h: int| 0 <= h < g && h != f ==> !group_has_series(chart.groups@, h, raw_index),
                None => forall|h: int| 0 <= h < g ==> !group_has_series(chart.groups@, h, raw_index),
            },
        decreases chart.groups@.len() - g,
    {
        if group_lists(&chart.groups[g], raw_index) {
            match found {
                Some(f) => {
                    proof {
                        reveal_strlit("chart series c:idx ");
                        reveal_strlit(" belongs to multiple chart groups");
                    }
                    let mut message = String::from_str("chart series c:idx ");
                    let number = decimal_text(raw_index as u64);
                    message.append(number.as_str());
                    message.append(" belongs to multiple chart groups");
                    assert(group_has_series(chart.groups@, f as int, raw_index));
                    assert(group_has_series(chart.groups@, g as int, raw_index));
                    assert forall|x: int| !sole_owner(chart.groups@, raw_index, x) by {
                        if x != f as int {
                            assert(group_has_series(chart.groups@, f as int, raw_index));
                        } else {
                            assert(group_has_series(chart.groups@, g as int, raw_index));
                        }
                    }
                    return Err(OmError { code: OmErrorCode::InvalidState, message });
                },
                None => {
                    found = Some(g);
                },
            }
        }
        g += 1;
    }
    match found {
        Some(f) => Ok(f),
        None => {
            proof {
                reveal_strlit("chart series c:idx ");
                reveal_strlit(" has no owning chart group");
            }
            let mut message = String::from_str("chart series c:idx ");
            let number = decimal_text(raw_index as u64);
            message.append(number.as_str());
            message.append(" has no owning chart group");
            Err(OmError { code: OmErrorCode::InvalidState, message })
        },
    }
}

/// The key by which the series of a volume stock chart are ordered: the
/// series' `c:order`, else its position, then its position.
pub open spec fn volume_key_lt(series: Seq<SeriesModel>, a: int, b: int) -> bool {
    let ka = match series[a].order { Some(o) => o as int, None => a };
    let kb = match series[b].order { Some(o) => o as int, None => b };
    ka < kb || (ka == kb && a < b)
}

/// The position of the first series in volume-stock order among the first `k`.
pub open spec fn volume_first_upto(series: Seq<SeriesModel>, k: int) -> int
    decreases k,
{
    if k <= 1 {
        0
    } else {
        let m = volume_first_upto(series, k - 1);
        if volume_key_lt(series, k - 1, m) { k - 1 } else { m }
    }
}

/// The message for a volume stock chart with the wrong number of series.
pub open spec fn series_count_message(n: nat) -> Seq<char> {
    "volume stock charts require exactly "@ + decimal(n) + " ordered series"@
}

/// The message for volume stock series on the wrong axis groups.
pub open spec fn volume_axis_groups_message() -> Seq<char> {
    "volume stock charts require the volume series on the primary axis and price series on the secondary axis"@
}

/// The message for a volume stock chart without its three axes.
pub open spec fn volume_axes_message() -> Seq<char> {
    "volume stock charts require shared category, primary volume, and secondary price axes"@
}

/// The failure, if any, of the volume-stock checks on a chart: a volume
/// stock chart has its fixed number of series, the first in order on the
/// primary axis group and the others on the secondary one, and a primary
/// category-like axis, a primary value axis and a secondary value axis.
pub open spec fn volume_stock_failure(chart: ChartModel) -> Option<Seq<char>> {
    let series = chart.series@;
    let axes = chart.axes@;
    if !is_volume_stock(chart.chart_type) {
        None
    } else if series.len() != volume_stock_count(chart.chart_type)->0 {
        Some(series_count_message(volume_stock_count(chart.chart_type)->0 as nat))
    } else if series[volume_first_upto(series, series.len() as int)].axis_group != ChartAxisGroup::Primary
        || exists|i: int| 0 <= i < series.len() && i != volume_first_upto(series, series.len() as int)
            && (#[trigger] series[i]).axis_group != ChartAxisGroup::Secondary {
        Some(volume_axis_groups_message())
    } else if !(first_axis(axes, Some(ChartAxisGroup::Primary), false) is Some
        && first_axis(axes, Some(ChartAxisGroup::Primary), true) is Some
        && first_axis(axes, Some(ChartAxisGroup::Secondary), true) is Some) {
        Some(volume_axes_message())
    } else {
        None
    }
}

proof fn lemma_volume_first_bound(series: Seq<SeriesModel>, k: int)
    ensures
        k >= 1 ==> 0 <= volume_first_upto(series, k) < k,
    decreases k,
{
    if k > 1 {
        lemma_volume_first_bound(series, k - 1);
    }
}

/// Checks the series and axes of a volume stock chart; other charts pass.
pub fn validate_volume_stock_chart(chart: &ChartModel) -> (r: Result<(), OmError>)
    ensures
        match volume_stock_failure(*chart) {
            None => r is Ok,
            Some(m) => r matches Err(e) && e.code == OmErrorCode::InvalidState && e.message@ == m,
        },
{
    if !chart_type_is_volume_stock(&chart.chart_type) {
        return Ok(());
    }
    proof {
        crate::chart_types::lemma_volume_stock_count(chart.chart_type);
    }
    let expected = match volume_stock_series_count(&chart.chart_type) {
        Some(n) => n,
        None => {
            return Ok(());
        },
    };
    let series = &chart.series;
    if series.len() != expected {
        proof {
            reveal_strlit("volume stock charts require exactly ");
            reveal_strlit(" ordered series");
        }
        let mut message = String::from_str("volume stock charts require exactly ");
        let number = decimal_text(expected as u64);
        message.append(number.as_str());
        message.append(" ordered series");
        return Err(OmError { code: OmErrorCode::InvalidState, message });
    }
    let mut first: usize = 0;
    let mut k: usize = 1;
    while k < series.len()
        invariant
            1 <= k <= series@.len(),
            series@.len() == expected,
            expected <= 5,
            first == volume_first_upto(series@, k as int),
            first < k,
        decreases series@.len() - k,
    {
        let key_k: u64 = match series[k].order { Some(o) => o as u64, None => k as u64 };
        let key_m: u64 = match series[first].order { Some(o) => o as u64, None => first as u64 };
        if key_k < key_m || (key_k == key_m && k < first) {
            first = k;
        }
        k += 1;
    }
    let mut groups_ok = series[first].axis_group == ChartAxisGroup::Primary;
    let mut i: usize = 0;
    while i < series.len()
        invariant
            i <= series@.len(),
            first < series@.len(),
            groups_ok == (series@[first as int].axis_group == ChartAxisGroup::Primary && forall|j: int|
                0 <= j < i && j != first ==> (#[trigger] series@[j]).axis_group == ChartAxisGroup::Secondary),
        decreases series@.len() - i,
    {
        if i != first && series[i].axis_group != ChartAxisGroup::Secondary {
            groups_ok = false;
        }
        i += 1;
    }
    if !groups_ok {
        return Err(OmError {
            code: OmErrorCode::InvalidState,
            message: String::from_str(
                "volume stock charts require the volume series on the primary axis and price series on the secondary axis",
            ),
        });
    }
    let has_primary_category = find_axis(&chart.axes, Some(ChartAxisGroup::Primary), false).is_some();
    let has_primary_value = find_axis(&chart.axes, Some(ChartAxisGroup::Primary), true).is_some();
    let has_secondary_value = find_axis(&chart.axes, Some(ChartAxisGroup::Secondary), true).is_some();
    if !(has_primary_category && has_primary_value && has_secondary_value) {
        return Err(OmError {
            code: OmErrorCode::InvalidState,
            message: String::from_str(
                "volume stock charts require shared category, primary volume, and secondary price axes",
            ),
        });
    }
    Ok(())
}

/// The line flag that a chart-group child element name carries.
pub open spec fn group_line_flag(group: ChartGroupModel, n: Seq<char>) -> Option<bool> {
    if n == "serLines"@ {
        group.has_series_lines
    } else if n == "dropLines"@ {
        group.has_drop_lines
    } else if n == "hiLowLines"@ {
        group.has_hi_lo_lines
    } else if n == "upDownBars"@ {
        group.has_up_down_bars
    } else {
        None
    }
}

/// The line flag of a group for a child element name.
pub fn chart_group_line_flag(group: &ChartGroupModel, local_name: &[char]) -> (r: Option<bool>)
    ensures
        r == group_line_flag(*group, local_name@),
{
    if chars_eq_str(local_name, "serLines") {
        group.has_series_lines
    } else if chars_eq_str(local_name, "dropLines") {
        group.has_drop_lines
    } else if chars_eq_str(local_name, "hiLowLines") {
        group.has_hi_lo_lines
    } else if chars_eq_str(local_name, "upDownBars") {
        group.has_up_down_bars
    } else {
        None
    }
}

/// `1` for true and `0` for false.
pub open spec fn flag_text(b: bool) -> Seq<char> {
    if b { "1"@ } else { "0"@ }
}

/// The value text of an optional flag.
pub open spec fn opt_flag_text(b: Option<bool>) -> Option<Seq<char>> {
    match b {
        Some(v) => Some(flag_text(v)),
        None => None,
    }
}

/// The value text of an optional count.
pub open spec fn opt_number_text(n: Option<u32>) -> Option<Seq<char>> {
    match n {
        Some(v) => Some(decimal(v as nat)),
        None => None,
    }
}

/// The value that a group writes for one of its direct property elements.
pub open spec fn group_property_value(group: ChartGroupModel, n: Seq<char>) -> Option<Seq<char>> {
    if n == "varyColors"@ {
        opt_flag_text(group.vary_by_categories)
    } else if n == "gapWidth"@ {
        opt_number_text(group.gap_width)
    } else if n == "gapDepth"@ {
        opt_number_text(group.gap_depth)
    } else if n == "overlap"@ {
        match group.overlap {
            Some(v) => Some(signed_decimal(v as int)),
            None => None,
        }
    } else if n == "firstSliceAng"@ {
        opt_number_text(group.first_slice_angle)
    } else if n == "bubbleScale"@ {
        opt_number_text(group.bubble_scale)
    } else if n == "showNegBubbles"@ {
        opt_flag_text(group.show_negative_bubbles)
    } else if n == "bubble3D"@ {
        opt_flag_text(group.has_3d_shading)
    } else if n == "holeSize"@ {
        opt_number_text(group.doughnut_hole_size)
    } else if n == "secondPieSize"@ {
        opt_number_text(group.second_plot_size)
    } else if n == "sizeRepresents"@ {
        match group.size_represents {
            Some(v) => Some(size_represents_name(v)@),
            None => None,
        }
    } else if n == "splitType"@ {
        match group.split_type {
            Some(v) => Some(split_type_name(v)@),
            None => None,
        }
    } else if n == "splitPos"@ {
        opt_view(group.split_value_text)
    } else {
        None
    }
}

fn flag_string(b: bool) -> (r: String)
    ensures
        r@ == flag_text(b),
{
    proof {
        reveal_strlit("1");
        reveal_strlit("0");
    }
    if b { String::from_str("1") } else { String::from_str("0") }
}

fn opt_flag_string(b: Option<bool>) -> (r: Option<String>)
    ensures
        opt_view(r) == opt_flag_text(b),
{
    match b {
        Some(v) => Some(flag_string(v)),
        None => None,
    }
}

fn opt_number_string(n: Option<u32>) -> (r: Option<String>)
    ensures
        opt_view(r) == opt_number_text(n),
{
    match n {
        Some(v) => Some(decimal_text(v as u64)),
        None => None,
    }
}

/// The value a group writes for one of its direct property elements, if any.
pub fn chart_group_direct_property_value(group: &ChartGroupModel, local_name: &[char]) -> (r: Option<String>)
    ensures
        opt_view(r) == group_property_value(*group, local_name@),
{
    let n = local_name;
    if chars_eq_str(n, "varyColors") {
        opt_flag_string(group.vary_by_categories)
    } else if chars_eq_str(n, "gapWidth") {
        opt_number_string(group.gap_width)
    } else if chars_eq_str(n, "gapDepth") {
        opt_number_string(group.gap_depth)
    } else if chars_eq_str(n, "overlap") {
        match group.overlap {
            Some(v) => Some(signed_decimal_text(v as i64)),
            None => None,
        }
    } else if chars_eq_str(n, "firstSliceAng") {
        opt_number_string(group.first_slice_angle)
    } else if chars_eq_str(n, "bubbleScale") {
        opt_number_string(group.bubble_scale)
    } else if chars_eq_str(n, "showNegBubbles") {
        opt_flag_string(group.show_negative_bubbles)
    } else if chars_eq_str(n, "bubble3D") {
        opt_flag_string(group.has_3d_shading)
    } else if chars_eq_str(n, "holeSize") {
        opt_number_string(group.doughnut_hole_size)
    } else if chars_eq_str(n, "secondPieSize") {
        opt_number_string(group.second_plot_size)
    } else if chars_eq_str(n, "sizeRepresents") {
        match group.size_represents {
            Some(v) => Some(String::from_str(chart_size_represents_xml_value(v))),
            None => None,
        }
    } else if chars_eq_str(n, "splitType") {
        match group.split_type {
            Some(v) => Some(String::from_str(chart_split_type_xml_value(v))),
            None => None,
        }
    } else if chars_eq_str(n, "splitPos") {
        match &group.split_value_text {
            Some(t) => Some(t.clone()),
            None => None,
        }
    } else {
        None
    }
}

/// The explosion a pie or doughnut chart writes: the model's, else 25 for
/// the exploded chart types; none for other chart types.
pub open spec fn explosion_value(chart: ChartModel) -> Option<Seq<char>> {
    if !supports_explosion(chart.chart_type) {
        None
    } else {
        match chart.explosion {
            Some(v) => Some(decimal(v as nat)),
            None => if chart.chart_type == ChartType::PieExploded || chart.chart_type == ChartType::Pie3DExploded
                || chart.chart_type == ChartType::DoughnutExploded {
                Some(decimal(25))
            } else {
                None
            },
        }
    }
}

/// The `c:explosion` value of a chart.
pub fn chart_explosion_xml_value(chart: &ChartModel) -> (r: Option<String>)
    ensures
        opt_view(r) == explosion_value(*chart),
{
    if !chart_type_supports_explosion(&chart.chart_type) {
        return None;
    }
    match chart.explosion {
        Some(v) => Some(decimal_text(v as u64)),
        None => match chart.chart_type {
            ChartType::PieExploded | ChartType::Pie3DExploded | ChartType::DoughnutExploded => Some(decimal_text(25)),
            _ => None,
        },
    }
}

/// The text of an axis's display-unit label: the label's own text, else the
/// unit's name, else nothing.
pub open spec fn display_unit_label_text(axis: AxisModel) -> Seq<char> {
    match axis.display_unit_label {
        Some(t) => t@,
        None => match axis.display_unit {
            Some(ChartAxisDisplayUnit::BuiltIn(u)) => crate::chart_types::built_in_unit_label(u)@,
            Some(ChartAxisDisplayUnit::Custom(v)) => v@,
            None => Seq::empty(),
        },
    }
}

/// The text of an axis's display-unit label.
pub fn chart_axis_display_unit_label_text(axis: &AxisModel) -> (r: String)
    ensures
        r@ == display_unit_label_text(*axis),
{
    if let Some(label) = &axis.display_unit_label {
        return label.clone();
    }
    match &axis.display_unit {
        Some(ChartAxisDisplayUnit::BuiltIn(u)) => String::from_str(crate::chart_types::chart_built_in_display_unit_label_text(*u)),
        Some(ChartAxisDisplayUnit::Custom(v)) => v.clone(),
        None => String::new(),
    }
}


/// The value a group writes for each of its direct numeric and flag
/// elements is the text of the one model field that element stands for:
/// `gapWidth` its gap width, `gapDepth` its gap depth, `overlap` its overlap
/// (signed), `firstSliceAng` its first slice angle, `bubbleScale` its bubble
/// scale, `holeSize` its doughnut hole size, `secondPieSize` its second plot
/// size, and `varyColors`, `showNegBubbles`, `bubble3D` their flags as `1` or
/// `0`; none exactly when that field is unset.
pub proof fn lemma_group_property_values(group: ChartGroupModel)
    ensures
        group_property_value(group, "gapWidth"@) == (match group.gap_width {
            Some(v) => Some(decimal(v as nat)),
            None => None::<Seq<char>>,
        }),
        group_property_value(group, "gapDepth"@) == (match group.gap_depth {
            Some(v) => Some(decimal(v as nat)),
            None => None::<Seq<char>>,
        }),
        group_property_value(group, "overlap"@) == (match group.overlap {
            Some(v) => Some(signed_decimal(v as int)),
            None => None::<Seq<char>>,
        }),
        group_property_value(group, "firstSliceAng"@) == (match group.first_slice_angle {
            Some(v) => Some(decimal(v as nat)),
            None => None::<Seq<char>>,
        }),
        group_property_value(group, "bubbleScale"@) == (match group.bubble_scale {
            Some(v) => Some(decimal(v as nat)),
            None => None::<Seq<char>>,
        }),
        group_property_value(group, "holeSize"@) == (match group.doughnut_hole_size {
            Some(v) => Some(decimal(v as nat)),
            None => None::<Seq<char>>,
        }),
        group_property_value(group, "secondPieSize"@) == (match group.second_plot_size {
            Some(v) => Some(decimal(v as nat)),
            None => None::<Seq<char>>,
        }),
        group_property_value(group, "varyColors"@) == (match group.vary_by_categories {
            Some(b) => Some(if b { "1"@ } else { "0"@ }),
            None => None::<Seq<char>>,
        }),
        group_property_value(group, "showNegBubbles"@) == (match group.show_negative_bubbles {
            Some(b) => Some(if b { "1"@ } else { "0"@ }),
            None => None::<Seq<char>>,
        }),
        group_property_value(group, "bubble3D"@) == (match group.has_3d_shading {
            Some(b) => Some(if b { "1"@ } else { "0"@ }),
            None => None::<Seq<char>>,
        }),
{
    reveal_strlit("varyColors");
    reveal_strlit("gapWidth");
    reveal_strlit("gapDepth");
    reveal_strlit("overlap");
    reveal_strlit("firstSliceAng");
    reveal_strlit("bubbleScale");
    reveal_strlit("showNegBubbles");
    reveal_strlit("bubble3D");
    reveal_strlit("holeSize");
    reveal_strlit("secondPieSize");
    assert("gapWidth"@ != "varyColors"@) by { assert("gapWidth"@.len() != "varyColors"@.len()); }
    assert("gapDepth"@ != "varyColors"@) by { assert("gapDepth"@.len() != "varyColors"@.len()); }
    assert("gapDepth"@ != "gapWidth"@) by { assert("gapDepth"@[3] != "gapWidth"@[3]); }
    assert("overlap"@ != "varyColors"@) by { assert("overlap"@.len() != "varyColors"@.len()); }
    assert("overlap"@ != "gapWidth"@) by { assert("overlap"@.len() != "gapWidth"@.len()); }
    assert("overlap"@ != "gapDepth"@) by { assert("overlap"@.len() != "gapDepth"@.len()); }
    assert("firstSliceAng"@ != "varyColors"@) by { assert("firstSliceAng"@.len() != "varyColors"@.len()); }
    assert("firstSliceAng"@ != "gapWidth"@) by { assert("firstSliceAng"@.len() != "gapWidth"@.len()); }
    assert("firstSliceAng"@ != "gapDepth"@) by { assert("firstSliceAng"@.len() != "gapDepth"@.len()); }
    assert("firstSliceAng"@ != "overlap"@) by { assert("firstSliceAng"@.len() != "overlap"@.len()); }
    assert("bubbleScale"@ != "varyColors"@) by { assert("bubbleScale"@.len() != "varyColors"@.len()); }
    assert("bubbleScale"@ != "gapWidth"@) by { assert("bubbleScale"@.len() != "gapWidth"@.len()); }
    assert("bubbleScale"@ != "gapDepth"@) by { assert("bubbleScale"@.len() != "gapDepth"@.len()); }
    assert("bubbleScale"@ != "overlap"@) by { assert("bubbleScale"@.len() != "overlap"@.len()); }
    assert("bubbleScale"@ != "firstSliceAng"@) by { assert("bubbleScale"@.len() != "firstSliceAng"@.len()); }
    assert("showNegBubbles"@ != "varyColors"@) by { assert("showNegBubbles"@.len() != "varyColors"@.len()); }
    assert("showNegBubbles"@ != "gapWidth"@) by { assert("showNegBubbles"@.len() != "gapWidth"@.len()); }
    assert("showNegBubbles"@ != "gapDepth"@) by { assert("showNegBubbles"@.len() != "gapDepth"@.len()); }
    assert("showNegBubbles"@ != "overlap"@) by { assert("showNegBubbles"@.len() != "overlap"@.len()); }
    assert("showNegBubbles"@ != "firstSliceAng"@) by { assert("showNegBubbles"@.len() != "firstSliceAng"@.len()); }
    assert("showNegBubbles"@ != "bubbleScale"@) by { assert("showNegBubbles"@.len() != "bubbleScale"@.len()); }
    assert("bubble3D"@ != "varyColors"@) by { assert("bubble3D"@.len() != "varyColors"@.len()); }
    assert("bubble3D"@ != "gapWidth"@) by { assert("bubble3D"@[0] != "gapWidth"@[0]); }
    assert("bubble3D"@ != "gapDepth"@) by { assert("bubble3D"@[0] != "gapDepth"@[0]); }
    assert("bubble3D"@ != "overlap"@) by { assert("bubble3D"@.len() != "overlap"@.len()); }
    assert("bubble3D"@ != "firstSliceAng"@) by { assert("bubble3D"@.len() != "firstSliceAng"@.len()); }
    assert("bubble3D"@ != "bubbleScale"@) by { assert("bubble3D"@.len() != "bubbleScale"@.len()); }
    assert("bubble3D"@ != "showNegBubbles"@) by { assert("bubble3D"@.len() != "showNegBubbles"@.len()); }
    assert("holeSize"@ != "varyColors"@) by { assert("holeSize"@.len() != "varyColors"@.len()); }
    assert("holeSize"@ != "gapWidth"@) by { assert("holeSize"@[0] != "gapWidth"@[0]); }
    assert("holeSize"@ != "gapDepth"@) by { assert("holeSize"@[0] != "gapDepth"@[0]); }
    assert("holeSize"@ != "overlap"@) by { assert("holeSize"@.len() != "overlap"@.len()); }
    assert("holeSize"@ != "firstSliceAng"@) by { assert("holeSize"@.len() != "firstSliceAng"@.len()); }
    assert("holeSize"@ != "bubbleScale"@) by { assert("holeSize"@.len() != "bubbleScale"@.len()); }
    assert("holeSize"@ != "showNegBubbles"@) by { assert("holeSize"@.len() != "showNegBubbles"@.len()); }
    assert("holeSize"@ != "bubble3D"@) by { assert("holeSize"@[0] != "bubble3D"@[0]); }
    assert("secondPieSize"@ != "varyColors"@) by { assert("secondPieSize"@.len() != "varyColors"@.len()); }
    assert("secondPieSize"@ != "gapWidth"@) by { assert("secondPieSize"@.len() != "gapWidth"@.len()); }
    assert("secondPieSize"@ != "gapDepth"@) by { assert("secondPieSize"@.len() != "gapDepth"@.len()); }
    assert("secondPieSize"@ != "overlap"@) by { assert("secondPieSize"@.len() != "overlap"@.len()); }
    assert("secondPieSize"@ != "firstSliceAng"@) by { assert("secondPieSize"@[0] != "firstSliceAng"@[0]); }
    assert("secondPieSize"@ != "bubbleScale"@) by { assert("secondPieSize"@.len() != "bubbleScale"@.len()); }
    assert("secondPieSize"@ != "showNegBubbles"@) by { assert("secondPieSize"@.len() != "showNegBubbles"@.len()); }
    assert("secondPieSize"@ != "bubble3D"@) by { assert("secondPieSize"@.len() != "bubble3D"@.len()); }
    assert("secondPieSize"@ != "holeSize"@) by { assert("secondPieSize"@.len() != "holeSize"@.len()); }
}

/// A group writes its bubble-size meaning, split type and split position
/// (as its number text) for `sizeRepresents`, `splitType` and `splitPos`;
/// none exactly when the field is unset.
pub proof fn lemma_group_split_values(group: ChartGroupModel)
    ensures
        group_property_value(group, "sizeRepresents"@) == (match group.size_represents {
            Some(v) => Some(size_represents_name(v)@),
            None => None::<Seq<char>>,
        }),
        group_property_value(group, "splitType"@) == (match group.split_type {
            Some(v) => Some(split_type_name(v)@),
            None => None::<Seq<char>>,
        }),
        group_property_value(group, "splitPos"@) == opt_view(group.split_value_text),
{
    reveal_strlit("varyColors");
    reveal_strlit("gapWidth");
    reveal_strlit("gapDepth");
    reveal_strlit("overlap");
    reveal_strlit("firstSliceAng");
    reveal_strlit("bubbleScale");
    reveal_strlit("showNegBubbles");
    reveal_strlit("bubble3D");
    reveal_strlit("holeSize");
    reveal_strlit("secondPieSize");
    reveal_strlit("sizeRepresents");
    reveal_strlit("splitType");
    reveal_strlit("splitPos");
    assert("sizeRepresents"@ != "varyColors"@) by { assert("sizeRepresents"@.len() != "varyColors"@.len()); }
    assert("sizeRepresents"@ != "gapWidth"@) by { assert("sizeRepresents"@.len() != "gapWidth"@.len()); }
    assert("sizeRepresents"@ != "gapDepth"@) by { assert("sizeRepresents"@.len() != "gapDepth"@.len()); }
    assert("sizeRepresents"@ != "overlap"@) by { assert("sizeRepresents"@.len() != "overlap"@.len()); }
    assert("sizeRepresents"@ != "firstSliceAng"@) by { assert("sizeRepresents"@.len() != "firstSliceAng"@.len()); }
    assert("sizeRepresents"@ != "bubbleScale"@) by { assert("sizeRepresents"@.len() != "bubbleScale"@.len()); }
    assert("sizeRepresents"@ != "showNegBubbles"@) by { assert("sizeRepresents"@[1] != "showNegBubbles"@[1]); }
    assert("sizeRepresents"@ != "bubble3D"@) by { assert("sizeRepresents"@.len() != "bubble3D"@.len()); }
    assert("sizeRepresents"@ != "holeSize"@) by { assert("sizeRepresents"@.len() != "holeSize"@.len()); }
    assert("sizeRepresents"@ != "secondPieSize"@) by { assert("sizeRepresents"@.len() != "secondPieSize"@.len()); }
    assert("splitType"@ != "varyColors"@) by { assert("splitType"@.len() != "varyColors"@.len()); }
    assert("splitType"@ != "gapWidth"@) by { assert("splitType"@.len() != "gapWidth"@.len()); }
    assert("splitType"@ != "gapDepth"@) by { assert("splitType"@.len() != "gapDepth"@.len()); }
    assert("splitType"@ != "overlap"@) by { assert("splitType"@.len() != "overlap"@.len()); }
    assert("splitType"@ != "firstSliceAng"@) by { assert("splitType"@.len() != "firstSliceAng"@.len()); }
    assert("splitType"@ != "bubbleScale"@) by { assert("splitType"@.len() != "bubbleScale"@.len()); }
    assert("splitType"@ != "showNegBubbles"@) by { assert("splitType"@.len() != "showNegBubbles"@.len()); }
    assert("splitType"@ != "bubble3D"@) by { assert("splitType"@.len() != "bubble3D"@.len()); }
    assert("splitType"@ != "holeSize"@) by { assert("splitType"@.len() != "holeSize"@.len()); }
    assert("splitType"@ != "secondPieSize"@) by { assert("splitType"@.len() != "secondPieSize"@.len()); }
    assert("splitType"@ != "sizeRepresents"@) by { assert("splitType"@.len() != "sizeRepresents"@.len()); }
    assert("splitPos"@ != "varyColors"@) by { assert("splitPos"@.len() != "varyColors"@.len()); }
    assert("splitPos"@ != "gapWidth"@) by { assert("splitPos"@[0] != "gapWidth"@[0]); }
    assert("splitPos"@ != "gapDepth"@) by { assert("splitPos"@[0] != "gapDepth"@[0]); }
    assert("splitPos"@ != "overlap"@) by { assert("splitPos"@.len() != "overlap"@.len()); }
    assert("splitPos"@ != "firstSliceAng"@) by { assert("splitPos"@.len() != "firstSliceAng"@.len()); }
    assert("splitPos"@ != "bubbleScale"@) by { assert("splitPos"@.len() != "bubbleScale"@.len()); }
    assert("splitPos"@ != "showNegBubbles"@) by { assert("splitPos"@.len() != "showNegBubbles"@.len()); }
    assert("splitPos"@ != "bubble3D"@) by { assert("splitPos"@[0] != "bubble3D"@[0]); }
    assert("splitPos"@ != "holeSize"@) by { assert("splitPos"@[0] != "holeSize"@[0]); }
    assert("splitPos"@ != "secondPieSize"@) by { assert("splitPos"@.len() != "secondPieSize"@.len()); }
    assert("splitPos"@ != "sizeRepresents"@) by { assert("splitPos"@.len() != "sizeRepresents"@.len()); }
    assert("splitPos"@ != "splitType"@) by { assert("splitPos"@.len() != "splitType"@.len()); }
}

/// Two groups with the same doughnut hole size write the same `holeSize`,
/// whatever their other settings.
pub proof fn lemma_hole_size_depends_on_hole_size_only(a: ChartGroupModel, b: ChartGroupModel)
    requires
        a.doughnut_hole_size == b.doughnut_hole_size,
    ensures
        group_property_value(a, "holeSize"@) == group_property_value(b, "holeSize"@),
{
    lemma_group_property_values(a);
    lemma_group_property_values(b);
}


/// Whether axis `a` is a category-like axis (`category`) or a value axis of
/// axis group `g`.
pub open spec fn is_axis_of(a: AxisModel, g: ChartAxisGroup, category: bool) -> bool {
    a.axis_group == g && if category {
        a.kind == ChartAxisKind::Category || a.kind == ChartAxisKind::Date
    } else {
        a.kind == ChartAxisKind::Value
    }
}

/// Whether `k` is the first axis that `pick` accepts.
pub open spec fn first_picked(axes: Seq<AxisModel>, k: int, pick: spec_fn(AxisModel) -> bool) -> bool {
    &&& 0 <= k < axes.len()
    &&& pick(axes[k])
    &&& forall|j: int| 0 <= j < k ==> !pick(#[trigger] axes[j])
}

proof fn lemma_first_axis_from_finds(
    axes: Seq<AxisModel>,
    group: Option<ChartAxisGroup>,
    want_value: bool,
    i: int,
    k: int,
)
    requires
        0 <= i <= k < axes.len(),
        axis_matches(axes[k], group, want_value),
        forall|j: int| i <= j < k ==> !axis_matches(#[trigger] axes[j], group, want_value),
    ensures
        first_axis_from(axes, group, want_value, i) == Some(k),
    decreases k - i,
{
    if i < k {
        lemma_first_axis_from_finds(axes, group, want_value, i + 1, k);
    }
}

proof fn lemma_first_axis_from_none(axes: Seq<AxisModel>, group: Option<ChartAxisGroup>, want_value: bool, i: int)
    requires
        0 <= i,
        forall|j: int| i <= j < axes.len() ==> !axis_matches(#[trigger] axes[j], group, want_value),
    ensures
        first_axis_from(axes, group, want_value, i) is None,
    decreases axes.len() - i,
{
    if i < axes.len() {
        lemma_first_axis_from_none(axes, group, want_value, i + 1);
    }
}

/// Without a usable loaded crossing, a value axis crosses the first
/// category or date axis of its own axis group; only when its group has
/// none does it cross the first category or date axis of the primary group.
/// Any other axis crosses the first value axis of its own group, else of the
/// primary group, else the first value axis of any group.
pub proof fn lemma_crossing_prefers_own_group(axes: Seq<AxisModel>, axis: AxisModel, k: int)
    ensures
        axis.kind == ChartAxisKind::Value && first_picked(axes, k, |a: AxisModel| is_axis_of(a, axis.axis_group, true))
            ==> cross_target_axis(axes, axis) == Some(k),
        axis.kind == ChartAxisKind::Value && (forall|j: int|
            0 <= j < axes.len() ==> !is_axis_of(#[trigger] axes[j], axis.axis_group, true)) && first_picked(
            axes,
            k,
            |a: AxisModel| is_axis_of(a, ChartAxisGroup::Primary, true),
        ) ==> cross_target_axis(axes, axis) == Some(k),
        axis.kind != ChartAxisKind::Value && first_picked(axes, k, |a: AxisModel| is_axis_of(a, axis.axis_group, false))
            ==> cross_target_axis(axes, axis) == Some(k),
        axis.kind != ChartAxisKind::Value && (forall|j: int|
            0 <= j < axes.len() ==> !is_axis_of(#[trigger] axes[j], axis.axis_group, false)) && first_picked(
            axes,
            k,
            |a: AxisModel| is_axis_of(a, ChartAxisGroup::Primary, false),
        ) ==> cross_target_axis(axes, axis) == Some(k),
        axis.kind != ChartAxisKind::Value && (forall|j: int|
            0 <= j < axes.len() ==> !is_axis_of(#[trigger] axes[j], axis.axis_group, false) && !is_axis_of(
                axes[j],
                ChartAxisGroup::Primary,
                false,
            )) && first_picked(axes, k, |a: AxisModel| a.kind == ChartAxisKind::Value) ==> cross_target_axis(axes, axis)
            == Some(k),
{
    let own_cat = |a: AxisModel| is_axis_of(a, axis.axis_group, true);
    let own_val = |a: AxisModel| is_axis_of(a, axis.axis_group, false);
    let pri_cat = |a: AxisModel| is_axis_of(a, ChartAxisGroup::Primary, true);
    let pri_val = |a: AxisModel| is_axis_of(a, ChartAxisGroup::Primary, false);
    if axis.kind == ChartAxisKind::Value {
        if first_picked(axes, k, own_cat) {
            assert forall|j: int| 0 <= j < k implies !axis_matches(#[trigger] axes[j], Some(axis.axis_group), false) by {
                assert(!own_cat(axes[j]));
            }
            lemma_first_axis_from_finds(axes, Some(axis.axis_group), false, 0, k);
        }
        if (forall|j: int| 0 <= j < axes.len() ==> !is_axis_of(#[trigger] axes[j], axis.axis_group, true)) && first_picked(
            axes,
            k,
            pri_cat,
        ) {
            assert forall|j: int| 0 <= j < axes.len() implies !axis_matches(#[trigger] axes[j], Some(axis.axis_group), false) by {
                assert(!is_axis_of(axes[j], axis.axis_group, true));
            }
            lemma_first_axis_from_none(axes, Some(axis.axis_group), false, 0);
            assert forall|j: int| 0 <= j < k implies !axis_matches(#[trigger] axes[j], Some(ChartAxisGroup::Primary), false) by {
                assert(!pri_cat(axes[j]));
            }
            lemma_first_axis_from_finds(axes, Some(ChartAxisGroup::Primary), false, 0, k);
        }
    } else {
        if first_picked(axes, k, own_val) {
            assert forall|j: int| 0 <= j < k implies !axis_matches(#[trigger] axes[j], Some(axis.axis_group), true) by {
                assert(!own_val(axes[j]));
            }
            lemma_first_axis_from_finds(axes, Some(axis.axis_group), true, 0, k);
        }
        if (forall|j: int| 0 <= j < axes.len() ==> !is_axis_of(#[trigger] axes[j], axis.axis_group, false)) && first_picked(
            axes,
            k,
            pri_val,
        ) {
            assert forall|j: int| 0 <= j < axes.len() implies !axis_matches(#[trigger] axes[j], Some(axis.axis_group), true) by {
                assert(!is_axis_of(axes[j], axis.axis_group, false));
            }
            lemma_first_axis_from_none(axes, Some(axis.axis_group), true, 0);
            assert forall|j: int| 0 <= j < k implies !axis_matches(#[trigger] axes[j], Some(ChartAxisGroup::Primary), true) by {
                assert(!pri_val(axes[j]));
            }
            lemma_first_axis_from_finds(axes, Some(ChartAxisGroup::Primary), true, 0, k);
        }
        if (forall|j: int|
            0 <= j < axes.len() ==> !is_axis_of(#[trigger] axes[j], axis.axis_group, false) && !is_axis_of(
                axes[j],
                ChartAxisGroup::Primary,
                false,
            )) && first_picked(axes, k, |a: AxisModel| a.kind == ChartAxisKind::Value) {
            assert forall|j: int| 0 <= j < axes.len() implies !axis_matches(#[trigger] axes[j], Some(axis.axis_group), true) by {
                assert(!is_axis_of(axes[j], axis.axis_group, false));
            }
            lemma_first_axis_from_none(axes, Some(axis.axis_group), true, 0);
            assert forall|j: int| 0 <= j < axes.len() implies !axis_matches(#[trigger] axes[j], Some(ChartAxisGroup::Primary), true) by {
                assert(!is_axis_of(axes[j], ChartAxisGroup::Primary, false));
            }
            lemma_first_axis_from_none(axes, Some(ChartAxisGroup::Primary), true, 0);
            lemma_first_axis_from_finds(axes, None, true, 0, k);
        }
    }
}

/// An axis whose loaded crossing names no axis of the chart crosses the id
/// of the axis chosen above; with a loaded crossing that names an axis of
/// the chart, it keeps that crossing.
pub proof fn lemma_crossing_id(axes: Seq<AxisModel>, axis: AxisModel)
    ensures
        (axis.cross_axis_raw_id matches Some(id) && exists|k: int|
            0 <= k < axes.len() && opt_view(#[trigger] axes[k].raw_id) == Some(id@)) ==> cross_target_id(axes, axis)
            == opt_view(axis.cross_axis_raw_id),
        axis.cross_axis_raw_id is None ==> cross_target_id(axes, axis) == match cross_target_axis(axes, axis) {
            Some(k) => opt_view(axes[k].raw_id),
            None => None,
        },
{
}

} // verus!
