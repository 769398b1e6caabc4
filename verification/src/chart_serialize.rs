//! Writing a chart model as a new chart part: the series of each axis group,
//! the axes, and the chart space around them.
use vstd::prelude::*;
use crate::chart_model::{
    chart_axis_cross_target_id, chart_axis_display_unit_label_text, chart_explosion_xml_value, cross_target_id,
    display_unit_label_text, explosion_value, flag_text, AxisModel, ChartAxisDisplayUnit, ChartModel, SeriesModel,
};
use crate::chart_source::{chart_source_container_xml_string, source_container, ChartSourceExpr, ChartSourceXmlSlot};
use crate::chart_types::{
    bar_shape_name, chart_bar_shape_xml_value, chart_filtered_series_wrapper_name, chart_marker_style_xml_value,
    chart_type_for_axis_group, chart_type_supports_bar_shape, chart_type_supports_explosion,
    chart_type_supports_series_marker, chart_type_supports_series_smooth, chart_type_uses_bubble_size,
    filtered_wrapper_name, marker_style_name, supports_bar_shape, supports_explosion, supports_series_marker,
    supports_series_smooth, type_for_axis_group, uses_bubble_size, ChartAxisGroup, ChartType, axis_crosses_name,
    axis_kind_name, between_categories_name, built_in_unit_name, orientation_name, tick_label_position_name,
    tick_mark_name, time_unit_name, chart_axis_between_categories_xml_value, chart_axis_crosses_xml_value,
    chart_axis_orientation_xml_value, chart_axis_time_unit_xml_value, chart_axis_xml_name,
    chart_built_in_display_unit_xml_value, chart_tick_label_position_xml_value, chart_tick_mark_xml_value,
    ChartAxisTimeUnit,
};
use crate::chart_xml::{
    chart_series_data_labels_xml_string, enabled_element, opt_count_element, opt_flag_element, partially_escaped,
    series_labels_text, text_escape, val_element,
};
use crate::errors::{OmError, OmErrorCode};
use crate::package_xml::{error_view, ErrorView};
use crate::parts::opt_view;
use crate::sort::{lemma_sorted_by_contains, sorted_by, stable_sort};
use crate::text::{decimal, decimal_text};

verus! {

/// The sort key of series `i`: its order (its position when it has none),
/// then its position.
pub open spec fn series_key(series: Seq<SeriesModel>, i: int) -> (u32, usize) {
    (
        match series[i].order {
            Some(o) => o,
            None => i as u32,
        },
        i as usize,
    )
}

/// Keys are compared by order, then by position.
pub open spec fn key_lt(a: (u32, usize), b: (u32, usize)) -> bool {
    a.0 < b.0 || (a.0 == b.0 && a.1 < b.1)
}

/// The keys of all series, by position.
pub open spec fn series_keys(series: Seq<SeriesModel>) -> Seq<(u32, usize)> {
    Seq::new(series.len(), |i: int| series_key(series, i))
}

/// The series keys in writing order.
pub open spec fn ordered_series(series: Seq<SeriesModel>) -> Seq<(u32, usize)> {
    sorted_by(series_keys(series), |a: (u32, usize), b: (u32, usize)| key_lt(a, b))
}

/// The element name of a series: `c15:ser` for a filtered series.
pub open spec fn series_tag(s: SeriesModel) -> Seq<char> {
    if s.is_filtered {
        "c15:ser"@
    } else {
        "c:ser"@
    }
}

/// The data points of a series with their explosions.
pub open spec fn point_explosions_text(points: Seq<(u32, u32)>) -> Seq<char>
    decreases points.len(),
{
    if points.len() == 0 {
        Seq::empty()
    } else {
        point_explosions_text(points.drop_last()) + "<c:dPt>"@ + val_element("idx"@, decimal(points.last().0 as nat))
            + val_element("explosion"@, decimal(points.last().1 as nat)) + "</c:dPt>"@
    }
}

/// The marker of a series, for chart types with markers.
pub open spec fn marker_text(t: ChartType, s: SeriesModel) -> Seq<char> {
    if supports_series_marker(t) && (s.marker_style is Some || s.marker_size is Some) {
        "<c:marker>"@ + (match s.marker_style {
            Some(m) => val_element("symbol"@, marker_style_name(m)@),
            None => Seq::empty(),
        }) + (match s.marker_size {
            Some(z) => val_element("size"@, decimal(z as nat)),
            None => Seq::empty(),
        }) + "</c:marker>"@
    } else {
        Seq::empty()
    }
}

/// The container of an optional source that can be written.
pub open spec fn opt_source_text(t: ChartType, slot: ChartSourceXmlSlot, source: Option<ChartSourceExpr>) -> Seq<char> {
    match source {
        Some(x) => match source_container(t, slot, x) {
            Ok(text) => text,
            Err(_) => Seq::empty(),
        },
        None => Seq::empty(),
    }
}

/// Why an optional source cannot be written, if it cannot.
pub open spec fn source_failure(t: ChartType, slot: ChartSourceXmlSlot, source: Option<ChartSourceExpr>) -> Option<ErrorView> {
    match source {
        Some(x) => match source_container(t, slot, x) {
            Ok(_) => None,
            Err(e) => Some(e),
        },
        None => None,
    }
}

/// The first failure among a series' sources, in writing order.
pub open spec fn series_sources_failure(t: ChartType, s: SeriesModel) -> Option<ErrorView> {
    if source_failure(t, ChartSourceXmlSlot::Name, s.name) is Some {
        source_failure(t, ChartSourceXmlSlot::Name, s.name)
    } else if source_failure(t, ChartSourceXmlSlot::XValues, s.x_values) is Some {
        source_failure(t, ChartSourceXmlSlot::XValues, s.x_values)
    } else if source_failure(t, ChartSourceXmlSlot::Values, s.values) is Some {
        source_failure(t, ChartSourceXmlSlot::Values, s.values)
    } else if uses_bubble_size(t) {
        source_failure(t, ChartSourceXmlSlot::BubbleSize, s.bubble_size)
    } else {
        None
    }
}

/// The name, categories or x values, values and bubble sizes of a series.
pub open spec fn series_sources_text(t: ChartType, s: SeriesModel) -> Seq<char> {
    opt_source_text(t, ChartSourceXmlSlot::Name, s.name) + opt_source_text(t, ChartSourceXmlSlot::XValues, s.x_values)
        + opt_source_text(t, ChartSourceXmlSlot::Values, s.values) + if uses_bubble_size(t) {
        opt_source_text(t, ChartSourceXmlSlot::BubbleSize, s.bubble_size)
    } else {
        Seq::empty()
    }
}

/// The invert-if-negative, shape and smoothing settings of a series.
pub open spec fn series_tail_text(t: ChartType, s: SeriesModel) -> Seq<char> {
    (match s.invert_if_negative {
        Some(b) => val_element("invertIfNegative"@, flag_text(b)),
        None => Seq::empty(),
    }) + (match s.bar_shape {
        Some(shape) => if supports_bar_shape(t) {
            val_element("shape"@, bar_shape_name(shape)@)
        } else {
            Seq::empty()
        },
        None => Seq::empty(),
    }) + (match s.smooth {
        Some(b) => if supports_series_smooth(t) {
            val_element("smooth"@, flag_text(b))
        } else {
            Seq::empty()
        },
        None => Seq::empty(),
    })
}

/// The XML of series `i` of a chart, written for chart type `t`.
#[verifier::opaque]
pub open spec fn series_fragment(chart: ChartModel, t: ChartType, s: SeriesModel, i: int) -> Seq<char> {
    let raw = match s.raw_index {
        Some(x) => x,
        None => i as u32,
    };
    let order = match s.order {
        Some(o) => o,
        None => i as u32,
    };
    "<"@ + series_tag(s) + ">"@ + val_element("idx"@, decimal(raw as nat)) + val_element("order"@, decimal(order as nat))
        + (match explosion_value(chart) {
        Some(e) => val_element("explosion"@, e),
        None => Seq::empty(),
    }) + (if supports_explosion(t) {
        point_explosions_text(s.point_explosions@)
    } else {
        Seq::empty()
    }) + series_labels_text(s) + marker_text(t, s) + series_sources_text(t, s) + series_tail_text(t, s) + "</"@
        + series_tag(s) + ">"@
}

/// The extension that holds a filtered series.
pub open spec fn filtered_extension(wrapper: Seq<char>, fragment: Seq<char>) -> Seq<char> {
    "<c:ext uri=\"{02D57815-91ED-43cb-92C2-25804820EDAC}\"><c15:"@ + wrapper
        + " xmlns:c15=\"http://schemas.microsoft.com/office/drawing/2012/chart\">"@ + fragment + "</c15:"@ + wrapper
        + "></c:ext>"@
}

/// The message for a filtered series of a chart type without a wrapper.
pub open spec fn filtered_series_message() -> Seq<char> {
    "saving filtered series requires a supported chart type"@
}

/// The series XML and the filtered-series extensions of the first `k`
/// series in writing order that belong to axis group `g`.
pub open spec fn series_run(chart: ChartModel, g: ChartAxisGroup, ordered: Seq<(u32, usize)>, k: int) -> Result<
    (Seq<char>, Seq<char>),
    ErrorView,
>
    decreases k,
{
    if k <= 0 {
        Ok((Seq::empty(), Seq::empty()))
    } else {
        match series_run(chart, g, ordered, k - 1) {
            Err(e) => Err(e),
            Ok((sx, ex)) => series_step(chart, g, ordered[k - 1].1 as int, sx, ex),
        }
    }
}

/// A failure among the first `k` series is the failure of every longer run.
proof fn lemma_series_run_fails(chart: ChartModel, g: ChartAxisGroup, ordered: Seq<(u32, usize)>, k: int, m: int)
    requires
        0 <= k <= m,
        series_run(chart, g, ordered, k) is Err,
    ensures
        series_run(chart, g, ordered, m) == series_run(chart, g, ordered, k),
    decreases m - k,
{
    if m > k {
        lemma_series_run_fails(chart, g, ordered, k, m - 1);
    }
}

/// Adds series `i` to the series XML or the extensions of axis group `g`,
/// when it belongs to the group.
pub open spec fn series_step(chart: ChartModel, g: ChartAxisGroup, i: int, sx: Seq<char>, ex: Seq<char>) -> Result<
    (Seq<char>, Seq<char>),
    ErrorView,
> {
    let s = chart.series@[i];
    let t = type_for_axis_group(chart.chart_type, g);
    if s.axis_group != g {
        Ok((sx, ex))
    } else if series_sources_failure(t, s) is Some {
        Err(series_sources_failure(t, s)->0)
    } else if s.is_filtered {
        match filtered_wrapper_name(t) {
            None => Err((OmErrorCode::Unsupported, filtered_series_message())),
            Some(w) => Ok((sx, ex + filtered_extension(w@, series_fragment(chart, t, s, i)))),
        }
    } else {
        Ok((sx + series_fragment(chart, t, s, i), ex))
    }
}

/// The series XML of axis group `g` and the extensions that hold its
/// filtered series: the series in order (by `c:order`, then position).
pub open spec fn series_xml_for_axis_group(chart: ChartModel, g: ChartAxisGroup) -> Result<(Seq<char>, Seq<char>), ErrorView> {
    series_run(chart, g, ordered_series(chart.series@), chart.series@.len() as int)
}

/// The view of a pair-of-strings result.
pub open spec fn pair_result_view(r: Result<(String, String), OmError>) -> Result<(Seq<char>, Seq<char>), ErrorView> {
    match r {
        Ok((a, b)) => Ok((a@, b@)),
        Err(e) => Err(error_view(e)),
    }
}

fn key_before(a: &(u32, usize), b: &(u32, usize)) -> (r: bool)
    ensures
        r == key_lt(*a, *b),
{
    a.0 < b.0 || (a.0 == b.0 && a.1 < b.1)
}

pub(crate) fn push_val(out: &mut String, name: &str, value: &str)
    ensures
        final(out)@ == old(out)@ + val_element(name@, value@),
{
    proof {
        reveal_strlit("<c:");
        reveal_strlit(" val=\"");
        reveal_strlit("\"/>");
    }
    out.append("<c:");
    out.append(name);
    out.append(" val=\"");
    out.append(value);
    out.append("\"/>");
}

fn push_count(out: &mut String, name: &str, value: u32)
    ensures
        final(out)@ == old(out)@ + val_element(name@, decimal(value as nat)),
{
    let text = decimal_text(value as u64);
    push_val(out, name, text.as_str());
}

pub(crate) fn push_flag(out: &mut String, name: &str, value: bool)
    ensures
        final(out)@ == old(out)@ + val_element(name@, flag_text(value)),
{
    proof {
        reveal_strlit("1");
        reveal_strlit("0");
    }
    push_val(out, name, if value { "1" } else { "0" });
}

fn push_point_explosions(out: &mut String, points: &Vec<(u32, u32)>)
    ensures
        final(out)@ == old(out)@ + point_explosions_text(points@),
{
    proof {
        reveal_strlit("<c:dPt>");
        reveal_strlit("</c:dPt>");
    }
    let ghost start = out@;
    let mut k: usize = 0;
    assert(points@.subrange(0, 0) =~= Seq::<(u32, u32)>::empty());
    while k < points.len()
        invariant
            k <= points@.len(),
            out@ == start + point_explosions_text(points@.subrange(0, k as int)),
        decreases points@.len() - k,
    {
        let (index, explosion) = points[k];
        out.append("<c:dPt>");
        push_count(out, "idx", index);
        push_count(out, "explosion", explosion);
        out.append("</c:dPt>");
        proof {
            let p = points@.subrange(0, k + 1);
            assert(p.drop_last() =~= points@.subrange(0, k as int));
            assert(p.last() == points@[k as int]);
        }
        k += 1;
    }
    assert(points@.subrange(0, points@.len() as int) =~= points@);
}

fn push_marker(out: &mut String, t: &ChartType, s: &SeriesModel)
    ensures
        final(out)@ == old(out)@ + marker_text(*t, *s),
{
    proof {
        reveal_strlit("<c:marker>");
        reveal_strlit("</c:marker>");
    }
    if chart_type_supports_series_marker(t) && (s.marker_style.is_some() || s.marker_size.is_some()) {
        let ghost start = out@;
        out.append("<c:marker>");
        let ghost after_head = out@;
        if let Some(m) = s.marker_style {
            push_val(out, "symbol", chart_marker_style_xml_value(m));
        } else {
            assert(out@ =~= after_head + Seq::<char>::empty());
        }
        let ghost after_symbol = out@;
        if let Some(z) = s.marker_size {
            push_count(out, "size", z);
        } else {
            assert(out@ =~= after_symbol + Seq::<char>::empty());
        }
        out.append("</c:marker>");
        assert(out@ =~= start + marker_text(*t, *s));
    } else {
        assert(out@ =~= old(out)@ + Seq::<char>::empty());
    }
}

fn push_source(out: &mut String, t: &ChartType, slot: ChartSourceXmlSlot, source: &Option<ChartSourceExpr>) -> (r: Result<
    (),
    OmError,
>)
    ensures
        match source_failure(*t, slot, *source) {
            Some(e) => r matches Err(x) && error_view(x) == e,
            None => r is Ok && final(out)@ == old(out)@ + opt_source_text(*t, slot, *source),
        },
{
    match source {
        Some(x) => {
            let text = match chart_source_container_xml_string(t, slot, x) {
                Ok(text) => text,
                Err(e) => return Err(e),
            };
            out.append(text.as_str());
        },
        None => {
            assert(out@ =~= out@ + Seq::<char>::empty());
        },
    }
    Ok(())
}

fn push_sources(out: &mut String, t: &ChartType, s: &SeriesModel) -> (r: Result<(), OmError>)
    ensures
        match series_sources_failure(*t, *s) {
            Some(e) => r matches Err(x) && error_view(x) == e,
            None => r is Ok && final(out)@ == old(out)@ + series_sources_text(*t, *s),
        },
{
    let ghost start = out@;
    push_source(out, t, ChartSourceXmlSlot::Name, &s.name)?;
    push_source(out, t, ChartSourceXmlSlot::XValues, &s.x_values)?;
    push_source(out, t, ChartSourceXmlSlot::Values, &s.values)?;
    if chart_type_uses_bubble_size(t) {
        push_source(out, t, ChartSourceXmlSlot::BubbleSize, &s.bubble_size)?;
    }
    assert(out@ =~= start + series_sources_text(*t, *s));
    Ok(())
}

fn push_tail(out: &mut String, t: &ChartType, s: &SeriesModel)
    ensures
        final(out)@ == old(out)@ + series_tail_text(*t, *s),
{
    let ghost start = out@;
    if let Some(b) = s.invert_if_negative {
        push_flag(out, "invertIfNegative", b);
    }
    let ghost after_invert = out@;
    if let Some(shape) = s.bar_shape {
        if chart_type_supports_bar_shape(t) {
            push_val(out, "shape", chart_bar_shape_xml_value(shape));
        }
    }
    let ghost after_shape = out@;
    if let Some(b) = s.smooth {
        if chart_type_supports_series_smooth(t) {
            push_flag(out, "smooth", b);
        }
    }
    assert(out@ =~= start + series_tail_text(*t, *s));
}

/// The XML of series `i` of a chart, written for chart type `t`.
fn series_fragment_string(chart: &ChartModel, t: &ChartType, s: &SeriesModel, i: usize) -> (r: Result<String, OmError>)
    ensures
        match series_sources_failure(*t, *s) {
            Some(e) => r matches Err(x) && error_view(x) == e,
            None => r matches Ok(f) && f@ == series_fragment(*chart, *t, *s, i as int),
        },
{
    proof {
        reveal_strlit("<");
        reveal_strlit(">");
        reveal_strlit("</");
        reveal_strlit("c15:ser");
        reveal_strlit("c:ser");
    }
    let tag = if s.is_filtered { "c15:ser" } else { "c:ser" };
    let raw = match s.raw_index {
        Some(x) => x,
        None => i as u32,
    };
    let order = match s.order {
        Some(o) => o,
        None => i as u32,
    };
    let mut out = String::from_str("<");
    out.append(tag);
    out.append(">");
    push_count(&mut out, "idx", raw);
    push_count(&mut out, "order", order);
    let ghost before_explosion = out@;
    match chart_explosion_xml_value(chart) {
        Some(e) => push_val(&mut out, "explosion", e.as_str()),
        None => {},
    }
    let ghost before_points = out@;
    if chart_type_supports_explosion(t) {
        push_point_explosions(&mut out, &s.point_explosions);
    }
    let ghost after_points = out@;
    let labels = chart_series_data_labels_xml_string(s);
    out.append(labels.as_str());
    push_marker(&mut out, t, s);
    match push_sources(&mut out, t, s) {
        Ok(()) => {},
        Err(e) => return Err(e),
    }
    push_tail(&mut out, t, s);
    out.append("</");
    out.append(tag);
    out.append(">");
    proof {
        assert(before_explosion + (match explosion_value(*chart) {
            Some(e) => val_element("explosion"@, e),
            None => Seq::<char>::empty(),
        }) =~= before_points);
        assert(before_points + (if supports_explosion(*t) {
            point_explosions_text(s.point_explosions@)
        } else {
            Seq::<char>::empty()
        }) =~= after_points);
    }
    proof {
        reveal(series_fragment);
    }
    assert(out@ =~= series_fragment(*chart, *t, *s, i as int));
    Ok(out)
}

/// Adds series `i` to the series XML or the extensions of an axis group,
/// when it belongs to the group.
fn push_series(
    chart: &ChartModel,
    axis_group: ChartAxisGroup,
    t: &ChartType,
    idx: usize,
    series_xml: &mut String,
    extensions_xml: &mut String,
) -> (r: Result<(), OmError>)
    requires
        idx < chart.series@.len(),
        *t == type_for_axis_group(chart.chart_type, axis_group),
    ensures
        match series_step(*chart, axis_group, idx as int, old(series_xml)@, old(extensions_xml)@) {
            Ok((sx, ex)) => r is Ok && final(series_xml)@ == sx && final(extensions_xml)@ == ex,
            Err(e) => r matches Err(x) && error_view(x) == e,
        },
{
    let s = &chart.series[idx];
    if s.axis_group == axis_group {
        let fragment = match series_fragment_string(chart, t, s, idx) {
            Ok(f) => f,
            Err(e) => return Err(e),
        };
        if s.is_filtered {
            match chart_filtered_series_wrapper_name(t) {
                None => {
                    proof {
                        reveal_strlit("saving filtered series requires a supported chart type");
                    }
                    return Err(OmError {
                        code: OmErrorCode::Unsupported,
                        message: String::from_str("saving filtered series requires a supported chart type"),
                    });
                },
                Some(w) => {
                    proof {
                        reveal_strlit("<c:ext uri=\"{02D57815-91ED-43cb-92C2-25804820EDAC}\"><c15:");
                        reveal_strlit(" xmlns:c15=\"http://schemas.microsoft.com/office/drawing/2012/chart\">");
                        reveal_strlit("</c15:");
                        reveal_strlit("></c:ext>");
                    }
                    let ghost before = extensions_xml@;
                    extensions_xml.append("<c:ext uri=\"{02D57815-91ED-43cb-92C2-25804820EDAC}\"><c15:");
                    extensions_xml.append(w);
                    extensions_xml.append(" xmlns:c15=\"http://schemas.microsoft.com/office/drawing/2012/chart\">");
                    extensions_xml.append(fragment.as_str());
                    extensions_xml.append("</c15:");
                    extensions_xml.append(w);
                    extensions_xml.append("></c:ext>");
                    assert(extensions_xml@ =~= before + filtered_extension(w@, fragment@));
                },
            }
        } else {
            series_xml.append(fragment.as_str());
        }
    }
    Ok(())
}

/// The series XML of an axis group and the extensions that hold its
/// filtered series: the series of the group, in order of `c:order` (their
/// position when they have none), then position.
pub fn chart_series_xml_for_axis_group(chart: &ChartModel, axis_group: ChartAxisGroup) -> (r: Result<(String, String), OmError>)
    ensures
        pair_result_view(r) == series_xml_for_axis_group(*chart, axis_group),
{
    let ghost series = chart.series@;
    let n = chart.series.len();
    let mut keys: Vec<(u32, usize)> = Vec::new();
    let mut i: usize = 0;
    while i < n
        invariant
            i <= n,
            n == series.len(),
            series == chart.series@,
            keys@ == series_keys(series).subrange(0, i as int),
        decreases n - i,
    {
        let o = match chart.series[i].order {
            Some(o) => o,
            None => i as u32,
        };
        keys.push((o, i));
        assert(keys@ =~= series_keys(series).subrange(0, i + 1));
        i += 1;
    }
    assert(keys@ =~= series_keys(series));
    let ghost lt = |a: (u32, usize), b: (u32, usize)| key_lt(a, b);
    let ordered = stable_sort(keys, key_before, Ghost(lt));
    proof {
        lemma_sorted_by_contains(series_keys(series), lt);
    }
    assert(ordered@ == ordered_series(series));
    let t = chart_type_for_axis_group(&chart.chart_type, axis_group);
    let mut series_xml = String::new();
    let mut extensions_xml = String::new();
    let mut k: usize = 0;
    assert(series_xml@ =~= Seq::<char>::empty());
    assert(extensions_xml@ =~= Seq::<char>::empty());
    while k < ordered.len()
        invariant
            k <= ordered@.len(),
            ordered@.len() == n,
            n == series.len(),
            series == chart.series@,
            ordered@ == ordered_series(series),
            forall|y: (u32, usize)| #[trigger] ordered@.contains(y) ==> series_keys(series).contains(y),
            t == type_for_axis_group(chart.chart_type, axis_group),
            series_run(*chart, axis_group, ordered@, k as int) == Ok::<(Seq<char>, Seq<char>), ErrorView>(
                (series_xml@, extensions_xml@),
            ),
        decreases ordered@.len() - k,
    {
        let idx = ordered[k].1;
        proof {
            assert(ordered@.contains(ordered@[k as int]));
            assert(series_keys(series).contains(ordered@[k as int]));
            let j = choose|j: int| 0 <= j < series_keys(series).len() && series_keys(series)[j] == ordered@[k as int];
            assert(series_keys(series)[j].1 == j as usize);
        }
        match push_series(chart, axis_group, &t, idx, &mut series_xml, &mut extensions_xml) {
            Ok(()) => {},
            Err(e) => {
                proof {
                    lemma_series_run_fails(*chart, axis_group, ordered@, k + 1, n as int);
                }
                return Err(e);
            },
        }
        k += 1;
    }
    Ok((series_xml, extensions_xml))
}

/// A text body: the text, partially escaped, in one run of one paragraph.
pub open spec fn rich_text(text: Seq<char>) -> Seq<char> {
    "<c:tx><c:rich><a:p><a:r><a:t>"@ + partially_escaped(text) + "</a:t></a:r></a:p></c:rich></c:tx>"@
}

/// A title element for an optional title text.
pub open spec fn title_element(text: Option<String>) -> Seq<char> {
    match text {
        Some(t) => "<c:title>"@ + rich_text(t@) + "</c:title>"@,
        None => Seq::empty(),
    }
}

/// An element whose `val` is an optional text, written as it is.
pub open spec fn opt_text_val(name: Seq<char>, value: Option<String>) -> Seq<char> {
    match value {
        Some(t) => val_element(name, t@),
        None => Seq::empty(),
    }
}

/// The log base an axis writes: its own, or 10 for a logarithmic axis
/// without one.
pub open spec fn log_base_value(a: AxisModel) -> Option<Seq<char>> {
    if a.logarithmic_scale || a.log_base_text is Some {
        Some(
            match a.log_base_text {
                Some(t) => t@,
                None => "10"@,
            },
        )
    } else {
        None
    }
}

/// Whether an axis writes a scaling element.
pub open spec fn has_scaling(a: AxisModel) -> bool {
    log_base_value(a) is Some || a.minimum_scale_text is Some || a.maximum_scale_text is Some || a.reverse_plot_order is Some
}

/// The scaling element of an axis.
pub open spec fn scaling_text(a: AxisModel) -> Seq<char> {
    if has_scaling(a) {
        "<c:scaling>"@ + (match log_base_value(a) {
            Some(t) => val_element("logBase"@, t),
            None => Seq::empty(),
        }) + (match a.reverse_plot_order {
            Some(b) => val_element("orientation"@, orientation_name(b)@),
            None => Seq::empty(),
        }) + opt_text_val("min"@, a.minimum_scale_text) + opt_text_val("max"@, a.maximum_scale_text) + "</c:scaling>"@
    } else {
        Seq::empty()
    }
}

/// The number format of an axis' tick labels.
pub open spec fn axis_number_format_text(a: AxisModel) -> Seq<char> {
    match a.tick_label_number_format {
        Some(f) => "<c:numFmt formatCode=\""@ + partially_escaped(f@) + "\" sourceLinked=\""@ + (if a.tick_label_number_format_linked
            != Some(false) {
            "1"@
        } else {
            "0"@
        }) + "\"/>"@,
        None => Seq::empty(),
    }
}

/// The tick marks and tick-label position of an axis.
pub open spec fn tick_text(a: AxisModel) -> Seq<char> {
    (match a.major_tick_mark {
        Some(m) => val_element("majorTickMark"@, tick_mark_name(m)@),
        None => Seq::empty(),
    }) + (match a.minor_tick_mark {
        Some(m) => val_element("minorTickMark"@, tick_mark_name(m)@),
        None => Seq::empty(),
    }) + (match a.tick_label_position {
        Some(p) => val_element("tickLblPos"@, tick_label_position_name(p)@),
        None => Seq::empty(),
    })
}

/// The display units of an axis, with their label.
pub open spec fn display_units_text(a: AxisModel) -> Seq<char> {
    match a.display_unit {
        None => Seq::empty(),
        Some(u) => "<c:dispUnits>"@ + (match u {
            ChartAxisDisplayUnit::BuiltIn(v) => val_element("builtInUnit"@, built_in_unit_name(v)@),
            ChartAxisDisplayUnit::Custom(t) => val_element("custUnit"@, t@),
        }) + (if a.has_display_unit_label == Some(true) {
            if a.display_unit_label is Some {
                "<c:dispUnitsLbl>"@ + rich_text(display_unit_label_text(a)) + "</c:dispUnitsLbl>"@
            } else {
                "<c:dispUnitsLbl/>"@
            }
        } else {
            Seq::empty()
        }) + "</c:dispUnits>"@,
    }
}

/// Where an axis is crossed: at a value, or at a named position.
pub open spec fn crossing_text(a: AxisModel) -> Seq<char> {
    match a.crosses_at_text {
        Some(t) => val_element("crossesAt"@, t@),
        None => match a.crosses {
            Some(c) => match axis_crosses_name(c) {
                Some(n) => val_element("crosses"@, n@),
                None => Seq::empty(),
            },
            None => Seq::empty(),
        },
    }
}

/// An optional time unit element.
pub open spec fn opt_time_unit(name: Seq<char>, value: Option<ChartAxisTimeUnit>) -> Seq<char> {
    match value {
        Some(u) => val_element(name, time_unit_name(u)@),
        None => Seq::empty(),
    }
}

/// The crossing, category and time-unit settings of an axis.
pub open spec fn axis_cross_text(axes: Seq<AxisModel>, a: AxisModel) -> Seq<char> {
    (match cross_target_id(axes, a) {
        Some(id) => val_element("crossAx"@, partially_escaped(id)),
        None => Seq::empty(),
    }) + crossing_text(a) + (match a.axis_between_categories {
        Some(b) => val_element("crossBetween"@, between_categories_name(b)@),
        None => Seq::empty(),
    }) + opt_flag_element("auto"@, a.category_type_auto) + opt_time_unit("baseTimeUnit"@, a.base_unit) + opt_time_unit(
        "majorTimeUnit"@,
        a.major_unit_scale,
    ) + opt_time_unit("minorTimeUnit"@, a.minor_unit_scale)
}

/// The XML of an axis with id `id` among the chart's axes.
#[verifier::opaque]
pub open spec fn axis_element_text(axes: Seq<AxisModel>, a: AxisModel, id: Seq<char>) -> Seq<char> {
    "<c:"@ + axis_kind_name(a.kind)@ + ">"@ + val_element("axId"@, partially_escaped(id)) + scaling_text(a)
        + opt_flag_element("delete"@, a.deleted) + enabled_element("majorGridlines"@, a.has_major_gridlines)
        + enabled_element("minorGridlines"@, a.has_minor_gridlines) + title_element(a.title_text)
        + axis_number_format_text(a) + tick_text(a) + opt_count_element("tickLblSkip"@, a.tick_label_spacing)
        + opt_count_element("tickMarkSkip"@, a.tick_mark_spacing) + opt_text_val("majorUnit"@, a.major_unit_text)
        + opt_text_val("minorUnit"@, a.minor_unit_text) + display_units_text(a) + axis_cross_text(axes, a) + "</c:"@
        + axis_kind_name(a.kind)@ + ">"@
}

pub(crate) fn push_opt_text_val(out: &mut String, name: &str, value: &Option<String>)
    ensures
        final(out)@ == old(out)@ + opt_text_val(name@, *value),
{
    match value {
        Some(t) => push_val(out, name, t.as_str()),
        None => {
            assert(out@ =~= out@ + Seq::<char>::empty());
        },
    }
}

fn push_rich_text(out: &mut String, text: &str)
    ensures
        final(out)@ == old(out)@ + rich_text(text@),
{
    proof {
        reveal_strlit("<c:tx><c:rich><a:p><a:r><a:t>");
        reveal_strlit("</a:t></a:r></a:p></c:rich></c:tx>");
    }
    out.append("<c:tx><c:rich><a:p><a:r><a:t>");
    let escaped = text_escape(text);
    out.append(escaped.as_str());
    out.append("</a:t></a:r></a:p></c:rich></c:tx>");
}

pub(crate) fn push_title(out: &mut String, text: &Option<String>)
    ensures
        final(out)@ == old(out)@ + title_element(*text),
{
    proof {
        reveal_strlit("<c:title>");
        reveal_strlit("</c:title>");
    }
    match text {
        Some(t) => {
            out.append("<c:title>");
            push_rich_text(out, t.as_str());
            out.append("</c:title>");
        },
        None => {
            assert(out@ =~= out@ + Seq::<char>::empty());
        },
    }
}

fn push_scaling(out: &mut String, a: &AxisModel)
    ensures
        final(out)@ == old(out)@ + scaling_text(*a),
{
    proof {
        reveal_strlit("<c:scaling>");
        reveal_strlit("</c:scaling>");
        reveal_strlit("10");
    }
    let log_base = a.logarithmic_scale || a.log_base_text.is_some();
    if log_base || a.minimum_scale_text.is_some() || a.maximum_scale_text.is_some() || a.reverse_plot_order.is_some() {
        let ghost start = out@;
        out.append("<c:scaling>");
        let ghost s1 = out@;
        if log_base {
            match &a.log_base_text {
                Some(t) => push_val(out, "logBase", t.as_str()),
                None => push_val(out, "logBase", "10"),
            }
        }
        let ghost s2 = out@;
        if let Some(b) = a.reverse_plot_order {
            push_val(out, "orientation", chart_axis_orientation_xml_value(b));
        }
        let ghost s3 = out@;
        push_opt_text_val(out, "min", &a.minimum_scale_text);
        push_opt_text_val(out, "max", &a.maximum_scale_text);
        out.append("</c:scaling>");
        proof {
            assert(s1 + (match log_base_value(*a) {
                Some(t) => val_element("logBase"@, t),
                None => Seq::<char>::empty(),
            }) =~= s2);
            assert(s2 + (match a.reverse_plot_order {
                Some(b) => val_element("orientation"@, orientation_name(b)@),
                None => Seq::<char>::empty(),
            }) =~= s3);
        }
        assert(out@ =~= start + scaling_text(*a));
    } else {
        assert(out@ =~= out@ + Seq::<char>::empty());
    }
}

fn push_number_format(out: &mut String, a: &AxisModel)
    ensures
        final(out)@ == old(out)@ + axis_number_format_text(*a),
{
    proof {
        reveal_strlit("<c:numFmt formatCode=\"");
        reveal_strlit("\" sourceLinked=\"");
        reveal_strlit("\"/>");
        reveal_strlit("1");
        reveal_strlit("0");
    }
    match &a.tick_label_number_format {
        Some(f) => {
            out.append("<c:numFmt formatCode=\"");
            let escaped = text_escape(f.as_str());
            out.append(escaped.as_str());
            out.append("\" sourceLinked=\"");
            let linked = match a.tick_label_number_format_linked {
                Some(false) => false,
                _ => true,
            };
            out.append(if linked { "1" } else { "0" });
            out.append("\"/>");
        },
        None => {
            assert(out@ =~= out@ + Seq::<char>::empty());
        },
    }
}

fn push_ticks(out: &mut String, a: &AxisModel)
    ensures
        final(out)@ == old(out)@ + tick_text(*a),
{
    let ghost start = out@;
    if let Some(m) = a.major_tick_mark {
        push_val(out, "majorTickMark", chart_tick_mark_xml_value(m));
    }
    let ghost s1 = out@;
    if let Some(m) = a.minor_tick_mark {
        push_val(out, "minorTickMark", chart_tick_mark_xml_value(m));
    }
    let ghost s2 = out@;
    if let Some(p) = a.tick_label_position {
        push_val(out, "tickLblPos", chart_tick_label_position_xml_value(p));
    }
    proof {
        assert(start + (match a.major_tick_mark {
            Some(m) => val_element("majorTickMark"@, tick_mark_name(m)@),
            None => Seq::<char>::empty(),
        }) =~= s1);
        assert(s1 + (match a.minor_tick_mark {
            Some(m) => val_element("minorTickMark"@, tick_mark_name(m)@),
            None => Seq::<char>::empty(),
        }) =~= s2);
    }
    assert(out@ =~= start + tick_text(*a));
}

fn push_display_units(out: &mut String, a: &AxisModel)
    ensures
        final(out)@ == old(out)@ + display_units_text(*a),
{
    proof {
        reveal_strlit("<c:dispUnits>");
        reveal_strlit("</c:dispUnits>");
        reveal_strlit("<c:dispUnitsLbl>");
        reveal_strlit("</c:dispUnitsLbl>");
        reveal_strlit("<c:dispUnitsLbl/>");
    }
    match &a.display_unit {
        None => {
            assert(out@ =~= out@ + Seq::<char>::empty());
        },
        Some(u) => {
            let ghost start = out@;
            out.append("<c:dispUnits>");
            match u {
                ChartAxisDisplayUnit::BuiltIn(v) => push_val(out, "builtInUnit", chart_built_in_display_unit_xml_value(*v)),
                ChartAxisDisplayUnit::Custom(t) => push_val(out, "custUnit", t.as_str()),
            }
            let ghost s1 = out@;
            let shows_label = match a.has_display_unit_label {
                Some(true) => true,
                _ => false,
            };
            if shows_label {
                if a.display_unit_label.is_some() {
                    out.append("<c:dispUnitsLbl>");
                    let label = chart_axis_display_unit_label_text(a);
                    push_rich_text(out, label.as_str());
                    out.append("</c:dispUnitsLbl>");
                } else {
                    out.append("<c:dispUnitsLbl/>");
                }
            }
            let ghost s2 = out@;
            out.append("</c:dispUnits>");
            proof {
                assert(s1 + (if a.has_display_unit_label == Some(true) {
                    if a.display_unit_label is Some {
                        "<c:dispUnitsLbl>"@ + rich_text(display_unit_label_text(*a)) + "</c:dispUnitsLbl>"@
                    } else {
                        "<c:dispUnitsLbl/>"@
                    }
                } else {
                    Seq::<char>::empty()
                }) =~= s2);
            }
            assert(out@ =~= start + display_units_text(*a));
        },
    }
}

fn push_opt_time_unit(out: &mut String, name: &str, value: Option<ChartAxisTimeUnit>)
    ensures
        final(out)@ == old(out)@ + opt_time_unit(name@, value),
{
    match value {
        Some(u) => push_val(out, name, chart_axis_time_unit_xml_value(u)),
        None => {
            assert(out@ =~= out@ + Seq::<char>::empty());
        },
    }
}

pub(crate) fn push_opt_flag(out: &mut String, name: &str, value: Option<bool>)
    ensures
        final(out)@ == old(out)@ + opt_flag_element(name@, value),
{
    match value {
        Some(b) => push_flag(out, name, b),
        None => {
            assert(out@ =~= out@ + Seq::<char>::empty());
        },
    }
}

pub(crate) fn push_opt_count(out: &mut String, name: &str, value: Option<u32>)
    ensures
        final(out)@ == old(out)@ + opt_count_element(name@, value),
{
    match value {
        Some(v) => push_count(out, name, v),
        None => {
            assert(out@ =~= out@ + Seq::<char>::empty());
        },
    }
}

pub(crate) fn push_enabled(out: &mut String, name: &str, value: Option<bool>)
    ensures
        final(out)@ == old(out)@ + enabled_element(name@, value),
{
    proof {
        reveal_strlit("<c:");
        reveal_strlit("/>");
    }
    match value {
        Some(true) => {
            out.append("<c:");
            out.append(name);
            out.append("/>");
        },
        _ => {
            assert(out@ =~= out@ + Seq::<char>::empty());
        },
    }
}

fn push_cross_ax(out: &mut String, axes: &Vec<AxisModel>, a: &AxisModel)
    ensures
        final(out)@ == old(out)@ + (match cross_target_id(axes@, *a) {
            Some(id) => val_element("crossAx"@, partially_escaped(id)),
            None => Seq::<char>::empty(),
        }),
{
    match chart_axis_cross_target_id(axes, a) {
        Some(id) => {
            let escaped = text_escape(id.as_str());
            push_val(out, "crossAx", escaped.as_str());
        },
        None => {
            assert(out@ =~= out@ + Seq::<char>::empty());
        },
    }
}

fn push_crossing(out: &mut String, a: &AxisModel)
    ensures
        final(out)@ == old(out)@ + crossing_text(*a),
{
    match &a.crosses_at_text {
        Some(t) => push_val(out, "crossesAt", t.as_str()),
        None => match a.crosses {
            Some(c) => match chart_axis_crosses_xml_value(c) {
                Some(n) => push_val(out, "crosses", n),
                None => {
                    assert(out@ =~= out@ + Seq::<char>::empty());
                },
            },
            None => {
                assert(out@ =~= out@ + Seq::<char>::empty());
            },
        },
    }
}

fn push_cross_between(out: &mut String, a: &AxisModel)
    ensures
        final(out)@ == old(out)@ + (match a.axis_between_categories {
            Some(b) => val_element("crossBetween"@, between_categories_name(b)@),
            None => Seq::<char>::empty(),
        }),
{
    match a.axis_between_categories {
        Some(b) => push_val(out, "crossBetween", chart_axis_between_categories_xml_value(b)),
        None => {
            assert(out@ =~= out@ + Seq::<char>::empty());
        },
    }
}

fn push_axis_crossing(out: &mut String, axes: &Vec<AxisModel>, a: &AxisModel)
    ensures
        final(out)@ == old(out)@ + axis_cross_text(axes@, *a),
{
    let ghost start = out@;
    push_cross_ax(out, axes, a);
    push_crossing(out, a);
    push_cross_between(out, a);
    push_opt_flag(out, "auto", a.category_type_auto);
    push_opt_time_unit(out, "baseTimeUnit", a.base_unit);
    push_opt_time_unit(out, "majorTimeUnit", a.major_unit_scale);
    push_opt_time_unit(out, "minorTimeUnit", a.minor_unit_scale);
    assert(out@ =~= start + axis_cross_text(axes@, *a));
}

/// The XML of an axis with id `id` among a chart's axes.
pub fn chart_axis_element_xml_string(axes: &Vec<AxisModel>, a: &AxisModel, id: &str) -> (r: String)
    ensures
        r@ == axis_element_text(axes@, *a, id@),
{
    proof {
        reveal_strlit("<c:");
        reveal_strlit(">");
        reveal_strlit("</c:");
    }
    let tag = chart_axis_xml_name(a.kind);
    let mut out = String::from_str("<c:");
    out.append(tag);
    out.append(">");
    let escaped = text_escape(id);
    push_val(&mut out, "axId", escaped.as_str());
    push_scaling(&mut out, a);
    push_opt_flag(&mut out, "delete", a.deleted);
    push_enabled(&mut out, "majorGridlines", a.has_major_gridlines);
    push_enabled(&mut out, "minorGridlines", a.has_minor_gridlines);
    push_title(&mut out, &a.title_text);
    push_number_format(&mut out, a);
    push_ticks(&mut out, a);
    push_opt_count(&mut out, "tickLblSkip", a.tick_label_spacing);
    push_opt_count(&mut out, "tickMarkSkip", a.tick_mark_spacing);
    push_opt_text_val(&mut out, "majorUnit", &a.major_unit_text);
    push_opt_text_val(&mut out, "minorUnit", &a.minor_unit_text);
    push_display_units(&mut out, a);
    push_axis_crossing(&mut out, axes, a);
    out.append("</c:");
    out.append(tag);
    out.append(">");
    proof {
        reveal(axis_element_text);
    }
    assert(out@ =~= axis_element_text(axes@, *a, id@));
    out
}

} // verus!
