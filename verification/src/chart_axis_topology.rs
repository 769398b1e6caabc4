//! Bringing the axes of loaded chart XML in line with the chart model: axes
//! the model dropped are removed, axes it added are written before the
//! first element after the axes, and the `delete` and `crossAx` children of
//! the axes it kept are updated, with everything else copied as it was read.
use vstd::prelude::*;
use crate::chart_model::{AxisModel, ChartModel};
use crate::chart_patch::{utf8_lossy, val_rewritten_tag};
use crate::chart_topology::{byte_chars, byte_chars_of, opt_pos};
use crate::chart_types::{axis_kind_of_name, chart_axis_kind_from_xml_name, ChartAxisKind};
use crate::errors::{om_error, OmError, OmErrorCode};
use crate::package_xml::{error_view, xml_error, ErrorView};
use crate::xml::{
    attribute_value, bytes_eq_lit, lit, local_name, xml_element_namespace, xml_local_name, xml_read_result,
    AttributeNamespace, AttributeNamespaceView, TagHandle, XmlEvent, XmlEventKind, XmlEventView, XmlReader, NsXmlReader, ns_read_result,
};

verus! {

/// A child element of an axis: where it starts, where its start tag ends,
/// and where it ends (zero until it is closed).
pub struct AxisChildView {
    pub start: nat,
    pub start_tag_end: nat,
    pub end: nat,
}

/// The `crossAx` child of an axis with the id it names.
pub struct AxisCrossView {
    pub raw_id: Option<Seq<char>>,
    pub start: nat,
    pub start_tag_end: nat,
    pub end: nat,
}

/// The `delete` child of an axis with its value.
pub struct AxisDeleteView {
    pub span: AxisChildView,
    pub value: bool,
}

/// An axis of the loaded XML: its kind, its `axId`, its qualified name, its
/// span, and the spans of the children this rewrite looks at.
pub struct AxisSpanView {
    pub kind: ChartAxisKind,
    pub raw_id: Option<Seq<char>>,
    pub qualified_name: Seq<char>,
    pub start: nat,
    pub start_tag_end: nat,
    pub end: nat,
    pub end_tag_start: nat,
    pub axis_id: Option<AxisChildView>,
    pub scaling: Option<AxisChildView>,
    pub delete: Option<AxisDeleteView>,
    pub cross_axis: Option<AxisCrossView>,
}

/// What a read of the axes has gathered: the open elements and whether each
/// is in the chart namespace, the axes, how deep the axis being read is,
/// whether an axis was seen, where the first plot-area child after the axes
/// starts, and where the plot area's end tag starts.
pub struct AxisScanView {
    pub stack: Seq<Seq<u8>>,
    pub chart_ns: Seq<bool>,
    pub axes: Seq<AxisSpanView>,
    pub active_depth: Option<nat>,
    pub saw_axis: bool,
    pub first_after_axes: Option<nat>,
    pub plot_area_end: Option<nat>,
}

/// The DrawingML chart namespace.
pub open spec fn chart_namespace() -> Seq<u8> {
    lit("http://schemas.openxmlformats.org/drawingml/2006/chart")
}

/// Whether an element read as event `i` (the reader has reported `i + 1`
/// events) is in the chart namespace.
pub open spec fn in_chart_namespace(input: Seq<u8>, i: nat, name: Seq<u8>) -> bool {
    xml_element_namespace(input, false, i + 1, name) == AttributeNamespaceView::Bound(chart_namespace())
}

/// The message for an invalid `delete` value.
pub open spec fn delete_value_message(v: Seq<char>) -> Seq<char> {
    "invalid chart axis delete value: "@ + v
}

/// The value of a `delete` element: true without a `val`, and for `1` or
/// `true` in any ASCII case; false for `0` or `false`; anything else fails.
pub open spec fn delete_value(origin: (Seq<u8>, bool, nat)) -> Result<bool, ErrorView> {
    match attribute_value(origin, lit("val")) {
        Err(m) => Err((OmErrorCode::Parse, m)),
        Ok(None) => Ok(true),
        Ok(Some(v)) => if v == "1"@ {
            Ok(true)
        } else if v == "0"@ {
            Ok(false)
        } else if crate::text::eq_ignore_case(v, "true"@) {
            Ok(true)
        } else if crate::text::eq_ignore_case(v, "false"@) {
            Ok(false)
        } else {
            Err((OmErrorCode::Parse, delete_value_message(v)))
        },
    }
}

/// The `val` of a tag, as a failure of the library's own kind.
pub open spec fn val_result(origin: (Seq<u8>, bool, nat)) -> Result<Option<Seq<char>>, ErrorView> {
    match attribute_value(origin, lit("val")) {
        Err(m) => Err((OmErrorCode::Parse, m)),
        Ok(v) => Ok(v),
    }
}

/// The message for an axis with two `axId` children.
pub open spec fn duplicate_axis_id_message() -> Seq<char> {
    "loaded chart axis has duplicate axId elements"@
}

/// The message for an axis with two `delete` children.
pub open spec fn duplicate_delete_message() -> Seq<char> {
    "loaded chart axis has duplicate delete elements"@
}

/// The message for an axis with two `crossAx` children.
pub open spec fn duplicate_cross_message() -> Seq<char> {
    "loaded chart axis has duplicate crossAx elements"@
}

/// The last axis with one of its fields changed.
pub open spec fn with_last_axis(st: AxisScanView, a: AxisSpanView) -> AxisScanView {
    AxisScanView { axes: st.axes.update(st.axes.len() - 1, a), ..st }
}

/// A child tag of the axis being read, read as event `i`: an `axId`,
/// `scaling`, `delete` or `crossAx` is noted on the axis (twice is an error
/// but for `scaling`); other tags leave it as it is.
pub open spec fn axis_child_update(
    input: Seq<u8>,
    i: nat,
    last: AxisSpanView,
    e: XmlEventView,
    close: nat,
) -> Result<AxisSpanView, ErrorView> {
    let local = local_name(e.name);
    if local == lit("axId") {
        if last.axis_id is Some {
            Err((OmErrorCode::Parse, duplicate_axis_id_message()))
        } else {
            match val_result((input, false, i)) {
                Err(x) => Err(x),
                Ok(v) => Ok(
                    AxisSpanView {
                        raw_id: v,
                        axis_id: Some(AxisChildView { start: e.start, start_tag_end: e.end, end: close }),
                        ..last
                    },
                ),
            }
        }
    } else if local == lit("scaling") {
        Ok(AxisSpanView { scaling: Some(AxisChildView { start: e.start, start_tag_end: e.end, end: close }), ..last })
    } else if local == lit("delete") {
        if last.delete is Some {
            Err((OmErrorCode::Parse, duplicate_delete_message()))
        } else {
            match delete_value((input, false, i)) {
                Err(x) => Err(x),
                Ok(value) => Ok(
                    AxisSpanView {
                        delete: Some(
                            AxisDeleteView { span: AxisChildView { start: e.start, start_tag_end: e.end, end: close }, value },
                        ),
                        ..last
                    },
                ),
            }
        }
    } else if local == lit("crossAx") {
        if last.cross_axis is Some {
            Err((OmErrorCode::Parse, duplicate_cross_message()))
        } else {
            match val_result((input, false, i)) {
                Err(x) => Err(x),
                Ok(v) => Ok(
                    AxisSpanView {
                        cross_axis: Some(AxisCrossView { raw_id: v, start: e.start, start_tag_end: e.end, end: close }),
                        ..last
                    },
                ),
            }
        }
    } else {
        Ok(last)
    }
}

/// A tag in the plot area: an axis opens (a start tag makes it the axis
/// being read), and the first other element after the axes is noted.
pub open spec fn axis_plot_child(st: AxisScanView, e: XmlEventView, empty: bool) -> AxisScanView {
    let n = st.stack.len();
    match axis_kind_of_name(byte_chars(local_name(e.name))) {
        Some(k) => AxisScanView {
            axes: st.axes.push(
                AxisSpanView {
                    kind: k,
                    raw_id: None,
                    qualified_name: utf8_lossy(e.name),
                    start: e.start,
                    start_tag_end: e.end,
                    end: if empty { e.end } else { 0 },
                    end_tag_start: if empty { e.start } else { 0 },
                    axis_id: None,
                    scaling: None,
                    delete: None,
                    cross_axis: None,
                },
            ),
            active_depth: if empty { st.active_depth } else { Some(n + 1) },
            saw_axis: true,
            ..st
        },
        None => if st.saw_axis && st.first_after_axes is None {
            AxisScanView { first_after_axes: Some(e.start), ..st }
        } else {
            st
        },
    }
}

/// A start (`empty` false) or empty tag, read as event `i`, that opens an
/// element in the plot area or one of the children of the axis being read.
pub open spec fn axis_tag(
    input: Seq<u8>,
    i: nat,
    st: AxisScanView,
    e: XmlEventView,
    empty: bool,
) -> Result<AxisScanView, ErrorView> {
    let is_chart = in_chart_namespace(input, i, e.name);
    let n = st.stack.len();
    let in_plot = n > 0 && st.stack.last() == lit("plotArea") && st.chart_ns.last();
    let axis_child = is_chart && st.active_depth == Some(n) && st.axes.len() > 0;
    if is_chart && in_plot {
        Ok(axis_plot_child(st, e, empty))
    } else if axis_child {
        match axis_child_update(input, i, st.axes.last(), e, if empty { e.end } else { 0 }) {
            Err(x) => Err(x),
            Ok(a) => Ok(with_last_axis(st, a)),
        }
    } else {
        Ok(st)
    }
}

/// A start tag read as event `i`: its element is noted, then opened.
pub open spec fn axis_start(input: Seq<u8>, i: nat, st: AxisScanView, e: XmlEventView) -> Result<AxisScanView, ErrorView> {
    match axis_tag(input, i, st, e, false) {
        Err(x) => Err(x),
        Ok(s) => Ok(
            AxisScanView {
                stack: s.stack.push(local_name(e.name)),
                chart_ns: s.chart_ns.push(in_chart_namespace(input, i, e.name)),
                ..s
            },
        ),
    }
}

/// The message for an axis end with no axis open.
pub open spec fn axis_unmatched_message() -> Seq<char> {
    "loaded chart axis end has no matching start"@
}

/// The message for axis elements that do not nest.
pub open spec fn axis_nesting_message() -> Seq<char> {
    "loaded chart axis elements are not properly nested"@
}

/// A child span with its end set, when there is one.
pub open spec fn closed_child(c: Option<AxisChildView>, end: nat) -> Option<AxisChildView> {
    match c {
        Some(x) => Some(AxisChildView { end, ..x }),
        None => None,
    }
}

/// The axis being read with the child that an end tag of `local` closes
/// given its end.
pub open spec fn closed_axis_child(last: AxisSpanView, local: Seq<u8>, end: nat) -> AxisSpanView {
    if local == lit("axId") {
        AxisSpanView { axis_id: closed_child(last.axis_id, end), ..last }
    } else if local == lit("scaling") {
        AxisSpanView { scaling: closed_child(last.scaling, end), ..last }
    } else if local == lit("delete") {
        AxisSpanView {
            delete: match last.delete {
                Some(d) => Some(AxisDeleteView { span: AxisChildView { end, ..d.span }, ..d }),
                None => None,
            },
            ..last
        }
    } else if local == lit("crossAx") {
        AxisSpanView {
            cross_axis: match last.cross_axis {
                Some(c) => Some(AxisCrossView { end, ..c }),
                None => None,
            },
            ..last
        }
    } else {
        last
    }
}

/// An end tag read as event `i`: it closes a child of the axis being read,
/// or the axis, or the plot area.
pub open spec fn axis_end(input: Seq<u8>, i: nat, st: AxisScanView, e: XmlEventView) -> Result<AxisScanView, ErrorView> {
    let is_chart = in_chart_namespace(input, i, e.name);
    let local = local_name(e.name);
    let n = st.stack.len();
    let in_axis_child = is_chart && (st.active_depth matches Some(d) && n == d + 1) && st.axes.len() > 0;
    let last1 = closed_axis_child(st.axes.last(), local, e.end);
    let st1 = if in_axis_child { with_last_axis(st, last1) } else { st };
    let closes_axis = is_chart && st.active_depth == Some(n) && n >= 2 && st.stack[n - 2] == lit("plotArea")
        && st.chart_ns[n - 2] && axis_kind_of_name(byte_chars(local)) is Some;
    let st2 = if closes_axis {
        if st1.axes.len() == 0 {
            Err((OmErrorCode::Parse, axis_unmatched_message()))
        } else if st1.axes.last().end != 0 || Some(st1.axes.last().kind) != axis_kind_of_name(byte_chars(local)) {
            Err((OmErrorCode::Parse, axis_nesting_message()))
        } else {
            Ok(
                AxisScanView {
                    active_depth: None,
                    ..with_last_axis(st1, AxisSpanView { end: e.end, end_tag_start: e.start, ..st1.axes.last() })
                },
            )
        }
    } else {
        Ok(st1)
    };
    match st2 {
        Err(x) => Err(x),
        Ok(s) => Ok(
            AxisScanView {
                plot_area_end: if is_chart && local == lit("plotArea") { Some(e.start) } else { s.plot_area_end },
                stack: if n > 0 { s.stack.drop_last() } else { s.stack },
                chart_ns: if s.chart_ns.len() > 0 { s.chart_ns.drop_last() } else { s.chart_ns },
                ..s
            },
        ),
    }
}

/// Reads the axes from event `i` on.
pub open spec fn axis_scan_run(input: Seq<u8>, i: nat, st: AxisScanView, fuel: nat) -> Result<AxisScanView, ErrorView>
    decreases fuel,
{
    if fuel == 0 {
        Ok(st)
    } else {
        let f = (fuel - 1) as nat;
        match ns_read_result(input, false, i) {
            Err(m) => Err((OmErrorCode::Parse, m)),
            Ok(e) => if e.kind == XmlEventKind::Eof {
                Ok(st)
            } else {
                let step = if e.kind == XmlEventKind::Start {
                    axis_start(input, i, st, e)
                } else if e.kind == XmlEventKind::Empty {
                    axis_tag(input, i, st, e, true)
                } else if e.kind == XmlEventKind::End {
                    axis_end(input, i, st, e)
                } else {
                    Ok(st)
                };
                match step {
                    Err(x) => Err(x),
                    Ok(next) => axis_scan_run(input, i + 1, next, f),
                }
            },
        }
    }
}

/// The axes of loaded chart XML.
pub open spec fn axis_scan(input: Seq<u8>) -> Result<AxisScanView, ErrorView> {
    axis_scan_run(
        input,
        0,
        AxisScanView {
            stack: Seq::empty(),
            chart_ns: Seq::empty(),
            axes: Seq::empty(),
            active_depth: None,
            saw_axis: false,
            first_after_axes: None,
            plot_area_end: None,
        },
        input.len() + 1,
    )
}

/// Whether an axis, or one of the children looked at, was not closed.
pub open spec fn axis_unclosed(a: AxisSpanView) -> bool {
    ||| a.end == 0
    ||| a.end_tag_start == 0
    ||| (a.cross_axis matches Some(c) && c.end == 0)
    ||| (a.axis_id matches Some(c) && c.end == 0)
    ||| (a.scaling matches Some(c) && c.end == 0)
    ||| (a.delete matches Some(d) && d.span.end == 0)
}

/// The message for an axis that was not closed.
pub open spec fn axis_unclosed_message() -> Seq<char> {
    "loaded chart axis or crossAx has no closing XML boundary"@
}

/// The message for an axis without an `axId` value.
pub open spec fn axis_missing_id_message() -> Seq<char> {
    "loaded chart axis is missing a stable axId"@
}

/// The message for two loaded axes with one id.
pub open spec fn axis_xml_duplicate_message() -> Seq<char> {
    "loaded chart axis identity is duplicated in XML"@
}

/// The message for two model axes naming one loaded axis.
pub open spec fn axis_model_duplicate_message() -> Seq<char> {
    "loaded chart axis identity is duplicated in the model"@
}

/// The message for removing an axis that a group still uses.
pub open spec fn axis_still_used_message() -> Seq<char> {
    "removing a chart axis that is still referenced by a group is not supported"@
}

/// The message for axes to add with nowhere to put them.
pub open spec fn axis_no_position_message() -> Seq<char> {
    "loaded chart plot area has no axis insertion position"@
}

/// Whether two loaded axes share an id.
pub open spec fn axis_ids_duplicated(axes: Seq<AxisSpanView>) -> bool {
    exists|i: int, j: int|
        0 <= i < j < axes.len() && (#[trigger] axes[i]).raw_id is Some && axes[i].raw_id == (#[trigger] axes[j]).raw_id
}

/// The first loaded axis, from position `k` on, with id `id`.
pub open spec fn loaded_axis_with_id(axes: Seq<AxisSpanView>, id: Seq<char>, k: int) -> Option<nat>
    decreases axes.len() - k,
{
    if k < 0 || k >= axes.len() {
        None
    } else if axes[k].raw_id == Some(id) {
        Some(k as nat)
    } else {
        loaded_axis_with_id(axes, id, k + 1)
    }
}

/// How the model's axes line up with the loaded ones: per loaded axis
/// whether a model axis names it and which, and the model axes to add.
pub struct AxisMatchView {
    pub seen: Seq<bool>,
    pub model_of: Seq<Option<nat>>,
    pub additions: Seq<nat>,
}

/// The matching of the model axes before position `m`.
pub open spec fn axis_matches_upto(axes: Seq<AxisSpanView>, model: Seq<AxisModel>, m: int) -> Result<AxisMatchView, ErrorView>
    decreases m,
{
    if m <= 0 {
        Ok(
            AxisMatchView {
                seen: Seq::new(axes.len(), |i: int| false),
                model_of: Seq::new(axes.len(), |i: int| None::<nat>),
                additions: Seq::empty(),
            },
        )
    } else {
        match axis_matches_upto(axes, model, m - 1) {
            Err(x) => Err(x),
            Ok(st) => {
                let loaded = match model[m - 1].raw_id {
                    Some(id) => loaded_axis_with_id(axes, id@, 0),
                    None => None,
                };
                match loaded {
                    Some(l) => if st.seen[l as int] {
                        Err((OmErrorCode::Unsupported, axis_model_duplicate_message()))
                    } else {
                        Ok(
                            AxisMatchView {
                                seen: st.seen.update(l as int, true),
                                model_of: st.model_of.update(l as int, Some((m - 1) as nat)),
                                ..st
                            },
                        )
                    },
                    None => Ok(AxisMatchView { additions: st.additions.push((m - 1) as nat), ..st }),
                }
            },
        }
    }
}

/// Whether a group of the model plots on the axis with id `id`.
pub open spec fn axis_referenced(groups: Seq<crate::chart_model::ChartGroupModel>, id: Seq<char>) -> bool {
    exists|g: int, k: int| 0 <= g < groups.len() && 0 <= k < groups[g].axis_ids@.len() && (#[trigger] groups[g].axis_ids@[k])@ == id
}

/// The removals of the loaded axes before position `l` that no model axis
/// names.
pub open spec fn axis_removals_upto(
    axes: Seq<AxisSpanView>,
    seen: Seq<bool>,
    groups: Seq<crate::chart_model::ChartGroupModel>,
    l: int,
) -> Result<Seq<(nat, nat, Seq<u8>)>, ErrorView>
    decreases l,
{
    if l <= 0 {
        Ok(Seq::empty())
    } else {
        match axis_removals_upto(axes, seen, groups, l - 1) {
            Err(x) => Err(x),
            Ok(edits) => if seen[l - 1] {
                Ok(edits)
            } else if axes[l - 1].raw_id matches Some(id) && axis_referenced(groups, id) {
                Err((OmErrorCode::Unsupported, axis_still_used_message()))
            } else {
                Ok(edits.push((axes[l - 1].start, axes[l - 1].end, Seq::empty())))
            },
        }
    }
}

/// The start tag found at `[start, end)` of `input`, read on its own, with
/// its `val` set to `replacement`; `not_element` when it is no start or
/// empty tag.
pub open spec fn rewritten_start(input: Seq<u8>, start: nat, end: nat, replacement: Seq<char>, not_element: Seq<char>) -> Result<
    Seq<u8>,
    ErrorView,
> {
    let sub = input.subrange(start as int, end as int);
    match xml_read_result(sub, false, 0) {
        Err(m) => Err((OmErrorCode::Parse, m)),
        Ok(e) => if e.kind == XmlEventKind::Start || e.kind == XmlEventKind::Empty {
            match val_rewritten_tag((sub, false, 0), e.name, replacement) {
                Err(m) => Err((OmErrorCode::Parse, m)),
                Ok(c) => Ok(
                    seq![60u8] + c + if e.kind == XmlEventKind::Start { seq![62u8] } else { seq![47u8, 62u8] },
                ),
            }
        } else {
            Err((OmErrorCode::Parse, not_element))
        },
    }
}

/// The message for a `delete` span that holds no tag.
pub open spec fn delete_span_message() -> Seq<char> {
    "loaded chart delete span does not start with an element"@
}

/// The message for a `crossAx` span that holds no tag.
pub open spec fn cross_span_message() -> Seq<char> {
    "loaded chart crossAx span does not start with an element"@
}

/// The qualified name of a `delete` element in the prefix of its axis.
pub open spec fn delete_name(axis_name: Seq<char>) -> Seq<char> {
    if crate::text::has_char(axis_name, ':') {
        crate::text::before_last(axis_name, ':') + ":delete"@
    } else {
        "delete"@
    }
}

/// The edits that set the `delete` of the loaded axes before position `l`
/// to what the model has, when the model says.
pub open spec fn delete_edits_upto(
    input: Seq<u8>,
    axes: Seq<AxisSpanView>,
    model_of: Seq<Option<nat>>,
    model: Seq<AxisModel>,
    acc: Seq<(nat, nat, Seq<u8>)>,
    l: int,
) -> Result<Seq<(nat, nat, Seq<u8>)>, ErrorView>
    decreases l,
{
    if l <= 0 {
        Ok(acc)
    } else {
        match delete_edits_upto(input, axes, model_of, model, acc, l - 1) {
            Err(x) => Err(x),
            Ok(edits) => {
                let a = axes[l - 1];
                match model_of[l - 1] {
                    None => Ok(edits),
                    Some(m) => match model[m as int].deleted {
                        None => Ok(edits),
                        Some(expected) => match a.delete {
                            Some(d) => if d.value != expected {
                                match rewritten_start(
                                    input,
                                    d.span.start,
                                    d.span.start_tag_end,
                                    crate::chart_model::flag_text(expected),
                                    delete_span_message(),
                                ) {
                                    Err(x) => Err(x),
                                    Ok(t) => Ok(edits.push((d.span.start, d.span.start_tag_end, t))),
                                }
                            } else {
                                Ok(edits)
                            },
                            None => {
                                let pos = match a.scaling {
                                    Some(c) => c.end,
                                    None => match a.axis_id {
                                        Some(c) => c.end,
                                        None => a.start_tag_end,
                                    },
                                };
                                Ok(
                                    edits.push(
                                        (
                                            pos,
                                            pos,
                                            vstd::utf8::encode_utf8(
                                                "<"@ + delete_name(a.qualified_name) + " val=\""@
                                                    + crate::chart_model::flag_text(expected) + "\"/>"@,
                                            ),
                                        ),
                                    ),
                                )
                            },
                        },
                    },
                }
            },
        }
    }
}

/// The edits that point the `crossAx` of the loaded axes before position
/// `l` at the axis the model crosses.
pub open spec fn cross_edits_upto(
    input: Seq<u8>,
    axes: Seq<AxisSpanView>,
    model_of: Seq<Option<nat>>,
    model: Seq<AxisModel>,
    acc: Seq<(nat, nat, Seq<u8>)>,
    l: int,
) -> Result<Seq<(nat, nat, Seq<u8>)>, ErrorView>
    decreases l,
{
    if l <= 0 {
        Ok(acc)
    } else {
        match cross_edits_upto(input, axes, model_of, model, acc, l - 1) {
            Err(x) => Err(x),
            Ok(edits) => {
                let a = axes[l - 1];
                match model_of[l - 1] {
                    None => Ok(edits),
                    Some(m) => match (a.cross_axis, crate::chart_model::cross_target_id(model, model[m as int])) {
                        (Some(c), Some(x)) => if c.raw_id != Some(x) {
                            match rewritten_start(input, c.start, c.start_tag_end, x, cross_span_message()) {
                                Err(f) => Err(f),
                                Ok(t) => Ok(edits.push((c.start, c.start_tag_end, t))),
                            }
                        } else {
                            Ok(edits)
                        },
                        (Some(c), None) => Ok(edits.push((c.start, c.end, Seq::empty()))),
                        (None, Some(x)) => Ok(
                            edits.push(
                                (
                                    a.end_tag_start,
                                    a.end_tag_start,
                                    vstd::utf8::encode_utf8(
                                        "<c:crossAx val=\""@ + crate::chart_xml::escaped(x) + "\"/>"@,
                                    ),
                                ),
                            ),
                        ),
                        (None, None) => Ok(edits),
                    },
                }
            },
        }
    }
}

/// The XML of the model axes to add, in order.
pub open spec fn axis_shells_upto(chart: ChartModel, additions: Seq<nat>, k: int) -> Result<Seq<u8>, ErrorView>
    decreases k,
{
    if k <= 0 {
        Ok(Seq::empty())
    } else {
        match axis_shells_upto(chart, additions, k - 1) {
            Err(x) => Err(x),
            Ok(acc) => match crate::chart_xml::axis_shell(chart, chart.axes@[additions[k - 1] as int]) {
                Err(x) => Err(x),
                Ok(t) => Ok(acc + t),
            },
        }
    }
}

/// The document with the edits applied, failing as edits that overlap.
pub open spec fn applied(input: Seq<u8>, edits: Seq<(nat, nat, Seq<u8>)>, label: Seq<char>) -> Result<Seq<u8>, ErrorView> {
    match crate::chart_edits::apply_edits(input, edits) {
        Some(x) => Ok(x),
        None => Err((OmErrorCode::InvalidState, crate::chart_edits::overlap_message(label))),
    }
}

/// Loaded chart XML with its axes in line with the model.
pub open spec fn axis_topology(input: Seq<u8>, chart: ChartModel) -> Result<Seq<u8>, ErrorView> {
    match axis_scan(input) {
        Err(x) => Err(x),
        Ok(scan) => {
            let axes = scan.axes;
            if exists|i: int| 0 <= i < axes.len() && axis_unclosed(#[trigger] axes[i]) {
                Err((OmErrorCode::Parse, axis_unclosed_message()))
            } else if exists|i: int| 0 <= i < axes.len() && ((#[trigger] axes[i]).axis_id is None || axes[i].raw_id is None) {
                Err((OmErrorCode::Parse, axis_missing_id_message()))
            } else if axis_ids_duplicated(axes) {
                Err((OmErrorCode::Parse, axis_xml_duplicate_message()))
            } else {
                match axis_matches_upto(axes, chart.axes@, chart.axes@.len() as int) {
                    Err(x) => Err(x),
                    Ok(matched) => {
                        let changed = matched.additions.len() > 0 || exists|l: int| 0 <= l < axes.len() && !#[trigger] matched.seen[l];
                        match axis_removals_upto(axes, matched.seen, chart.groups@, axes.len() as int) {
                            Err(x) => Err(x),
                            Ok(removals) => match delete_edits_upto(
                                input,
                                axes,
                                matched.model_of,
                                chart.axes@,
                                removals,
                                axes.len() as int,
                            ) {
                                Err(x) => Err(x),
                                Ok(deletes) => {
                                    let crossed = if changed {
                                        cross_edits_upto(input, axes, matched.model_of, chart.axes@, deletes, axes.len() as int)
                                    } else {
                                        Ok(deletes)
                                    };
                                    match crossed {
                                        Err(x) => Err(x),
                                        Ok(edits) => if matched.additions.len() == 0 {
                                            applied(input, edits, "axis update"@)
                                        } else {
                                            let pos = match scan.first_after_axes {
                                                Some(p) => Some(p),
                                                None => scan.plot_area_end,
                                            };
                                            match pos {
                                                None => Err((OmErrorCode::Parse, axis_no_position_message())),
                                                Some(p) => match axis_shells_upto(chart, matched.additions, matched.additions.len() as int) {
                                                    Err(x) => Err(x),
                                                    Ok(shells) => applied(input, edits.push((p, p, shells)), "axis topology"@),
                                                },
                                            }
                                        },
                                    }
                                },
                            },
                        }
                    },
                }
            }
        },
    }
}

struct AxisChild {
    start: usize,
    start_tag_end: usize,
    end: usize,
}

impl AxisChild {
    spec fn view(&self) -> AxisChildView {
        AxisChildView { start: self.start as nat, start_tag_end: self.start_tag_end as nat, end: self.end as nat }
    }
}

spec fn opt_child(c: Option<AxisChild>) -> Option<AxisChildView> {
    match c {
        Some(x) => Some(x.view()),
        None => None,
    }
}

struct AxisCross {
    raw_id: Option<String>,
    start: usize,
    start_tag_end: usize,
    end: usize,
}

struct AxisDelete {
    span: AxisChild,
    value: bool,
}

spec fn opt_cross(c: Option<AxisCross>) -> Option<AxisCrossView> {
    match c {
        Some(x) => Some(
            AxisCrossView {
                raw_id: crate::parts::opt_view(x.raw_id),
                start: x.start as nat,
                start_tag_end: x.start_tag_end as nat,
                end: x.end as nat,
            },
        ),
        None => None,
    }
}

spec fn opt_delete(d: Option<AxisDelete>) -> Option<AxisDeleteView> {
    match d {
        Some(x) => Some(AxisDeleteView { span: x.span.view(), value: x.value }),
        None => None,
    }
}

struct AxisSpan {
    kind: ChartAxisKind,
    raw_id: Option<String>,
    qualified_name: String,
    start: usize,
    start_tag_end: usize,
    end: usize,
    end_tag_start: usize,
    axis_id: Option<AxisChild>,
    scaling: Option<AxisChild>,
    delete: Option<AxisDelete>,
    cross_axis: Option<AxisCross>,
}

impl AxisSpan {
    spec fn view(&self) -> AxisSpanView {
        AxisSpanView {
            kind: self.kind,
            raw_id: crate::parts::opt_view(self.raw_id),
            qualified_name: self.qualified_name@,
            start: self.start as nat,
            start_tag_end: self.start_tag_end as nat,
            end: self.end as nat,
            end_tag_start: self.end_tag_start as nat,
            axis_id: opt_child(self.axis_id),
            scaling: opt_child(self.scaling),
            delete: opt_delete(self.delete),
            cross_axis: opt_cross(self.cross_axis),
        }
    }
}

spec fn axis_views(v: Seq<AxisSpan>) -> Seq<AxisSpanView> {
    v.map_values(|a: AxisSpan| a.view())
}

struct AxisScan {
    stack: Vec<Vec<u8>>,
    chart_ns: Vec<bool>,
    axes: Vec<AxisSpan>,
    active_depth: Option<usize>,
    saw_axis: bool,
    first_after_axes: Option<usize>,
    plot_area_end: Option<usize>,
}

impl AxisScan {
    spec fn view(&self) -> AxisScanView {
        AxisScanView {
            stack: crate::chart_patch::byte_lists(self.stack@),
            chart_ns: self.chart_ns@,
            axes: axis_views(self.axes@),
            active_depth: opt_pos(self.active_depth),
            saw_axis: self.saw_axis,
            first_after_axes: opt_pos(self.first_after_axes),
            plot_area_end: opt_pos(self.plot_area_end),
        }
    }
}

/// Every tag of an axis and of the children looked at lies within the
/// document.
pub open spec fn axis_bounded(a: AxisSpanView, len: nat) -> bool {
    &&& a.start <= a.start_tag_end <= len
    &&& a.end <= len
    &&& a.end_tag_start <= len
    &&& (a.axis_id matches Some(c) ==> c.start <= c.start_tag_end <= len && c.end <= len)
    &&& (a.scaling matches Some(c) ==> c.start <= c.start_tag_end <= len && c.end <= len)
    &&& (a.delete matches Some(d) ==> d.span.start <= d.span.start_tag_end <= len && d.span.end <= len)
    &&& (a.cross_axis matches Some(c) ==> c.start <= c.start_tag_end <= len && c.end <= len)
}

/// The read is consistent: the open elements and their namespace flags
/// line up, no more elements are open than events were read, and every
/// axis lies within the document.
pub open spec fn axis_scan_wf(v: AxisScanView, count: nat, len: nat) -> bool {
    &&& v.stack.len() == v.chart_ns.len()
    &&& v.stack.len() <= count
    &&& (v.active_depth matches Some(d) ==> d <= count)
    &&& forall|i: int| 0 <= i < v.axes.len() ==> axis_bounded(#[trigger] v.axes[i], len)
    &&& (v.first_after_axes matches Some(p) ==> p <= len)
    &&& (v.plot_area_end matches Some(p) ==> p <= len)
}

proof fn lemma_wf_last_axis(v: AxisScanView, a: AxisSpanView, c1: nat, c2: nat, len: nat)
    requires
        axis_scan_wf(v, c1, len),
        c1 <= c2,
        v.axes.len() > 0,
        axis_bounded(a, len),
    ensures
        axis_scan_wf(with_last_axis(v, a), c2, len),
{
    let w = with_last_axis(v, a);
    assert forall|i: int| 0 <= i < w.axes.len() implies axis_bounded(#[trigger] w.axes[i], len) by {
        if i != v.axes.len() - 1 {
            assert(w.axes[i] == v.axes[i]);
        }
    }
}

fn is_chart_namespace(ns: &AttributeNamespace) -> (r: bool)
    ensures
        r == (ns@ == AttributeNamespaceView::Bound(chart_namespace())),
{
    match ns {
        AttributeNamespace::Bound(n) => bytes_eq_lit(n.as_slice(), "http://schemas.openxmlformats.org/drawingml/2006/chart"),
        _ => false,
    }
}

fn delete_value_exec(handle: &TagHandle) -> (r: Result<bool, OmError>)
    ensures
        match delete_value(handle.origin()) {
            Ok(b) => r == Ok::<bool, OmError>(b),
            Err(x) => r matches Err(e) && error_view(e) == x,
        },
{
    proof {
        reveal_strlit("invalid chart axis delete value: ");
        reveal_strlit("true");
        reveal_strlit("false");
        assert(crate::text::lower("true"@) =~= "true"@);
        assert(crate::text::lower("false"@) =~= "false"@);
    }
    match crate::chart_patch::element_val_attribute(handle) {
        Err(e) => Err(e),
        Ok(None) => Ok(true),
        Ok(Some(v)) => {
            let chars = crate::text::chars_of(v.as_str());
            let lowered = crate::text::lower_vec(&chars);
            if crate::text::chars_eq_str(&chars, "1") {
                Ok(true)
            } else if crate::text::chars_eq_str(&chars, "0") {
                Ok(false)
            } else if crate::text::chars_eq_str(&lowered, "true") {
                Ok(true)
            } else if crate::text::chars_eq_str(&lowered, "false") {
                Ok(false)
            } else {
                let mut message = String::from_str("invalid chart axis delete value: ");
                message.append(v.as_str());
                Err(OmError { code: OmErrorCode::Parse, message })
            }
        },
    }
}

fn axis_plot_child_exec(st: &mut AxisScan, ev: &XmlEvent, empty: bool, Ghost(i): Ghost<nat>, Ghost(len): Ghost<nat>)
    requires
        axis_scan_wf(old(st)@, i, len),
        ev.start <= ev.end <= len,
        i < ev.end,
    ensures
        final(st)@ == axis_plot_child(old(st)@, ev.view(), empty),
        axis_scan_wf(final(st)@, i + 1, len),
{
    let local = xml_local_name(&ev.name);
    let n = st.stack.len();
    let chars = byte_chars_of(local.as_slice());
    match chart_axis_kind_from_xml_name(&chars) {
        Some(k) => {
            let ghost before = st.axes@;
            st.axes.push(
                AxisSpan {
                    kind: k,
                    raw_id: None,
                    qualified_name: crate::chart_patch::lossy_text(ev.name.as_slice()),
                    start: ev.start,
                    start_tag_end: ev.end,
                    end: if empty { ev.end } else { 0 },
                    end_tag_start: if empty { ev.start } else { 0 },
                    axis_id: None,
                    scaling: None,
                    delete: None,
                    cross_axis: None,
                },
            );
            assert(axis_views(st.axes@) =~= axis_views(before).push(st.axes@.last().view()));
            if !empty {
                st.active_depth = Some(n + 1);
            }
            st.saw_axis = true;
        },
        None => {
            if st.saw_axis && st.first_after_axes.is_none() {
                st.first_after_axes = Some(ev.start);
            }
        },
    }
}

fn axis_child_exec(last: &mut AxisSpan, ev: &XmlEvent, close: usize, Ghost(input): Ghost<Seq<u8>>, Ghost(i): Ghost<nat>, Ghost(len): Ghost<nat>) -> (r: Result<
    (),
    OmError,
>)
    requires
        ev.handle.origin() == (input, false, i),
        axis_bounded(old(last).view(), len),
        ev.start <= ev.end <= len,
        close <= len,
    ensures
        match axis_child_update(input, i, old(last).view(), ev.view(), close as nat) {
            Ok(a) => r is Ok && final(last).view() == a,
            Err(x) => r matches Err(e) && error_view(e) == x,
        },
        r is Ok ==> axis_bounded(final(last).view(), len),
{
    let local = xml_local_name(&ev.name);
    if bytes_eq_lit(local.as_slice(), "axId") {
        if last.axis_id.is_some() {
            return Err(om_error(OmErrorCode::Parse, "loaded chart axis has duplicate axId elements"));
        }
        let v = match crate::chart_patch::element_val_attribute(&ev.handle) {
            Ok(v) => v,
            Err(e) => {
                return Err(e);
            },
        };
        last.raw_id = v;
        last.axis_id = Some(AxisChild { start: ev.start, start_tag_end: ev.end, end: close });
    } else if bytes_eq_lit(local.as_slice(), "scaling") {
        last.scaling = Some(AxisChild { start: ev.start, start_tag_end: ev.end, end: close });
    } else if bytes_eq_lit(local.as_slice(), "delete") {
        if last.delete.is_some() {
            return Err(om_error(OmErrorCode::Parse, "loaded chart axis has duplicate delete elements"));
        }
        let value = match delete_value_exec(&ev.handle) {
            Ok(b) => b,
            Err(e) => {
                return Err(e);
            },
        };
        last.delete = Some(AxisDelete { span: AxisChild { start: ev.start, start_tag_end: ev.end, end: close }, value });
    } else if bytes_eq_lit(local.as_slice(), "crossAx") {
        if last.cross_axis.is_some() {
            return Err(om_error(OmErrorCode::Parse, "loaded chart axis has duplicate crossAx elements"));
        }
        let v = match crate::chart_patch::element_val_attribute(&ev.handle) {
            Ok(v) => v,
            Err(e) => {
                return Err(e);
            },
        };
        last.cross_axis = Some(AxisCross { raw_id: v, start: ev.start, start_tag_end: ev.end, end: close });
    }
    Ok(())
}

#[verifier::spinoff_prover]
fn axis_tag_exec(
    st: &mut AxisScan,
    ev: &XmlEvent,
    is_chart: bool,
    empty: bool,
    Ghost(input): Ghost<Seq<u8>>,
    Ghost(i): Ghost<nat>,
    Ghost(len): Ghost<nat>,
) -> (r: Result<(), OmError>)
    requires
        axis_scan_wf(old(st)@, i, len),
        is_chart == in_chart_namespace(input, i, ev.name@),
        ev.handle.origin() == (input, false, i),
        ev.start <= ev.end <= len,
        i < ev.end,
    ensures
        match axis_tag(input, i, old(st)@, ev.view(), empty) {
            Ok(s) => r is Ok && final(st)@ == s,
            Err(x) => r matches Err(e) && error_view(e) == x,
        },
        r is Ok ==> axis_scan_wf(final(st)@, i + 1, len),
{
    let ghost v0 = st@;
    let n = st.stack.len();
    let in_plot = n > 0 && bytes_eq_lit(st.stack[n - 1].as_slice(), "plotArea") && st.chart_ns[n - 1];
    assert(in_plot == (v0.stack.len() > 0 && v0.stack.last() == lit("plotArea") && v0.chart_ns.last())) by {
        if n > 0 {
            assert(v0.stack.last() == st.stack@[n - 1]@);
        }
    }
    let at_depth = match st.active_depth {
        Some(d) => d == n,
        None => false,
    };
    if is_chart && in_plot {
        axis_plot_child_exec(st, ev, empty, Ghost(i), Ghost(len));
        return Ok(());
    }
    if !(is_chart && at_depth && st.axes.len() > 0) {
        return Ok(());
    }
    let mut last = st.axes.pop().unwrap();
    assert(v0.axes.last() == last.view());
    assert(axis_views(st.axes@) =~= v0.axes.drop_last());
    let close = if empty { ev.end } else { 0 };
    assert(axis_bounded(v0.axes[v0.axes.len() - 1], len));
    match axis_child_exec(&mut last, ev, close, Ghost(input), Ghost(i), Ghost(len)) {
        Ok(()) => {},
        Err(e) => {
            return Err(e);
        },
    }
    let ghost rest = st.axes@;
    let ghost lv = last.view();
    st.axes.push(last);
    assert(axis_views(st.axes@) =~= axis_views(rest).push(lv));
    assert(axis_views(st.axes@) =~= v0.axes.update(v0.axes.len() - 1, lv));
    proof {
        lemma_wf_last_axis(v0, lv, i, i + 1, len);
    }
    Ok(())
}

fn axis_start_exec(
    st: &mut AxisScan,
    ev: &XmlEvent,
    is_chart: bool,
    Ghost(input): Ghost<Seq<u8>>,
    Ghost(i): Ghost<nat>,
    Ghost(len): Ghost<nat>,
) -> (r: Result<(), OmError>)
    requires
        axis_scan_wf(old(st)@, i, len),
        is_chart == in_chart_namespace(input, i, ev.name@),
        ev.handle.origin() == (input, false, i),
        ev.start <= ev.end <= len,
        i < ev.end,
    ensures
        match axis_start(input, i, old(st)@, ev.view()) {
            Ok(s) => r is Ok && final(st)@ == s,
            Err(x) => r matches Err(e) && error_view(e) == x,
        },
        r is Ok ==> axis_scan_wf(final(st)@, i + 1, len),
{
    match axis_tag_exec(st, ev, is_chart, false, Ghost(input), Ghost(i), Ghost(len)) {
        Ok(()) => {},
        Err(e) => {
            return Err(e);
        },
    }
    let local = xml_local_name(&ev.name);
    let ghost stack0 = st.stack@;
    st.stack.push(local);
    assert(crate::chart_patch::byte_lists(st.stack@) =~= crate::chart_patch::byte_lists(stack0).push(local_name(ev.name@)));
    st.chart_ns.push(is_chart);
    Ok(())
}

fn close_axis_child_exec(last: &mut AxisSpan, local: &Vec<u8>, end: usize, Ghost(len): Ghost<nat>)
    requires
        axis_bounded(old(last).view(), len),
        end <= len,
    ensures
        final(last).view() == closed_axis_child(old(last).view(), local@, end as nat),
        axis_bounded(final(last).view(), len),
{
    if bytes_eq_lit(local.as_slice(), "axId") {
        if let Some(c) = &mut last.axis_id {
            c.end = end;
        }
    } else if bytes_eq_lit(local.as_slice(), "scaling") {
        if let Some(c) = &mut last.scaling {
            c.end = end;
        }
    } else if bytes_eq_lit(local.as_slice(), "delete") {
        if let Some(d) = &mut last.delete {
            d.span.end = end;
        }
    } else if bytes_eq_lit(local.as_slice(), "crossAx") {
        if let Some(c) = &mut last.cross_axis {
            c.end = end;
        }
    }
}

#[verifier::spinoff_prover]
fn axis_end_exec(
    st: &mut AxisScan,
    ev: &XmlEvent,
    is_chart: bool,
    Ghost(input): Ghost<Seq<u8>>,
    Ghost(i): Ghost<nat>,
    Ghost(len): Ghost<nat>,
) -> (r: Result<(), OmError>)
    requires
        axis_scan_wf(old(st)@, i, len),
        is_chart == in_chart_namespace(input, i, ev.name@),
        ev.start <= ev.end <= len,
        i < ev.end,
    ensures
        match axis_end(input, i, old(st)@, ev.view()) {
            Ok(s) => r is Ok && final(st)@ == s,
            Err(x) => r matches Err(e) && error_view(e) == x,
        },
        r is Ok ==> axis_scan_wf(final(st)@, i + 1, len),
{
    let ghost v0 = st@;
    let local = xml_local_name(&ev.name);
    let n = st.stack.len();
    let in_axis_child = is_chart && (match st.active_depth {
        Some(d) => n == d + 1,
        None => false,
    }) && st.axes.len() > 0;
    if in_axis_child {
        let mut last = st.axes.pop().unwrap();
        assert(v0.axes.last() == last.view());
        assert(axis_bounded(v0.axes[v0.axes.len() - 1], len));
        close_axis_child_exec(&mut last, &local, ev.end, Ghost(len));
        let ghost lv = last.view();
        st.axes.push(last);
        assert(axis_views(st.axes@) =~= v0.axes.update(v0.axes.len() - 1, lv));
        proof {
            lemma_wf_last_axis(v0, lv, i, i, len);
        }
    }
    let ghost v1 = st@;
    let chars = byte_chars_of(local.as_slice());
    let at_depth = match st.active_depth {
        Some(d) => d == n,
        None => false,
    };
    let closes_axis = is_chart && at_depth && n >= 2 && bytes_eq_lit(st.stack[n - 2].as_slice(), "plotArea")
        && st.chart_ns[n - 2] && chart_axis_kind_from_xml_name(&chars).is_some();
    assert(n >= 2 ==> v1.stack[n - 2] == st.stack@[n - 2]@);
    if closes_axis {
        if st.axes.len() == 0 {
            return Err(om_error(OmErrorCode::Parse, "loaded chart axis end has no matching start"));
        }
        let k = chart_axis_kind_from_xml_name(&chars).unwrap();
        let mut last = st.axes.pop().unwrap();
        assert(v1.axes.last() == last.view());
        if last.end != 0 || last.kind != k {
            return Err(om_error(OmErrorCode::Parse, "loaded chart axis elements are not properly nested"));
        }
        assert(axis_bounded(v1.axes[v1.axes.len() - 1], len));
        last.end = ev.end;
        last.end_tag_start = ev.start;
        let ghost lv = last.view();
        st.axes.push(last);
        assert(axis_views(st.axes@) =~= v1.axes.update(v1.axes.len() - 1, lv));
        proof {
            lemma_wf_last_axis(v1, lv, i, i, len);
        }
        st.active_depth = None;
    }
    if is_chart && bytes_eq_lit(local.as_slice(), "plotArea") {
        st.plot_area_end = Some(ev.start);
    }
    let ghost stack1 = st.stack@;
    let _ = st.stack.pop();
    assert(crate::chart_patch::byte_lists(st.stack@) =~= if stack1.len() > 0 {
        crate::chart_patch::byte_lists(stack1).drop_last()
    } else {
        crate::chart_patch::byte_lists(stack1)
    });
    let ghost ns1 = st.chart_ns@;
    let _ = st.chart_ns.pop();
    assert(st.chart_ns@ =~= if ns1.len() > 0 { ns1.drop_last() } else { ns1 });
    Ok(())
}

proof fn lemma_axis_wf_weaken(v: AxisScanView, c1: nat, c2: nat, len: nat)
    requires
        axis_scan_wf(v, c1, len),
        c1 <= c2,
    ensures
        axis_scan_wf(v, c2, len),
{
}

fn axis_scan_exec(existing_chart_xml: &[u8]) -> (r: Result<AxisScan, OmError>)
    ensures
        match axis_scan(existing_chart_xml@) {
            Ok(v) => r matches Ok(s) && s@ == v && axis_scan_wf(s@, (existing_chart_xml@.len() + 1) as nat, existing_chart_xml@.len()),
            Err(x) => r matches Err(e) && error_view(e) == x,
        },
{
    let ghost input = existing_chart_xml@;
    let ghost fuel = input.len() + 1;
    let ghost len = input.len();
    let mut reader = NsXmlReader::new(existing_chart_xml, false);
    let mut st = AxisScan {
        stack: Vec::new(),
        chart_ns: Vec::new(),
        axes: Vec::new(),
        active_depth: None,
        saw_axis: false,
        first_after_axes: None,
        plot_area_end: None,
    };
    assert(st@ =~= AxisScanView {
        stack: Seq::empty(),
        chart_ns: Seq::empty(),
        axes: Seq::empty(),
        active_depth: None,
        saw_axis: false,
        first_after_axes: None,
        plot_area_end: None,
    }) by {
        assert(crate::chart_patch::byte_lists(st.stack@) =~= Seq::<Seq<u8>>::empty());
        assert(axis_views(st.axes@) =~= Seq::<AxisSpanView>::empty());
    }
    loop
        invariant
            reader.input() == input,
            input == existing_chart_xml@,
            len == input.len(),
            !reader.trim(),
            fuel == input.len() + 1,
            reader.count() <= fuel,
            reader.pos() <= input.len(),
            fuel - reader.count() >= input.len() - reader.pos() + 1,
            axis_scan_wf(st@, reader.count(), len),
            axis_scan(input) == axis_scan_run(input, reader.count(), st@, (fuel - reader.count()) as nat),
        decreases input.len() - reader.pos(),
    {
        let ghost i = reader.count();
        let ev = match reader.read_event() {
            Ok(ev) => ev,
            Err(e) => {
                return Err(xml_error(e));
            },
        };
        if ev.kind == XmlEventKind::Eof {
            proof {
                lemma_axis_wf_weaken(st@, i, fuel, len);
            }
            return Ok(st);
        }
        let step = if ev.kind == XmlEventKind::Start || ev.kind == XmlEventKind::Empty || ev.kind == XmlEventKind::End {
            let ns = reader.resolve_element(ev.name.as_slice());
            let is_chart = is_chart_namespace(&ns);
            if ev.kind == XmlEventKind::Start {
                axis_start_exec(&mut st, &ev, is_chart, Ghost(input), Ghost(i), Ghost(len))
            } else if ev.kind == XmlEventKind::Empty {
                axis_tag_exec(&mut st, &ev, is_chart, true, Ghost(input), Ghost(i), Ghost(len))
            } else {
                axis_end_exec(&mut st, &ev, is_chart, Ghost(input), Ghost(i), Ghost(len))
            }
        } else {
            proof {
                lemma_axis_wf_weaken(st@, i, i + 1, len);
            }
            Ok(())
        };
        match step {
            Ok(()) => {},
            Err(e) => {
                return Err(e);
            },
        }
    }
}

fn opt_str_eq(a: &Option<String>, b: &String) -> (r: bool)
    ensures
        r == (crate::parts::opt_view(*a) == Some(b@)),
{
    match a {
        Some(x) => crate::text::str_eq(x.as_str(), b.as_str()),
        None => false,
    }
}

fn axis_unclosed_exec(a: &AxisSpan) -> (r: bool)
    ensures
        r == axis_unclosed(a.view()),
{
    let cross_open = match &a.cross_axis {
        Some(c) => c.end == 0,
        None => false,
    };
    let id_open = match &a.axis_id {
        Some(c) => c.end == 0,
        None => false,
    };
    let scaling_open = match &a.scaling {
        Some(c) => c.end == 0,
        None => false,
    };
    let delete_open = match &a.delete {
        Some(d) => d.span.end == 0,
        None => false,
    };
    a.end == 0 || a.end_tag_start == 0 || cross_open || id_open || scaling_open || delete_open
}

fn check_loaded_axes(axes: &Vec<AxisSpan>) -> (r: Result<(), OmError>)
    ensures
        ({
            let v = axis_views(axes@);
            if exists|i: int| 0 <= i < v.len() && axis_unclosed(#[trigger] v[i]) {
                r matches Err(e) && error_view(e) == (OmErrorCode::Parse, axis_unclosed_message())
            } else if exists|i: int| 0 <= i < v.len() && ((#[trigger] v[i]).axis_id is None || v[i].raw_id is None) {
                r matches Err(e) && error_view(e) == (OmErrorCode::Parse, axis_missing_id_message())
            } else if axis_ids_duplicated(v) {
                r matches Err(e) && error_view(e) == (OmErrorCode::Parse, axis_xml_duplicate_message())
            } else {
                r is Ok
            }
        }),
{
    let ghost v = axis_views(axes@);
    let mut k: usize = 0;
    while k < axes.len()
        invariant
            k <= axes@.len(),
            v == axis_views(axes@),
            forall|j: int| 0 <= j < k ==> !axis_unclosed(#[trigger] v[j]),
        decreases axes@.len() - k,
    {
        assert(v[k as int] == axes@[k as int].view());
        if axis_unclosed_exec(&axes[k]) {
            return Err(om_error(OmErrorCode::Parse, "loaded chart axis or crossAx has no closing XML boundary"));
        }
        k += 1;
    }
    k = 0;
    while k < axes.len()
        invariant
            k <= axes@.len(),
            v == axis_views(axes@),
            forall|j: int| 0 <= j < v.len() ==> !axis_unclosed(#[trigger] v[j]),
            forall|j: int| 0 <= j < k ==> !((#[trigger] v[j]).axis_id is None || v[j].raw_id is None),
        decreases axes@.len() - k,
    {
        assert(v[k as int] == axes@[k as int].view());
        if axes[k].axis_id.is_none() || axes[k].raw_id.is_none() {
            return Err(om_error(OmErrorCode::Parse, "loaded chart axis is missing a stable axId"));
        }
        k += 1;
    }
    let mut j: usize = 0;
    while j < axes.len()
        invariant
            j <= axes@.len(),
            v == axis_views(axes@),
            forall|x: int| 0 <= x < v.len() ==> !axis_unclosed(#[trigger] v[x]),
            forall|x: int| 0 <= x < v.len() ==> !((#[trigger] v[x]).axis_id is None || v[x].raw_id is None),
            forall|a: int, b: int| 0 <= a < b < j ==> !((#[trigger] v[a]).raw_id is Some && v[a].raw_id == (#[trigger] v[b]).raw_id),
        decreases axes@.len() - j,
    {
        let mut i: usize = 0;
        while i < j
            invariant
                i <= j < axes@.len(),
                v == axis_views(axes@),
                forall|x: int| 0 <= x < v.len() ==> !axis_unclosed(#[trigger] v[x]),
                forall|x: int| 0 <= x < v.len() ==> !((#[trigger] v[x]).axis_id is None || v[x].raw_id is None),
                forall|a: int| 0 <= a < i ==> !((#[trigger] v[a]).raw_id is Some && v[a].raw_id == v[j as int].raw_id),
            decreases j - i,
        {
            assert(v[i as int] == axes@[i as int].view());
            assert(v[j as int] == axes@[j as int].view());
            let same = match &axes[j].raw_id {
                Some(id) => opt_str_eq(&axes[i].raw_id, id),
                None => false,
            };
            if same {
                assert(0 <= i < j < v.len() && v[i as int].raw_id is Some && v[i as int].raw_id == v[j as int].raw_id);
                return Err(om_error(OmErrorCode::Parse, "loaded chart axis identity is duplicated in XML"));
            }
            i += 1;
        }
        j += 1;
    }
    Ok(())
}

fn loaded_axis_with_id_exec(axes: &Vec<AxisSpan>, id: &String) -> (r: Option<usize>)
    ensures
        opt_pos(r) == loaded_axis_with_id(axis_views(axes@), id@, 0),
        r matches Some(l) ==> l < axes@.len(),
{
    let ghost v = axis_views(axes@);
    let mut k: usize = 0;
    while k < axes.len()
        invariant
            k <= axes@.len(),
            v == axis_views(axes@),
            loaded_axis_with_id(v, id@, 0) == loaded_axis_with_id(v, id@, k as int),
        decreases axes@.len() - k,
    {
        assert(v[k as int] == axes@[k as int].view());
        if opt_str_eq(&axes[k].raw_id, id) {
            return Some(k);
        }
        k += 1;
    }
    None
}

struct AxisMatch {
    seen: Vec<bool>,
    model_of: Vec<Option<usize>>,
    additions: Vec<usize>,
}

impl AxisMatch {
    spec fn view(&self) -> AxisMatchView {
        AxisMatchView {
            seen: self.seen@,
            model_of: self.model_of@.map_values(|o: Option<usize>| opt_pos(o)),
            additions: self.additions@.map_values(|m: usize| m as nat),
        }
    }
}

proof fn lemma_matches_error_stays(axes: Seq<AxisSpanView>, model: Seq<AxisModel>, m: int, n: int)
    requires
        0 <= m <= n,
        axis_matches_upto(axes, model, m) is Err,
    ensures
        axis_matches_upto(axes, model, n) == axis_matches_upto(axes, model, m),
    decreases n - m,
{
    if m < n {
        lemma_matches_error_stays(axes, model, m, n - 1);
    }
}

fn match_axes(axes: &Vec<AxisSpan>, model: &Vec<AxisModel>) -> (r: Result<AxisMatch, OmError>)
    ensures
        match axis_matches_upto(axis_views(axes@), model@, model@.len() as int) {
            Ok(v) => r matches Ok(x) && x@ == v && x.seen@.len() == axes@.len() && x.model_of@.len() == axes@.len()
                && (forall|l: int| 0 <= l < axes@.len() ==> (#[trigger] x.model_of@[l] matches Some(m) ==> m < model@.len()))
                && (forall|k: int| 0 <= k < x.additions@.len() ==> #[trigger] x.additions@[k] < model@.len()),
            Err(f) => r matches Err(e) && error_view(e) == f,
        },
{
    let ghost v = axis_views(axes@);
    let mut seen: Vec<bool> = Vec::new();
    let mut model_of: Vec<Option<usize>> = Vec::new();
    let mut k: usize = 0;
    while k < axes.len()
        invariant
            k <= axes@.len(),
            seen@.len() == k,
            model_of@.len() == k,
            forall|j: int| 0 <= j < k ==> !(#[trigger] seen@[j]),
            forall|j: int| 0 <= j < k ==> (#[trigger] model_of@[j]) is None,
        decreases axes@.len() - k,
    {
        seen.push(false);
        model_of.push(None);
        k += 1;
    }
    let mut st = AxisMatch { seen, model_of, additions: Vec::new() };
    assert(st@ == axis_matches_upto(v, model@, 0)->Ok_0) by {
        assert(st.seen@ =~= Seq::new(v.len(), |i: int| false));
        assert(st.model_of@.map_values(|o: Option<usize>| opt_pos(o)) =~= Seq::new(v.len(), |i: int| None::<nat>));
        assert(st.additions@.map_values(|m: usize| m as nat) =~= Seq::<nat>::empty());
    }
    let mut m: usize = 0;
    while m < model.len()
        invariant
            m <= model@.len(),
            v == axis_views(axes@),
            st.seen@.len() == axes@.len(),
            st.model_of@.len() == axes@.len(),
            forall|l: int| 0 <= l < axes@.len() ==> (#[trigger] st.model_of@[l] matches Some(x) ==> x < model@.len()),
            forall|j: int| 0 <= j < st.additions@.len() ==> #[trigger] st.additions@[j] < model@.len(),
            axis_matches_upto(v, model@, m as int) == Ok::<AxisMatchView, ErrorView>(st@),
        decreases model@.len() - m,
    {
        let loaded = match &model[m].raw_id {
            Some(id) => loaded_axis_with_id_exec(axes, id),
            None => None,
        };
        match loaded {
            Some(l) => {
                if st.seen[l] {
                    proof {
                        lemma_matches_error_stays(v, model@, m + 1, model@.len() as int);
                    }
                    return Err(om_error(OmErrorCode::Unsupported, "loaded chart axis identity is duplicated in the model"));
                }
                st.seen.set(l, true);
                let ghost before = st.model_of@;
                st.model_of.set(l, Some(m));
                assert(st.model_of@.map_values(|o: Option<usize>| opt_pos(o)) =~= before.map_values(|o: Option<usize>| opt_pos(o)).update(
                    l as int,
                    Some(m as nat),
                ));
            },
            None => {
                let ghost before = st.additions@;
                st.additions.push(m);
                assert(st.additions@.map_values(|x: usize| x as nat) =~= before.map_values(|x: usize| x as nat).push(m as nat));
            },
        }
        m += 1;
    }
    Ok(st)
}

fn axis_referenced_exec(groups: &Vec<crate::chart_model::ChartGroupModel>, id: &String) -> (r: bool)
    ensures
        r == axis_referenced(groups@, id@),
{
    let mut g: usize = 0;
    while g < groups.len()
        invariant
            g <= groups@.len(),
            forall|x: int, k: int| 0 <= x < g && 0 <= k < groups@[x].axis_ids@.len() ==> (#[trigger] groups@[x].axis_ids@[k])@ != id@,
        decreases groups@.len() - g,
    {
        let ids = &groups[g].axis_ids;
        let mut k: usize = 0;
        while k < ids.len()
            invariant
                g < groups@.len(),
                ids == &groups@[g as int].axis_ids,
                k <= ids@.len(),
                forall|x: int, j: int| 0 <= x < g && 0 <= j < groups@[x].axis_ids@.len() ==> (#[trigger] groups@[x].axis_ids@[j])@ != id@,
                forall|j: int| 0 <= j < k ==> (#[trigger] ids@[j])@ != id@,
            decreases ids@.len() - k,
        {
            if crate::text::str_eq(ids[k].as_str(), id.as_str()) {
                assert(0 <= g < groups@.len() && 0 <= k < groups@[g as int].axis_ids@.len() && groups@[g as int].axis_ids@[k as int]@ == id@);
                return true;
            }
            k += 1;
        }
        g += 1;
    }
    false
}

proof fn lemma_removals_error_stays(axes: Seq<AxisSpanView>, seen: Seq<bool>, groups: Seq<crate::chart_model::ChartGroupModel>, l: int, n: int)
    requires
        0 <= l <= n,
        axis_removals_upto(axes, seen, groups, l) is Err,
    ensures
        axis_removals_upto(axes, seen, groups, n) == axis_removals_upto(axes, seen, groups, l),
    decreases n - l,
{
    if l < n {
        lemma_removals_error_stays(axes, seen, groups, l, n - 1);
    }
}

spec fn edits_within(edits: Seq<(usize, usize, Vec<u8>)>, len: nat) -> bool {
    forall|k: int| 0 <= k < edits.len() ==> (#[trigger] edits[k]).0 <= len && edits[k].1 <= len
}

fn axis_removal_edits(
    axes: &Vec<AxisSpan>,
    seen: &Vec<bool>,
    groups: &Vec<crate::chart_model::ChartGroupModel>,
    Ghost(len): Ghost<nat>,
) -> (r: Result<Vec<(usize, usize, Vec<u8>)>, OmError>)
    requires
        seen@.len() == axes@.len(),
        forall|i: int| 0 <= i < axes@.len() ==> axis_bounded(#[trigger] axis_views(axes@)[i], len),
    ensures
        match axis_removals_upto(axis_views(axes@), seen@, groups@, axes@.len() as int) {
            Ok(v) => r matches Ok(x) && crate::chart_edits::edit_views(x@) == v && edits_within(x@, len),
            Err(f) => r matches Err(e) && error_view(e) == f,
        },
{
    let ghost v = axis_views(axes@);
    let mut edits: Vec<(usize, usize, Vec<u8>)> = Vec::new();
    let mut l: usize = 0;
    assert(crate::chart_edits::edit_views(edits@) =~= Seq::<(nat, nat, Seq<u8>)>::empty());
    while l < axes.len()
        invariant
            l <= axes@.len(),
            v == axis_views(axes@),
            seen@.len() == axes@.len(),
            forall|i: int| 0 <= i < axes@.len() ==> axis_bounded(#[trigger] v[i], len),
            edits_within(edits@, len),
            axis_removals_upto(v, seen@, groups@, l as int) == Ok::<Seq<(nat, nat, Seq<u8>)>, ErrorView>(
                crate::chart_edits::edit_views(edits@),
            ),
        decreases axes@.len() - l,
    {
        assert(v[l as int] == axes@[l as int].view());
        assert(axis_bounded(v[l as int], len));
        if !seen[l] {
            let used = match &axes[l].raw_id {
                Some(id) => axis_referenced_exec(groups, id),
                None => false,
            };
            if used {
                proof {
                    lemma_removals_error_stays(v, seen@, groups@, l + 1, axes@.len() as int);
                }
                return Err(om_error(
                    OmErrorCode::Unsupported,
                    "removing a chart axis that is still referenced by a group is not supported",
                ));
            }
            let ghost before = edits@;
            edits.push((axes[l].start, axes[l].end, Vec::new()));
            assert(crate::chart_edits::edit_views(edits@) =~= crate::chart_edits::edit_views(before).push(
                (v[l as int].start, v[l as int].end, Seq::<u8>::empty()),
            ));
        }
        l += 1;
    }
    Ok(edits)
}

fn rewritten_start_exec(input: &[u8], start: usize, end: usize, replacement: &str, not_element: &str) -> (r: Result<Vec<u8>, OmError>)
    requires
        start <= end <= input@.len(),
    ensures
        crate::chart_topology::bytes_error_result(r) == rewritten_start(input@, start as nat, end as nat, replacement@, not_element@),
{
    let sub = crate::chart_series_topology::copy_range(input, start, end);
    let mut reader = XmlReader::new(sub.as_slice(), false);
    let ev = match reader.read_event() {
        Ok(ev) => ev,
        Err(e) => {
            return Err(xml_error(e));
        },
    };
    if ev.kind == XmlEventKind::Start || ev.kind == XmlEventKind::Empty {
        let c = match crate::chart_patch::rewrite_chart_group_val_element(&ev.handle, &ev.name, replacement) {
            Ok(c) => c,
            Err(e) => {
                return Err(e);
            },
        };
        let mut out: Vec<u8> = Vec::new();
        out.push(60u8);
        crate::xml::append_bytes(&mut out, c.as_slice());
        if ev.kind == XmlEventKind::Empty {
            out.push(47u8);
        }
        out.push(62u8);
        if ev.kind == XmlEventKind::Start {
            assert(out@ =~= seq![60u8] + c@ + seq![62u8]);
        } else {
            assert(out@ =~= seq![60u8] + c@ + seq![47u8, 62u8]);
        }
        Ok(out)
    } else {
        Err(om_error(OmErrorCode::Parse, not_element))
    }
}

fn text_bytes(t: &String) -> (b: Vec<u8>)
    ensures
        b@ == vstd::utf8::encode_utf8(t@),
{
    t.as_str().as_bytes_vec()
}

fn delete_element_bytes(qualified_name: &String, expected: bool) -> (b: Vec<u8>)
    ensures
        b@ == vstd::utf8::encode_utf8(
            "<"@ + delete_name(qualified_name@) + " val=\""@ + crate::chart_model::flag_text(expected) + "\"/>"@,
        ),
{
    proof {
        reveal_strlit("<");
        reveal_strlit(":delete");
        reveal_strlit("delete");
        reveal_strlit(" val=\"");
        reveal_strlit("\"/>");
        reveal_strlit("1");
        reveal_strlit("0");
    }
    let chars = crate::text::chars_of(qualified_name.as_str());
    let mut text = String::from_str("<");
    match crate::text::rfind_char(&chars, ':') {
        Some(_) => {
            let prefix = crate::text::before_last_vec(&chars, ':');
            let p = crate::text::string_of(&prefix);
            text.append(p.as_str());
            text.append(":delete");
        },
        None => {
            text.append("delete");
        },
    }
    assert(text@ =~= "<"@ + delete_name(qualified_name@));
    text.append(" val=\"");
    text.append(if expected { "1" } else { "0" });
    text.append("\"/>");
    assert(text@ =~= "<"@ + delete_name(qualified_name@) + " val=\""@ + crate::chart_model::flag_text(expected) + "\"/>"@);
    text_bytes(&text)
}

proof fn lemma_deletes_error_stays(
    input: Seq<u8>,
    axes: Seq<AxisSpanView>,
    model_of: Seq<Option<nat>>,
    model: Seq<AxisModel>,
    acc: Seq<(nat, nat, Seq<u8>)>,
    l: int,
    n: int,
)
    requires
        0 <= l <= n,
        delete_edits_upto(input, axes, model_of, model, acc, l) is Err,
    ensures
        delete_edits_upto(input, axes, model_of, model, acc, n) == delete_edits_upto(input, axes, model_of, model, acc, l),
    decreases n - l,
{
    if l < n {
        lemma_deletes_error_stays(input, axes, model_of, model, acc, l, n - 1);
    }
}

fn axis_delete_edits(
    input: &[u8],
    axes: &Vec<AxisSpan>,
    matched: &AxisMatch,
    model: &Vec<AxisModel>,
    edits: &mut Vec<(usize, usize, Vec<u8>)>,
) -> (r: Result<(), OmError>)
    requires
        matched.model_of@.len() == axes@.len(),
        forall|l: int| 0 <= l < axes@.len() ==> (#[trigger] matched.model_of@[l] matches Some(m) ==> m < model@.len()),
        forall|i: int| 0 <= i < axes@.len() ==> axis_bounded(#[trigger] axis_views(axes@)[i], input@.len()),
        edits_within(old(edits)@, input@.len()),
    ensures
        match delete_edits_upto(
            input@,
            axis_views(axes@),
            matched@.model_of,
            model@,
            crate::chart_edits::edit_views(old(edits)@),
            axes@.len() as int,
        ) {
            Ok(v) => r is Ok && crate::chart_edits::edit_views(final(edits)@) == v && edits_within(final(edits)@, input@.len()),
            Err(f) => r matches Err(e) && error_view(e) == f,
        },
{
    proof {
        reveal_strlit("loaded chart delete span does not start with an element");
    }
    let ghost v = axis_views(axes@);
    let ghost acc = crate::chart_edits::edit_views(edits@);
    let ghost len = input@.len();
    let mut l: usize = 0;
    while l < axes.len()
        invariant
            l <= axes@.len(),
            v == axis_views(axes@),
            len == input@.len(),
            matched.model_of@.len() == axes@.len(),
            forall|x: int| 0 <= x < axes@.len() ==> (#[trigger] matched.model_of@[x] matches Some(m) ==> m < model@.len()),
            forall|i: int| 0 <= i < axes@.len() ==> axis_bounded(#[trigger] v[i], len),
            edits_within(edits@, len),
            acc == crate::chart_edits::edit_views(old(edits)@),
            delete_edits_upto(input@, v, matched@.model_of, model@, acc, l as int) == Ok::<
                Seq<(nat, nat, Seq<u8>)>,
                ErrorView,
            >(crate::chart_edits::edit_views(edits@)),
        decreases axes@.len() - l,
    {
        let a = &axes[l];
        assert(v[l as int] == a.view());
        assert(axis_bounded(v[l as int], len));
        assert(matched@.model_of[l as int] == opt_pos(matched.model_of@[l as int]));
        if let Some(m) = matched.model_of[l] {
            if let Some(expected) = model[m].deleted {
                let ghost before = edits@;
                match &a.delete {
                    Some(d) => {
                        if d.value != expected {
                            let rep: &str = if expected { "1" } else { "0" };
                            assert(rep@ == crate::chart_model::flag_text(expected));
                            assert(a.view().delete == Some(AxisDeleteView { span: d.span.view(), value: d.value }));
                            let t = match rewritten_start_exec(
                                input,
                                d.span.start,
                                d.span.start_tag_end,
                                rep,
                                "loaded chart delete span does not start with an element",
                            ) {
                                Ok(t) => t,
                                Err(e) => {
                                    assert(delete_edits_upto(input@, v, matched@.model_of, model@, acc, l + 1) == Err::<
                                        Seq<(nat, nat, Seq<u8>)>,
                                        ErrorView,
                                    >(error_view(e)));
                                    proof {
                                        lemma_deletes_error_stays(input@, v, matched@.model_of, model@, acc, l + 1, axes@.len() as int);
                                    }
                                    return Err(e);
                                },
                            };
                            let ghost tv = t@;
                            edits.push((d.span.start, d.span.start_tag_end, t));
                            proof {
                                reveal_strlit("1");
                                reveal_strlit("0");
                            }
                            assert(crate::chart_edits::edit_views(edits@) =~= crate::chart_edits::edit_views(before).push(
                                (d.span.start as nat, d.span.start_tag_end as nat, tv),
                            ));
                        }
                    },
                    None => {
                        let pos = match &a.scaling {
                            Some(c) => c.end,
                            None => match &a.axis_id {
                                Some(c) => c.end,
                                None => a.start_tag_end,
                            },
                        };
                        let t = delete_element_bytes(&a.qualified_name, expected);
                        let ghost tv = t@;
                        edits.push((pos, pos, t));
                        assert(crate::chart_edits::edit_views(edits@) =~= crate::chart_edits::edit_views(before).push(
                            (pos as nat, pos as nat, tv),
                        ));
                    },
                }
            }
        }
        l += 1;
    }
    Ok(())
}

proof fn lemma_crosses_error_stays(
    input: Seq<u8>,
    axes: Seq<AxisSpanView>,
    model_of: Seq<Option<nat>>,
    model: Seq<AxisModel>,
    acc: Seq<(nat, nat, Seq<u8>)>,
    l: int,
    n: int,
)
    requires
        0 <= l <= n,
        cross_edits_upto(input, axes, model_of, model, acc, l) is Err,
    ensures
        cross_edits_upto(input, axes, model_of, model, acc, n) == cross_edits_upto(input, axes, model_of, model, acc, l),
    decreases n - l,
{
    if l < n {
        lemma_crosses_error_stays(input, axes, model_of, model, acc, l, n - 1);
    }
}

fn cross_element_bytes(id: &String) -> (b: Vec<u8>)
    ensures
        b@ == vstd::utf8::encode_utf8("<c:crossAx val=\""@ + crate::chart_xml::escaped(id@) + "\"/>"@),
{
    proof {
        reveal_strlit("<c:crossAx val=\"");
        reveal_strlit("\"/>");
    }
    let mut text = String::from_str("<c:crossAx val=\"");
    let escaped = crate::chart_xml::attribute_escape(id.as_str());
    text.append(escaped.as_str());
    text.append("\"/>");
    text_bytes(&text)
}

fn axis_cross_edits(
    input: &[u8],
    axes: &Vec<AxisSpan>,
    matched: &AxisMatch,
    model: &Vec<AxisModel>,
    edits: &mut Vec<(usize, usize, Vec<u8>)>,
) -> (r: Result<(), OmError>)
    requires
        matched.model_of@.len() == axes@.len(),
        forall|l: int| 0 <= l < axes@.len() ==> (#[trigger] matched.model_of@[l] matches Some(m) ==> m < model@.len()),
        forall|i: int| 0 <= i < axes@.len() ==> axis_bounded(#[trigger] axis_views(axes@)[i], input@.len()),
        edits_within(old(edits)@, input@.len()),
    ensures
        match cross_edits_upto(
            input@,
            axis_views(axes@),
            matched@.model_of,
            model@,
            crate::chart_edits::edit_views(old(edits)@),
            axes@.len() as int,
        ) {
            Ok(v) => r is Ok && crate::chart_edits::edit_views(final(edits)@) == v && edits_within(final(edits)@, input@.len()),
            Err(f) => r matches Err(e) && error_view(e) == f,
        },
{
    let ghost v = axis_views(axes@);
    let ghost acc = crate::chart_edits::edit_views(edits@);
    let ghost len = input@.len();
    let mut l: usize = 0;
    while l < axes.len()
        invariant
            l <= axes@.len(),
            v == axis_views(axes@),
            len == input@.len(),
            matched.model_of@.len() == axes@.len(),
            forall|x: int| 0 <= x < axes@.len() ==> (#[trigger] matched.model_of@[x] matches Some(m) ==> m < model@.len()),
            forall|i: int| 0 <= i < axes@.len() ==> axis_bounded(#[trigger] v[i], len),
            edits_within(edits@, len),
            acc == crate::chart_edits::edit_views(old(edits)@),
            cross_edits_upto(input@, v, matched@.model_of, model@, acc, l as int) == Ok::<
                Seq<(nat, nat, Seq<u8>)>,
                ErrorView,
            >(crate::chart_edits::edit_views(edits@)),
        decreases axes@.len() - l,
    {
        let a = &axes[l];
        assert(v[l as int] == a.view());
        assert(axis_bounded(v[l as int], len));
        assert(matched@.model_of[l as int] == opt_pos(matched.model_of@[l as int]));
        if let Some(m) = matched.model_of[l] {
            let expected = crate::chart_model::chart_axis_cross_target_id(model, &model[m]);
            let ghost before = edits@;
            match (&a.cross_axis, &expected) {
                (Some(c), Some(x)) => {
                    if !opt_str_eq(&c.raw_id, x) {
                        let t = match rewritten_start_exec(
                            input,
                            c.start,
                            c.start_tag_end,
                            x.as_str(),
                            "loaded chart crossAx span does not start with an element",
                        ) {
                            Ok(t) => t,
                            Err(e) => {
                                assert(cross_edits_upto(input@, v, matched@.model_of, model@, acc, l + 1) == Err::<
                                    Seq<(nat, nat, Seq<u8>)>,
                                    ErrorView,
                                >(error_view(e)));
                                proof {
                                    lemma_crosses_error_stays(input@, v, matched@.model_of, model@, acc, l + 1, axes@.len() as int);
                                }
                                return Err(e);
                            },
                        };
                        let ghost tv = t@;
                        edits.push((c.start, c.start_tag_end, t));
                        assert(crate::chart_edits::edit_views(edits@) =~= crate::chart_edits::edit_views(before).push(
                            (c.start as nat, c.start_tag_end as nat, tv),
                        ));
                    }
                },
                (Some(c), None) => {
                    edits.push((c.start, c.end, Vec::new()));
                    assert(crate::chart_edits::edit_views(edits@) =~= crate::chart_edits::edit_views(before).push(
                        (c.start as nat, c.end as nat, Seq::<u8>::empty()),
                    ));
                },
                (None, Some(x)) => {
                    let t = cross_element_bytes(x);
                    let ghost tv = t@;
                    edits.push((a.end_tag_start, a.end_tag_start, t));
                    assert(crate::chart_edits::edit_views(edits@) =~= crate::chart_edits::edit_views(before).push(
                        (a.end_tag_start as nat, a.end_tag_start as nat, tv),
                    ));
                },
                (None, None) => {},
            }
        }
        l += 1;
    }
    Ok(())
}

proof fn lemma_shells_error_stays(chart: ChartModel, additions: Seq<nat>, k: int, n: int)
    requires
        0 <= k <= n,
        axis_shells_upto(chart, additions, k) is Err,
    ensures
        axis_shells_upto(chart, additions, n) == axis_shells_upto(chart, additions, k),
    decreases n - k,
{
    if k < n {
        lemma_shells_error_stays(chart, additions, k, n - 1);
    }
}

fn axis_shells(chart: &ChartModel, additions: &Vec<usize>) -> (r: Result<Vec<u8>, OmError>)
    requires
        forall|k: int| 0 <= k < additions@.len() ==> #[trigger] additions@[k] < chart.axes@.len(),
    ensures
        crate::chart_topology::bytes_error_result(r) == axis_shells_upto(
            *chart,
            additions@.map_values(|m: usize| m as nat),
            additions@.len() as int,
        ),
{
    let ghost adds = additions@.map_values(|m: usize| m as nat);
    let mut out: Vec<u8> = Vec::new();
    let mut k: usize = 0;
    assert(out@ =~= Seq::<u8>::empty());
    while k < additions.len()
        invariant
            k <= additions@.len(),
            adds == additions@.map_values(|m: usize| m as nat),
            forall|j: int| 0 <= j < additions@.len() ==> #[trigger] additions@[j] < chart.axes@.len(),
            axis_shells_upto(*chart, adds, k as int) == Ok::<Seq<u8>, ErrorView>(out@),
        decreases additions@.len() - k,
    {
        let m = additions[k];
        assert(adds[k as int] == m as nat);
        let shell = match crate::chart_xml::serialize_loaded_chart_axis_shell(chart, &chart.axes[m]) {
            Ok(s) => s,
            Err(e) => {
                proof {
                    lemma_shells_error_stays(*chart, adds, k + 1, additions@.len() as int);
                }
                return Err(e);
            },
        };
        crate::xml::append_bytes(&mut out, shell.as_slice());
        k += 1;
    }
    Ok(out)
}

/// Brings the axes of loaded chart XML in line with the chart model: axes
/// the model no longer has are removed (unless a group still plots on
/// them), axes it added are written before the first plot-area element
/// after the axes (else before the plot area's end tag), the `delete` of
/// each kept axis is set to the model's, and when axes were added or
/// removed each kept axis's `crossAx` is pointed at the axis the model
/// crosses. Axes are matched by their `axId`.
pub fn rewrite_loaded_chart_axis_additions(existing_chart_xml: &[u8], chart: &ChartModel) -> (r: Result<Vec<u8>, OmError>)
    ensures
        crate::chart_topology::bytes_error_result(r) == axis_topology(existing_chart_xml@, *chart),
{
    let ghost len = existing_chart_xml@.len();
    let scan = match axis_scan_exec(existing_chart_xml) {
        Ok(s) => s,
        Err(e) => {
            return Err(e);
        },
    };
    let ghost axes = scan@.axes;
    match check_loaded_axes(&scan.axes) {
        Ok(()) => {},
        Err(e) => {
            return Err(e);
        },
    }
    let matched = match match_axes(&scan.axes, &chart.axes) {
        Ok(m) => m,
        Err(e) => {
            return Err(e);
        },
    };
    let mut changed = matched.additions.len() > 0;
    let mut l: usize = 0;
    while l < matched.seen.len()
        invariant
            l <= matched.seen@.len(),
            changed == (matched.additions@.len() > 0 || exists|x: int| 0 <= x < l && !#[trigger] matched.seen@[x]),
        decreases matched.seen@.len() - l,
    {
        if !matched.seen[l] {
            changed = true;
        }
        l += 1;
    }
    assert(forall|i: int| 0 <= i < scan.axes@.len() ==> axis_bounded(#[trigger] axis_views(scan.axes@)[i], len));
    let mut edits = match axis_removal_edits(&scan.axes, &matched.seen, &chart.groups, Ghost(len)) {
        Ok(e) => e,
        Err(e) => {
            return Err(e);
        },
    };
    match axis_delete_edits(existing_chart_xml, &scan.axes, &matched, &chart.axes, &mut edits) {
        Ok(()) => {},
        Err(e) => {
            return Err(e);
        },
    }
    if changed {
        match axis_cross_edits(existing_chart_xml, &scan.axes, &matched, &chart.axes, &mut edits) {
            Ok(()) => {},
            Err(e) => {
                return Err(e);
            },
        }
    }
    if matched.additions.len() == 0 {
        return crate::chart_edits::apply_loaded_chart_xml_edits(existing_chart_xml, edits, "axis update");
    }
    let pos = match scan.first_after_axes {
        Some(p) => p,
        None => match scan.plot_area_end {
            Some(p) => p,
            None => {
                return Err(om_error(OmErrorCode::Parse, "loaded chart plot area has no axis insertion position"));
            },
        },
    };
    let shells = match axis_shells(chart, &matched.additions) {
        Ok(s) => s,
        Err(e) => {
            return Err(e);
        },
    };
    let ghost before = edits@;
    let ghost sv = shells@;
    edits.push((pos, pos, shells));
    assert(crate::chart_edits::edit_views(edits@) =~= crate::chart_edits::edit_views(before).push((pos as nat, pos as nat, sv)));
    crate::chart_edits::apply_loaded_chart_xml_edits(existing_chart_xml, edits, "axis topology")
}

proof fn lemma_loaded_axis_with_id(axes: Seq<AxisSpanView>, id: Seq<char>, k: int)
    requires
        0 <= k,
    ensures
        loaded_axis_with_id(axes, id, k) matches Some(l) ==> k <= l < axes.len() && axes[l as int].raw_id == Some(id)
            && forall|j: int| k <= j < l ==> axes[j].raw_id != Some(id),
        (exists|j: int| k <= j < axes.len() && (#[trigger] axes[j]).raw_id == Some(id)) ==> loaded_axis_with_id(axes, id, k) is Some,
    decreases axes.len() - k,
{
    if k < axes.len() && axes[k].raw_id != Some(id) {
        lemma_loaded_axis_with_id(axes, id, k + 1);
        if exists|j: int| k <= j < axes.len() && (#[trigger] axes[j]).raw_id == Some(id) {
            let j = choose|j: int| k <= j < axes.len() && (#[trigger] axes[j]).raw_id == Some(id);
            assert(k + 1 <= j);
        }
    }
}

/// The loaded axis that a model axis names.
pub open spec fn loaded_index_of(axes: Seq<AxisSpanView>, a: AxisModel) -> Option<nat> {
    match a.raw_id {
        Some(id) => loaded_axis_with_id(axes, id@, 0),
        None => None,
    }
}

proof fn lemma_matches_all_loaded(axes: Seq<AxisSpanView>, model: Seq<AxisModel>, m: int)
    requires
        0 <= m <= model.len(),
        forall|x: int| 0 <= x < model.len() ==> loaded_index_of(axes, #[trigger] model[x]) is Some,
        forall|x: int, y: int| 0 <= x < y < model.len() ==> crate::parts::opt_view((#[trigger] model[x]).raw_id) != crate::parts::opt_view((#[trigger] model[y]).raw_id),
    ensures
        axis_matches_upto(axes, model, m) is Ok,
        ({
            let st = axis_matches_upto(axes, model, m)->Ok_0;
            &&& st.additions.len() == 0
            &&& st.seen.len() == axes.len()
            &&& st.model_of.len() == axes.len()
            &&& forall|l: int| 0 <= l < axes.len() ==> (#[trigger] st.seen[l] <==> exists|x: int| 0 <= x < m && loaded_index_of(axes, #[trigger] model[x]) == Some(l as nat))
            &&& forall|l: int| 0 <= l < axes.len() ==> (#[trigger] st.model_of[l] matches Some(x) ==> x < m && loaded_index_of(axes, model[x as int]) == Some(l as nat))
        }),
    decreases m,
{
    if m > 0 {
        lemma_matches_all_loaded(axes, model, m - 1);
        let st = axis_matches_upto(axes, model, m - 1)->Ok_0;
        let a = model[m - 1];
        assert(loaded_index_of(axes, a) is Some);
        let l = loaded_index_of(axes, a)->0;
        lemma_loaded_axis_with_id(axes, a.raw_id->0@, 0);
        if st.seen[l as int] {
            let x = choose|x: int| 0 <= x < m - 1 && loaded_index_of(axes, #[trigger] model[x]) == Some(l);
            lemma_loaded_axis_with_id(axes, model[x].raw_id->0@, 0);
            assert(model[x].raw_id->0@ == a.raw_id->0@);
            assert(crate::parts::opt_view(model[x].raw_id) == crate::parts::opt_view(a.raw_id));
            assert(false);
        }
        let next = axis_matches_upto(axes, model, m)->Ok_0;
        assert forall|j: int| 0 <= j < axes.len() implies (#[trigger] next.seen[j] <==> exists|x: int| 0 <= x < m && loaded_index_of(axes, #[trigger] model[x]) == Some(j as nat)) by {
            if j == l {
                assert(loaded_index_of(axes, model[m - 1]) == Some(j as nat));
            } else {
                if exists|x: int| 0 <= x < m && loaded_index_of(axes, #[trigger] model[x]) == Some(j as nat) {
                    let x = choose|x: int| 0 <= x < m && loaded_index_of(axes, #[trigger] model[x]) == Some(j as nat);
                    assert(x < m - 1);
                }
            }
        }
    }
}

/// A model axis with a `deleted` flag names a loaded axis whose `delete`
/// element has that value.
pub open spec fn delete_agrees(axes: Seq<AxisSpanView>, a: AxisModel) -> bool {
    a.deleted matches Some(b) ==> (loaded_index_of(axes, a) matches Some(l) && axes[l as int].delete matches Some(d) && d.value == b)
}

proof fn lemma_no_axis_removals(axes: Seq<AxisSpanView>, seen: Seq<bool>, groups: Seq<crate::chart_model::ChartGroupModel>, l: int)
    requires
        0 <= l <= axes.len(),
        seen.len() == axes.len(),
        forall|x: int| 0 <= x < axes.len() ==> #[trigger] seen[x],
    ensures
        axis_removals_upto(axes, seen, groups, l) == Ok::<Seq<(nat, nat, Seq<u8>)>, ErrorView>(Seq::empty()),
    decreases l,
{
    if l > 0 {
        lemma_no_axis_removals(axes, seen, groups, l - 1);
        assert(seen[l - 1]);
    }
}

proof fn lemma_no_delete_edits(
    input: Seq<u8>,
    axes: Seq<AxisSpanView>,
    model_of: Seq<Option<nat>>,
    model: Seq<AxisModel>,
    l: int,
)
    requires
        0 <= l <= axes.len(),
        model_of.len() == axes.len(),
        forall|x: int| 0 <= x < axes.len() ==> (#[trigger] model_of[x] matches Some(m) ==> m < model.len() && loaded_index_of(axes, model[m as int]) == Some(x as nat)),
        forall|m: int| 0 <= m < model.len() ==> delete_agrees(axes, #[trigger] model[m]),
    ensures
        delete_edits_upto(input, axes, model_of, model, Seq::empty(), l) == Ok::<Seq<(nat, nat, Seq<u8>)>, ErrorView>(Seq::empty()),
    decreases l,
{
    if l > 0 {
        lemma_no_delete_edits(input, axes, model_of, model, l - 1);
        match model_of[l - 1] {
            Some(m) => {
                assert(delete_agrees(axes, model[m as int]));
            },
            None => {},
        }
    }
}

/// Whether a model axis names loaded axis `l`.
pub open spec fn named_by_model(axes: Seq<AxisSpanView>, model: Seq<AxisModel>, l: int) -> bool {
    exists|m: int| 0 <= m < model.len() && loaded_index_of(axes, #[trigger] model[m]) == Some(l as nat)
}

/// The axes of the loaded XML are those of the model: the XML is one that
/// the axis rewrite accepts (every axis closed, with one `axId` value, no id
/// twice), every loaded axis is named by the `axId` of a model axis, every
/// model axis names a loaded one, no two model axes share an id, and every
/// `deleted` flag the model sets is the loaded one.
pub open spec fn axes_agree_with_xml(input: Seq<u8>, chart: ChartModel) -> bool {
    &&& axis_scan(input) is Ok
    &&& forall|i: int| 0 <= i < axis_scan(input)->Ok_0.axes.len() ==> !axis_unclosed(#[trigger] axis_scan(input)->Ok_0.axes[i])
    &&& forall|i: int| 0 <= i < axis_scan(input)->Ok_0.axes.len() ==> (#[trigger] axis_scan(input)->Ok_0.axes[i]).axis_id is Some
        && axis_scan(input)->Ok_0.axes[i].raw_id is Some
    &&& !axis_ids_duplicated(axis_scan(input)->Ok_0.axes)
    &&& forall|m: int| 0 <= m < chart.axes@.len() ==> loaded_index_of(axis_scan(input)->Ok_0.axes, #[trigger] chart.axes@[m]) is Some
    &&& forall|x: int, y: int| 0 <= x < y < chart.axes@.len() ==> crate::parts::opt_view((#[trigger] chart.axes@[x]).raw_id)
        != crate::parts::opt_view((#[trigger] chart.axes@[y]).raw_id)
    &&& forall|l: int| 0 <= l < axis_scan(input)->Ok_0.axes.len() ==> #[trigger] named_by_model(axis_scan(input)->Ok_0.axes, chart.axes@, l)
    &&& forall|m: int| 0 <= m < chart.axes@.len() ==> delete_agrees(axis_scan(input)->Ok_0.axes, #[trigger] chart.axes@[m])
}

/// When the model's axes are the loaded axes (every loaded axis is named by
/// the `axId` of a model axis, every model axis names a loaded one, no two
/// model axes share an id) and every `deleted` flag the model sets is the
/// loaded one, the axis rewrite changes nothing: the XML comes back as it
/// was read. The XML must be one that the rewrite accepts (every axis
/// closed, with one `axId` value, no id twice).
pub proof fn lemma_axis_topology_unchanged(input: Seq<u8>, chart: ChartModel)
    requires
        axis_scan(input) is Ok,
        forall|i: int| 0 <= i < axis_scan(input)->Ok_0.axes.len() ==> !axis_unclosed(#[trigger] axis_scan(input)->Ok_0.axes[i]),
        forall|i: int| 0 <= i < axis_scan(input)->Ok_0.axes.len() ==> (#[trigger] axis_scan(input)->Ok_0.axes[i]).axis_id is Some
            && axis_scan(input)->Ok_0.axes[i].raw_id is Some,
        !axis_ids_duplicated(axis_scan(input)->Ok_0.axes),
        forall|m: int| 0 <= m < chart.axes@.len() ==> loaded_index_of(axis_scan(input)->Ok_0.axes, #[trigger] chart.axes@[m]) is Some,
        forall|x: int, y: int| 0 <= x < y < chart.axes@.len() ==> crate::parts::opt_view((#[trigger] chart.axes@[x]).raw_id)
            != crate::parts::opt_view((#[trigger] chart.axes@[y]).raw_id),
        forall|l: int| 0 <= l < axis_scan(input)->Ok_0.axes.len() ==> #[trigger] named_by_model(axis_scan(input)->Ok_0.axes, chart.axes@, l),
        forall|m: int| 0 <= m < chart.axes@.len() ==> delete_agrees(axis_scan(input)->Ok_0.axes, #[trigger] chart.axes@[m]),
    ensures
        axis_topology(input, chart) == Ok::<Seq<u8>, ErrorView>(input),
{
    let scan = axis_scan(input)->Ok_0;
    let axes = scan.axes;
    let model = chart.axes@;
    lemma_matches_all_loaded(axes, model, model.len() as int);
    let matched = axis_matches_upto(axes, model, model.len() as int)->Ok_0;
    assert forall|l: int| 0 <= l < axes.len() implies #[trigger] matched.seen[l] by {
        assert(named_by_model(axes, model, l));
        let m = choose|m: int| 0 <= m < model.len() && loaded_index_of(axes, #[trigger] model[m]) == Some(l as nat);
        assert(loaded_index_of(axes, model[m]) == Some(l as nat));
    }
    assert(!(exists|l: int| 0 <= l < axes.len() && !#[trigger] matched.seen[l]));
    lemma_no_axis_removals(axes, matched.seen, chart.groups@, axes.len() as int);
    lemma_no_delete_edits(input, axes, matched.model_of, model, axes.len() as int);
    crate::chart_edits::lemma_no_edits_is_identity(input);
}

} // verus!
