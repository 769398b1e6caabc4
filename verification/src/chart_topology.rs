//! Where the chart groups of loaded chart XML are: the byte span of each
//! group element directly inside the plot area, where the first axis
//! starts and where the plot area ends.
use vstd::prelude::*;
use crate::chart_types::{
    axis_kind_of_name, chart_axis_kind_from_xml_name, chart_type_from_group_name,
    type_of_group_name,
};
use crate::errors::{OmError, OmErrorCode};
use crate::package_xml::{error_view, xml_error, ErrorView};
use crate::xml::{bytes_eq, bytes_eq_lit, lit, local_name, xml_local_name, xml_read_result, XmlEventKind, XmlReader};
use crate::chart_edits::{apply_edits, apply_loaded_chart_xml_edits, edit_views, overlap_message, ChartXmlEdit, EditView};
use crate::chart_model::ChartModel;
use crate::chart_sequence::{
    added_count, loaded_chart_group_sequence, loaded_survives, merged_tokens, next_loaded_from,
    raw_name_bytes, sequence_failure, LoadedChartGroupSequenceToken,
};
use crate::chart_xml::{group_shell, serialize_loaded_chart_group_shell};

verus! {

/// A byte string read as one character per byte.
pub open spec fn byte_chars(b: Seq<u8>) -> Seq<char> {
    b.map_values(|x: u8| x as char)
}

/// Whether a local name is that of a chart-group element.
pub open spec fn is_group_element(local: Seq<u8>) -> bool {
    type_of_group_name(byte_chars(local)) is Some
}

/// Whether a local name is that of an axis element.
pub open spec fn is_axis_element(local: Seq<u8>) -> bool {
    axis_kind_of_name(byte_chars(local)) is Some
}

/// The characters of a byte string, one per byte.
pub fn byte_chars_of(b: &[u8]) -> (r: Vec<char>)
    ensures
        r@ == byte_chars(b@),
{
    let mut r: Vec<char> = Vec::new();
    let mut i: usize = 0;
    while i < b.len()
        invariant
            i <= b@.len(),
            r@ == byte_chars(b@.subrange(0, i as int)),
        decreases b@.len() - i,
    {
        r.push(b[i] as char);
        assert(byte_chars(b@.subrange(0, i + 1)) =~= byte_chars(b@.subrange(0, i as int)).push(b@[i as int] as char));
        i += 1;
    }
    assert(b@.subrange(0, b@.len() as int) =~= b@);
    r
}

/// A group element of the plot area: its local name and the byte span
/// `[start, end)` of the element (an end of 0 while it is open).
pub struct LoadedChartGroupXmlSpan {
    pub raw_name: Vec<u8>,
    pub start: usize,
    pub end: usize,
}

/// What a group span holds: local name, start, end.
pub type GroupSpanView = (Seq<u8>, nat, nat);

impl LoadedChartGroupXmlSpan {
    pub open spec fn view(&self) -> GroupSpanView {
        (self.raw_name@, self.start as nat, self.end as nat)
    }
}

/// The group spans of loaded chart XML, where its first axis starts and
/// where its plot area ends.
pub struct LoadedChartGroupXmlTopology {
    pub groups: Vec<LoadedChartGroupXmlSpan>,
    pub first_axis_start: Option<usize>,
    pub plot_area_end: Option<usize>,
}

/// What a topology holds.
pub type TopologyView = (Seq<GroupSpanView>, Option<nat>, Option<nat>);

/// The views of group spans.
pub open spec fn span_views(v: Seq<LoadedChartGroupXmlSpan>) -> Seq<GroupSpanView> {
    v.map_values(|g: LoadedChartGroupXmlSpan| g@)
}

/// The view of an optional position.
pub open spec fn opt_pos(p: Option<usize>) -> Option<nat> {
    match p {
        Some(x) => Some(x as nat),
        None => None,
    }
}

impl LoadedChartGroupXmlTopology {
    pub open spec fn view(&self) -> TopologyView {
        (span_views(self.groups@), opt_pos(self.first_axis_start), opt_pos(self.plot_area_end))
    }
}

/// The message for a group end without its start.
pub open spec fn unmatched_end_message() -> Seq<char> {
    "loaded chart group end has no matching start"@
}

/// The message for group elements that do not nest.
pub open spec fn nesting_message() -> Seq<char> {
    "loaded chart group elements are not properly nested"@
}

/// The message for a group element that never closes.
pub open spec fn unclosed_message() -> Seq<char> {
    "loaded chart group has no closing XML boundary"@
}

/// Whether the innermost open element is the plot area.
pub open spec fn in_plot_area(stack: Seq<Seq<u8>>) -> bool {
    stack.len() > 0 && stack.last() == lit("plotArea")
}

/// The topology gathered so far, checked at the end of the document.
pub open spec fn scan_finish(groups: Seq<GroupSpanView>, first_axis: Option<nat>, plot_end: Option<nat>) -> Result<TopologyView, ErrorView> {
    if exists|k: int| 0 <= k < groups.len() && (#[trigger] groups[k]).2 == 0 {
        Err((OmErrorCode::Parse, unclosed_message()))
    } else {
        Ok((groups, first_axis, plot_end))
    }
}

/// Reads loaded chart XML from event `i` on, with the names of the open
/// elements in `stack`, gathering group spans, the first axis start and the
/// plot area end.
pub open spec fn scan_run(
    input: Seq<u8>,
    i: nat,
    stack: Seq<Seq<u8>>,
    groups: Seq<GroupSpanView>,
    first_axis: Option<nat>,
    plot_end: Option<nat>,
    fuel: nat,
) -> Result<TopologyView, ErrorView>
    decreases fuel,
{
    if fuel == 0 {
        scan_finish(groups, first_axis, plot_end)
    } else {
        let f = (fuel - 1) as nat;
        match xml_read_result(input, false, i) {
            Err(m) => Err((OmErrorCode::Parse, m)),
            Ok(e) => {
                let local = local_name(e.name);
                if e.kind == XmlEventKind::Eof {
                    scan_finish(groups, first_axis, plot_end)
                } else if e.kind == XmlEventKind::Start || e.kind == XmlEventKind::Empty {
                    let next_stack = if e.kind == XmlEventKind::Start { stack.push(local) } else { stack };
                    if in_plot_area(stack) && is_group_element(local) {
                        let end = if e.kind == XmlEventKind::Start { 0 } else { e.end };
                        scan_run(input, i + 1, next_stack, groups.push((local, e.start, end)), first_axis, plot_end, f)
                    } else if in_plot_area(stack) && is_axis_element(local) && first_axis is None {
                        scan_run(input, i + 1, next_stack, groups, Some(e.start), plot_end, f)
                    } else {
                        scan_run(input, i + 1, next_stack, groups, first_axis, plot_end, f)
                    }
                } else if e.kind == XmlEventKind::End {
                    let closes_group = stack.len() >= 2 && stack[stack.len() - 2] == lit("plotArea")
                        && is_group_element(local);
                    let next_plot_end = if local == lit("plotArea") { Some(e.start) } else { plot_end };
                    let next_stack = if stack.len() > 0 { stack.drop_last() } else { stack };
                    if !closes_group {
                        scan_run(input, i + 1, next_stack, groups, first_axis, next_plot_end, f)
                    } else if groups.len() == 0 {
                        Err((OmErrorCode::Parse, unmatched_end_message()))
                    } else if groups.last().2 != 0 || groups.last().0 != local {
                        Err((OmErrorCode::Parse, nesting_message()))
                    } else {
                        scan_run(
                            input,
                            i + 1,
                            next_stack,
                            groups.update(groups.len() - 1, (groups.last().0, groups.last().1, e.end)),
                            first_axis,
                            next_plot_end,
                            f,
                        )
                    }
                } else {
                    scan_run(input, i + 1, stack, groups, first_axis, plot_end, f)
                }
            },
        }
    }
}

/// The group topology of loaded chart XML.
pub open spec fn group_topology(input: Seq<u8>) -> Result<TopologyView, ErrorView> {
    scan_run(input, 0, Seq::empty(), Seq::empty(), None, None, input.len() + 1)
}

/// The view of a topology result.
pub open spec fn topology_result_view(r: Result<LoadedChartGroupXmlTopology, OmError>) -> Result<TopologyView, ErrorView> {
    match r {
        Ok(t) => Ok(t@),
        Err(e) => Err(error_view(e)),
    }
}

/// The names of open elements.
pub open spec fn stack_views(v: Seq<Vec<u8>>) -> Seq<Seq<u8>> {
    v.map_values(|x: Vec<u8>| x@)
}

/// Finds the group elements directly inside the plot area of loaded chart
/// XML, the start of its first axis and the end of its plot area.
pub fn scan_loaded_chart_group_xml_topology(existing_chart_xml: &[u8]) -> (r: Result<LoadedChartGroupXmlTopology, OmError>)
    ensures
        topology_result_view(r) == group_topology(existing_chart_xml@),
{
    let ghost input = existing_chart_xml@;
    let ghost fuel = input.len() + 1;
    let mut reader = XmlReader::new(existing_chart_xml, false);
    let mut stack: Vec<Vec<u8>> = Vec::new();
    let mut groups: Vec<LoadedChartGroupXmlSpan> = Vec::new();
    let mut first_axis_start: Option<usize> = None;
    let mut plot_area_end: Option<usize> = None;
    assert(stack_views(stack@) =~= Seq::<Seq<u8>>::empty());
    assert(span_views(groups@) =~= Seq::<GroupSpanView>::empty());
    loop
        invariant
            reader.input() == input,
            input == existing_chart_xml@,
            !reader.trim(),
            fuel == input.len() + 1,
            reader.count() <= fuel,
            reader.pos() <= input.len(),
            fuel - reader.count() >= input.len() - reader.pos() + 1,
            group_topology(input) == scan_run(
                input,
                reader.count(),
                stack_views(stack@),
                span_views(groups@),
                opt_pos(first_axis_start),
                opt_pos(plot_area_end),
                (fuel - reader.count()) as nat,
            ),
        decreases input.len() - reader.pos(),
    {
        let ev = match reader.read_event() {
            Ok(ev) => ev,
            Err(e) => {
                return Err(xml_error(e));
            },
        };
        if ev.kind == XmlEventKind::Eof {
            assert(group_topology(input) == scan_finish(span_views(groups@), opt_pos(first_axis_start), opt_pos(plot_area_end)));
            let mut k: usize = 0;
            while k < groups.len()
                invariant
                    k <= groups@.len(),
                    input == existing_chart_xml@,
                    group_topology(input) == scan_finish(span_views(groups@), opt_pos(first_axis_start), opt_pos(plot_area_end)),
                    forall|j: int| 0 <= j < k ==> (#[trigger] groups@[j]).end != 0,
                decreases groups@.len() - k,
            {
                if groups[k].end == 0 {
                    assert(span_views(groups@)[k as int].2 == 0);
                    return Err(OmError {
                        code: OmErrorCode::Parse,
                        message: String::from_str("loaded chart group has no closing XML boundary"),
                    });
                }
                k += 1;
            }
            assert forall|j: int| 0 <= j < span_views(groups@).len() implies (#[trigger] span_views(groups@)[j]).2 != 0 by {
                assert(groups@[j].end != 0);
            }
            return Ok(LoadedChartGroupXmlTopology { groups, first_axis_start, plot_area_end });
        }
        let local = xml_local_name(&ev.name);
        if ev.kind == XmlEventKind::Start || ev.kind == XmlEventKind::Empty {
            let in_plot = stack.len() > 0 && bytes_eq_lit(stack[stack.len() - 1].as_slice(), "plotArea");
            assert(in_plot == in_plot_area(stack_views(stack@))) by {
                if stack.len() > 0 {
                    assert(stack_views(stack@).last() == stack@[stack@.len() - 1]@);
                }
            }
            let chars = byte_chars_of(&local);
            if in_plot && chart_type_from_group_name(&chars).is_some() {
                let end = if ev.kind == XmlEventKind::Start { 0 } else { ev.end };
                let ghost before = groups@;
                groups.push(LoadedChartGroupXmlSpan { raw_name: local.clone(), start: ev.start, end });
                assert(span_views(groups@) =~= span_views(before).push((local@, ev.start as nat, end as nat)));
            } else if in_plot && chart_axis_kind_from_xml_name(&chars).is_some() && first_axis_start.is_none() {
                first_axis_start = Some(ev.start);
            }
            if ev.kind == XmlEventKind::Start {
                let ghost before = stack@;
                stack.push(local);
                assert(stack_views(stack@) =~= stack_views(before).push(stack@.last()@));
            }
        } else if ev.kind == XmlEventKind::End {
            let chars = byte_chars_of(&local);
            let closes_group = stack.len() >= 2 && bytes_eq_lit(stack[stack.len() - 2].as_slice(), "plotArea")
                && chart_type_from_group_name(&chars).is_some();
            assert(stack.len() >= 2 ==> stack_views(stack@)[stack@.len() - 2] == stack@[stack@.len() - 2]@);
            if closes_group {
                if groups.len() == 0 {
                    return Err(OmError {
                        code: OmErrorCode::Parse,
                        message: String::from_str("loaded chart group end has no matching start"),
                    });
                }
                let last = groups.len() - 1;
                assert(span_views(groups@).last() == groups@[last as int]@);
                if groups[last].end != 0 || !bytes_eq(groups[last].raw_name.as_slice(), local.as_slice()) {
                    return Err(OmError {
                        code: OmErrorCode::Parse,
                        message: String::from_str("loaded chart group elements are not properly nested"),
                    });
                }
                let ghost before = groups@;
                let mut span = groups.remove(last);
                span.end = ev.end;
                groups.push(span);
                assert(span_views(groups@) =~= span_views(before).update(last as int, (before[last as int].raw_name@, before[last as int].start as nat, ev.end as nat)));
            }
            if bytes_eq_lit(local.as_slice(), "plotArea") {
                plot_area_end = Some(ev.start);
            }
            if stack.len() > 0 {
                let ghost before = stack@;
                stack.pop();
                assert(stack_views(stack@) =~= stack_views(before).drop_last());
            }
        }
    }
}

/// The names of the group spans.
pub open spec fn span_names(spans: Seq<GroupSpanView>) -> Seq<Seq<u8>> {
    spans.map_values(|g: GroupSpanView| g.0)
}

/// The edits that cut out, among the first `k` positions of the merged
/// sequence, the loaded groups the model no longer has.
pub open spec fn removal_edits(
    spans: Seq<GroupSpanView>,
    tokens: Seq<LoadedChartGroupSequenceToken>,
    groups: Seq<crate::chart_model::ChartGroupModel>,
    k: int,
) -> Seq<EditView>
    decreases k,
{
    if k <= 0 || k > tokens.len() {
        Seq::empty()
    } else {
        removal_edits(spans, tokens, groups, k - 1) + match tokens[k - 1] {
            LoadedChartGroupSequenceToken::Original(l) => if !loaded_survives(groups, l as int) {
                seq![(spans[k - 1].1, spans[k - 1].2, Seq::<u8>::empty())]
            } else {
                Seq::empty()
            },
            LoadedChartGroupSequenceToken::Added(_) => Seq::empty(),
        }
    }
}

/// Loaded chart XML without the group elements that the model removed:
/// unchanged when every loaded group survives.
pub open spec fn group_removals(input: Seq<u8>, chart: ChartModel) -> Result<Seq<u8>, ErrorView> {
    match group_topology(input) {
        Err(e) => Err(e),
        Ok(t) => {
            let names = span_names(t.0);
            let groups = chart.groups@;
            match sequence_failure(names, groups) {
                Some(f) => Err(f),
                None => {
                    let original = (names.len() - added_count(groups)) as nat;
                    let tokens = merged_tokens(groups, original);
                    if forall|o: int| 0 <= o < original ==> #[trigger] loaded_survives(groups, o) {
                        Ok(input)
                    } else {
                        match apply_edits(input, removal_edits(t.0, tokens, groups, tokens.len() as int)) {
                            Some(x) => Ok(x),
                            None => Err((OmErrorCode::InvalidState, overlap_message("group removal"@))),
                        }
                    }
                },
            }
        },
    }
}

/// The view of a byte result.
pub open spec fn bytes_error_result(r: Result<Vec<u8>, OmError>) -> Result<Seq<u8>, ErrorView> {
    match r {
        Ok(v) => Ok(v@),
        Err(e) => Err(error_view(e)),
    }
}

fn copy_bytes(b: &[u8]) -> (r: Vec<u8>)
    ensures
        r@ == b@,
{
    let mut r: Vec<u8> = Vec::new();
    let mut i: usize = 0;
    while i < b.len()
        invariant
            i <= b@.len(),
            r@ == b@.subrange(0, i as int),
        decreases b@.len() - i,
    {
        r.push(b[i]);
        assert(b@.subrange(0, i + 1) =~= b@.subrange(0, i as int).push(b@[i as int]));
        i += 1;
    }
    assert(b@.subrange(0, b@.len() as int) =~= b@);
    r
}

/// Removes from loaded chart XML the group elements that the chart model no
/// longer has.
pub fn rewrite_loaded_chart_group_removals(existing_chart_xml: &[u8], chart: &ChartModel) -> (r: Result<Vec<u8>, OmError>)
    ensures
        bytes_error_result(r) == group_removals(existing_chart_xml@, *chart),
{
    let topology = match scan_loaded_chart_group_xml_topology(existing_chart_xml) {
        Ok(t) => t,
        Err(e) => {
            return Err(e);
        },
    };
    let ghost spans = span_views(topology.groups@);
    let mut names: Vec<Vec<u8>> = Vec::new();
    let mut g: usize = 0;
    while g < topology.groups.len()
        invariant
            g <= topology.groups@.len(),
            spans == span_views(topology.groups@),
            names@.map_values(|v: Vec<u8>| v@) == span_names(spans).subrange(0, g as int),
        decreases topology.groups@.len() - g,
    {
        let ghost before = names@;
        names.push(copy_bytes(topology.groups[g].raw_name.as_slice()));
        assert(span_names(spans)[g as int] == topology.groups@[g as int].raw_name@);
        assert(names@.map_values(|v: Vec<u8>| v@) =~= before.map_values(|v: Vec<u8>| v@).push(names@.last()@));
        assert(span_names(spans).subrange(0, g + 1) =~= span_names(spans).subrange(0, g as int).push(span_names(spans)[g as int]));
        g += 1;
    }
    assert(names@.map_values(|v: Vec<u8>| v@) =~= span_names(spans));
    let sequence = match loaded_chart_group_sequence(&names, chart) {
        Ok(s) => s,
        Err(e) => {
            return Err(e);
        },
    };
    let ghost groups = chart.groups@;
    let ghost original = (names@.len() - added_count(groups)) as nat;
    let ghost tokens = merged_tokens(groups, original);
    proof {
        crate::chart_sequence::lemma_merged_originals_bounded(groups, original);
    }
    let mut all_survive = true;
    let mut o: usize = 0;
    while o < sequence.surviving_original_groups.len()
        invariant
            o <= sequence.surviving_original_groups@.len(),
            sequence.surviving_original_groups@.len() == original,
            forall|x: int| 0 <= x < original ==> #[trigger] sequence.surviving_original_groups@[x] == loaded_survives(groups, x),
            all_survive == forall|x: int| 0 <= x < o ==> #[trigger] loaded_survives(groups, x),
        decreases sequence.surviving_original_groups@.len() - o,
    {
        if !sequence.surviving_original_groups[o] {
            all_survive = false;
        }
        o += 1;
    }
    if all_survive {
        return Ok(copy_bytes(existing_chart_xml));
    }
    let mut edits: Vec<ChartXmlEdit> = Vec::new();
    let mut x: usize = 0;
    assert(edit_views(edits@) =~= Seq::<EditView>::empty());
    while x < sequence.tokens.len()
        invariant
            x <= sequence.tokens@.len(),
            sequence.tokens@ == tokens,
            tokens.len() == names@.len(),
            names@.len() == topology.groups@.len(),
            spans == span_views(topology.groups@),
            sequence.surviving_original_groups@.len() == original,
            forall|y: int| 0 <= y < original ==> #[trigger] sequence.surviving_original_groups@[y] == loaded_survives(groups, y),
            forall|k: int| 0 <= k < tokens.len() ==> (#[trigger] tokens[k] matches LoadedChartGroupSequenceToken::Original(l) ==> l < original),
            edit_views(edits@) == removal_edits(spans, tokens, groups, x as int),
        decreases sequence.tokens@.len() - x,
    {
        match sequence.tokens[x] {
            LoadedChartGroupSequenceToken::Original(l) => {
                if !sequence.surviving_original_groups[l] {
                    let ghost before = edits@;
                    edits.push((topology.groups[x].start, topology.groups[x].end, Vec::new()));
                    assert(edit_views(edits@) =~= edit_views(before).push(crate::chart_edits::edit_view(edits@.last())));
                }
            },
            LoadedChartGroupSequenceToken::Added(_) => {},
        }
        assert(edit_views(edits@) =~= removal_edits(spans, tokens, groups, x + 1));
        x += 1;
    }
    proof {
        reveal_strlit("group removal");
    }
    apply_loaded_chart_xml_edits(existing_chart_xml, edits, "group removal")
}

/// Where added groups go when no loaded group follows them: before the first
/// axis, else at the end of the plot area.
pub open spec fn insertion_tail(t: TopologyView) -> Option<nat> {
    match t.1 {
        Some(a) => Some(a),
        None => t.2,
    }
}

/// The loaded groups of the first `k` model groups have loaded positions in
/// range, each taken once, with the name the XML has there.
pub open spec fn loaded_identities_ok_upto(groups: Seq<crate::chart_model::ChartGroupModel>, spans: Seq<GroupSpanView>, k: int) -> bool {
    forall|i: int|
        0 <= i < k && (#[trigger] groups[i]).loaded_index is Some ==> {
            let l = groups[i].loaded_index->0;
            &&& l < spans.len()
            &&& spans[l as int].0 == raw_name_bytes(groups[i])
            &&& forall|j: int| 0 <= j < i ==> groups[j].loaded_index != Some(l)
        }
}

/// Where the group added at model position `i` goes: at the start of the
/// next loaded group that follows it in the model, else at the tail.
pub open spec fn addition_position(groups: Seq<crate::chart_model::ChartGroupModel>, spans: Seq<GroupSpanView>, tail: nat, i: int) -> nat {
    match next_loaded_from(groups, i + 1) {
        Some(l) => if l < spans.len() { spans[l as int].1 } else { tail },
        None => tail,
    }
}

/// The insertions of the added groups among the first `k`, in model order;
/// the first group that cannot be written decides the failure.
pub open spec fn addition_edits(
    groups: Seq<crate::chart_model::ChartGroupModel>,
    spans: Seq<GroupSpanView>,
    tail: nat,
    k: int,
) -> Result<Seq<EditView>, ErrorView>
    decreases k,
{
    if k <= 0 || k > groups.len() {
        Ok(Seq::empty())
    } else {
        match addition_edits(groups, spans, tail, k - 1) {
            Err(e) => Err(e),
            Ok(es) => if groups[k - 1].loaded_index is Some {
                Ok(es)
            } else {
                match group_shell(groups[k - 1]) {
                    Err(e) => Err(e),
                    Ok(b) => {
                        let p = addition_position(groups, spans, tail, k - 1);
                        Ok(es.push((p, p, b)))
                    },
                }
            },
        }
    }
}

/// The message for a plot area with no place for new groups.
pub open spec fn no_insertion_message() -> Seq<char> {
    "loaded chart plot area has no group insertion position"@
}

/// The message for a loaded group whose identity changed before insertion.
pub open spec fn insertion_identity_message() -> Seq<char> {
    "loaded chart group identity changed before group insertion"@
}

/// Loaded chart XML with the groups added at run time written in: each
/// before the next loaded group that follows it in the model, else before
/// the first axis or at the end of the plot area; groups at one place keep
/// model order. Unchanged when the model added no group.
pub open spec fn group_additions(input: Seq<u8>, chart: ChartModel) -> Result<Seq<u8>, ErrorView> {
    let groups = chart.groups@;
    if forall|i: int| 0 <= i < groups.len() ==> (#[trigger] groups[i]).loaded_index is Some {
        Ok(input)
    } else {
        match group_topology(input) {
            Err(e) => Err(e),
            Ok(t) => match insertion_tail(t) {
                None => Err((OmErrorCode::Parse, no_insertion_message())),
                Some(tail) => if !loaded_identities_ok_upto(groups, t.0, groups.len() as int) {
                    Err((OmErrorCode::Unsupported, insertion_identity_message()))
                } else {
                    match addition_edits(groups, t.0, tail, groups.len() as int) {
                        Err(e) => Err(e),
                        Ok(es) => match apply_edits(input, es) {
                            Some(x) => Ok(x),
                            None => Err((OmErrorCode::InvalidState, overlap_message("group addition"@))),
                        },
                    }
                },
            },
        }
    }
}

/// A failure in writing the first added groups stays the failure.
proof fn lemma_addition_edits_error_stays(
    groups: Seq<crate::chart_model::ChartGroupModel>,
    spans: Seq<GroupSpanView>,
    tail: nat,
    k: int,
    k2: int,
)
    requires
        0 <= k <= k2 <= groups.len(),
        addition_edits(groups, spans, tail, k) is Err,
    ensures
        addition_edits(groups, spans, tail, k2) == addition_edits(groups, spans, tail, k),
    decreases k2 - k,
{
    if k2 > k {
        lemma_addition_edits_error_stays(groups, spans, tail, k, k2 - 1);
    }
}

fn check_loaded_identities(groups: &Vec<crate::chart_model::ChartGroupModel>, spans: &Vec<LoadedChartGroupXmlSpan>) -> (r: bool)
    ensures
        r == loaded_identities_ok_upto(groups@, span_views(spans@), groups@.len() as int),
{
    let ghost sv = span_views(spans@);
    let mut seen: Vec<bool> = Vec::new();
    let mut z: usize = 0;
    while z < spans.len()
        invariant
            z <= spans@.len(),
            seen@ == Seq::new(z as nat, |x: int| false),
        decreases spans@.len() - z,
    {
        seen.push(false);
        assert(seen@ =~= Seq::new((z + 1) as nat, |x: int| false));
        z += 1;
    }
    let mut i: usize = 0;
    while i < groups.len()
        invariant
            i <= groups@.len(),
            sv == span_views(spans@),
            seen@.len() == sv.len(),
            loaded_identities_ok_upto(groups@, sv, i as int),
            forall|l: int| 0 <= l < sv.len() ==> (#[trigger] seen@[l] <==> exists|j: int| 0 <= j < i && groups@[j].loaded_index == Some(l as usize)),
        decreases groups@.len() - i,
    {
        if let Some(l) = groups[i].loaded_index {
            let fails = l >= spans.len() || seen[l] || !bytes_eq(
                spans[l].raw_name.as_slice(),
                groups[i].raw_name.as_str().as_bytes(),
            );
            if fails {
                proof {
                    if l < sv.len() && seen@[l as int] {
                        let j = choose|j: int| 0 <= j < i && groups@[j].loaded_index == Some(l);
                        assert(!(forall|j: int| 0 <= j < i ==> groups@[j].loaded_index != Some(l)));
                    }
                    if l < sv.len() {
                        assert(sv[l as int].0 == spans@[l as int].raw_name@);
                    }
                    assert(groups@[i as int].loaded_index is Some);
                }
                return false;
            }
            seen.set(l, true);
            proof {
                assert(sv[l as int].0 == spans@[l as int].raw_name@);
                assert forall|x: int| 0 <= x < sv.len() implies (#[trigger] seen@[x] <==> exists|j: int| 0 <= j < i + 1 && groups@[j].loaded_index == Some(x as usize)) by {
                    if x == l {
                        assert(groups@[i as int].loaded_index == Some(x as usize));
                    } else if exists|j: int| 0 <= j < i + 1 && groups@[j].loaded_index == Some(x as usize) {
                        let j = choose|j: int| 0 <= j < i + 1 && groups@[j].loaded_index == Some(x as usize);
                        assert(j < i);
                    }
                }
            }
        } else {
            proof {
                assert forall|x: int| 0 <= x < sv.len() implies (#[trigger] seen@[x] <==> exists|j: int| 0 <= j < i + 1 && groups@[j].loaded_index == Some(x as usize)) by {
                    if exists|j: int| 0 <= j < i + 1 && groups@[j].loaded_index == Some(x as usize) {
                        let j = choose|j: int| 0 <= j < i + 1 && groups@[j].loaded_index == Some(x as usize);
                        assert(j < i);
                    }
                }
            }
        }
        i += 1;
    }
    true
}

fn build_addition_edits(
    groups: &Vec<crate::chart_model::ChartGroupModel>,
    spans: &Vec<LoadedChartGroupXmlSpan>,
    tail: usize,
) -> (r: Result<Vec<ChartXmlEdit>, OmError>)
    ensures
        match addition_edits(groups@, span_views(spans@), tail as nat, groups@.len() as int) {
            Ok(es) => r matches Ok(v) && edit_views(v@) == es,
            Err(f) => r matches Err(e) && error_view(e) == f,
        },
{
    let ghost sv = span_views(spans@);
    let mut edits: Vec<ChartXmlEdit> = Vec::new();
    let mut k: usize = 0;
    assert(edit_views(edits@) =~= Seq::<EditView>::empty());
    while k < groups.len()
        invariant
            k <= groups@.len(),
            sv == span_views(spans@),
            addition_edits(groups@, sv, tail as nat, k as int) == Ok::<Seq<EditView>, ErrorView>(edit_views(edits@)),
        decreases groups@.len() - k,
    {
        if groups[k].loaded_index.is_none() {
            let position: usize = match crate::chart_sequence::next_loaded(groups, k + 1) {
                Some(l) => if l < spans.len() { spans[l].start } else { tail },
                None => tail,
            };
            assert(position == addition_position(groups@, sv, tail as nat, k as int));
            let shell = match serialize_loaded_chart_group_shell(&groups[k]) {
                Ok(b) => b,
                Err(e) => {
                    proof {
                        lemma_addition_edits_error_stays(groups@, sv, tail as nat, k + 1, groups@.len() as int);
                    }
                    return Err(e);
                },
            };
            let ghost before = edits@;
            edits.push((position, position, shell));
            assert(edit_views(edits@) =~= edit_views(before).push(crate::chart_edits::edit_view(edits@.last())));
        }
        k += 1;
    }
    Ok(edits)
}

/// Writes into loaded chart XML the chart groups that the model added.
pub fn rewrite_loaded_chart_group_additions(existing_chart_xml: &[u8], chart: &ChartModel) -> (r: Result<Vec<u8>, OmError>)
    ensures
        bytes_error_result(r) == group_additions(existing_chart_xml@, *chart),
{
    let ghost groups = chart.groups@;
    let mut all_loaded = true;
    let mut a: usize = 0;
    while a < chart.groups.len()
        invariant
            a <= groups.len(),
            groups == chart.groups@,
            all_loaded == forall|i: int| 0 <= i < a ==> (#[trigger] groups[i]).loaded_index is Some,
        decreases groups.len() - a,
    {
        if chart.groups[a].loaded_index.is_none() {
            all_loaded = false;
        }
        a += 1;
    }
    if all_loaded {
        return Ok(copy_bytes(existing_chart_xml));
    }
    let topology = match scan_loaded_chart_group_xml_topology(existing_chart_xml) {
        Ok(t) => t,
        Err(e) => {
            return Err(e);
        },
    };
    let tail: usize = match topology.first_axis_start {
        Some(p) => p,
        None => match topology.plot_area_end {
            Some(p) => p,
            None => {
                return Err(OmError {
                    code: OmErrorCode::Parse,
                    message: String::from_str("loaded chart plot area has no group insertion position"),
                });
            },
        },
    };
    assert(insertion_tail(topology@) == Some(tail as nat));
    if !check_loaded_identities(&chart.groups, &topology.groups) {
        return Err(OmError {
            code: OmErrorCode::Unsupported,
            message: String::from_str("loaded chart group identity changed before group insertion"),
        });
    }
    let edits = match build_addition_edits(&chart.groups, &topology.groups, tail) {
        Ok(es) => es,
        Err(e) => {
            return Err(e);
        },
    };
    proof {
        reveal_strlit("group addition");
    }
    apply_loaded_chart_xml_edits(existing_chart_xml, edits, "group addition")
}

} // verus!
