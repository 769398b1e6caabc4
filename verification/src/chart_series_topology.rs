//! Moving the series of loaded chart XML to where the chart model has them:
//! series are removed from groups they left, added to the groups they
//! joined, and moved in or out of the filtered-series extension of their
//! group, with everything else copied as it was read.
use vstd::prelude::*;
use crate::chart_topology::{byte_chars, byte_chars_of, is_group_element, opt_pos};
use crate::chart_types::{
    chart_group_child_precedes_series, chart_type_from_group_name, is_chart_filtered_series_wrapper_name,
    is_filtered_wrapper_name, precedes_series,
};
use crate::errors::{om_error, OmError, OmErrorCode};
use crate::package_xml::{error_view, xml_error, ErrorView};
use crate::xml::{
    attribute_value, bytes_eq, bytes_eq_lit, find_attribute, lit, local_name, xml_local_name, xml_read_result,
    TagHandle, XmlEvent, XmlEventKind, XmlEventView, XmlReader,
};

verus! {

/// The value of a decimal digit character.
pub open spec fn digit_value(c: char) -> int {
    c as int - '0' as int
}

/// Whether a character is an ASCII digit.
pub open spec fn is_digit(c: char) -> bool {
    '0' <= c && c <= '9'
}

/// The number that a string of digits spells.
pub open spec fn digits_value(s: Seq<char>) -> int
    decreases s.len(),
{
    if s.len() == 0 {
        0
    } else {
        digits_value(s.drop_last()) * 10 + digit_value(s.last())
    }
}

/// The digits of a number as `str::parse::<u32>` sees them: without one
/// leading `+` when more follows it.
pub open spec fn unsigned_digits(s: Seq<char>) -> Seq<char> {
    if s.len() > 1 && s[0] == '+' { s.drop_first() } else { s }
}

/// A string of digits read as a `u32`: none when it is empty, holds a
/// character that is not an ASCII digit, or does not fit in 32 bits.
pub open spec fn parse_digits(d: Seq<char>) -> Option<u32> {
    if d.len() == 0 || exists|i: int| 0 <= i < d.len() && !is_digit(#[trigger] d[i]) {
        None
    } else if digits_value(d) > u32::MAX {
        None
    } else {
        Some(digits_value(d) as u32)
    }
}

/// A `u32` read from text as `str::parse::<u32>` reads it: an optional
/// leading `+`, then one or more ASCII digits whose value fits in 32 bits.
pub open spec fn parse_u32(s: Seq<char>) -> Option<u32> {
    parse_digits(unsigned_digits(s))
}

proof fn lemma_digits_value_nonneg(s: Seq<char>)
    requires
        forall|i: int| 0 <= i < s.len() ==> is_digit(#[trigger] s[i]),
    ensures
        digits_value(s) >= 0,
    decreases s.len(),
{
    if s.len() > 0 {
        assert forall|i: int| 0 <= i < s.drop_last().len() implies is_digit(#[trigger] s.drop_last()[i]) by {
            assert(s.drop_last()[i] == s[i]);
        }
        lemma_digits_value_nonneg(s.drop_last());
    }
}

fn digit_of(c: char) -> (r: Option<u64>)
    ensures
        match r {
            Some(v) => is_digit(c) && v as int == digit_value(c) && v < 10,
            None => !is_digit(c),
        },
{
    if '0' <= c && c <= '9' {
        Some((c as u32 - '0' as u32) as u64)
    } else {
        None
    }
}

proof fn lemma_digits_step(d: Seq<char>, j: int)
    requires
        0 <= j < d.len(),
    ensures
        digits_value(d.subrange(0, j + 1)) == digits_value(d.subrange(0, j)) * 10 + digit_value(d[j]),
{
    assert(d.subrange(0, j + 1).drop_last() =~= d.subrange(0, j));
}

/// Reads a `u32` from text as `str::parse::<u32>` does, `None` where it fails.
pub fn parse_u32_text(s: &str) -> (r: Option<u32>)
    ensures
        r == parse_u32(s@),
{
    let chars = crate::text::chars_of(s);
    let n = chars.len();
    let from: usize = if n > 1 && chars[0] == '+' { 1 } else { 0 };
    let ghost d = unsigned_digits(s@);
    assert(d =~= chars@.subrange(from as int, n as int));
    if from == n {
        return None;
    }
    let mut value: u64 = 0;
    let mut k: usize = from;
    assert(d.subrange(0, 0) =~= Seq::<char>::empty());
    while k < n
        invariant
            from <= k <= n,
            n == chars@.len(),
            d == unsigned_digits(s@),
            d.len() == n - from,
            forall|i: int| 0 <= i < d.len() ==> d[i] == #[trigger] chars@[from + i],
            forall|i: int| 0 <= i < k - from ==> is_digit(#[trigger] d[i]),
            value as int == digits_value(d.subrange(0, k - from)),
            value <= u32::MAX,
        decreases n - k,
    {
        let ghost j = k - from;
        assert(d[j] == chars@[from + j]);
        let digit = match digit_of(chars[k]) {
            Some(v) => v,
            None => {
                assert(!is_digit(d[j]));
                assert(parse_digits(d) is None);
                return None;
            },
        };
        proof {
            lemma_digits_step(d, j);
        }
        let next = value * 10 + digit;
        if next > u32::MAX as u64 {
            proof {
                lemma_digits_value_grows(d, (j + 1) as nat);
                if forall|i: int| 0 <= i < d.len() ==> is_digit(#[trigger] d[i]) {
                    assert(digits_value(d) > u32::MAX);
                }
                assert(parse_digits(d) is None);
            }
            return None;
        }
        value = next;
        k += 1;
    }
    assert(d.subrange(0, d.len() as int) =~= d);
    Some(value as u32)
}

/// The value of all digits is at least the value of a prefix of them.
proof fn lemma_digits_value_grows(d: Seq<char>, p: nat)
    requires
        p <= d.len(),
    ensures
        (forall|i: int| 0 <= i < d.len() ==> is_digit(#[trigger] d[i])) ==> digits_value(d) >= digits_value(d.subrange(0, p as int)),
    decreases d.len(),
{
    if forall|i: int| 0 <= i < d.len() ==> is_digit(#[trigger] d[i]) {
        if p < d.len() {
            assert forall|i: int| 0 <= i < d.drop_last().len() implies is_digit(#[trigger] d.drop_last()[i]) by {
                assert(d.drop_last()[i] == d[i]);
            }
            lemma_digits_value_grows(d.drop_last(), p);
            assert(d.drop_last().subrange(0, p as int) =~= d.subrange(0, p as int));
            lemma_digits_value_nonneg(d.drop_last());
        } else {
            assert(d.subrange(0, p as int) =~= d);
        }
    }
}

/// An open element while series topology is read: its name, where it
/// starts, where its parent starts, how many child elements it has so far,
/// and the group and series it lies in.
pub struct FrameView {
    pub name: Seq<u8>,
    pub start: nat,
    pub parent_start: Option<nat>,
    pub children: nat,
    pub group: Option<nat>,
    pub series: Option<nat>,
}

/// A closed element: where it starts, ends and its end tag starts, where
/// its parent starts, and how many child elements it has.
pub struct ElementSpanView {
    pub start: nat,
    pub end: nat,
    pub end_tag_start: nat,
    pub parent_start: Option<nat>,
    pub children: nat,
}

/// A chart group of the loaded XML: its name, where its end tag starts,
/// where its last direct series ends, where its first child after the
/// series starts, and where its own extension list starts.
pub struct GroupXmlView {
    pub name: Seq<u8>,
    pub end_tag_start: nat,
    pub last_direct_series_end: Option<nat>,
    pub first_after_series_start: Option<nat>,
    pub direct_ext_lst_start: Option<nat>,
}

/// A series of the loaded XML: its span, its `c:idx`, whether it sits in a
/// filtered-series wrapper (and where that wrapper and its extension
/// start), and its group.
pub struct SeriesXmlView {
    pub start: nat,
    pub end: nat,
    pub raw_index: Option<u32>,
    pub is_filtered: bool,
    pub wrapper_start: Option<nat>,
    pub extension_start: Option<nat>,
    pub group: nat,
}

/// What a read of series topology has gathered.
pub struct ScanView {
    pub frames: Seq<FrameView>,
    pub elements: Seq<ElementSpanView>,
    pub groups: Seq<GroupXmlView>,
    pub series: Seq<SeriesXmlView>,
}

/// The message for a series outside any chart group.
pub open spec fn outside_group_message() -> Seq<char> {
    "Series.IsFiltered requires a series inside a chart group"@
}

/// The message for an end tag with no open element.
pub open spec fn unmatched_end_message() -> Seq<char> {
    "chart XML has an unmatched end element"@
}

/// The message for an end tag that closes another element.
pub open spec fn mismatched_message() -> Seq<char> {
    "chart XML has mismatched element nesting"@
}

/// The `val` of a tag read as a `u32`: none when it has no `val` or the
/// value is not a `u32`; a failure of the attribute reading passes on.
pub open spec fn parse_val_result(origin: (Seq<u8>, bool, nat)) -> Result<Option<u32>, Seq<char>> {
    match attribute_value(origin, lit("val")) {
        Err(m) => Err(m),
        Ok(None) => Ok(None),
        Ok(Some(v)) => Ok(parse_u32(v)),
    }
}

/// The open elements with one more child for the innermost one.
pub open spec fn bump_parent(frames: Seq<FrameView>) -> Seq<FrameView> {
    if frames.len() > 0 {
        frames.update(frames.len() - 1, FrameView { children: frames.last().children + 1, ..frames.last() })
    } else {
        frames
    }
}

/// The innermost of the first `k` open elements that is a filtered-series
/// wrapper.
pub open spec fn topmost_wrapper(frames: Seq<FrameView>, k: int) -> Option<int>
    decreases k,
{
    if k <= 0 {
        None
    } else if is_filtered_wrapper_name(byte_chars(frames[k - 1].name)) {
        Some(k - 1)
    } else {
        topmost_wrapper(frames, k - 1)
    }
}

/// A group with a direct child that starts at `start` noted: its extension
/// list, and its first child that comes after the series.
pub open spec fn note_group_child(g: GroupXmlView, local: Seq<u8>, start: nat, start_tag: bool) -> GroupXmlView {
    GroupXmlView {
        direct_ext_lst_start: if start_tag && local == lit("extLst") { Some(start) } else { g.direct_ext_lst_start },
        first_after_series_start: if local != lit("ser") && !precedes_series(byte_chars(local))
            && g.first_after_series_start is None {
            Some(start)
        } else {
            g.first_after_series_start
        },
        ..g
    }
}

/// A series with its `c:idx` set.
pub open spec fn with_raw_index(s: SeriesXmlView, raw: Option<u32>) -> SeriesXmlView {
    SeriesXmlView { raw_index: raw, ..s }
}

/// A start tag read at `origin`.
pub open spec fn scan_start(st: ScanView, e: XmlEventView, origin: (Seq<u8>, bool, nat)) -> Result<ScanView, ErrorView> {
    let local = local_name(e.name);
    let start = e.start;
    let n = st.frames.len();
    let parent = st.frames[n - 1];
    let parent_start = if n > 0 { Some(parent.start) } else { None };
    let parent_group = if n > 0 { parent.group } else { None };
    let parent_series = if n > 0 { parent.series } else { None };
    let frames1 = bump_parent(st.frames);
    let opens_group = n > 0 && parent.name == lit("plotArea") && is_group_element(local);
    let group_index = if opens_group { Some(st.groups.len()) } else { parent_group };
    let groups1 = if opens_group {
        st.groups.push(
            GroupXmlView {
                name: local,
                end_tag_start: 0,
                last_direct_series_end: None,
                first_after_series_start: None,
                direct_ext_lst_start: None,
            },
        )
    } else {
        match parent_group {
            Some(g) => if is_group_element(parent.name) {
                st.groups.update(g as int, note_group_child(st.groups[g as int], local, start, true))
            } else {
                st.groups
            },
            None => st.groups,
        }
    };
    if local == lit("ser") && parent_series is None {
        let filtered = match topmost_wrapper(st.frames, n as int) {
            Some(j) => n >= 3 && parent.start == st.frames[j].start && st.frames[n - 2].name == lit("ext")
                && st.frames[n - 3].name == lit("extLst"),
            None => false,
        };
        match group_index {
            None => Err((OmErrorCode::Unsupported, outside_group_message())),
            Some(gi) => Ok(
                ScanView {
                    frames: frames1.push(
                        FrameView {
                            name: local,
                            start,
                            parent_start,
                            children: 0,
                            group: group_index,
                            series: Some(st.series.len()),
                        },
                    ),
                    groups: groups1,
                    series: st.series.push(
                        SeriesXmlView {
                            start,
                            end: 0,
                            raw_index: None,
                            is_filtered: filtered,
                            wrapper_start: if filtered { Some(parent.start) } else { None },
                            extension_start: if filtered { Some(st.frames[n - 2].start) } else { None },
                            group: gi,
                        },
                    ),
                    ..st
                },
            ),
        }
    } else {
        let frame = FrameView { name: local, start, parent_start, children: 0, group: group_index, series: parent_series };
        if parent_series is Some && parent.name == lit("ser") && local == lit("idx") {
            match parse_val_result(origin) {
                Err(m) => Err((OmErrorCode::Parse, m)),
                Ok(v) => {
                    let si = parent_series->0 as int;
                    Ok(
                        ScanView {
                            frames: frames1.push(frame),
                            groups: groups1,
                            series: st.series.update(si, with_raw_index(st.series[si], v)),
                            ..st
                        },
                    )
                },
            }
        } else {
            Ok(ScanView { frames: frames1.push(frame), groups: groups1, ..st })
        }
    }
}

/// An empty tag read at `origin`.
pub open spec fn scan_empty(st: ScanView, e: XmlEventView, origin: (Seq<u8>, bool, nat)) -> Result<ScanView, ErrorView> {
    let local = local_name(e.name);
    let n = st.frames.len();
    let parent = st.frames[n - 1];
    let frames1 = bump_parent(st.frames);
    let groups1 = if n > 0 && parent.group is Some && is_group_element(parent.name) {
        let g = parent.group->0 as int;
        st.groups.update(g, note_group_child(st.groups[g], local, e.start, false))
    } else {
        st.groups
    };
    if n > 0 && parent.series is Some && parent.name == lit("ser") && local == lit("idx") {
        match parse_val_result(origin) {
            Err(m) => Err((OmErrorCode::Parse, m)),
            Ok(v) => {
                let si = parent.series->0 as int;
                Ok(ScanView { frames: frames1, groups: groups1, series: st.series.update(si, with_raw_index(st.series[si], v)), ..st })
            },
        }
    } else {
        Ok(ScanView { frames: frames1, groups: groups1, ..st })
    }
}

/// An end tag.
pub open spec fn scan_end(st: ScanView, e: XmlEventView) -> Result<ScanView, ErrorView> {
    let n = st.frames.len();
    if n == 0 {
        Err((OmErrorCode::Parse, unmatched_end_message()))
    } else {
        let f = st.frames.last();
        if local_name(e.name) != f.name {
            Err((OmErrorCode::Parse, mismatched_message()))
        } else {
            let closes_series = f.name == lit("ser") && f.series is Some && st.series[f.series->0 as int].start == f.start;
            let si = f.series->0 as int;
            let series1 = if closes_series {
                st.series.update(si, SeriesXmlView { end: e.end, ..st.series[si] })
            } else {
                st.series
            };
            let groups1 = if closes_series && !st.series[si].is_filtered {
                let g = st.series[si].group as int;
                st.groups.update(g, GroupXmlView { last_direct_series_end: Some(e.end), ..st.groups[g] })
            } else {
                st.groups
            };
            let groups2 = if is_group_element(f.name) && f.group is Some {
                let g = f.group->0 as int;
                groups1.update(g, GroupXmlView { end_tag_start: e.start, ..groups1[g] })
            } else {
                groups1
            };
            Ok(
                ScanView {
                    frames: st.frames.drop_last(),
                    elements: st.elements.push(
                        ElementSpanView {
                            start: f.start,
                            end: e.end,
                            end_tag_start: e.start,
                            parent_start: f.parent_start,
                            children: f.children,
                        },
                    ),
                    groups: groups2,
                    series: series1,
                },
            )
        }
    }
}

/// Reads series topology from event `i` on.
pub open spec fn scan_series_run(input: Seq<u8>, i: nat, st: ScanView, fuel: nat) -> Result<ScanView, ErrorView>
    decreases fuel,
{
    if fuel == 0 {
        Ok(st)
    } else {
        let f = (fuel - 1) as nat;
        match xml_read_result(input, false, i) {
            Err(m) => Err((OmErrorCode::Parse, m)),
            Ok(e) => if e.kind == XmlEventKind::Eof {
                Ok(st)
            } else {
                let step = if e.kind == XmlEventKind::Start {
                    scan_start(st, e, (input, false, i))
                } else if e.kind == XmlEventKind::Empty {
                    scan_empty(st, e, (input, false, i))
                } else if e.kind == XmlEventKind::End {
                    scan_end(st, e)
                } else {
                    Ok(st)
                };
                match step {
                    Err(x) => Err(x),
                    Ok(next) => scan_series_run(input, i + 1, next, f),
                }
            },
        }
    }
}

/// The series topology of loaded chart XML.
pub open spec fn series_scan(input: Seq<u8>) -> Result<ScanView, ErrorView> {
    scan_series_run(
        input,
        0,
        ScanView { frames: Seq::empty(), elements: Seq::empty(), groups: Seq::empty(), series: Seq::empty() },
        input.len() + 1,
    )
}

/// The read is consistent: every group and series index that an element or
/// a series holds is in range, no element has more children than events
/// were read, and every position lies within the document.
pub open spec fn scan_wf(v: ScanView, count: nat, len: nat) -> bool {
    &&& forall|i: int| 0 <= i < v.frames.len() ==> {
        let f = #[trigger] v.frames[i];
        &&& (f.group matches Some(g) ==> g < v.groups.len())
        &&& (f.series matches Some(x) ==> x < v.series.len())
        &&& f.children <= count
        &&& f.start <= len
        &&& (f.parent_start matches Some(p) ==> p <= len)
    }
    &&& forall|i: int| 0 <= i < v.series.len() ==> {
        let x = #[trigger] v.series[i];
        &&& x.group < v.groups.len()
        &&& x.start <= len
        &&& x.end <= len
        &&& (x.wrapper_start matches Some(p) ==> p <= len)
        &&& (x.extension_start matches Some(p) ==> p <= len)
    }
    &&& forall|i: int| 0 <= i < v.groups.len() ==> {
        let g = #[trigger] v.groups[i];
        &&& g.end_tag_start <= len
        &&& (g.last_direct_series_end matches Some(p) ==> p <= len)
        &&& (g.first_after_series_start matches Some(p) ==> p <= len)
        &&& (g.direct_ext_lst_start matches Some(p) ==> p <= len)
    }
    &&& forall|i: int| 0 <= i < v.elements.len() ==> {
        let e = #[trigger] v.elements[i];
        &&& e.start <= len
        &&& e.end <= len
        &&& e.end_tag_start <= len
        &&& (e.parent_start matches Some(p) ==> p <= len)
    }
}

struct Frame {
    name: Vec<u8>,
    start: usize,
    parent_start: Option<usize>,
    children: usize,
    group: Option<usize>,
    series: Option<usize>,
}

impl Frame {
    spec fn view(&self) -> FrameView {
        FrameView {
            name: self.name@,
            start: self.start as nat,
            parent_start: opt_pos(self.parent_start),
            children: self.children as nat,
            group: opt_pos(self.group),
            series: opt_pos(self.series),
        }
    }
}

struct ElementSpan {
    start: usize,
    end: usize,
    end_tag_start: usize,
    parent_start: Option<usize>,
    children: usize,
}

impl ElementSpan {
    spec fn view(&self) -> ElementSpanView {
        ElementSpanView {
            start: self.start as nat,
            end: self.end as nat,
            end_tag_start: self.end_tag_start as nat,
            parent_start: opt_pos(self.parent_start),
            children: self.children as nat,
        }
    }
}

struct GroupXml {
    name: Vec<u8>,
    end_tag_start: usize,
    last_direct_series_end: Option<usize>,
    first_after_series_start: Option<usize>,
    direct_ext_lst_start: Option<usize>,
}

impl GroupXml {
    spec fn view(&self) -> GroupXmlView {
        GroupXmlView {
            name: self.name@,
            end_tag_start: self.end_tag_start as nat,
            last_direct_series_end: opt_pos(self.last_direct_series_end),
            first_after_series_start: opt_pos(self.first_after_series_start),
            direct_ext_lst_start: opt_pos(self.direct_ext_lst_start),
        }
    }
}

struct SeriesXml {
    start: usize,
    end: usize,
    raw_index: Option<u32>,
    is_filtered: bool,
    wrapper_start: Option<usize>,
    extension_start: Option<usize>,
    group: usize,
}

impl SeriesXml {
    spec fn view(&self) -> SeriesXmlView {
        SeriesXmlView {
            start: self.start as nat,
            end: self.end as nat,
            raw_index: self.raw_index,
            is_filtered: self.is_filtered,
            wrapper_start: opt_pos(self.wrapper_start),
            extension_start: opt_pos(self.extension_start),
            group: self.group as nat,
        }
    }
}

struct TopologyScan {
    frames: Vec<Frame>,
    elements: Vec<ElementSpan>,
    groups: Vec<GroupXml>,
    series: Vec<SeriesXml>,
}

spec fn frame_views(v: Seq<Frame>) -> Seq<FrameView> {
    v.map_values(|f: Frame| f.view())
}

spec fn element_views(v: Seq<ElementSpan>) -> Seq<ElementSpanView> {
    v.map_values(|e: ElementSpan| e.view())
}

spec fn group_views(v: Seq<GroupXml>) -> Seq<GroupXmlView> {
    v.map_values(|g: GroupXml| g.view())
}

spec fn series_views(v: Seq<SeriesXml>) -> Seq<SeriesXmlView> {
    v.map_values(|x: SeriesXml| x.view())
}

impl TopologyScan {
    spec fn view(&self) -> ScanView {
        ScanView {
            frames: frame_views(self.frames@),
            elements: element_views(self.elements@),
            groups: group_views(self.groups@),
            series: series_views(self.series@),
        }
    }
}

fn parse_val(handle: &TagHandle) -> (r: Result<Option<u32>, OmError>)
    ensures
        match parse_val_result(handle.origin()) {
            Ok(v) => r matches Ok(x) && x == v,
            Err(m) => r matches Err(e) && error_view(e) == (OmErrorCode::Parse, m),
        },
{
    match find_attribute(handle, "val") {
        Err(e) => Err(xml_error(e)),
        Ok(None) => Ok(None),
        Ok(Some(v)) => Ok(parse_u32_text(v.as_str())),
    }
}

fn bump_parent_exec(frames: &mut Vec<Frame>)
    requires
        old(frames)@.len() > 0 ==> old(frames)@.last().children < usize::MAX,
    ensures
        frame_views(final(frames)@) == bump_parent(frame_views(old(frames)@)),
{
    let ghost before = frame_views(frames@);
    if frames.len() > 0 {
        let mut last = frames.pop().unwrap();
        last.children = last.children + 1;
        frames.push(last);
        assert(frame_views(frames@) =~= bump_parent(before));
    }
}

fn note_group_child_exec(groups: &mut Vec<GroupXml>, g: usize, local: &Vec<u8>, start: usize, start_tag: bool)
    requires
        g < old(groups)@.len(),
    ensures
        group_views(final(groups)@) == group_views(old(groups)@).update(
            g as int,
            note_group_child(group_views(old(groups)@)[g as int], local@, start as nat, start_tag),
        ),
{
    let ghost before = group_views(groups@);
    let mut gx = groups.remove(g);
    if start_tag && bytes_eq_lit(local.as_slice(), "extLst") {
        gx.direct_ext_lst_start = Some(start);
    }
    let chars = byte_chars_of(local.as_slice());
    if !bytes_eq_lit(local.as_slice(), "ser") && !chart_group_child_precedes_series(&chars)
        && gx.first_after_series_start.is_none() {
        gx.first_after_series_start = Some(start);
    }
    groups.insert(g, gx);
    assert(group_views(groups@) =~= before.update(g as int, note_group_child(before[g as int], local@, start as nat, start_tag)));
}

fn set_raw_index(series: &mut Vec<SeriesXml>, x: usize, raw: Option<u32>)
    requires
        x < old(series)@.len(),
    ensures
        series_views(final(series)@) == series_views(old(series)@).update(
            x as int,
            with_raw_index(series_views(old(series)@)[x as int], raw),
        ),
{
    let ghost before = series_views(series@);
    let mut sx = series.remove(x);
    sx.raw_index = raw;
    series.insert(x, sx);
    assert(series_views(series@) =~= before.update(x as int, with_raw_index(before[x as int], raw)));
}

fn topmost_wrapper_exec(frames: &Vec<Frame>) -> (r: Option<usize>)
    ensures
        match topmost_wrapper(frame_views(frames@), frames@.len() as int) {
            Some(j) => r == Some(j as usize) && 0 <= j < frames@.len(),
            None => r is None,
        },
{
    let ghost fv = frame_views(frames@);
    let mut k = frames.len();
    while k > 0
        invariant
            k <= frames@.len(),
            fv == frame_views(frames@),
            topmost_wrapper(fv, frames@.len() as int) == topmost_wrapper(fv, k as int),
        decreases k,
    {
        let chars = byte_chars_of(frames[k - 1].name.as_slice());
        assert(fv[k - 1].name == frames@[k - 1].name@);
        if is_chart_filtered_series_wrapper_name(&chars) {
            return Some(k - 1);
        }
        k -= 1;
    }
    None
}

proof fn lemma_topmost_wrapper_in_range(fv: Seq<FrameView>, k: int)
    ensures
        topmost_wrapper(fv, k) matches Some(w) ==> 0 <= w < k,
    decreases k,
{
    if k > 0 && !is_filtered_wrapper_name(byte_chars(fv[k - 1].name)) {
        lemma_topmost_wrapper_in_range(fv, k - 1);
    }
}

fn is_group_name(name: &Vec<u8>) -> (r: bool)
    ensures
        r == is_group_element(name@),
{
    let chars = byte_chars_of(name.as_slice());
    chart_type_from_group_name(&chars).is_some()
}

fn copy_name(b: &Vec<u8>) -> (r: Vec<u8>)
    ensures
        r@ == b@,
{
    let mut r: Vec<u8> = Vec::new();
    crate::xml::append_bytes(&mut r, b.as_slice());
    assert(r@ =~= b@);
    r
}

fn scan_start_exec(st: &mut TopologyScan, ev: &XmlEvent, Ghost(count): Ghost<nat>, Ghost(len): Ghost<nat>) -> (r: Result<(), OmError>)
    requires
        scan_wf(old(st)@, count, len),
        count < ev.end,
        ev.start <= ev.end <= len,
    ensures
        match scan_start(old(st)@, ev.view(), ev.handle.origin()) {
            Ok(s) => r is Ok && final(st)@ == s,
            Err(x) => r matches Err(e) && error_view(e) == x,
        },
        r is Ok ==> scan_wf(final(st)@, count + 1, len),
{
    let ghost v0 = st@;
    let local = xml_local_name(&ev.name);
    let start = ev.start;
    let n = st.frames.len();
    let mut parent_start: Option<usize> = None;
    let mut parent_group: Option<usize> = None;
    let mut parent_series: Option<usize> = None;
    let mut parent_is_plot = false;
    let mut parent_is_group = false;
    let mut parent_is_ser = false;
    if n > 0 {
        let p = &st.frames[n - 1];
        assert(v0.frames[n - 1] == p.view());
        parent_start = Some(p.start);
        parent_group = p.group;
        parent_series = p.series;
        parent_is_plot = bytes_eq_lit(p.name.as_slice(), "plotArea");
        parent_is_group = is_group_name(&p.name);
        parent_is_ser = bytes_eq_lit(p.name.as_slice(), "ser");
    }
    let opens_group = n > 0 && parent_is_plot && is_group_name(&local);
    let new_series = bytes_eq_lit(local.as_slice(), "ser") && parent_series.is_none();
    let mut filtered = false;
    let mut extension_start: Option<usize> = None;
    if new_series {
        proof {
            lemma_topmost_wrapper_in_range(v0.frames, n as int);
        }
        if let Some(j) = topmost_wrapper_exec(&st.frames) {
            if n >= 3 {
                assert(v0.frames[j as int] == st.frames@[j as int].view());
                assert(v0.frames[n - 2] == st.frames@[n - 2].view());
                assert(v0.frames[n - 3] == st.frames@[n - 3].view());
                filtered = st.frames[n - 1].start == st.frames[j].start && bytes_eq_lit(st.frames[n - 2].name.as_slice(), "ext")
                    && bytes_eq_lit(st.frames[n - 3].name.as_slice(), "extLst");
                if filtered {
                    extension_start = Some(st.frames[n - 2].start);
                }
            }
        }
    }
    bump_parent_exec(&mut st.frames);
    let group_index = if opens_group { Some(st.groups.len()) } else { parent_group };
    if opens_group {
        st.groups.push(
            GroupXml {
                name: copy_name(&local),
                end_tag_start: 0,
                last_direct_series_end: None,
                first_after_series_start: None,
                direct_ext_lst_start: None,
            },
        );
    } else if let Some(g) = parent_group {
        if parent_is_group {
            note_group_child_exec(&mut st.groups, g, &local, start, true);
        }
    }
    if new_series {
        let gi = match group_index {
            None => {
                return Err(om_error(OmErrorCode::Unsupported, "Series.IsFiltered requires a series inside a chart group"));
            },
            Some(gi) => gi,
        };
        let si = st.series.len();
        st.series.push(
            SeriesXml {
                start,
                end: 0,
                raw_index: None,
                is_filtered: filtered,
                wrapper_start: if filtered { parent_start } else { None },
                extension_start,
                group: gi,
            },
        );
        st.frames.push(Frame { name: local, start, parent_start, children: 0, group: group_index, series: Some(si) });
    } else {
        if parent_is_ser && bytes_eq_lit(local.as_slice(), "idx") {
            if let Some(si) = parent_series {
                let v = match parse_val(&ev.handle) {
                    Ok(v) => v,
                    Err(e) => {
                        return Err(e);
                    },
                };
                set_raw_index(&mut st.series, si, v);
            }
        }
        st.frames.push(Frame { name: local, start, parent_start, children: 0, group: group_index, series: parent_series });
    }
    proof {
        let ghost expected = scan_start(v0, ev.view(), ev.handle.origin())->Ok_0;
        assert(frame_views(st.frames@) =~= expected.frames);
        assert(group_views(st.groups@) =~= expected.groups);
        assert(series_views(st.series@) =~= expected.series);
    }
    Ok(())
}

fn scan_empty_exec(st: &mut TopologyScan, ev: &XmlEvent, Ghost(count): Ghost<nat>, Ghost(len): Ghost<nat>) -> (r: Result<(), OmError>)
    requires
        scan_wf(old(st)@, count, len),
        count < ev.end,
        ev.start <= ev.end <= len,
    ensures
        match scan_empty(old(st)@, ev.view(), ev.handle.origin()) {
            Ok(s) => r is Ok && final(st)@ == s,
            Err(x) => r matches Err(e) && error_view(e) == x,
        },
        r is Ok ==> scan_wf(final(st)@, count + 1, len),
{
    let ghost v0 = st@;
    let local = xml_local_name(&ev.name);
    let n = st.frames.len();
    let mut parent_group: Option<usize> = None;
    let mut parent_series: Option<usize> = None;
    let mut parent_is_group = false;
    let mut parent_is_ser = false;
    if n > 0 {
        let p = &st.frames[n - 1];
        assert(v0.frames[n - 1] == p.view());
        parent_group = p.group;
        parent_series = p.series;
        parent_is_group = is_group_name(&p.name);
        parent_is_ser = bytes_eq_lit(p.name.as_slice(), "ser");
    }
    bump_parent_exec(&mut st.frames);
    if let Some(g) = parent_group {
        if parent_is_group {
            note_group_child_exec(&mut st.groups, g, &local, ev.start, false);
        }
    }
    if parent_is_ser && bytes_eq_lit(local.as_slice(), "idx") {
        if let Some(si) = parent_series {
            let v = match parse_val(&ev.handle) {
                Ok(v) => v,
                Err(e) => {
                    return Err(e);
                },
            };
            set_raw_index(&mut st.series, si, v);
        }
    }
    proof {
        let ghost expected = scan_empty(v0, ev.view(), ev.handle.origin())->Ok_0;
        assert(frame_views(st.frames@) =~= expected.frames);
        assert(group_views(st.groups@) =~= expected.groups);
        assert(series_views(st.series@) =~= expected.series);
    }
    Ok(())
}

fn close_series(st: &mut TopologyScan, si: usize, end: usize)
    requires
        si < old(st).series@.len(),
        old(st).series@[si as int].group < old(st).groups@.len(),
    ensures
        final(st).frames == old(st).frames,
        final(st).elements == old(st).elements,
        final(st).groups@.len() == old(st).groups@.len(),
        series_views(final(st).series@) == series_views(old(st).series@).update(
            si as int,
            SeriesXmlView { end: end as nat, ..series_views(old(st).series@)[si as int] },
        ),
        group_views(final(st).groups@) == if !old(st).series@[si as int].is_filtered {
            let g = old(st).series@[si as int].group as int;
            group_views(old(st).groups@).update(
                g,
                GroupXmlView { last_direct_series_end: Some(end as nat), ..group_views(old(st).groups@)[g] },
            )
        } else {
            group_views(old(st).groups@)
        },
{
    let ghost series0 = series_views(st.series@);
    let ghost groups0 = group_views(st.groups@);
    let mut sx = st.series.remove(si);
    sx.end = end;
    let filtered = sx.is_filtered;
    let g = sx.group;
    st.series.insert(si, sx);
    assert(series_views(st.series@) =~= series0.update(si as int, SeriesXmlView { end: end as nat, ..series0[si as int] }));
    if !filtered {
        let mut gx = st.groups.remove(g);
        gx.last_direct_series_end = Some(end);
        st.groups.insert(g, gx);
        assert(group_views(st.groups@) =~= groups0.update(
            g as int,
            GroupXmlView { last_direct_series_end: Some(end as nat), ..groups0[g as int] },
        ));
    }
}

fn set_group_end_tag(groups: &mut Vec<GroupXml>, g: usize, at: usize)
    requires
        g < old(groups)@.len(),
    ensures
        group_views(final(groups)@) == group_views(old(groups)@).update(
            g as int,
            GroupXmlView { end_tag_start: at as nat, ..group_views(old(groups)@)[g as int] },
        ),
{
    let ghost before = group_views(groups@);
    let mut gx = groups.remove(g);
    gx.end_tag_start = at;
    groups.insert(g, gx);
    assert(group_views(groups@) =~= before.update(g as int, GroupXmlView { end_tag_start: at as nat, ..before[g as int] }));
}

fn scan_end_exec(st: &mut TopologyScan, ev: &XmlEvent, Ghost(count): Ghost<nat>, Ghost(len): Ghost<nat>) -> (r: Result<(), OmError>)
    requires
        scan_wf(old(st)@, count, len),
        count < ev.end,
        ev.start <= ev.end <= len,
    ensures
        match scan_end(old(st)@, ev.view()) {
            Ok(s) => r is Ok && final(st)@ == s,
            Err(x) => r matches Err(e) && error_view(e) == x,
        },
        r is Ok ==> scan_wf(final(st)@, count + 1, len),
{
    let ghost v0 = st@;
    let local = xml_local_name(&ev.name);
    let frame = match st.frames.pop() {
        Some(f) => f,
        None => {
            return Err(om_error(OmErrorCode::Parse, "chart XML has an unmatched end element"));
        },
    };
    assert(v0.frames.last() == frame.view());
    assert(frame_views(st.frames@) =~= v0.frames.drop_last());
    if !bytes_eq(local.as_slice(), frame.name.as_slice()) {
        return Err(om_error(OmErrorCode::Parse, "chart XML has mismatched element nesting"));
    }
    if bytes_eq_lit(frame.name.as_slice(), "ser") {
        if let Some(si) = frame.series {
            if st.series[si].start == frame.start {
                close_series(st, si, ev.end);
            }
        }
    }
    if let Some(g) = frame.group {
        assert(g < st.groups@.len()) by {
            assert(v0.frames[v0.frames.len() - 1].group == Some(g as nat));
        }
        if is_group_name(&frame.name) {
            set_group_end_tag(&mut st.groups, g, ev.start);
        }
    }
    st.elements.push(
        ElementSpan {
            start: frame.start,
            end: ev.end,
            end_tag_start: ev.start,
            parent_start: frame.parent_start,
            children: frame.children,
        },
    );
    proof {
        let ghost expected = scan_end(v0, ev.view())->Ok_0;
        assert(element_views(st.elements@) =~= expected.elements);
        assert(group_views(st.groups@) =~= expected.groups);
        assert(series_views(st.series@) =~= expected.series);
    }
    Ok(())
}

proof fn lemma_scan_wf_weaken(v: ScanView, c1: nat, c2: nat, len: nat)
    requires
        scan_wf(v, c1, len),
        c1 <= c2,
    ensures
        scan_wf(v, c2, len),
{
}

fn scan_series_topology(existing_chart_xml: &[u8]) -> (r: Result<TopologyScan, OmError>)
    ensures
        match series_scan(existing_chart_xml@) {
            Ok(v) => r matches Ok(s) && s@ == v && scan_wf(s@, (existing_chart_xml@.len() + 1) as nat, existing_chart_xml@.len()),
            Err(x) => r matches Err(e) && error_view(e) == x,
        },
{
    let ghost input = existing_chart_xml@;
    let ghost fuel = input.len() + 1;
    let ghost len = input.len();
    let mut reader = XmlReader::new(existing_chart_xml, false);
    let mut st = TopologyScan { frames: Vec::new(), elements: Vec::new(), groups: Vec::new(), series: Vec::new() };
    assert(st@ =~= ScanView { frames: Seq::empty(), elements: Seq::empty(), groups: Seq::empty(), series: Seq::empty() }) by {
        assert(frame_views(st.frames@) =~= Seq::<FrameView>::empty());
        assert(element_views(st.elements@) =~= Seq::<ElementSpanView>::empty());
        assert(group_views(st.groups@) =~= Seq::<GroupXmlView>::empty());
        assert(series_views(st.series@) =~= Seq::<SeriesXmlView>::empty());
    }
    loop
        invariant
            reader.input() == input,
            input == existing_chart_xml@,
            len == input.len(),
            !reader.trim(),
            fuel == input.len() + 1,
            reader.count() <= fuel,
            reader.pos() <= input.len(),
            fuel - reader.count() >= input.len() - reader.pos() + 1,
            scan_wf(st@, reader.count(), len),
            series_scan(input) == scan_series_run(input, reader.count(), st@, (fuel - reader.count()) as nat),
        decreases input.len() - reader.pos(),
    {
        let ghost count = reader.count();
        let ev = match reader.read_event() {
            Ok(ev) => ev,
            Err(e) => {
                return Err(xml_error(e));
            },
        };
        if ev.kind == XmlEventKind::Eof {
            proof {
                lemma_scan_wf_weaken(st@, count, fuel, len);
            }
            return Ok(st);
        }
        let step = if ev.kind == XmlEventKind::Start {
            scan_start_exec(&mut st, &ev, Ghost(count), Ghost(len))
        } else if ev.kind == XmlEventKind::Empty {
            scan_empty_exec(&mut st, &ev, Ghost(count), Ghost(len))
        } else if ev.kind == XmlEventKind::End {
            scan_end_exec(&mut st, &ev, Ghost(count), Ghost(len))
        } else {
            proof {
                lemma_scan_wf_weaken(st@, count, count + 1, len);
            }
            Ok(())
        };
        match step {
            Ok(()) => {},
            Err(e) => {
                return Err(e);
            },
        }
    }
}

/// The names of the loaded groups.
pub open spec fn group_names(groups: Seq<GroupXmlView>) -> Seq<Seq<u8>> {
    groups.map_values(|g: GroupXmlView| g.name)
}

/// The first loaded series, from position `i` on, with `c:idx` `r`.
pub open spec fn loaded_with_raw(series: Seq<SeriesXmlView>, r: u32, i: int) -> Option<nat>
    decreases series.len() - i,
{
    if i < 0 || i >= series.len() {
        None
    } else if series[i].raw_index == Some(r) {
        Some(i as nat)
    } else {
        loaded_with_raw(series, r, i + 1)
    }
}

/// The first model series, from position `i` on, with `c:idx` `r`.
pub open spec fn model_with_raw(series: Seq<crate::chart_model::SeriesModel>, r: u32, i: int) -> Option<nat>
    decreases series.len() - i,
{
    if i < 0 || i >= series.len() {
        None
    } else if series[i].raw_index == Some(r) {
        Some(i as nat)
    } else {
        model_with_raw(series, r, i + 1)
    }
}

/// Whether two loaded series share a `c:idx`.
pub open spec fn loaded_duplicates(series: Seq<SeriesXmlView>) -> bool {
    exists|i: int, j: int|
        0 <= i < j < series.len() && (#[trigger] series[i]).raw_index is Some && series[i].raw_index
            == (#[trigger] series[j]).raw_index
}

/// The one group of the model that lists series `c:idx` `r`, or the
/// failure that says why there is none.
pub open spec fn owner_result(groups: Seq<crate::chart_model::ChartGroupModel>, r: u32) -> Result<nat, ErrorView> {
    if exists|g: int| crate::chart_model::sole_owner(groups, r, g) {
        Ok((choose|g: int| crate::chart_model::sole_owner(groups, r, g)) as nat)
    } else if forall|h: int| 0 <= h < groups.len() ==> !crate::chart_model::group_has_series(groups, h, r) {
        Err((OmErrorCode::InvalidState, crate::chart_model::no_owner_message(r)))
    } else {
        Err((OmErrorCode::InvalidState, crate::chart_model::many_owners_message(r)))
    }
}

/// Where model group `m` stands among the groups of the XML.
pub open spec fn xml_position(groups: Seq<crate::chart_model::ChartGroupModel>, names: Seq<Seq<u8>>, m: int) -> nat {
    let original = (names.len() - crate::chart_sequence::added_count(groups)) as nat;
    let tokens = crate::chart_sequence::merged_tokens(groups, original);
    match crate::chart_sequence::last_position_upto(groups, tokens, m, tokens.len() as int) {
        Some(p) => p as nat,
        None => 0,
    }
}

/// The loaded group that model series `m` belongs to: the group of its
/// loaded copy when the model has no groups, else the loaded position of
/// the model group that lists it.
pub open spec fn model_group_of(scan: ScanView, chart: crate::chart_model::ChartModel, m: int) -> Option<nat> {
    let r = chart.series@[m].raw_index->0;
    if chart.groups@.len() == 0 {
        match loaded_with_raw(scan.series, r, 0) {
            Some(l) => Some(scan.series[l as int].group),
            None => None,
        }
    } else {
        match owner_result(chart.groups@, r) {
            Ok(g) => Some(xml_position(chart.groups@, group_names(scan.groups), g as int)),
            Err(_) => None,
        }
    }
}

/// The message for a model series without a `c:idx`.
pub open spec fn stable_identity_message() -> Seq<char> {
    "loaded chart topology changes require stable series c:idx identities"@
}

/// The message for two model series with one `c:idx`.
pub open spec fn duplicate_model_message(r: u32) -> Seq<char> {
    "chart model contains duplicate series c:idx "@ + crate::text::decimal(r as nat)
}

/// The first failure among the model series from `m` on: a missing or
/// repeated `c:idx`, or (when the model has groups) no single owning group.
pub open spec fn model_failure(chart: crate::chart_model::ChartModel, m: int) -> Option<ErrorView>
    decreases chart.series@.len() - m,
{
    let series = chart.series@;
    if m < 0 || m >= series.len() {
        None
    } else {
        match series[m].raw_index {
            None => Some((OmErrorCode::Unsupported, stable_identity_message())),
            Some(r) => if exists|k: int| 0 <= k < m && (#[trigger] series[k]).raw_index == Some(r) {
                Some((OmErrorCode::InvalidState, duplicate_model_message(r)))
            } else if chart.groups@.len() > 0 && owner_result(chart.groups@, r) is Err {
                Some(owner_result(chart.groups@, r)->Err_0)
            } else {
                model_failure(chart, m + 1)
            },
        }
    }
}

/// The closed element that starts at `start`, the last one read.
pub open spec fn span_at(elements: Seq<ElementSpanView>, start: nat, k: int) -> Option<ElementSpanView>
    decreases k,
{
    if k <= 0 || k > elements.len() {
        None
    } else if elements[k - 1].start == start {
        Some(elements[k - 1])
    } else {
        span_at(elements, start, k - 1)
    }
}

/// The closed element that starts at `start`.
pub open spec fn element_at(elements: Seq<ElementSpanView>, start: nat) -> Option<ElementSpanView> {
    span_at(elements, start, elements.len() as int)
}

/// Whether the element that starts at `start` has exactly one child.
pub open spec fn single_child_at(elements: Seq<ElementSpanView>, start: Option<nat>) -> bool {
    match start {
        Some(x) => element_at(elements, x) matches Some(sp) && sp.children == 1,
        None => false,
    }
}

/// Where the removal of a filtered series starts: at its extension when
/// the series is the extension's one child, else at its wrapper when it is
/// the wrapper's one child, else at the series.
pub open spec fn filtered_removal_start(elements: Seq<ElementSpanView>, loaded: SeriesXmlView) -> nat {
    if single_child_at(elements, loaded.extension_start) {
        loaded.extension_start->0
    } else if single_child_at(elements, loaded.wrapper_start) {
        loaded.wrapper_start->0
    } else {
        loaded.start
    }
}

/// A list of starts with `x` added when it is not yet there.
pub open spec fn add_start(s: Seq<nat>, x: nat) -> Seq<nat> {
    if s.contains(x) { s } else { s.push(x) }
}

/// The removals gathered so far: the edits, where removed elements start,
/// per loaded group the removed extensions, and per model series the XML
/// of the loaded series it is moved from.
pub struct RemovalState {
    pub edits: Seq<(nat, nat, Seq<u8>)>,
    pub removal_starts: Seq<nat>,
    pub removed_ext: Seq<Seq<nat>>,
    pub relocated: Seq<Option<Seq<u8>>>,
}

/// The message for a filtered series whose wrapper was not closed.
pub open spec fn wrapper_span_message() -> Seq<char> {
    "filtered-series wrapper span is missing"@
}

/// The message for a moved series that has no end in the XML.
pub open spec fn unclosed_series_message() -> Seq<char> {
    "loaded chart series has no closing XML boundary"@
}

/// Removes loaded series `l` where the model no longer has it, or has it in
/// another group or filter state (then its XML is kept to be added again).
pub open spec fn removal_step(
    input: Seq<u8>,
    scan: ScanView,
    chart: crate::chart_model::ChartModel,
    st: RemovalState,
    l: int,
) -> Result<RemovalState, ErrorView> {
    let loaded = scan.series[l];
    let mi = match loaded.raw_index {
        Some(r) => model_with_raw(chart.series@, r, 0),
        None => None,
    };
    let moved = match mi {
        Some(m) => model_group_of(scan, chart, m as int) != Some(loaded.group) || chart.series@[m as int].is_filtered
            != loaded.is_filtered,
        None => false,
    };
    if mi is Some && !moved {
        Ok(st)
    } else if mi is Some && loaded.end < loaded.start {
        Err((OmErrorCode::Parse, unclosed_series_message()))
    } else {
        let st1 = match mi {
            Some(m) => RemovalState {
                relocated: st.relocated.update(m as int, Some(input.subrange(loaded.start as int, loaded.end as int))),
                ..st
            },
            None => st,
        };
        if !loaded.is_filtered {
            Ok(
                RemovalState {
                    removal_starts: add_start(st1.removal_starts, loaded.start),
                    edits: st1.edits.push((loaded.start, loaded.end, Seq::empty())),
                    ..st1
                },
            )
        } else {
            let at = filtered_removal_start(scan.elements, loaded);
            match element_at(scan.elements, at) {
                None => Err((OmErrorCode::Parse, wrapper_span_message())),
                Some(sp) => {
                    let st2 = if !st1.removal_starts.contains(sp.start) {
                        RemovalState {
                            removal_starts: st1.removal_starts.push(sp.start),
                            edits: st1.edits.push((sp.start, sp.end, Seq::empty())),
                            ..st1
                        }
                    } else {
                        st1
                    };
                    if loaded.extension_start == Some(at) {
                        let g = loaded.group as int;
                        Ok(RemovalState { removed_ext: st2.removed_ext.update(g, add_start(st2.removed_ext[g], at)), ..st2 })
                    } else {
                        Ok(st2)
                    }
                },
            }
        }
    }
}

/// The removals of the loaded series before position `l`.
pub open spec fn removals_upto(input: Seq<u8>, scan: ScanView, chart: crate::chart_model::ChartModel, l: int) -> Result<
    RemovalState,
    ErrorView,
>
    decreases l,
{
    if l <= 0 {
        Ok(
            RemovalState {
                edits: Seq::empty(),
                removal_starts: Seq::empty(),
                removed_ext: Seq::new(scan.groups.len(), |i: int| Seq::<nat>::empty()),
                relocated: Seq::new(chart.series@.len(), |i: int| None::<Seq<u8>>),
            },
        )
    } else {
        match removals_upto(input, scan, chart, l - 1) {
            Err(x) => Err(x),
            Ok(st) => removal_step(input, scan, chart, st, l - 1),
        }
    }
}

/// The XML of a series the model adds: its `c:idx` and `c:order`.
pub open spec fn new_series_text(r: u32, order: u32) -> Seq<char> {
    "<c:ser xmlns:c=\"http://schemas.openxmlformats.org/drawingml/2006/chart\"><c:idx val=\""@ + crate::text::decimal(r as nat)
        + "\"/><c:order val=\""@ + crate::text::decimal(order as nat) + "\"/></c:ser>"@
}

/// The series XML added per loaded group: directly, and into the
/// filtered-series extension.
pub struct AdditionState {
    pub direct: Seq<Seq<Seq<u8>>>,
    pub filtered: Seq<Seq<Seq<u8>>>,
}

/// The message for a series to add without a `c:idx`.
pub open spec fn no_identity_message() -> Seq<char> {
    "chart series has no c:idx identity"@
}

/// The message for a series to add with no loaded group.
pub open spec fn unassigned_message() -> Seq<char> {
    "chart series could not be assigned to a loaded chart group"@
}

/// Adds model series `m` to its group when it is new to the XML or was
/// moved, renamed for where it goes.
pub open spec fn addition_step(
    scan: ScanView,
    chart: crate::chart_model::ChartModel,
    rem: RemovalState,
    st: AdditionState,
    m: int,
) -> Result<AdditionState, ErrorView> {
    let s = chart.series@[m];
    let loaded = match s.raw_index {
        Some(r) => loaded_with_raw(scan.series, r, 0),
        None => None,
    };
    if loaded is Some && rem.relocated[m] is None {
        Ok(st)
    } else {
        match s.raw_index {
            None => Err((OmErrorCode::InvalidState, no_identity_message())),
            Some(r) => match model_group_of(scan, chart, m) {
                None => Err((OmErrorCode::Unsupported, unassigned_message())),
                Some(g) => {
                    let xml = match rem.relocated[m] {
                        Some(x) => x,
                        None => vstd::utf8::encode_utf8(
                            new_series_text(r, match s.order { Some(o) => o, None => m as u32 }),
                        ),
                    };
                    let name = if s.is_filtered { lit("c15:ser") } else { lit("c:ser") };
                    match crate::chart_series::series_outer_renamed(xml, name) {
                        Err(x) => Err(x),
                        Ok(t) => if s.is_filtered {
                            Ok(AdditionState { filtered: st.filtered.update(g as int, st.filtered[g as int].push(t)), ..st })
                        } else {
                            Ok(AdditionState { direct: st.direct.update(g as int, st.direct[g as int].push(t)), ..st })
                        },
                    }
                },
            },
        }
    }
}

/// The additions of the model series before position `m`.
pub open spec fn additions_upto(
    scan: ScanView,
    chart: crate::chart_model::ChartModel,
    rem: RemovalState,
    m: int,
) -> Result<AdditionState, ErrorView>
    decreases m,
{
    if m <= 0 {
        Ok(
            AdditionState {
                direct: Seq::new(scan.groups.len(), |i: int| Seq::<Seq<u8>>::empty()),
                filtered: Seq::new(scan.groups.len(), |i: int| Seq::<Seq<u8>>::empty()),
            },
        )
    } else {
        match additions_upto(scan, chart, rem, m - 1) {
            Err(x) => Err(x),
            Ok(st) => addition_step(scan, chart, rem, st, m - 1),
        }
    }
}

/// The filtered-series extensions that wrap series XML for a group whose
/// wrapper element is `w`.
pub open spec fn filtered_extensions(xs: Seq<Seq<u8>>, w: Seq<char>) -> Seq<u8>
    decreases xs.len(),
{
    if xs.len() == 0 {
        Seq::empty()
    } else {
        filtered_extensions(xs.drop_last(), w) + vstd::utf8::encode_utf8(
            "<c:ext xmlns:c=\"http://schemas.openxmlformats.org/drawingml/2006/chart\" uri=\"{02D57815-91ED-43cb-92C2-25804820EDAC}\"><c15:"@
                + w + " xmlns:c15=\"http://schemas.microsoft.com/office/drawing/2012/chart\">"@,
        ) + xs.last() + vstd::utf8::encode_utf8("</c15:"@ + w + "></c:ext>"@)
    }
}

/// The message for filtered series in an unrecognized group.
pub open spec fn unrecognized_group_message() -> Seq<char> {
    "Series.IsFiltered requires a recognized loaded chart group"@
}

/// The message for filtered series in a group type that has no wrapper.
pub open spec fn no_wrapper_message(name: Seq<u8>) -> Seq<char> {
    "Series.IsFiltered is unavailable for loaded "@ + crate::chart_patch::utf8_lossy(name) + " groups"@
}

/// The message for an extension list that was not closed.
pub open spec fn ext_span_message() -> Seq<char> {
    "chart-group extension list span is missing"@
}

/// Whether an edit survives the removal of a whole extension list that
/// spans `[start, end)`: it is not one of the removed extensions, nor inside
/// the list.
pub open spec fn kept_edit(removed: Seq<nat>, start: nat, end: nat) -> spec_fn((nat, nat, Seq<u8>)) -> bool {
    |e: (nat, nat, Seq<u8>)| !removed.contains(e.0) && !(e.0 > start && e.1 < end)
}

/// The edits and removal starts after loaded group `g`: its direct
/// additions after its last direct series (else before its first child
/// after the series, else before its end tag); its filtered additions in
/// its extension list (a new one when it has none); or, when all of its
/// extension list's children were removed, the whole list instead.
pub open spec fn group_step(
    scan: ScanView,
    rem: RemovalState,
    adds: AdditionState,
    acc: (Seq<(nat, nat, Seq<u8>)>, Seq<nat>),
    g: int,
) -> Result<(Seq<(nat, nat, Seq<u8>)>, Seq<nat>), ErrorView> {
    let grp = scan.groups[g];
    let (edits, starts) = acc;
    let edits1 = if adds.direct[g].len() > 0 {
        let pos = match grp.last_direct_series_end {
            Some(p) => p,
            None => match grp.first_after_series_start {
                Some(p) => p,
                None => grp.end_tag_start,
            },
        };
        edits.push((pos, pos, adds.direct[g].flatten()))
    } else {
        edits
    };
    if adds.filtered[g].len() > 0 {
        match crate::chart_types::type_of_group_name(byte_chars(grp.name)) {
            None => Err((OmErrorCode::Unsupported, unrecognized_group_message())),
            Some(t) => match crate::chart_types::filtered_wrapper_name(t) {
                None => Err((OmErrorCode::Unsupported, no_wrapper_message(grp.name))),
                Some(w) => {
                    let ext = filtered_extensions(adds.filtered[g], w@);
                    match grp.direct_ext_lst_start {
                        Some(x) => match element_at(scan.elements, x) {
                            None => Err((OmErrorCode::Parse, ext_span_message())),
                            Some(sp) => Ok((edits1.push((sp.end_tag_start, sp.end_tag_start, ext)), starts)),
                        },
                        None => Ok(
                            (
                                edits1.push(
                                    (
                                        grp.end_tag_start,
                                        grp.end_tag_start,
                                        lit("<c:extLst xmlns:c=\"http://schemas.openxmlformats.org/drawingml/2006/chart\">") + ext
                                            + lit("</c:extLst>"),
                                    ),
                                ),
                                starts,
                            ),
                        ),
                    }
                },
            },
        }
    } else {
        match grp.direct_ext_lst_start {
            Some(x) => match element_at(scan.elements, x) {
                None => Err((OmErrorCode::Parse, ext_span_message())),
                Some(sp) => if sp.children > 0 && sp.children == rem.removed_ext[g].len() && sp.parent_start is Some
                    && !starts.contains(sp.start) {
                    let kept = edits1.filter(kept_edit(rem.removed_ext[g], sp.start, sp.end));
                    Ok((kept.push((sp.start, sp.end, Seq::empty())), starts.push(sp.start)))
                } else {
                    Ok((edits1, starts))
                },
            },
            None => Ok((edits1, starts)),
        }
    }
}

/// The edits after the loaded groups before position `g`.
pub open spec fn group_edits_upto(scan: ScanView, rem: RemovalState, adds: AdditionState, g: int) -> Result<
    (Seq<(nat, nat, Seq<u8>)>, Seq<nat>),
    ErrorView,
>
    decreases g,
{
    if g <= 0 {
        Ok((rem.edits, rem.removal_starts))
    } else {
        match group_edits_upto(scan, rem, adds, g - 1) {
            Err(x) => Err(x),
            Ok(acc) => group_step(scan, rem, adds, acc, g - 1),
        }
    }
}

/// Edits apply by start; at one start, insertions come first.
pub open spec fn topology_edit_lt(a: (nat, nat, Seq<u8>), b: (nat, nat, Seq<u8>)) -> bool {
    a.0 < b.0 || (a.0 == b.0 && a.0 == a.1 && b.0 != b.1)
}

/// The message for edits that overlap.
pub open spec fn topology_overlap_message() -> Seq<char> {
    "filtered-series structural edits overlap"@
}

/// Applies the edits from `k` on to `xml` read up to `cursor`.
pub open spec fn topology_splice(xml: Seq<u8>, edits: Seq<(nat, nat, Seq<u8>)>, k: int, cursor: nat, out: Seq<u8>) -> Result<
    Seq<u8>,
    ErrorView,
>
    decreases edits.len() - k,
{
    if k < 0 || k >= edits.len() {
        Ok(out + xml.subrange(cursor as int, xml.len() as int))
    } else if edits[k].0 < cursor {
        Err((OmErrorCode::InvalidState, topology_overlap_message()))
    } else {
        topology_splice(xml, edits, k + 1, edits[k].1, out + xml.subrange(cursor as int, edits[k].0 as int) + edits[k].2)
    }
}

/// The message for XML without chart groups.
pub open spec fn no_groups_message() -> Seq<char> {
    "loaded series topology patching requires at least one chart group"@
}

/// The message for a model whose series do not partition over its groups.
pub open spec fn partition_message() -> Seq<char> {
    "loaded chart series-to-group partition is inconsistent"@
}

/// The message for loaded series that share a `c:idx`.
pub open spec fn loaded_duplicates_message() -> Seq<char> {
    "loaded chart contains duplicate series c:idx identities"@
}

/// Loaded chart XML with its series where the chart model has them.
pub open spec fn series_topology(input: Seq<u8>, chart: crate::chart_model::ChartModel) -> Result<Seq<u8>, ErrorView> {
    match series_scan(input) {
        Err(x) => Err(x),
        Ok(scan) => if scan.groups.len() == 0 {
            Err((OmErrorCode::Unsupported, no_groups_message()))
        } else {
            let sequence = if chart.groups@.len() > 0 {
                match crate::chart_sequence::sequence_failure(group_names(scan.groups), chart.groups@) {
                    Some(f) => Some(f),
                    None => if !crate::chart_model::overlay_is_stable(chart) {
                        Some((OmErrorCode::InvalidState, partition_message()))
                    } else {
                        None
                    },
                }
            } else {
                None
            };
            match sequence {
                Some(f) => Err(f),
                None => if loaded_duplicates(scan.series) {
                    Err((OmErrorCode::Unsupported, loaded_duplicates_message()))
                } else {
                    match model_failure(chart, 0) {
                        Some(f) => Err(f),
                        None => match removals_upto(input, scan, chart, scan.series.len() as int) {
                            Err(x) => Err(x),
                            Ok(rem) => match additions_upto(scan, chart, rem, chart.series@.len() as int) {
                                Err(x) => Err(x),
                                Ok(adds) => match group_edits_upto(scan, rem, adds, scan.groups.len() as int) {
                                    Err(x) => Err(x),
                                    Ok((edits, _)) => topology_splice(
                                        input,
                                        crate::sort::sorted_by(edits, |a: (nat, nat, Seq<u8>), b: (nat, nat, Seq<u8>)| topology_edit_lt(a, b)),
                                        0,
                                        0,
                                        Seq::empty(),
                                    ),
                                },
                            },
                        },
                    }
                },
            }
        },
    }
}

fn loaded_with_raw_exec(series: &Vec<SeriesXml>, r: u32) -> (res: Option<usize>)
    ensures
        opt_pos(res) == loaded_with_raw(series_views(series@), r, 0),
        res matches Some(l) ==> l < series@.len(),
{
    let ghost sv = series_views(series@);
    let mut i: usize = 0;
    while i < series.len()
        invariant
            i <= series@.len(),
            sv == series_views(series@),
            loaded_with_raw(sv, r, 0) == loaded_with_raw(sv, r, i as int),
        decreases series@.len() - i,
    {
        assert(sv[i as int] == series@[i as int].view());
        if series[i].raw_index == Some(r) {
            return Some(i);
        }
        i += 1;
    }
    None
}

fn model_with_raw_exec(series: &Vec<crate::chart_model::SeriesModel>, r: u32) -> (res: Option<usize>)
    ensures
        opt_pos(res) == model_with_raw(series@, r, 0),
        res matches Some(m) ==> m < series@.len(),
{
    let mut i: usize = 0;
    while i < series.len()
        invariant
            i <= series@.len(),
            model_with_raw(series@, r, 0) == model_with_raw(series@, r, i as int),
        decreases series@.len() - i,
    {
        if series[i].raw_index == Some(r) {
            return Some(i);
        }
        i += 1;
    }
    None
}

fn has_loaded_duplicates(series: &Vec<SeriesXml>) -> (b: bool)
    ensures
        b == loaded_duplicates(series_views(series@)),
{
    let ghost sv = series_views(series@);
    let mut j: usize = 0;
    while j < series.len()
        invariant
            j <= series@.len(),
            sv == series_views(series@),
            forall|a: int, b: int| 0 <= a < b < j ==> !((#[trigger] sv[a]).raw_index is Some && sv[a].raw_index == (#[trigger] sv[b]).raw_index),
        decreases series@.len() - j,
    {
        let mut i: usize = 0;
        while i < j
            invariant
                i <= j < series@.len(),
                sv == series_views(series@),
                forall|a: int| 0 <= a < i ==> !((#[trigger] sv[a]).raw_index is Some && sv[a].raw_index == sv[j as int].raw_index),
            decreases j - i,
        {
            assert(sv[i as int] == series@[i as int].view());
            assert(sv[j as int] == series@[j as int].view());
            if series[i].raw_index.is_some() && series[i].raw_index == series[j].raw_index {
                return true;
            }
            i += 1;
        }
        j += 1;
    }
    false
}

fn owner_exec(chart: &crate::chart_model::ChartModel, r: u32) -> (res: Result<usize, OmError>)
    ensures
        match owner_result(chart.groups@, r) {
            Ok(g) => res matches Ok(x) && x as nat == g && (x as int) < chart.groups@.len(),
            Err(f) => res matches Err(e) && error_view(e) == f,
        },
{
    let res = crate::chart_model::chart_group_index_for_series_raw_index(chart, r);
    match res {
        Ok(g) => {
            assert(crate::chart_model::sole_owner(chart.groups@, r, g as int));
            let ghost c = choose|h: int| crate::chart_model::sole_owner(chart.groups@, r, h);
            assert(crate::chart_model::sole_owner(chart.groups@, r, c));
            assert(c == g as int);
            Ok(g)
        },
        Err(e) => Err(e),
    }
}

fn check_model_series(chart: &crate::chart_model::ChartModel) -> (res: Result<(), OmError>)
    ensures
        match model_failure(*chart, 0) {
            Some(f) => res matches Err(e) && error_view(e) == f,
            None => res is Ok,
        },
{
    let series = &chart.series;
    let mut m: usize = 0;
    while m < series.len()
        invariant
            m <= series@.len(),
            series == &chart.series,
            model_failure(*chart, 0) == model_failure(*chart, m as int),
        decreases series@.len() - m,
    {
        let r = match series[m].raw_index {
            None => {
                return Err(om_error(OmErrorCode::Unsupported, "loaded chart topology changes require stable series c:idx identities"));
            },
            Some(r) => r,
        };
        let mut k: usize = 0;
        while k < m
            invariant
                k <= m < series@.len(),
                series == &chart.series,
                model_failure(*chart, 0) == model_failure(*chart, m as int),
                series@[m as int].raw_index == Some(r),
                forall|j: int| 0 <= j < k ==> (#[trigger] series@[j]).raw_index != Some(r),
            decreases m - k,
        {
            if series[k].raw_index == Some(r) {
                proof {
                    reveal_strlit("chart model contains duplicate series c:idx ");
                    assert(0 <= k < m && series@[k as int].raw_index == Some(r));
                }
                let mut message = String::from_str("chart model contains duplicate series c:idx ");
                let number = crate::text::decimal_text(r as u64);
                message.append(number.as_str());
                return Err(OmError { code: OmErrorCode::InvalidState, message });
            }
            k += 1;
        }
        if chart.groups.len() > 0 {
            match owner_exec(chart, r) {
                Ok(_) => {},
                Err(e) => {
                    return Err(e);
                },
            }
        }
        m += 1;
    }
    Ok(())
}

proof fn lemma_model_failure_none(chart: crate::chart_model::ChartModel, i: int)
    requires
        0 <= i,
        model_failure(chart, i) is None,
    ensures
        forall|m: int| i <= m < chart.series@.len() ==> (#[trigger] chart.series@[m]).raw_index is Some
            && (chart.groups@.len() > 0 ==> owner_result(chart.groups@, chart.series@[m].raw_index->0) is Ok),
    decreases chart.series@.len() - i,
{
    if i < chart.series@.len() {
        lemma_model_failure_none(chart, i + 1);
    }
}

/// The facts about the group sequence that a successful lining-up of the
/// loaded groups with the model's groups gives.
pub open spec fn sequence_ok(names: Seq<Seq<u8>>, groups: Seq<crate::chart_model::ChartGroupModel>, model_to_xml: Seq<usize>) -> bool {
    let original = (names.len() - crate::chart_sequence::added_count(groups)) as nat;
    let tokens = crate::chart_sequence::merged_tokens(groups, original);
    &&& crate::chart_sequence::sequence_failure(names, groups) is None
    &&& model_to_xml.len() == groups.len()
    &&& forall|m: int| 0 <= m < groups.len() ==> crate::chart_sequence::last_position_upto(groups, tokens, m, tokens.len() as int)
        == Some(#[trigger] model_to_xml[m] as int)
}

fn model_groups_exec(scan: &TopologyScan, chart: &crate::chart_model::ChartModel, model_to_xml: &Vec<usize>, Ghost(len): Ghost<nat>) -> (res: Vec<Option<usize>>)
    requires
        model_failure(*chart, 0) is None,
        scan_wf(scan@, (len + 1) as nat, len),
        chart.groups@.len() > 0 ==> sequence_ok(group_names(scan@.groups), chart.groups@, model_to_xml@),
    ensures
        res@.len() == chart.series@.len(),
        forall|m: int| 0 <= m < chart.series@.len() ==> opt_pos(#[trigger] res@[m]) == model_group_of(scan@, *chart, m),
        forall|m: int| 0 <= m < chart.series@.len() ==> (#[trigger] res@[m] matches Some(g) ==> g < scan@.groups.len()),
{
    proof {
        lemma_model_failure_none(*chart, 0);
    }
    let ghost names = group_names(scan@.groups);
    let ghost groups = chart.groups@;
    let ghost original = (names.len() - crate::chart_sequence::added_count(groups)) as nat;
    let ghost tokens = crate::chart_sequence::merged_tokens(groups, original);
    let mut res: Vec<Option<usize>> = Vec::new();
    let mut m: usize = 0;
    while m < chart.series.len()
        invariant
            m <= chart.series@.len(),
            res@.len() == m,
            scan_wf(scan@, (len + 1) as nat, len),
            names == group_names(scan@.groups),
            groups == chart.groups@,
            original == (names.len() - crate::chart_sequence::added_count(groups)) as nat,
            tokens == crate::chart_sequence::merged_tokens(groups, original),
            chart.groups@.len() > 0 ==> sequence_ok(names, groups, model_to_xml@),
            forall|x: int| 0 <= x < chart.series@.len() ==> (#[trigger] chart.series@[x]).raw_index is Some
                && (chart.groups@.len() > 0 ==> owner_result(chart.groups@, chart.series@[x].raw_index->0) is Ok),
            forall|x: int| 0 <= x < m ==> opt_pos(#[trigger] res@[x]) == model_group_of(scan@, *chart, x),
            forall|x: int| 0 <= x < m ==> (#[trigger] res@[x] matches Some(g) ==> g < scan@.groups.len()),
        decreases chart.series@.len() - m,
    {
        assert(chart.series@[m as int].raw_index is Some);
        let r = chart.series[m].raw_index.unwrap();
        let g: Option<usize> = if chart.groups.len() == 0 {
            match loaded_with_raw_exec(&scan.series, r) {
                Some(l) => {
                    assert(scan@.series[l as int] == scan.series@[l as int].view());
                    Some(scan.series[l].group)
                },
                None => None,
            }
        } else {
            let owner = match owner_exec(chart, r) {
                Ok(o) => o,
                Err(_) => {
                    assert(false);
                    0
                },
            };
            proof {
                crate::chart_sequence::lemma_placement_designates_group(groups, tokens, owner as int, tokens.len() as int);
                assert(model_to_xml@[owner as int] as int == crate::chart_sequence::last_position_upto(groups, tokens, owner as int, tokens.len() as int)->0);
                assert(tokens.len() == names.len());
                assert(names.len() == scan@.groups.len());
            }
            Some(model_to_xml[owner])
        };
        res.push(g);
        m += 1;
    }
    res
}

struct Removals {
    edits: Vec<(usize, usize, Vec<u8>)>,
    removal_starts: Vec<usize>,
    removed_ext: Vec<Vec<usize>>,
    relocated: Vec<Option<Vec<u8>>>,
}

spec fn nat_views(v: Seq<usize>) -> Seq<nat> {
    v.map_values(|x: usize| x as nat)
}

spec fn opt_bytes(o: Option<Vec<u8>>) -> Option<Seq<u8>> {
    match o {
        Some(v) => Some(v@),
        None => None,
    }
}

impl Removals {
    spec fn view(&self) -> RemovalState {
        RemovalState {
            edits: crate::chart_edits::edit_views(self.edits@),
            removal_starts: nat_views(self.removal_starts@),
            removed_ext: self.removed_ext@.map_values(|v: Vec<usize>| nat_views(v@)),
            relocated: self.relocated@.map_values(|o: Option<Vec<u8>>| opt_bytes(o)),
        }
    }

    spec fn sized(&self, groups: nat, models: nat, len: nat) -> bool {
        &&& self.removed_ext@.len() == groups
        &&& self.relocated@.len() == models
        &&& forall|k: int| 0 <= k < self.edits@.len() ==> (#[trigger] self.edits@[k]).0 <= len && self.edits@[k].1 <= len
    }
}

fn element_at_exec(elements: &Vec<ElementSpan>, start: usize) -> (r: Option<usize>)
    ensures
        match element_at(element_views(elements@), start as nat) {
            Some(sp) => r matches Some(i) && i < elements@.len() && elements@[i as int].view() == sp,
            None => r is None,
        },
{
    let ghost ev = element_views(elements@);
    let mut k = elements.len();
    while k > 0
        invariant
            k <= elements@.len(),
            ev == element_views(elements@),
            element_at(ev, start as nat) == span_at(ev, start as nat, k as int),
        decreases k,
    {
        assert(ev[k - 1] == elements@[k - 1].view());
        if elements[k - 1].start == start {
            return Some(k - 1);
        }
        k -= 1;
    }
    None
}

fn contains_start(v: &Vec<usize>, x: usize) -> (r: bool)
    ensures
        r == nat_views(v@).contains(x as nat),
{
    let mut i: usize = 0;
    while i < v.len()
        invariant
            i <= v@.len(),
            forall|j: int| 0 <= j < i ==> v@[j] != x,
        decreases v@.len() - i,
    {
        if v[i] == x {
            assert(nat_views(v@)[i as int] == x as nat);
            return true;
        }
        i += 1;
    }
    assert forall|j: int| 0 <= j < nat_views(v@).len() implies nat_views(v@)[j] != x as nat by {
        assert(v@[j] != x);
    }
    false
}

fn add_start_exec(v: &mut Vec<usize>, x: usize)
    ensures
        nat_views(final(v)@) == add_start(nat_views(old(v)@), x as nat),
{
    let ghost before = nat_views(v@);
    if !contains_start(v, x) {
        v.push(x);
        assert(nat_views(v@) =~= before.push(x as nat));
    }
}

fn single_child_at_exec(elements: &Vec<ElementSpan>, start: Option<usize>) -> (r: bool)
    ensures
        r == single_child_at(element_views(elements@), opt_pos(start)),
{
    match start {
        Some(x) => match element_at_exec(elements, x) {
            Some(i) => elements[i].children == 1,
            None => false,
        },
        None => false,
    }
}

pub(crate) fn copy_range(input: &[u8], from: usize, to: usize) -> (r: Vec<u8>)
    requires
        from <= to <= input@.len(),
    ensures
        r@ == input@.subrange(from as int, to as int),
{
    let mut r: Vec<u8> = Vec::new();
    let mut i: usize = from;
    while i < to
        invariant
            from <= i <= to <= input@.len(),
            r@ == input@.subrange(from as int, i as int),
        decreases to - i,
    {
        r.push(input[i]);
        assert(input@.subrange(from as int, i + 1) =~= input@.subrange(from as int, i as int).push(input@[i as int]));
        i += 1;
    }
    r
}

fn removal_step_exec(
    input: &[u8],
    scan: &TopologyScan,
    chart: &crate::chart_model::ChartModel,
    model_groups: &Vec<Option<usize>>,
    st: &mut Removals,
    l: usize,
) -> (r: Result<(), OmError>)
    requires
        l < scan.series@.len(),
        scan_wf(scan@, (input@.len() + 1) as nat, input@.len()),
        model_groups@.len() == chart.series@.len(),
        forall|m: int| 0 <= m < chart.series@.len() ==> opt_pos(#[trigger] model_groups@[m]) == model_group_of(scan@, *chart, m),
        old(st).sized(scan@.groups.len(), chart.series@.len(), input@.len()),
    ensures
        match removal_step(input@, scan@, *chart, old(st)@, l as int) {
            Ok(s) => r is Ok && final(st)@ == s,
            Err(x) => r matches Err(e) && error_view(e) == x,
        },
        final(st).sized(scan@.groups.len(), chart.series@.len(), input@.len()),
{
    let loaded = &scan.series[l];
    assert(scan@.series[l as int] == loaded.view());
    let mi = match loaded.raw_index {
        Some(r) => model_with_raw_exec(&chart.series, r),
        None => None,
    };
    let moved = match mi {
        Some(m) => {
            let other_group = match model_groups[m] {
                Some(g) => g != loaded.group,
                None => true,
            };
            other_group || chart.series[m].is_filtered != loaded.is_filtered
        },
        None => false,
    };
    if mi.is_some() && !moved {
        return Ok(());
    }
    if mi.is_some() && loaded.end < loaded.start {
        return Err(om_error(OmErrorCode::Parse, "loaded chart series has no closing XML boundary"));
    }
    if let Some(m) = mi {
        let x = copy_range(input, loaded.start, loaded.end);
        let ghost before = st.relocated@;
        st.relocated.set(m, Some(x));
        assert(st.relocated@.map_values(|o: Option<Vec<u8>>| opt_bytes(o)) =~= before.map_values(|o: Option<Vec<u8>>| opt_bytes(o)).update(
            m as int,
            Some(input@.subrange(loaded.start as int, loaded.end as int)),
        ));
    }
    if !loaded.is_filtered {
        add_start_exec(&mut st.removal_starts, loaded.start);
        let ghost edits_before = st.edits@;
        st.edits.push((loaded.start, loaded.end, Vec::new()));
        assert(crate::chart_edits::edit_views(st.edits@) =~= crate::chart_edits::edit_views(edits_before).push(
            (loaded.start as nat, loaded.end as nat, Seq::<u8>::empty()),
        ));
        return Ok(());
    }
    let at = if single_child_at_exec(&scan.elements, loaded.extension_start) {
        loaded.extension_start.unwrap()
    } else if single_child_at_exec(&scan.elements, loaded.wrapper_start) {
        loaded.wrapper_start.unwrap()
    } else {
        loaded.start
    };
    assert(at as nat == filtered_removal_start(scan@.elements, scan@.series[l as int]));
    let i = match element_at_exec(&scan.elements, at) {
        Some(i) => i,
        None => {
            return Err(om_error(OmErrorCode::Parse, "filtered-series wrapper span is missing"));
        },
    };
    let sp_start = scan.elements[i].start;
    let sp_end = scan.elements[i].end;
    assert(scan@.elements[i as int] == scan.elements@[i as int].view());
    if !contains_start(&st.removal_starts, sp_start) {
        let ghost starts_before = st.removal_starts@;
        st.removal_starts.push(sp_start);
        assert(nat_views(st.removal_starts@) =~= nat_views(starts_before).push(sp_start as nat));
        let ghost edits_before = st.edits@;
        st.edits.push((sp_start, sp_end, Vec::new()));
        assert(crate::chart_edits::edit_views(st.edits@) =~= crate::chart_edits::edit_views(edits_before).push(
            (sp_start as nat, sp_end as nat, Seq::<u8>::empty()),
        ));
    }
    let is_ext = match loaded.extension_start {
        Some(x) => x == at,
        None => false,
    };
    if is_ext {
        let g = loaded.group;
        let ghost before = st.removed_ext@;
        let mut list = st.removed_ext.remove(g);
        add_start_exec(&mut list, at);
        st.removed_ext.insert(g, list);
        assert(st.removed_ext@.map_values(|v: Vec<usize>| nat_views(v@)) =~= before.map_values(|v: Vec<usize>| nat_views(v@)).update(
            g as int,
            add_start(nat_views(before[g as int]@), at as nat),
        ));
    }
    Ok(())
}

proof fn lemma_removals_error_stays(input: Seq<u8>, scan: ScanView, chart: crate::chart_model::ChartModel, l: int, n: int)
    requires
        0 <= l <= n,
        removals_upto(input, scan, chart, l) is Err,
    ensures
        removals_upto(input, scan, chart, n) == removals_upto(input, scan, chart, l),
    decreases n - l,
{
    if l < n {
        lemma_removals_error_stays(input, scan, chart, l, n - 1);
    }
}

fn removals_exec(
    input: &[u8],
    scan: &TopologyScan,
    chart: &crate::chart_model::ChartModel,
    model_groups: &Vec<Option<usize>>,
) -> (r: Result<Removals, OmError>)
    requires
        scan_wf(scan@, (input@.len() + 1) as nat, input@.len()),
        model_groups@.len() == chart.series@.len(),
        forall|m: int| 0 <= m < chart.series@.len() ==> opt_pos(#[trigger] model_groups@[m]) == model_group_of(scan@, *chart, m),
    ensures
        match removals_upto(input@, scan@, *chart, scan@.series.len() as int) {
            Ok(s) => r matches Ok(x) && x@ == s && x.sized(scan@.groups.len(), chart.series@.len(), input@.len()),
            Err(f) => r matches Err(e) && error_view(e) == f,
        },
{
    let mut removed_ext: Vec<Vec<usize>> = Vec::new();
    let mut g: usize = 0;
    while g < scan.groups.len()
        invariant
            g <= scan.groups@.len(),
            removed_ext@.len() == g,
            forall|j: int| 0 <= j < g ==> (#[trigger] removed_ext@[j])@.len() == 0,
        decreases scan.groups@.len() - g,
    {
        removed_ext.push(Vec::new());
        g += 1;
    }
    let mut relocated: Vec<Option<Vec<u8>>> = Vec::new();
    let mut m: usize = 0;
    while m < chart.series.len()
        invariant
            m <= chart.series@.len(),
            relocated@.len() == m,
            forall|j: int| 0 <= j < m ==> (#[trigger] relocated@[j]) is None,
        decreases chart.series@.len() - m,
    {
        relocated.push(None);
        m += 1;
    }
    let mut st = Removals { edits: Vec::new(), removal_starts: Vec::new(), removed_ext, relocated };
    assert(st@ == removals_upto(input@, scan@, *chart, 0)->Ok_0) by {
        assert(crate::chart_edits::edit_views(st.edits@) =~= Seq::<(nat, nat, Seq<u8>)>::empty());
        assert(nat_views(st.removal_starts@) =~= Seq::<nat>::empty());
        assert(st.removed_ext@.map_values(|v: Vec<usize>| nat_views(v@)) =~= Seq::new(scan@.groups.len(), |i: int| Seq::<nat>::empty())) by {
            assert forall|j: int| 0 <= j < scan@.groups.len() implies nat_views(#[trigger] st.removed_ext@[j]@) =~= Seq::<nat>::empty() by {
                assert(st.removed_ext@[j]@.len() == 0);
            }
        }
        assert(st.relocated@.map_values(|o: Option<Vec<u8>>| opt_bytes(o)) =~= Seq::new(chart.series@.len(), |i: int| None::<Seq<u8>>));
    }
    let mut l: usize = 0;
    while l < scan.series.len()
        invariant
            l <= scan.series@.len(),
            scan_wf(scan@, (input@.len() + 1) as nat, input@.len()),
            model_groups@.len() == chart.series@.len(),
            forall|m: int| 0 <= m < chart.series@.len() ==> opt_pos(#[trigger] model_groups@[m]) == model_group_of(scan@, *chart, m),
            st.sized(scan@.groups.len(), chart.series@.len(), input@.len()),
            removals_upto(input@, scan@, *chart, l as int) == Ok::<RemovalState, ErrorView>(st@),
        decreases scan.series@.len() - l,
    {
        match removal_step_exec(input, scan, chart, model_groups, &mut st, l) {
            Ok(()) => {},
            Err(e) => {
                proof {
                    lemma_removals_error_stays(input@, scan@, *chart, l + 1, scan@.series.len() as int);
                }
                return Err(e);
            },
        }
        l += 1;
    }
    Ok(st)
}

struct Additions {
    direct: Vec<Vec<Vec<u8>>>,
    filtered: Vec<Vec<Vec<u8>>>,
}

impl Additions {
    spec fn view(&self) -> AdditionState {
        AdditionState {
            direct: self.direct@.map_values(|v: Vec<Vec<u8>>| crate::chart_patch::byte_lists(v@)),
            filtered: self.filtered@.map_values(|v: Vec<Vec<u8>>| crate::chart_patch::byte_lists(v@)),
        }
    }
}

fn new_series_bytes(r: u32, order: u32) -> (b: Vec<u8>)
    ensures
        b@ == vstd::utf8::encode_utf8(new_series_text(r, order)),
{
    proof {
        reveal_strlit("<c:ser xmlns:c=\"http://schemas.openxmlformats.org/drawingml/2006/chart\"><c:idx val=\"");
        reveal_strlit("\"/><c:order val=\"");
        reveal_strlit("\"/></c:ser>");
    }
    let mut text = String::from_str("<c:ser xmlns:c=\"http://schemas.openxmlformats.org/drawingml/2006/chart\"><c:idx val=\"");
    let raw = crate::text::decimal_text(r as u64);
    text.append(raw.as_str());
    text.append("\"/><c:order val=\"");
    let ord = crate::text::decimal_text(order as u64);
    text.append(ord.as_str());
    text.append("\"/></c:ser>");
    text.as_str().as_bytes_vec()
}

fn push_series_xml(lists: &mut Vec<Vec<Vec<u8>>>, g: usize, t: Vec<u8>)
    requires
        g < old(lists)@.len(),
    ensures
        final(lists)@.len() == old(lists)@.len(),
        final(lists)@.map_values(|v: Vec<Vec<u8>>| crate::chart_patch::byte_lists(v@)) == old(lists)@.map_values(
            |v: Vec<Vec<u8>>| crate::chart_patch::byte_lists(v@),
        ).update(g as int, crate::chart_patch::byte_lists(old(lists)@[g as int]@).push(t@)),
{
    let ghost before = lists@;
    let ghost tv = t@;
    let mut list = lists.remove(g);
    let ghost list_before = list@;
    list.push(t);
    assert(crate::chart_patch::byte_lists(list@) =~= crate::chart_patch::byte_lists(list_before).push(tv));
    lists.insert(g, list);
    assert(lists@.map_values(|v: Vec<Vec<u8>>| crate::chart_patch::byte_lists(v@)) =~= before.map_values(
        |v: Vec<Vec<u8>>| crate::chart_patch::byte_lists(v@),
    ).update(g as int, crate::chart_patch::byte_lists(before[g as int]@).push(tv)));
}

fn addition_step_exec(
    scan: &TopologyScan,
    chart: &crate::chart_model::ChartModel,
    rem: &Removals,
    model_groups: &Vec<Option<usize>>,
    st: &mut Additions,
    m: usize,
) -> (r: Result<(), OmError>)
    requires
        m < chart.series@.len(),
        rem.relocated@.len() == chart.series@.len(),
        model_groups@.len() == chart.series@.len(),
        forall|x: int| 0 <= x < chart.series@.len() ==> opt_pos(#[trigger] model_groups@[x]) == model_group_of(scan@, *chart, x),
        forall|x: int| 0 <= x < chart.series@.len() ==> (#[trigger] model_groups@[x] matches Some(g) ==> g < scan@.groups.len()),
        old(st).direct@.len() == scan@.groups.len(),
        old(st).filtered@.len() == scan@.groups.len(),
    ensures
        match addition_step(scan@, *chart, rem@, old(st)@, m as int) {
            Ok(s) => r is Ok && final(st)@ == s,
            Err(x) => r matches Err(e) && error_view(e) == x,
        },
        final(st).direct@.len() == scan@.groups.len(),
        final(st).filtered@.len() == scan@.groups.len(),
{
    let s = &chart.series[m];
    let loaded = match s.raw_index {
        Some(r) => loaded_with_raw_exec(&scan.series, r),
        None => None,
    };
    assert(rem@.relocated[m as int] == opt_bytes(rem.relocated@[m as int]));
    if loaded.is_some() && rem.relocated[m].is_none() {
        return Ok(());
    }
    let r = match s.raw_index {
        None => {
            return Err(om_error(OmErrorCode::InvalidState, "chart series has no c:idx identity"));
        },
        Some(r) => r,
    };
    let g = match model_groups[m] {
        None => {
            return Err(om_error(OmErrorCode::Unsupported, "chart series could not be assigned to a loaded chart group"));
        },
        Some(g) => g,
    };
    let order = match s.order {
        Some(o) => o,
        None => m as u32,
    };
    let xml: Vec<u8> = match &rem.relocated[m] {
        Some(x) => copy_name(x),
        None => new_series_bytes(r, order),
    };
    let name = if s.is_filtered { "c15:ser" } else { "c:ser" };
    let t = match crate::chart_series::rewrite_chart_series_outer_name(xml.as_slice(), name) {
        Ok(t) => t,
        Err(e) => {
            return Err(e);
        },
    };
    if s.is_filtered {
        push_series_xml(&mut st.filtered, g, t);
    } else {
        push_series_xml(&mut st.direct, g, t);
    }
    Ok(())
}

proof fn lemma_additions_error_stays(scan: ScanView, chart: crate::chart_model::ChartModel, rem: RemovalState, m: int, n: int)
    requires
        0 <= m <= n,
        additions_upto(scan, chart, rem, m) is Err,
    ensures
        additions_upto(scan, chart, rem, n) == additions_upto(scan, chart, rem, m),
    decreases n - m,
{
    if m < n {
        lemma_additions_error_stays(scan, chart, rem, m, n - 1);
    }
}

fn additions_exec(
    scan: &TopologyScan,
    chart: &crate::chart_model::ChartModel,
    rem: &Removals,
    model_groups: &Vec<Option<usize>>,
) -> (r: Result<Additions, OmError>)
    requires
        rem.relocated@.len() == chart.series@.len(),
        model_groups@.len() == chart.series@.len(),
        forall|x: int| 0 <= x < chart.series@.len() ==> opt_pos(#[trigger] model_groups@[x]) == model_group_of(scan@, *chart, x),
        forall|x: int| 0 <= x < chart.series@.len() ==> (#[trigger] model_groups@[x] matches Some(g) ==> g < scan@.groups.len()),
    ensures
        match additions_upto(scan@, *chart, rem@, chart.series@.len() as int) {
            Ok(s) => r matches Ok(x) && x@ == s && x.direct@.len() == scan@.groups.len() && x.filtered@.len() == scan@.groups.len(),
            Err(f) => r matches Err(e) && error_view(e) == f,
        },
{
    let mut direct: Vec<Vec<Vec<u8>>> = Vec::new();
    let mut filtered: Vec<Vec<Vec<u8>>> = Vec::new();
    let mut g: usize = 0;
    while g < scan.groups.len()
        invariant
            g <= scan.groups@.len(),
            direct@.len() == g,
            filtered@.len() == g,
            forall|j: int| 0 <= j < g ==> (#[trigger] direct@[j])@.len() == 0,
            forall|j: int| 0 <= j < g ==> (#[trigger] filtered@[j])@.len() == 0,
        decreases scan.groups@.len() - g,
    {
        direct.push(Vec::new());
        filtered.push(Vec::new());
        g += 1;
    }
    let mut st = Additions { direct, filtered };
    assert(st@ == additions_upto(scan@, *chart, rem@, 0)->Ok_0) by {
        assert(st.direct@.map_values(|v: Vec<Vec<u8>>| crate::chart_patch::byte_lists(v@)) =~= Seq::new(
            scan@.groups.len(),
            |i: int| Seq::<Seq<u8>>::empty(),
        )) by {
            assert forall|j: int| 0 <= j < scan@.groups.len() implies crate::chart_patch::byte_lists(
                #[trigger] st.direct@[j]@,
            ) =~= Seq::<Seq<u8>>::empty() by {
                assert(st.direct@[j]@.len() == 0);
            }
        }
        assert(st.filtered@.map_values(|v: Vec<Vec<u8>>| crate::chart_patch::byte_lists(v@)) =~= Seq::new(
            scan@.groups.len(),
            |i: int| Seq::<Seq<u8>>::empty(),
        )) by {
            assert forall|j: int| 0 <= j < scan@.groups.len() implies crate::chart_patch::byte_lists(
                #[trigger] st.filtered@[j]@,
            ) =~= Seq::<Seq<u8>>::empty() by {
                assert(st.filtered@[j]@.len() == 0);
            }
        }
    }
    let mut m: usize = 0;
    while m < chart.series.len()
        invariant
            m <= chart.series@.len(),
            rem.relocated@.len() == chart.series@.len(),
            model_groups@.len() == chart.series@.len(),
            forall|x: int| 0 <= x < chart.series@.len() ==> opt_pos(#[trigger] model_groups@[x]) == model_group_of(scan@, *chart, x),
            forall|x: int| 0 <= x < chart.series@.len() ==> (#[trigger] model_groups@[x] matches Some(g) ==> g < scan@.groups.len()),
            st.direct@.len() == scan@.groups.len(),
            st.filtered@.len() == scan@.groups.len(),
            additions_upto(scan@, *chart, rem@, m as int) == Ok::<AdditionState, ErrorView>(st@),
        decreases chart.series@.len() - m,
    {
        match addition_step_exec(scan, chart, rem, model_groups, &mut st, m) {
            Ok(()) => {},
            Err(e) => {
                proof {
                    lemma_additions_error_stays(scan@, *chart, rem@, m + 1, chart.series@.len() as int);
                }
                return Err(e);
            },
        }
        m += 1;
    }
    Ok(st)
}

fn concat_series(list: &Vec<Vec<u8>>) -> (r: Vec<u8>)
    ensures
        r@ == crate::chart_patch::byte_lists(list@).flatten(),
{
    broadcast use Seq::lemma_flatten_push;

    let ghost bl = crate::chart_patch::byte_lists(list@);
    let mut out: Vec<u8> = Vec::new();
    let mut k: usize = 0;
    assert(bl.subrange(0, 0) =~= Seq::<Seq<u8>>::empty());
    assert(out@ =~= bl.subrange(0, 0).flatten());
    while k < list.len()
        invariant
            k <= list@.len(),
            bl == crate::chart_patch::byte_lists(list@),
            out@ == bl.subrange(0, k as int).flatten(),
        decreases list@.len() - k,
    {
        crate::xml::append_bytes(&mut out, list[k].as_slice());
        proof {
            assert(bl.subrange(0, k + 1) =~= bl.subrange(0, k as int).push(list@[k as int]@));
            bl.subrange(0, k as int).lemma_flatten_push(list@[k as int]@);
        }
        k += 1;
    }
    assert(bl.subrange(0, list@.len() as int) =~= bl);
    out
}

fn push_text_bytes(out: &mut Vec<u8>, t: &str)
    ensures
        final(out)@ == old(out)@ + vstd::utf8::encode_utf8(t@),
{
    crate::xml::append_bytes(out, t.as_bytes());
}

fn push_string_bytes(out: &mut Vec<u8>, t: &String)
    ensures
        final(out)@ == old(out)@ + vstd::utf8::encode_utf8(t@),
{
    crate::xml::append_bytes(out, t.as_str().as_bytes());
}

fn filtered_extensions_exec(list: &Vec<Vec<u8>>, w: &str) -> (r: Vec<u8>)
    ensures
        r@ == filtered_extensions(crate::chart_patch::byte_lists(list@), w@),
{
    proof {
        reveal_strlit("<c:ext xmlns:c=\"http://schemas.openxmlformats.org/drawingml/2006/chart\" uri=\"{02D57815-91ED-43cb-92C2-25804820EDAC}\"><c15:");
        reveal_strlit(" xmlns:c15=\"http://schemas.microsoft.com/office/drawing/2012/chart\">");
        reveal_strlit("</c15:");
        reveal_strlit("></c:ext>");
    }
    let ghost bl = crate::chart_patch::byte_lists(list@);
    let mut open = String::from_str("<c:ext xmlns:c=\"http://schemas.openxmlformats.org/drawingml/2006/chart\" uri=\"{02D57815-91ED-43cb-92C2-25804820EDAC}\"><c15:");
    open.append(w);
    open.append(" xmlns:c15=\"http://schemas.microsoft.com/office/drawing/2012/chart\">");
    let mut close = String::from_str("</c15:");
    close.append(w);
    close.append("></c:ext>");
    let mut out: Vec<u8> = Vec::new();
    let mut k: usize = 0;
    assert(bl.subrange(0, 0) =~= Seq::<Seq<u8>>::empty());
    while k < list.len()
        invariant
            k <= list@.len(),
            bl == crate::chart_patch::byte_lists(list@),
            open@ == "<c:ext xmlns:c=\"http://schemas.openxmlformats.org/drawingml/2006/chart\" uri=\"{02D57815-91ED-43cb-92C2-25804820EDAC}\"><c15:"@
                + w@ + " xmlns:c15=\"http://schemas.microsoft.com/office/drawing/2012/chart\">"@,
            close@ == "</c15:"@ + w@ + "></c:ext>"@,
            out@ == filtered_extensions(bl.subrange(0, k as int), w@),
        decreases list@.len() - k,
    {
        push_string_bytes(&mut out, &open);
        crate::xml::append_bytes(&mut out, list[k].as_slice());
        push_string_bytes(&mut out, &close);
        assert(bl.subrange(0, k + 1).drop_last() =~= bl.subrange(0, k as int));
        assert(bl.subrange(0, k + 1).last() == list@[k as int]@);
        k += 1;
    }
    assert(bl.subrange(0, list@.len() as int) =~= bl);
    out
}

fn copy_edit(e: &(usize, usize, Vec<u8>)) -> (r: (usize, usize, Vec<u8>))
    ensures
        crate::chart_edits::edit_view(r) == crate::chart_edits::edit_view(*e),
{
    (e.0, e.1, copy_name(&e.2))
}

fn retain_edits(edits: &Vec<(usize, usize, Vec<u8>)>, removed: &Vec<usize>, start: usize, end: usize) -> (r: Vec<(usize, usize, Vec<u8>)>)
    ensures
        crate::chart_edits::edit_views(r@) == crate::chart_edits::edit_views(edits@).filter(
            kept_edit(nat_views(removed@), start as nat, end as nat),
        ),
        forall|k: int| 0 <= k < r@.len() ==> exists|j: int| 0 <= j < edits@.len() && (#[trigger] r@[k]).0 == (#[trigger] edits@[j]).0
            && r@[k].1 == edits@[j].1,
{
    let ghost ev = crate::chart_edits::edit_views(edits@);
    let ghost pred = kept_edit(nat_views(removed@), start as nat, end as nat);
    let mut out: Vec<(usize, usize, Vec<u8>)> = Vec::new();
    let mut k: usize = 0;
    proof {
        reveal(Seq::filter);
        assert(ev.subrange(0, 0) =~= Seq::<(nat, nat, Seq<u8>)>::empty());
        assert(crate::chart_edits::edit_views(out@) =~= ev.subrange(0, 0).filter(pred));
    }
    while k < edits.len()
        invariant
            k <= edits@.len(),
            ev == crate::chart_edits::edit_views(edits@),
            pred == kept_edit(nat_views(removed@), start as nat, end as nat),
            crate::chart_edits::edit_views(out@) == ev.subrange(0, k as int).filter(pred),
            forall|x: int| 0 <= x < out@.len() ==> exists|j: int| 0 <= j < edits@.len() && (#[trigger] out@[x]).0 == (#[trigger] edits@[j]).0
                && out@[x].1 == edits@[j].1,
        decreases edits@.len() - k,
    {
        let e = &edits[k];
        let in_removed = contains_start(removed, e.0);
        let inside = e.0 > start && e.1 < end;
        let ghost before = out@;
        proof {
            reveal(Seq::filter);
            assert(ev.subrange(0, k + 1).drop_last() =~= ev.subrange(0, k as int));
            assert(ev.subrange(0, k + 1).last() == crate::chart_edits::edit_view(*e));
        }
        if !in_removed && !inside {
            out.push(copy_edit(e));
            assert(crate::chart_edits::edit_views(out@) =~= crate::chart_edits::edit_views(before).push(crate::chart_edits::edit_view(*e)));
            assert forall|x: int| 0 <= x < out@.len() implies exists|j: int| 0 <= j < edits@.len() && (#[trigger] out@[x]).0 == (#[trigger] edits@[j]).0
                && out@[x].1 == edits@[j].1 by {
                if x == out@.len() - 1 {
                    assert(out@[x].0 == edits@[k as int].0);
                } else {
                    assert(out@[x] == before[x]);
                }
            }
        }
        k += 1;
    }
    assert(ev.subrange(0, edits@.len() as int) =~= ev);
    out
}

spec fn edits_bounded(edits: Seq<(usize, usize, Vec<u8>)>, len: nat) -> bool {
    forall|k: int| 0 <= k < edits.len() ==> (#[trigger] edits[k]).0 <= len && edits[k].1 <= len
}

fn group_step_exec(
    scan: &TopologyScan,
    removed_ext: &Vec<Vec<usize>>,
    adds: &Additions,
    edits: &mut Vec<(usize, usize, Vec<u8>)>,
    starts: &mut Vec<usize>,
    g: usize,
    Ghost(rem): Ghost<RemovalState>,
    Ghost(len): Ghost<nat>,
) -> (r: Result<(), OmError>)
    requires
        g < scan@.groups.len(),
        scan_wf(scan@, (len + 1) as nat, len),
        removed_ext@.len() == scan@.groups.len(),
        rem.removed_ext == removed_ext@.map_values(|v: Vec<usize>| nat_views(v@)),
        adds.direct@.len() == scan@.groups.len(),
        adds.filtered@.len() == scan@.groups.len(),
        edits_bounded(old(edits)@, len),
    ensures
        match group_step(scan@, rem, adds@, (crate::chart_edits::edit_views(old(edits)@), nat_views(old(starts)@)), g as int) {
            Ok((e, s)) => r is Ok && crate::chart_edits::edit_views(final(edits)@) == e && nat_views(final(starts)@) == s,
            Err(x) => r matches Err(err) && error_view(err) == x,
        },
        edits_bounded(final(edits)@, len),
{
    proof {
        reveal_strlit("<c:extLst xmlns:c=\"http://schemas.openxmlformats.org/drawingml/2006/chart\">");
        reveal_strlit("</c:extLst>");
        reveal_strlit("Series.IsFiltered is unavailable for loaded ");
        reveal_strlit(" groups");
    }
    let grp = &scan.groups[g];
    assert(scan@.groups[g as int] == grp.view());
    assert(adds@.direct[g as int] == crate::chart_patch::byte_lists(adds.direct@[g as int]@));
    assert(adds@.filtered[g as int] == crate::chart_patch::byte_lists(adds.filtered@[g as int]@));
    let ghost e0 = crate::chart_edits::edit_views(edits@);
    if adds.direct[g].len() > 0 {
        let pos = match grp.last_direct_series_end {
            Some(p) => p,
            None => match grp.first_after_series_start {
                Some(p) => p,
                None => grp.end_tag_start,
            },
        };
        let rep = concat_series(&adds.direct[g]);
        let ghost rv = rep@;
        edits.push((pos, pos, rep));
        assert(crate::chart_edits::edit_views(edits@) =~= e0.push((pos as nat, pos as nat, rv)));
    }
    let ghost e1 = crate::chart_edits::edit_views(edits@);
    if adds.filtered[g].len() > 0 {
        let chars = byte_chars_of(grp.name.as_slice());
        let t = match chart_type_from_group_name(&chars) {
            None => {
                return Err(om_error(OmErrorCode::Unsupported, "Series.IsFiltered requires a recognized loaded chart group"));
            },
            Some(t) => t,
        };
        let w = match crate::chart_types::chart_filtered_series_wrapper_name(&t) {
            None => {
                let mut message = String::from_str("Series.IsFiltered is unavailable for loaded ");
                let name = crate::chart_patch::lossy_text(grp.name.as_slice());
                message.append(name.as_str());
                message.append(" groups");
                return Err(OmError { code: OmErrorCode::Unsupported, message });
            },
            Some(w) => w,
        };
        let ext = filtered_extensions_exec(&adds.filtered[g], w);
        match grp.direct_ext_lst_start {
            Some(x) => match element_at_exec(&scan.elements, x) {
                None => {
                    return Err(om_error(OmErrorCode::Parse, "chart-group extension list span is missing"));
                },
                Some(i) => {
                    let at = scan.elements[i].end_tag_start;
                    assert(scan@.elements[i as int] == scan.elements@[i as int].view());
                    let ghost xv = ext@;
                    edits.push((at, at, ext));
                    assert(crate::chart_edits::edit_views(edits@) =~= e1.push((at as nat, at as nat, xv)));
                },
            },
            None => {
                let mut wrapped: Vec<u8> = Vec::new();
                push_text_bytes(&mut wrapped, "<c:extLst xmlns:c=\"http://schemas.openxmlformats.org/drawingml/2006/chart\">");
                crate::xml::append_bytes(&mut wrapped, ext.as_slice());
                push_text_bytes(&mut wrapped, "</c:extLst>");
                let ghost wv = wrapped@;
                let at = grp.end_tag_start;
                edits.push((at, at, wrapped));
                assert(crate::chart_edits::edit_views(edits@) =~= e1.push((at as nat, at as nat, wv)));
            },
        }
    } else {
        match grp.direct_ext_lst_start {
            Some(x) => match element_at_exec(&scan.elements, x) {
                None => {
                    return Err(om_error(OmErrorCode::Parse, "chart-group extension list span is missing"));
                },
                Some(i) => {
                    let sp_start = scan.elements[i].start;
                    let sp_end = scan.elements[i].end;
                    let children = scan.elements[i].children;
                    let has_parent = scan.elements[i].parent_start.is_some();
                    assert(scan@.elements[i as int] == scan.elements@[i as int].view());
                    assert(rem.removed_ext[g as int] == nat_views(removed_ext@[g as int]@));
                    if children > 0 && children == removed_ext[g].len() && has_parent && !contains_start(starts, sp_start) {
                        let kept = retain_edits(edits, &removed_ext[g], sp_start, sp_end);
                        *edits = kept;
                        let ghost e2 = crate::chart_edits::edit_views(edits@);
                        edits.push((sp_start, sp_end, Vec::new()));
                        assert(crate::chart_edits::edit_views(edits@) =~= e2.push((sp_start as nat, sp_end as nat, Seq::<u8>::empty())));
                        let ghost s0 = nat_views(starts@);
                        starts.push(sp_start);
                        assert(nat_views(starts@) =~= s0.push(sp_start as nat));
                    }
                },
            },
            None => {},
        }
    }
    Ok(())
}

proof fn lemma_group_edits_error_stays(scan: ScanView, rem: RemovalState, adds: AdditionState, g: int, n: int)
    requires
        0 <= g <= n,
        group_edits_upto(scan, rem, adds, g) is Err,
    ensures
        group_edits_upto(scan, rem, adds, n) == group_edits_upto(scan, rem, adds, g),
    decreases n - g,
{
    if g < n {
        lemma_group_edits_error_stays(scan, rem, adds, g, n - 1);
    }
}

fn group_edits_exec(
    scan: &TopologyScan,
    rem: Removals,
    adds: &Additions,
    Ghost(len): Ghost<nat>,
) -> (r: Result<Vec<(usize, usize, Vec<u8>)>, OmError>)
    requires
        scan_wf(scan@, (len + 1) as nat, len),
        rem.sized(scan@.groups.len(), rem.relocated@.len(), len),
        adds.direct@.len() == scan@.groups.len(),
        adds.filtered@.len() == scan@.groups.len(),
    ensures
        match group_edits_upto(scan@, rem@, adds@, scan@.groups.len() as int) {
            Ok((e, _)) => r matches Ok(v) && crate::chart_edits::edit_views(v@) == e && edits_bounded(v@, len),
            Err(x) => r matches Err(err) && error_view(err) == x,
        },
{
    let ghost rv = rem@;
    let Removals { edits, removal_starts, removed_ext, relocated } = rem;
    let mut edits = edits;
    let mut starts = removal_starts;
    let mut g: usize = 0;
    while g < scan.groups.len()
        invariant
            g <= scan@.groups.len(),
            scan_wf(scan@, (len + 1) as nat, len),
            removed_ext@.len() == scan@.groups.len(),
            rv.removed_ext == removed_ext@.map_values(|v: Vec<usize>| nat_views(v@)),
            adds.direct@.len() == scan@.groups.len(),
            adds.filtered@.len() == scan@.groups.len(),
            edits_bounded(edits@, len),
            rv == rem@,
            group_edits_upto(scan@, rv, adds@, g as int) == Ok::<(Seq<(nat, nat, Seq<u8>)>, Seq<nat>), ErrorView>(
                (crate::chart_edits::edit_views(edits@), nat_views(starts@)),
            ),
        decreases scan@.groups.len() - g,
    {
        match group_step_exec(scan, &removed_ext, adds, &mut edits, &mut starts, g, Ghost(rv), Ghost(len)) {
            Ok(()) => {},
            Err(e) => {
                proof {
                    lemma_group_edits_error_stays(scan@, rv, adds@, g + 1, scan@.groups.len() as int);
                }
                return Err(e);
            },
        }
        g += 1;
    }
    Ok(edits)
}

fn topology_edit_before(a: &(usize, usize, Vec<u8>), b: &(usize, usize, Vec<u8>)) -> (r: bool)
    ensures
        r == topology_edit_lt(crate::chart_edits::edit_view(*a), crate::chart_edits::edit_view(*b)),
{
    a.0 < b.0 || (a.0 == b.0 && a.0 == a.1 && b.0 != b.1)
}

fn splice_topology_edits(existing_chart_xml: &[u8], edits: Vec<(usize, usize, Vec<u8>)>) -> (r: Result<Vec<u8>, OmError>)
    requires
        edits_bounded(edits@, existing_chart_xml@.len()),
    ensures
        crate::chart_topology::bytes_error_result(r) == topology_splice(
            existing_chart_xml@,
            crate::sort::sorted_by(
                crate::chart_edits::edit_views(edits@),
                |a: (nat, nat, Seq<u8>), b: (nat, nat, Seq<u8>)| topology_edit_lt(a, b),
            ),
            0,
            0,
            Seq::empty(),
        ),
{
    let ghost xml = existing_chart_xml@;
    let ghost unsorted = edits@;
    let ghost lt = |a: (nat, nat, Seq<u8>), b: (nat, nat, Seq<u8>)| topology_edit_lt(a, b);
    let sorted = crate::sort::stable_sort(
        edits,
        topology_edit_before,
        Ghost(|a: (usize, usize, Vec<u8>), b: (usize, usize, Vec<u8>)| topology_edit_lt(crate::chart_edits::edit_view(a), crate::chart_edits::edit_view(b))),
    );
    let ghost order = crate::sort::sorted_by(crate::chart_edits::edit_views(unsorted), lt);
    proof {
        crate::sort::lemma_sorted_by_map(
            unsorted,
            |e: (usize, usize, Vec<u8>)| crate::chart_edits::edit_view(e),
            |a: (usize, usize, Vec<u8>), b: (usize, usize, Vec<u8>)| topology_edit_lt(crate::chart_edits::edit_view(a), crate::chart_edits::edit_view(b)),
            lt,
        );
        assert(crate::chart_edits::edit_views(unsorted) == unsorted.map_values(|e: (usize, usize, Vec<u8>)| crate::chart_edits::edit_view(e)));
        assert(crate::chart_edits::edit_views(sorted@) == order);
        crate::sort::lemma_sorted_by_contains(
            unsorted,
            |a: (usize, usize, Vec<u8>), b: (usize, usize, Vec<u8>)| topology_edit_lt(crate::chart_edits::edit_view(a), crate::chart_edits::edit_view(b)),
        );
        assert forall|k: int| 0 <= k < sorted@.len() implies (#[trigger] sorted@[k]).0 <= xml.len() && sorted@[k].1 <= xml.len() by {
            assert(sorted@.contains(sorted@[k]));
            let j = choose|j: int| 0 <= j < unsorted.len() && unsorted[j] == sorted@[k];
            assert(unsorted[j].0 <= xml.len());
        }
    }
    assert(order == crate::sort::sorted_by(
        crate::chart_edits::edit_views(unsorted),
        |a: (nat, nat, Seq<u8>), b: (nat, nat, Seq<u8>)| topology_edit_lt(a, b),
    ));
    let mut out: Vec<u8> = Vec::new();
    let mut cursor: usize = 0;
    let mut k: usize = 0;
    while k < sorted.len()
        invariant
            k <= sorted@.len(),
            cursor <= xml.len(),
            xml == existing_chart_xml@,
            unsorted == edits@,
            order == crate::sort::sorted_by(
                crate::chart_edits::edit_views(unsorted),
                |a: (nat, nat, Seq<u8>), b: (nat, nat, Seq<u8>)| topology_edit_lt(a, b),
            ),
            crate::chart_edits::edit_views(sorted@) == order,
            forall|x: int| 0 <= x < sorted@.len() ==> (#[trigger] sorted@[x]).0 <= xml.len() && sorted@[x].1 <= xml.len(),
            topology_splice(xml, order, 0, 0, Seq::empty()) == topology_splice(xml, order, k as int, cursor as nat, out@),
        decreases sorted@.len() - k,
    {
        let start = sorted[k].0;
        let end = sorted[k].1;
        assert(order[k as int] == crate::chart_edits::edit_view(sorted@[k as int]));
        assert(order.len() == sorted@.len());
        if start < cursor {
            assert(order[k as int].0 < cursor);
            assert(topology_splice(xml, order, k as int, cursor as nat, out@) == Err::<Seq<u8>, ErrorView>(
                (OmErrorCode::InvalidState, topology_overlap_message()),
            ));
            let e = om_error(OmErrorCode::InvalidState, "filtered-series structural edits overlap");
            assert(error_view(e) == (OmErrorCode::InvalidState, topology_overlap_message()));
            return Err(e);
        }
        crate::chart_edits::append_range(&mut out, existing_chart_xml, cursor, start);
        crate::xml::append_bytes(&mut out, sorted[k].2.as_slice());
        cursor = end;
        k += 1;
    }
    crate::chart_edits::append_range(&mut out, existing_chart_xml, cursor, existing_chart_xml.len());
    Ok(out)
}

fn loaded_group_names(scan: &TopologyScan) -> (names: Vec<Vec<u8>>)
    ensures
        names@.map_values(|v: Vec<u8>| v@) == group_names(scan@.groups),
{
    let mut names: Vec<Vec<u8>> = Vec::new();
    let mut g: usize = 0;
    while g < scan.groups.len()
        invariant
            g <= scan.groups@.len(),
            names@.map_values(|v: Vec<u8>| v@) == group_names(scan@.groups).subrange(0, g as int),
        decreases scan.groups@.len() - g,
    {
        let ghost before = names@;
        names.push(copy_name(&scan.groups[g].name));
        assert(scan@.groups[g as int] == scan.groups@[g as int].view());
        assert(group_names(scan@.groups)[g as int] == scan.groups@[g as int].name@);
        assert(names@.last()@ == scan.groups@[g as int].name@);
        assert(names@.map_values(|v: Vec<u8>| v@) =~= before.map_values(|v: Vec<u8>| v@).push(names@.last()@));
        assert(group_names(scan@.groups).subrange(0, g + 1) =~= group_names(scan@.groups).subrange(0, g as int).push(
            group_names(scan@.groups)[g as int],
        ));
        g += 1;
    }
    assert(group_names(scan@.groups).subrange(0, scan@.groups.len() as int) =~= group_names(scan@.groups));
    names
}

/// Moves the series of loaded chart XML to where the model has them: a
/// series the model dropped is removed; one it added is written new (with
/// its `c:idx` and `c:order`); one that changed group or filter state is
/// moved, its XML kept. Direct series go after the group's last direct
/// series (else before its first later child, else before its end tag);
/// filtered series go into the group's filtered-series extension, and an
/// extension list left empty is removed. Series and groups are matched by
/// `c:idx` and by the loaded group sequence.
pub fn rewrite_loaded_chart_series_topology(existing_chart_xml: &[u8], chart: &crate::chart_model::ChartModel) -> (r: Result<
    Vec<u8>,
    OmError,
>)
    ensures
        crate::chart_topology::bytes_error_result(r) == series_topology(existing_chart_xml@, *chart),
{
    let ghost len = existing_chart_xml@.len();
    let scan = match scan_series_topology(existing_chart_xml) {
        Ok(s) => s,
        Err(e) => {
            return Err(e);
        },
    };
    if scan.groups.len() == 0 {
        return Err(om_error(OmErrorCode::Unsupported, "loaded series topology patching requires at least one chart group"));
    }
    let mut model_to_xml: Vec<usize> = Vec::new();
    if chart.groups.len() > 0 {
        let names = loaded_group_names(&scan);
        let sequence = match crate::chart_sequence::loaded_chart_group_sequence(&names, chart) {
            Ok(s) => s,
            Err(e) => {
                return Err(e);
            },
        };
        if !crate::chart_model::chart_group_overlay_is_stable(chart) {
            return Err(om_error(OmErrorCode::InvalidState, "loaded chart series-to-group partition is inconsistent"));
        }
        model_to_xml = sequence.model_to_xml;
    }
    if has_loaded_duplicates(&scan.series) {
        return Err(om_error(OmErrorCode::Unsupported, "loaded chart contains duplicate series c:idx identities"));
    }
    match check_model_series(chart) {
        Ok(()) => {},
        Err(e) => {
            return Err(e);
        },
    }
    let model_groups = model_groups_exec(&scan, chart, &model_to_xml, Ghost(len));
    let rem = match removals_exec(existing_chart_xml, &scan, chart, &model_groups) {
        Ok(x) => x,
        Err(e) => {
            return Err(e);
        },
    };
    let adds = match additions_exec(&scan, chart, &rem, &model_groups) {
        Ok(x) => x,
        Err(e) => {
            return Err(e);
        },
    };
    let edits = match group_edits_exec(&scan, rem, &adds, Ghost(len)) {
        Ok(x) => x,
        Err(e) => {
            return Err(e);
        },
    };
    splice_topology_edits(existing_chart_xml, edits)
}

/// Loaded series `l` is where the model has it: the model has a series
/// with its `c:idx`, in the same group and filter state.
pub open spec fn series_agrees(scan: ScanView, chart: crate::chart_model::ChartModel, l: int) -> bool {
    let loaded = scan.series[l];
    &&& loaded.raw_index is Some
    &&& model_with_raw(chart.series@, loaded.raw_index->0, 0) matches Some(m) && {
        &&& model_group_of(scan, chart, m as int) == Some(loaded.group)
        &&& chart.series@[m as int].is_filtered == loaded.is_filtered
    }
}

proof fn lemma_no_removals(input: Seq<u8>, scan: ScanView, chart: crate::chart_model::ChartModel, l: int)
    requires
        0 <= l <= scan.series.len(),
        forall|x: int| 0 <= x < scan.series.len() ==> series_agrees(scan, chart, x),
    ensures
        removals_upto(input, scan, chart, l) == removals_upto(input, scan, chart, 0),
    decreases l,
{
    if l > 0 {
        lemma_no_removals(input, scan, chart, l - 1);
        assert(series_agrees(scan, chart, l - 1));
    }
}

proof fn lemma_no_additions(scan: ScanView, chart: crate::chart_model::ChartModel, rem: RemovalState, m: int)
    requires
        0 <= m <= chart.series@.len(),
        rem.relocated.len() == chart.series@.len(),
        forall|x: int| 0 <= x < chart.series@.len() ==> (#[trigger] rem.relocated[x]) is None,
        forall|x: int| 0 <= x < chart.series@.len() ==> (#[trigger] chart.series@[x]).raw_index is Some
            && loaded_with_raw(scan.series, chart.series@[x].raw_index->0, 0) is Some,
    ensures
        additions_upto(scan, chart, rem, m) == additions_upto(scan, chart, rem, 0),
    decreases m,
{
    if m > 0 {
        lemma_no_additions(scan, chart, rem, m - 1);
        assert(rem.relocated[m - 1] is None);
        assert(chart.series@[m - 1].raw_index is Some);
    }
}

proof fn lemma_no_group_edits(scan: ScanView, rem: RemovalState, adds: AdditionState, g: int)
    requires
        0 <= g <= scan.groups.len(),
        adds.direct.len() == scan.groups.len(),
        adds.filtered.len() == scan.groups.len(),
        rem.removed_ext.len() == scan.groups.len(),
        forall|x: int| 0 <= x < scan.groups.len() ==> (#[trigger] adds.direct[x]).len() == 0 && adds.filtered[x].len() == 0
            && rem.removed_ext[x].len() == 0,
        forall|x: int| 0 <= x < scan.groups.len() ==> ((#[trigger] scan.groups[x]).direct_ext_lst_start matches Some(p)
            ==> element_at(scan.elements, p) is Some),
    ensures
        group_edits_upto(scan, rem, adds, g) == Ok::<(Seq<(nat, nat, Seq<u8>)>, Seq<nat>), ErrorView>(
            (rem.edits, rem.removal_starts),
        ),
    decreases g,
{
    if g > 0 {
        lemma_no_group_edits(scan, rem, adds, g - 1);
        assert(adds.direct[g - 1].len() == 0);
        let grp = scan.groups[g - 1];
        assert(grp.direct_ext_lst_start matches Some(p) ==> element_at(scan.elements, p) is Some);
    }
}

/// When the model agrees with the loaded XML (every loaded series has a
/// `c:idx` that a model series has, in the same group and filter state,
/// and every model series is loaded), moving the series changes nothing:
/// the XML comes back as it was read. The XML must be one that the rewrite
/// accepts (chart groups present, lined up with the model's, no repeated
/// `c:idx`, every group extension list closed).
pub proof fn lemma_series_topology_unchanged(input: Seq<u8>, chart: crate::chart_model::ChartModel)
    requires
        series_scan(input) is Ok,
        series_scan(input)->Ok_0.groups.len() > 0,
        chart.groups@.len() > 0 ==> crate::chart_sequence::sequence_failure(
            group_names(series_scan(input)->Ok_0.groups),
            chart.groups@,
        ) is None && crate::chart_model::overlay_is_stable(chart),
        !loaded_duplicates(series_scan(input)->Ok_0.series),
        model_failure(chart, 0) is None,
        forall|l: int| 0 <= l < series_scan(input)->Ok_0.series.len() ==> series_agrees(series_scan(input)->Ok_0, chart, l),
        forall|m: int| 0 <= m < chart.series@.len() ==> loaded_with_raw(
            series_scan(input)->Ok_0.series,
            (#[trigger] chart.series@[m]).raw_index->0,
            0,
        ) is Some,
        forall|g: int| 0 <= g < series_scan(input)->Ok_0.groups.len() ==> ((#[trigger] series_scan(input)->Ok_0.groups[g]).direct_ext_lst_start matches Some(p)
            ==> element_at(series_scan(input)->Ok_0.elements, p) is Some),
    ensures
        series_topology(input, chart) == Ok::<Seq<u8>, ErrorView>(input),
{
    let scan = series_scan(input)->Ok_0;
    lemma_model_failure_none(chart, 0);
    lemma_no_removals(input, scan, chart, scan.series.len() as int);
    let rem = removals_upto(input, scan, chart, 0)->Ok_0;
    lemma_no_additions(scan, chart, rem, chart.series@.len() as int);
    let adds = additions_upto(scan, chart, rem, 0)->Ok_0;
    lemma_no_group_edits(scan, rem, adds, scan.groups.len() as int);
    let order = crate::sort::sorted_by(rem.edits, |a: (nat, nat, Seq<u8>), b: (nat, nat, Seq<u8>)| topology_edit_lt(a, b));
    assert(order.len() == 0);
    assert(Seq::<u8>::empty() + input.subrange(0, input.len() as int) =~= input);
}


/// The series a rewrite adds to a loaded group, when the loaded XML holds
/// no series with its `c:idx` and it is not moved from another group, is a
/// new `c:ser` (or `c15:ser` when filtered) element with its `c:idx` and a
/// `c:order` that is the order the model series sets, or its model position
/// only when it sets none; it goes to the end of its group's direct or
/// filtered list.
pub proof fn lemma_added_series_keeps_model_order(
    scan: ScanView,
    chart: crate::chart_model::ChartModel,
    rem: RemovalState,
    st: AdditionState,
    m: int,
)
    requires
        0 <= m < chart.series@.len(),
        rem.relocated[m] is None,
        chart.series@[m].raw_index is Some,
        loaded_with_raw(scan.series, chart.series@[m].raw_index->0, 0) is None,
        model_group_of(scan, chart, m) is Some,
    ensures
        ({
            let s = chart.series@[m];
            let r = s.raw_index->0;
            let g = model_group_of(scan, chart, m)->0 as int;
            let name = if s.is_filtered { lit("c15:ser") } else { lit("c:ser") };
            forall|o: u32|
                (s.order == Some(o) || (s.order is None && o == m as u32)) ==> addition_step(scan, chart, rem, st, m)
                    == match crate::chart_series::series_outer_renamed(
                    vstd::utf8::encode_utf8(new_series_text(r, o)),
                    name,
                ) {
                    Err(x) => Err(x),
                    Ok(t) => Ok(
                        if s.is_filtered {
                            AdditionState { filtered: st.filtered.update(g, st.filtered[g].push(t)), ..st }
                        } else {
                            AdditionState { direct: st.direct.update(g, st.direct[g].push(t)), ..st }
                        },
                    ),
                }
        }),
{
}


/// A model series that the loaded XML already holds and that is not moved
/// adds nothing; a moved series is added as the XML it was moved with,
/// renamed for whether it is filtered.
pub proof fn lemma_addition_keeps_or_moves(
    scan: ScanView,
    chart: crate::chart_model::ChartModel,
    rem: RemovalState,
    st: AdditionState,
    m: int,
)
    requires
        0 <= m < chart.series@.len(),
    ensures
        ({
            let s = chart.series@[m];
            let g = model_group_of(scan, chart, m)->0;
            &&& (s.raw_index is Some && loaded_with_raw(scan.series, s.raw_index->0, 0) is Some && rem.relocated[m] is None)
                ==> addition_step(scan, chart, rem, st, m) == Ok::<AdditionState, ErrorView>(st)
            &&& (rem.relocated[m] is Some && s.raw_index is Some && model_group_of(scan, chart, m) is Some)
                ==> addition_step(scan, chart, rem, st, m) == match crate::chart_series::series_outer_renamed(
                rem.relocated[m]->0,
                if s.is_filtered { lit("c15:ser") } else { lit("c:ser") },
            ) {
                Err(e) => Err(e),
                Ok(t) => Ok(
                    if s.is_filtered {
                        AdditionState { filtered: st.filtered.update(g as int, st.filtered[g as int].push(t)), ..st }
                    } else {
                        AdditionState { direct: st.direct.update(g as int, st.direct[g as int].push(t)), ..st }
                    },
                ),
            }
        }),
{
}

} // verus!
