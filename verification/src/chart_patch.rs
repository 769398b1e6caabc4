//! Patching the chart-group properties of loaded chart XML in place: the
//! direct property elements that the model changed are rewritten, the ones
//! it adds are inserted where the schema wants them, and everything else is
//! copied as it was read.
use vstd::prelude::*;
use crate::chart_model::{
    chart_group_direct_property_value, chart_group_line_flag, group_line_flag,
    group_property_value, ChartGroupModel, ChartModel,
};
use crate::chart_sequence::raw_name_bytes;
use crate::chart_topology::{byte_chars, byte_chars_of, is_group_element};
use crate::chart_types::{chart_group_direct_property_name, chart_type_from_group_name, is_group_direct_property};
use crate::chart_xml::{data_labels_text, escaped, chart_data_labels_xml_string};
use crate::errors::{om_error, OmError, OmErrorCode};
use crate::package_xml::{error_view, xml_error, ErrorView};
use crate::xml::{
    append_bytes, attribute_value, bytes_eq, bytes_eq_lit, find_attribute, lit, local_name, tag_content_len, unescape_value,
    write_event, written, xml_attribute_at, xml_local_name, xml_read_result, xml_unescaped_value,
    AttributeCursor, TagHandle, XmlEvent, XmlEventKind, XmlEventView, XmlReader,
};

verus! {

/// Bytes decoded as UTF-8 with each invalid sequence replaced by U+FFFD, as
/// `String::from_utf8_lossy` does it.
pub uninterp spec fn utf8_lossy(b: Seq<u8>) -> Seq<char>;

/// Decodes bytes as UTF-8, replacing invalid sequences: calls
/// `String::from_utf8_lossy`; the text is the named result for the bytes.
#[verifier::external_body]
pub(crate) fn lossy_text(b: &[u8]) -> (r: String)
    ensures
        r@ == utf8_lossy(b@),
{
    String::from_utf8_lossy(b).into_owned()
}

/// Escapes an attribute value as quick-xml does.
fn escape_value(s: &str) -> (r: String)
    ensures
        r@ == escaped(s@),
{
    crate::chart_xml::attribute_escape(s)
}

/// Rewrites, from attribute `k` on, the attributes of the tag read as event
/// `origin`: every attribute is decoded and written back escaped, except
/// that a `val` attribute takes `replacement`; a `val` is added at the end
/// when the tag has none.
pub open spec fn val_attrs_run(
    origin: (Seq<u8>, bool, nat),
    replacement: Seq<char>,
    k: nat,
    wrote: bool,
    acc: Seq<char>,
    fuel: nat,
) -> Result<Seq<char>, Seq<char>>
    decreases fuel,
{
    if fuel == 0 {
        Ok(acc)
    } else {
        match xml_attribute_at(origin.0, origin.1, origin.2, k) {
            None => if wrote {
                Ok(acc)
            } else {
                Ok(acc + " val=\""@ + escaped(replacement) + "\""@)
            },
            Some(Err(m)) => Err(m),
            Some(Ok((key, raw))) => match xml_unescaped_value(raw) {
                Err(m) => Err(m),
                Ok(v) => {
                    let is_val = key == lit("val");
                    let value = if is_val { replacement } else { v };
                    val_attrs_run(
                        origin,
                        replacement,
                        k + 1,
                        wrote || is_val,
                        acc + " "@ + utf8_lossy(key) + "=\""@ + escaped(value) + "\""@,
                        (fuel - 1) as nat,
                    )
                },
            },
        }
    }
}

/// The content of a tag rewritten with `replacement` as its `val`: its
/// qualified name decoded, then its attributes.
pub open spec fn val_rewritten_tag(origin: (Seq<u8>, bool, nat), name: Seq<u8>, replacement: Seq<char>) -> Result<Seq<u8>, Seq<char>> {
    match val_attrs_run(origin, replacement, 0, false, utf8_lossy(name), tag_content_len(origin) + 1) {
        Ok(text) => Ok(vstd::utf8::encode_utf8(text)),
        Err(m) => Err(m),
    }
}

/// The view of a byte result that fails with a parse error.
pub open spec fn parse_bytes_view(r: Result<Vec<u8>, OmError>) -> Result<Seq<u8>, Seq<char>> {
    match r {
        Ok(v) => Ok(v@),
        Err(e) => Err(e.message@),
    }
}

/// The content of a start tag (name and attributes) with its `val`
/// attribute set to `replacement`.
pub fn rewrite_chart_group_val_element(handle: &TagHandle, name: &[u8], replacement: &str) -> (r: Result<Vec<u8>, OmError>)
    ensures
        parse_bytes_view(r) == val_rewritten_tag(handle.origin(), name@, replacement@),
        r matches Err(e) ==> e.code == OmErrorCode::Parse,
{
    proof {
        reveal_strlit(" val=\"");
        reveal_strlit("\"");
        reveal_strlit(" ");
        reveal_strlit("=\"");
    }
    let ghost origin = handle.origin();
    let ghost fuel = tag_content_len(origin) + 1;
    let mut text = lossy_text(name);
    let mut wrote = false;
    let mut cursor = AttributeCursor::of(handle);
    loop
        invariant
            cursor.origin() == origin,
            origin == handle.origin(),
            cursor.count() < fuel,
            fuel == tag_content_len(origin) + 1,
            val_rewritten_tag(origin, name@, replacement@) == match val_attrs_run(
                origin,
                replacement@,
                cursor.count(),
                wrote,
                text@,
                (fuel - cursor.count()) as nat,
            ) {
                Ok(t) => Ok(vstd::utf8::encode_utf8(t)),
                Err(m) => Err(m),
            },
        decreases fuel - cursor.count(),
    {
        match cursor.next() {
            None => {
                if !wrote {
                    text.append(" val=\"");
                    let v = escape_value(replacement);
                    text.append(v.as_str());
                    text.append("\"");
                }
                return Ok(text.as_str().as_bytes_vec());
            },
            Some(Err(e)) => {
                return Err(xml_error(e));
            },
            Some(Ok(a)) => {
                let decoded = match unescape_value(&a.value) {
                    Ok(v) => v,
                    Err(e) => {
                        return Err(xml_error(e));
                    },
                };
                let is_val = bytes_eq_lit(&a.key, "val");
                let key = lossy_text(&a.key);
                let value = if is_val { escape_value(replacement) } else { escape_value(decoded.as_str()) };
                text.append(" ");
                text.append(key.as_str());
                text.append("=\"");
                text.append(value.as_str());
                text.append("\"");
                wrote = wrote || is_val;
            },
        }
    }
}

/// The decoded `val` attribute of a start or empty tag, `None` when it has
/// none.
pub fn element_val_attribute(handle: &TagHandle) -> (r: Result<Option<String>, OmError>)
    ensures
        match attribute_value(handle.origin(), lit("val")) {
            Ok(v) => r matches Ok(o) && crate::parts::opt_view(o) == v,
            Err(m) => r matches Err(e) && e.code == OmErrorCode::Parse && e.message@ == m,
        },
{
    match find_attribute(handle, "val") {
        Ok(v) => Ok(v),
        Err(e) => Err(xml_error(e)),
    }
}

/// The views of a list of byte strings.
pub open spec fn byte_lists(v: Seq<Vec<u8>>) -> Seq<Seq<u8>> {
    v.map_values(|x: Vec<u8>| x@)
}

/// The group properties written before a group's first series, or (not
/// `prefix`) before its axis ids: each one the model sets that the XML did
/// not have, then (not `prefix`) changed data labels and the line elements
/// that are on.
#[verifier::opaque]
pub open spec fn missing_properties_text(g: ChartGroupModel, seen: Seq<Seq<u8>>, prefix: bool) -> Seq<char> {
    if prefix {
        missing_value("varyColors"@, g, seen)
    } else {
        missing_value("gapWidth"@, g, seen) + missing_value("gapDepth"@, g, seen) + missing_value("overlap"@, g, seen)
            + missing_value("firstSliceAng"@, g, seen) + missing_value("bubbleScale"@, g, seen) + missing_value(
            "showNegBubbles"@,
            g,
            seen,
        ) + missing_value("bubble3D"@, g, seen) + missing_value("holeSize"@, g, seen) + missing_value(
            "secondPieSize"@,
            g,
            seen,
        ) + missing_value("sizeRepresents"@, g, seen) + missing_value("splitType"@, g, seen) + missing_value(
            "splitPos"@,
            g,
            seen,
        ) + missing_labels(g, seen) + missing_line("serLines"@, g, seen) + missing_line("dropLines"@, g, seen)
            + missing_line("hiLowLines"@, g, seen) + missing_line("upDownBars"@, g, seen)
    }
}

/// Whether the XML of a group had a property element, by its name's bytes.
pub open spec fn seen_name(seen: Seq<Seq<u8>>, name: Seq<char>) -> bool {
    seen.contains(vstd::utf8::encode_utf8(name))
}

/// A property element that the model sets and the XML did not have.
pub open spec fn missing_value(name: Seq<char>, g: ChartGroupModel, seen: Seq<Seq<u8>>) -> Seq<char> {
    if seen_name(seen, name) {
        Seq::empty()
    } else {
        match group_property_value(g, name) {
            Some(v) => "<c:"@ + name + " val=\""@ + escaped(v) + "\"/>"@,
            None => Seq::empty(),
        }
    }
}

/// Changed data labels that the XML did not have.
pub open spec fn missing_labels(g: ChartGroupModel, seen: Seq<Seq<u8>>) -> Seq<char> {
    if seen_name(seen, "dLbls"@) {
        Seq::empty()
    } else {
        match g.data_labels {
            Some(d) => if d.dirty { data_labels_text(d) } else { Seq::empty() },
            None => Seq::empty(),
        }
    }
}

/// A line element that is on and that the XML did not have.
pub open spec fn missing_line(name: Seq<char>, g: ChartGroupModel, seen: Seq<Seq<u8>>) -> Seq<char> {
    if !seen_name(seen, name) && group_line_flag(g, name) == Some(true) {
        "<c:"@ + name + "/>"@
    } else {
        Seq::empty()
    }
}

fn seen_contains(seen: &Vec<Vec<u8>>, name: &str) -> (r: bool)
    ensures
        r == seen_name(byte_lists(seen@), name@),
{
    let mut i: usize = 0;
    while i < seen.len()
        invariant
            i <= seen@.len(),
            forall|j: int| 0 <= j < i ==> seen@[j]@ != lit(name),
        decreases seen@.len() - i,
    {
        if bytes_eq_lit(seen[i].as_slice(), name) {
            assert(byte_lists(seen@)[i as int] == lit(name));
            return true;
        }
        i += 1;
    }
    assert forall|j: int| 0 <= j < byte_lists(seen@).len() implies byte_lists(seen@)[j] != vstd::utf8::encode_utf8(name@) by {
        assert(seen@[j]@ != lit(name));
    }
    false
}

fn push_missing_value(text: &mut String, name: &str, group: &ChartGroupModel, seen: &Vec<Vec<u8>>)
    ensures
        final(text)@ == old(text)@ + missing_value(name@, *group, byte_lists(seen@)),
{
    proof {
        reveal_strlit("<c:");
        reveal_strlit(" val=\"");
        reveal_strlit("\"/>");
    }
    if seen_contains(seen, name) {
        assert(text@ + Seq::<char>::empty() =~= text@);
        return;
    }
    let n = crate::text::chars_of(name);
    match chart_group_direct_property_value(group, &n) {
        Some(v) => {
            let e = escape_value(v.as_str());
            text.append("<c:");
            text.append(name);
            text.append(" val=\"");
            text.append(e.as_str());
            text.append("\"/>");
        },
        None => {
            assert(text@ + Seq::<char>::empty() =~= text@);
        },
    }
}

fn push_missing_line(text: &mut String, name: &str, group: &ChartGroupModel, seen: &Vec<Vec<u8>>)
    ensures
        final(text)@ == old(text)@ + missing_line(name@, *group, byte_lists(seen@)),
{
    proof {
        reveal_strlit("<c:");
        reveal_strlit("/>");
    }
    let n = crate::text::chars_of(name);
    if !seen_contains(seen, name) && chart_group_line_flag(group, &n) == Some(true) {
        text.append("<c:");
        text.append(name);
        text.append("/>");
    } else {
        assert(text@ + Seq::<char>::empty() =~= text@);
    }
}

fn push_missing_labels(text: &mut String, group: &ChartGroupModel, seen: &Vec<Vec<u8>>)
    ensures
        final(text)@ == old(text)@ + missing_labels(*group, byte_lists(seen@)),
{
    if seen_contains(seen, "dLbls") {
        assert(text@ + Seq::<char>::empty() =~= text@);
        return;
    }
    match &group.data_labels {
        Some(d) => {
            if d.dirty {
                let labels = chart_data_labels_xml_string(d);
                text.append(labels.as_str());
            } else {
                assert(text@ + Seq::<char>::empty() =~= text@);
            }
        },
        None => {
            assert(text@ + Seq::<char>::empty() =~= text@);
        },
    }
}

proof fn lemma_missing_properties_text(g: ChartGroupModel, seen: Seq<Seq<u8>>, prefix: bool)
    ensures
        missing_properties_text(g, seen, prefix) == if prefix {
            missing_value("varyColors"@, g, seen)
        } else {
            missing_value("gapWidth"@, g, seen) + missing_value("gapDepth"@, g, seen) + missing_value("overlap"@, g, seen)
                + missing_value("firstSliceAng"@, g, seen) + missing_value("bubbleScale"@, g, seen) + missing_value(
                "showNegBubbles"@,
                g,
                seen,
            ) + missing_value("bubble3D"@, g, seen) + missing_value("holeSize"@, g, seen) + missing_value(
                "secondPieSize"@,
                g,
                seen,
            ) + missing_value("sizeRepresents"@, g, seen) + missing_value("splitType"@, g, seen) + missing_value(
                "splitPos"@,
                g,
                seen,
            ) + missing_labels(g, seen) + missing_line("serLines"@, g, seen) + missing_line("dropLines"@, g, seen)
                + missing_line("hiLowLines"@, g, seen) + missing_line("upDownBars"@, g, seen)
        },
{
    reveal(missing_properties_text);
}

fn missing_properties_string(group: &ChartGroupModel, seen: &Vec<Vec<u8>>, prefix: bool) -> (r: String)
    ensures
        r@ == missing_properties_text(*group, byte_lists(seen@), prefix),
{
    let mut text = String::new();
    let ghost sv = byte_lists(seen@);
    proof {
        lemma_missing_properties_text(*group, sv, prefix);
    }
    assert(text@ =~= Seq::<char>::empty());
    if prefix {
        push_missing_value(&mut text, "varyColors", group, seen);
        assert(text@ =~= missing_properties_text(*group, sv, prefix));
        return text;
    }
    push_missing_value(&mut text, "gapWidth", group, seen);
    push_missing_value(&mut text, "gapDepth", group, seen);
    push_missing_value(&mut text, "overlap", group, seen);
    push_missing_value(&mut text, "firstSliceAng", group, seen);
    push_missing_value(&mut text, "bubbleScale", group, seen);
    push_missing_value(&mut text, "showNegBubbles", group, seen);
    push_missing_value(&mut text, "bubble3D", group, seen);
    push_missing_value(&mut text, "holeSize", group, seen);
    push_missing_value(&mut text, "secondPieSize", group, seen);
    push_missing_value(&mut text, "sizeRepresents", group, seen);
    push_missing_value(&mut text, "splitType", group, seen);
    push_missing_value(&mut text, "splitPos", group, seen);
    push_missing_labels(&mut text, group, seen);
    push_missing_line(&mut text, "serLines", group, seen);
    push_missing_line(&mut text, "dropLines", group, seen);
    push_missing_line(&mut text, "hiLowLines", group, seen);
    push_missing_line(&mut text, "upDownBars", group, seen);
    assert(text@ =~= missing_properties_text(*group, sv, prefix));
    text
}

/// Writes the group properties that the model sets and the loaded XML of
/// the group lacks: `varyColors` before the first series (`prefix`), the
/// others before the axis ids.
pub fn write_missing_chart_group_properties(out: &mut Vec<u8>, group: &ChartGroupModel, seen: &Vec<Vec<u8>>, prefix: bool)
    ensures
        final(out)@ == old(out)@ + vstd::utf8::encode_utf8(missing_properties_text(*group, byte_lists(seen@), prefix)),
{
    let text = missing_properties_string(group, seen, prefix);
    append_bytes(out, text.as_str().as_bytes());
}

/// Where a patch of group properties stands: the names of the open
/// elements, the group being read with its depth, per group the property
/// elements seen, whether the leading and trailing insertions were made and
/// how many axis ids were rewritten, the next group of the model, how deep
/// an element is being skipped, and what has been written.
pub struct PatchState {
    pub stack: Seq<Seq<u8>>,
    pub current: Option<(nat, nat)>,
    pub seen: Seq<Seq<Seq<u8>>>,
    pub prefix_done: Seq<bool>,
    pub tail_done: Seq<bool>,
    pub axis_pos: Seq<nat>,
    pub next_group: nat,
    pub skip: nat,
    pub out: Seq<u8>,
}

/// Whether a group has data labels that changed since they were loaded.
pub open spec fn labels_dirty(g: ChartGroupModel) -> bool {
    g.data_labels matches Some(d) && d.dirty
}

/// The message for a loaded XML with another number of groups.
pub open spec fn group_count_message() -> Seq<char> {
    "loaded chart group count changed before lossless property patch"@
}

/// The message for a loaded group of another type or place.
pub open spec fn group_order_message() -> Seq<char> {
    "loaded chart group order or type changed before lossless property patch"@
}

/// The message for a group with another number of axis ids.
pub open spec fn axis_count_message() -> Seq<char> {
    "loaded chart group axis reference count changed before lossless property patch"@
}

/// The group being read, when the innermost open element is a group element.
pub open spec fn group_parent(st: PatchState) -> Option<nat> {
    match st.current {
        Some((g, _)) => if st.stack.len() > 0 && is_group_element(st.stack.last()) { Some(g) } else { None },
        None => None,
    }
}

/// A start tag directly inside the plot area that opens a group takes the
/// next group of the model, which must have the tag's name.
pub open spec fn start_group_step(groups: Seq<ChartGroupModel>, st: PatchState, local: Seq<u8>) -> Result<PatchState, ErrorView> {
    if crate::chart_topology::in_plot_area(st.stack) && is_group_element(local) {
        if st.next_group >= groups.len() {
            Err((OmErrorCode::Unsupported, group_count_message()))
        } else if raw_name_bytes(groups[st.next_group as int]) != local {
            Err((OmErrorCode::Unsupported, group_order_message()))
        } else {
            Ok(PatchState { current: Some((st.next_group, st.stack.len() + 1)), next_group: st.next_group + 1, ..st })
        }
    } else {
        Ok(st)
    }
}

/// Records a property element of the current group as seen.
pub open spec fn mark_seen(st: PatchState, g: nat, local: Seq<u8>) -> PatchState {
    PatchState { seen: st.seen.update(g as int, st.seen[g as int].push(local)), ..st }
}

/// Writes the missing properties of group `g` once, before its series
/// (`prefix`) or before its axis ids.
pub open spec fn insert_missing(groups: Seq<ChartGroupModel>, st: PatchState, g: nat, prefix: bool) -> PatchState {
    let text = vstd::utf8::encode_utf8(missing_properties_text(groups[g as int], st.seen[g as int], prefix));
    if prefix {
        PatchState { out: st.out + text, prefix_done: st.prefix_done.update(g as int, true), ..st }
    } else {
        PatchState { out: st.out + text, tail_done: st.tail_done.update(g as int, true), ..st }
    }
}

/// The leading and trailing insertions that a child of the current group
/// triggers: before its first series, and before its axis ids or extensions.
pub open spec fn insertions_step(groups: Seq<ChartGroupModel>, st: PatchState, local: Seq<u8>) -> PatchState {
    let st1 = match group_parent(st) {
        Some(g) => if local == lit("ser") && !st.prefix_done[g as int] { insert_missing(groups, st, g, true) } else { st },
        None => st,
    };
    match group_parent(st1) {
        Some(g) => if (local == lit("axId") || local == lit("extLst")) && !st1.tail_done[g as int] {
            insert_missing(groups, st1, g, false)
        } else {
            st1
        },
        None => st1,
    }
}

/// The content of a start or empty tag as written: with the next axis id of
/// a changed group, with the value the model sets for a property, or as read.
pub open spec fn tag_output(
    groups: Seq<ChartGroupModel>,
    st: PatchState,
    local: Seq<u8>,
    e: XmlEventView,
    origin: (Seq<u8>, bool, nat),
) -> Result<(PatchState, Seq<u8>), ErrorView> {
    match group_parent(st) {
        Some(g) => if local == lit("axId") && groups[g as int].dirty {
            let p = st.axis_pos[g as int];
            if p >= groups[g as int].axis_ids@.len() {
                Err((OmErrorCode::Unsupported, axis_count_message()))
            } else {
                match val_rewritten_tag(origin, e.name, groups[g as int].axis_ids@[p as int]@) {
                    Err(m) => Err((OmErrorCode::Parse, m)),
                    Ok(c) => Ok((PatchState { axis_pos: st.axis_pos.update(g as int, p + 1), ..st }, c)),
                }
            }
        } else {
            match group_property_value(groups[g as int], byte_chars(local)) {
                Some(v) => match val_rewritten_tag(origin, e.name, v) {
                    Err(m) => Err((OmErrorCode::Parse, m)),
                    Ok(c) => Ok((st, c)),
                },
                None => Ok((st, e.content)),
            }
        },
        None => Ok((st, e.content)),
    }
}

/// A start tag outside a skipped element.
pub open spec fn patch_start(
    groups: Seq<ChartGroupModel>,
    st: PatchState,
    e: XmlEventView,
    origin: (Seq<u8>, bool, nat),
) -> Result<PatchState, ErrorView> {
    let local = local_name(e.name);
    match start_group_step(groups, st, local) {
        Err(x) => Err(x),
        Ok(st1) => {
            let prop = match group_parent(st1) {
                Some(g) => if is_group_direct_property(byte_chars(local)) { Some(g) } else { None },
                None => None,
            };
            let st2 = match prop { Some(g) => mark_seen(st1, g, local), None => st1 };
            let labels_replaced = prop matches Some(g) && (local == lit("dLbls") && labels_dirty(groups[g as int]));
            let line_off = prop matches Some(g) && group_line_flag(groups[g as int], byte_chars(local)) == Some(false);
            if labels_replaced {
                let d = groups[prop->0 as int].data_labels->0;
                Ok(PatchState { out: st2.out + vstd::utf8::encode_utf8(data_labels_text(d)), skip: 1, ..st2 })
            } else if line_off {
                Ok(PatchState { skip: 1, ..st2 })
            } else {
                let st3 = insertions_step(groups, st2, local);
                match tag_output(groups, st3, local, e, origin) {
                    Err(x) => Err(x),
                    Ok((st4, c)) => Ok(PatchState { out: st4.out + seq![60u8] + c + seq![62u8], stack: st4.stack.push(local), ..st4 }),
                }
            }
        },
    }
}

/// An empty tag outside a skipped element.
pub open spec fn patch_empty(
    groups: Seq<ChartGroupModel>,
    st: PatchState,
    e: XmlEventView,
    origin: (Seq<u8>, bool, nat),
) -> Result<PatchState, ErrorView> {
    let local = local_name(e.name);
    let st1 = match group_parent(st) {
        Some(g) => if (local == lit("axId") || local == lit("extLst")) && !st.tail_done[g as int] {
            insert_missing(groups, st, g, false)
        } else {
            st
        },
        None => st,
    };
    match group_parent(st1) {
        Some(g) => if local == lit("axId") && groups[g as int].dirty {
            match tag_output(groups, st1, local, e, origin) {
                Err(x) => Err(x),
                Ok((st2, c)) => Ok(PatchState { out: st2.out + seq![60u8] + c + seq![47u8, 62u8], ..st2 }),
            }
        } else if is_group_direct_property(byte_chars(local)) {
            let st2 = mark_seen(st1, g, local);
            if local == lit("dLbls") && labels_dirty(groups[g as int]) {
                Ok(PatchState { out: st2.out + vstd::utf8::encode_utf8(data_labels_text(groups[g as int].data_labels->0)), ..st2 })
            } else if group_line_flag(groups[g as int], byte_chars(local)) is Some {
                if group_line_flag(groups[g as int], byte_chars(local)) == Some(true) {
                    Ok(PatchState { out: st2.out + written(e), ..st2 })
                } else {
                    Ok(st2)
                }
            } else {
                match tag_output(groups, st2, local, e, origin) {
                    Err(x) => Err(x),
                    Ok((st3, c)) => Ok(PatchState { out: st3.out + seq![60u8] + c + seq![47u8, 62u8], ..st3 }),
                }
            }
        } else {
            Ok(PatchState { out: st1.out + written(e), ..st1 })
        },
        None => Ok(PatchState { out: st1.out + written(e), ..st1 }),
    }
}

/// An end tag outside a skipped element: closing the current group checks
/// its axis ids and writes what was not yet inserted.
pub open spec fn patch_end(groups: Seq<ChartGroupModel>, st: PatchState, e: XmlEventView) -> Result<PatchState, ErrorView> {
    let local = local_name(e.name);
    let popped = if st.stack.len() > 0 { st.stack.drop_last() } else { st.stack };
    match st.current {
        Some((g, depth)) => if depth == st.stack.len() && is_group_element(local) {
            if groups[g as int].dirty && st.axis_pos[g as int] != groups[g as int].axis_ids@.len() {
                Err((OmErrorCode::Unsupported, axis_count_message()))
            } else {
                let st1 = if !st.prefix_done[g as int] {
                    PatchState {
                        out: st.out + vstd::utf8::encode_utf8(missing_properties_text(groups[g as int], st.seen[g as int], true)),
                        ..st
                    }
                } else {
                    st
                };
                let st2 = if !st.tail_done[g as int] {
                    PatchState {
                        out: st1.out + vstd::utf8::encode_utf8(missing_properties_text(groups[g as int], st1.seen[g as int], false)),
                        ..st1
                    }
                } else {
                    st1
                };
                Ok(PatchState { current: None, out: st2.out + written(e), stack: popped, ..st2 })
            }
        } else {
            Ok(PatchState { out: st.out + written(e), stack: popped, ..st })
        },
        None => Ok(PatchState { out: st.out + written(e), stack: popped, ..st }),
    }
}

/// Patches from event `i` on.
pub open spec fn patch_run(
    groups: Seq<ChartGroupModel>,
    input: Seq<u8>,
    i: nat,
    st: PatchState,
    fuel: nat,
) -> Result<Seq<u8>, ErrorView>
    decreases fuel,
{
    if fuel == 0 {
        Ok(st.out)
    } else {
        let f = (fuel - 1) as nat;
        match xml_read_result(input, false, i) {
            Err(m) => Err((OmErrorCode::Parse, m)),
            Ok(e) => {
                let skipping = st.skip > 0 && (e.kind == XmlEventKind::Start || e.kind == XmlEventKind::Empty
                    || e.kind == XmlEventKind::End || e.kind == XmlEventKind::Text || e.kind == XmlEventKind::CData
                    || e.kind == XmlEventKind::Comment || e.kind == XmlEventKind::GeneralRef);
                if skipping {
                    let skip = if e.kind == XmlEventKind::Start {
                        st.skip + 1
                    } else if e.kind == XmlEventKind::End {
                        (st.skip - 1) as nat
                    } else {
                        st.skip
                    };
                    patch_run(groups, input, i + 1, PatchState { skip, ..st }, f)
                } else if e.kind == XmlEventKind::Eof {
                    if st.next_group != groups.len() {
                        Err((OmErrorCode::Unsupported, group_count_message()))
                    } else {
                        Ok(st.out)
                    }
                } else {
                    let step = if e.kind == XmlEventKind::Start {
                        patch_start(groups, st, e, (input, false, i))
                    } else if e.kind == XmlEventKind::Empty {
                        patch_empty(groups, st, e, (input, false, i))
                    } else if e.kind == XmlEventKind::End {
                        patch_end(groups, st, e)
                    } else {
                        Ok(PatchState { out: st.out + written(e), ..st })
                    };
                    match step {
                        Err(x) => Err(x),
                        Ok(next) => patch_run(groups, input, i + 1, next, f),
                    }
                }
            },
        }
    }
}

/// The state a patch starts from.
pub open spec fn patch_start_state(n: nat) -> PatchState {
    PatchState {
        stack: Seq::empty(),
        current: None,
        seen: Seq::new(n, |i: int| Seq::<Seq<u8>>::empty()),
        prefix_done: Seq::new(n, |i: int| false),
        tail_done: Seq::new(n, |i: int| false),
        axis_pos: Seq::new(n, |i: int| 0nat),
        next_group: 0,
        skip: 0,
        out: Seq::empty(),
    }
}

/// Loaded chart XML with the group properties of the model patched in;
/// unchanged when the model has no group or no changed group.
pub open spec fn group_properties_patch(input: Seq<u8>, chart: ChartModel) -> Result<Seq<u8>, ErrorView> {
    let groups = chart.groups@;
    if groups.len() == 0 || forall|g: int| 0 <= g < groups.len() ==> !(#[trigger] groups[g]).dirty {
        Ok(input)
    } else {
        patch_run(groups, input, 0, patch_start_state(groups.len()), input.len() + 1)
    }
}

/// The buffers of a patch in progress.
pub struct PatchBuffers {
    pub stack: Vec<Vec<u8>>,
    pub current: Option<(usize, usize)>,
    pub seen: Vec<Vec<Vec<u8>>>,
    pub prefix_done: Vec<bool>,
    pub tail_done: Vec<bool>,
    pub axis_pos: Vec<usize>,
    pub next_group: usize,
    pub skip: usize,
    pub out: Vec<u8>,
}

/// The view of the group being read: the buffers hold its index and the
/// number of elements open outside it.
pub open spec fn current_view(c: Option<(usize, usize)>) -> Option<(nat, nat)> {
    match c {
        Some((g, d)) => Some((g as nat, d as nat + 1)),
        None => None,
    }
}

impl PatchBuffers {
    pub open spec fn view(&self) -> PatchState {
        PatchState {
            stack: byte_lists(self.stack@),
            current: current_view(self.current),
            seen: self.seen@.map_values(|l: Vec<Vec<u8>>| byte_lists(l@)),
            prefix_done: self.prefix_done@,
            tail_done: self.tail_done@,
            axis_pos: self.axis_pos@.map_values(|p: usize| p as nat),
            next_group: self.next_group as nat,
            skip: self.skip as nat,
            out: self.out@,
        }
    }

    /// The per-group buffers have one entry per group.
    pub open spec fn sized(&self, n: nat) -> bool {
        &&& self.seen@.len() == n
        &&& self.prefix_done@.len() == n
        &&& self.tail_done@.len() == n
        &&& self.axis_pos@.len() == n
        &&& self.next_group <= n
        &&& (self.current matches Some((g, _)) ==> g < n)
    }
}

fn group_parent_index(st: &PatchBuffers) -> (r: Option<usize>)
    ensures
        match group_parent(st@) {
            Some(g) => r == Some(g as usize) && g == (r->0) as nat,
            None => r is None,
        },
{
    match st.current {
        Some((g, _)) => {
            if st.stack.len() > 0 {
                let parent = byte_chars_of(st.stack[st.stack.len() - 1].as_slice());
                assert(byte_lists(st.stack@).last() == st.stack@[st.stack@.len() - 1]@);
                if chart_type_from_group_name(&parent).is_some() {
                    return Some(g);
                }
            }
            None
        },
        None => None,
    }
}

fn copy_byte_string(b: &Vec<u8>) -> (r: Vec<u8>)
    ensures
        r@ == b@,
{
    let mut r: Vec<u8> = Vec::new();
    append_bytes(&mut r, b.as_slice());
    assert(r@ =~= b@);
    r
}

fn mark_seen_exec(st: &mut PatchBuffers, g: usize, local: &Vec<u8>)
    requires
        g < old(st).seen@.len(),
    ensures
        final(st)@ == mark_seen(old(st)@, g as nat, local@),
        final(st).stack == old(st).stack,
        final(st).current == old(st).current,
        final(st).seen@.len() == old(st).seen@.len(),
        final(st).prefix_done == old(st).prefix_done,
        final(st).tail_done == old(st).tail_done,
        final(st).axis_pos == old(st).axis_pos,
        final(st).next_group == old(st).next_group,
        final(st).skip == old(st).skip,
{
    let ghost before = st.seen@;
    let mut list = st.seen.remove(g);
    list.push(copy_byte_string(local));
    st.seen.insert(g, list);
    assert(st.seen@.map_values(|l: Vec<Vec<u8>>| byte_lists(l@)) =~= before.map_values(|l: Vec<Vec<u8>>| byte_lists(l@)).update(
        g as int,
        byte_lists(before[g as int]@).push(local@),
    )) by {
        assert(byte_lists(st.seen@[g as int]@) =~= byte_lists(before[g as int]@).push(local@));
    }
}

fn insert_missing_exec(groups: &Vec<ChartGroupModel>, st: &mut PatchBuffers, g: usize, prefix: bool)
    requires
        old(st).sized(groups@.len()),
        g < groups@.len(),
    ensures
        final(st)@ == insert_missing(groups@, old(st)@, g as nat, prefix),
        final(st).sized(groups@.len()),
        final(st).skip == old(st).skip,
{
    write_missing_chart_group_properties(&mut st.out, &groups[g], &st.seen[g], prefix);
    if prefix {
        st.prefix_done.set(g, true);
    } else {
        st.tail_done.set(g, true);
    }
}

fn insertions_exec(groups: &Vec<ChartGroupModel>, st: &mut PatchBuffers, local: &Vec<u8>)
    requires
        old(st).sized(groups@.len()),
    ensures
        final(st)@ == insertions_step(groups@, old(st)@, local@),
        final(st).sized(groups@.len()),
        final(st).skip == old(st).skip,
{
    if let Some(g) = group_parent_index(st) {
        if bytes_eq_lit(local.as_slice(), "ser") && !st.prefix_done[g] {
            insert_missing_exec(groups, st, g, true);
        }
    }
    if let Some(g) = group_parent_index(st) {
        if (bytes_eq_lit(local.as_slice(), "axId") || bytes_eq_lit(local.as_slice(), "extLst")) && !st.tail_done[g] {
            insert_missing_exec(groups, st, g, false);
        }
    }
}

fn start_group_exec(groups: &Vec<ChartGroupModel>, st: &mut PatchBuffers, local: &Vec<u8>) -> (r: Result<(), OmError>)
    requires
        old(st).sized(groups@.len()),
    ensures
        match start_group_step(groups@, old(st)@, local@) {
            Ok(s) => r is Ok && final(st)@ == s,
            Err(x) => r matches Err(e) && error_view(e) == x,
        },
        final(st).sized(groups@.len()),
        final(st).skip == old(st).skip,
{
    let in_plot = st.stack.len() > 0 && bytes_eq_lit(st.stack[st.stack.len() - 1].as_slice(), "plotArea");
    assert(in_plot == crate::chart_topology::in_plot_area(byte_lists(st.stack@))) by {
        if st.stack.len() > 0 {
            assert(byte_lists(st.stack@).last() == st.stack@[st.stack@.len() - 1]@);
        }
    }
    let chars = byte_chars_of(local.as_slice());
    if in_plot && chart_type_from_group_name(&chars).is_some() {
        if st.next_group >= groups.len() {
            return Err(om_error(OmErrorCode::Unsupported, "loaded chart group count changed before lossless property patch"));
        }
        if !bytes_eq(groups[st.next_group].raw_name.as_str().as_bytes(), local.as_slice()) {
            return Err(om_error(OmErrorCode::Unsupported, "loaded chart group order or type changed before lossless property patch"));
        }
        st.current = Some((st.next_group, st.stack.len()));
        st.next_group = st.next_group + 1;
    }
    Ok(())
}

fn tag_output_exec(groups: &Vec<ChartGroupModel>, st: &mut PatchBuffers, local: &Vec<u8>, ev: &XmlEvent) -> (r: Result<Vec<u8>, OmError>)
    requires
        old(st).sized(groups@.len()),
    ensures
        match tag_output(groups@, old(st)@, local@, ev.view(), ev.handle.origin()) {
            Ok((s, c)) => r matches Ok(v) && v@ == c && final(st)@ == s,
            Err(x) => r matches Err(e) && error_view(e) == x,
        },
        final(st).sized(groups@.len()),
        final(st).skip == old(st).skip,
{
    match group_parent_index(st) {
        Some(g) => {
            if bytes_eq_lit(local.as_slice(), "axId") && groups[g].dirty {
                let p = st.axis_pos[g];
                if p >= groups[g].axis_ids.len() {
                    return Err(om_error(
                        OmErrorCode::Unsupported,
                        "loaded chart group axis reference count changed before lossless property patch",
                    ));
                }
                let c = match rewrite_chart_group_val_element(&ev.handle, &ev.name, groups[g].axis_ids[p].as_str()) {
                    Ok(c) => c,
                    Err(e) => {
                        return Err(e);
                    },
                };
                let ghost before = st.axis_pos@;
                st.axis_pos.set(g, p + 1);
                assert(st.axis_pos@.map_values(|q: usize| q as nat) =~= before.map_values(|q: usize| q as nat).update(
                    g as int,
                    p as nat + 1,
                ));
                Ok(c)
            } else {
                let chars = byte_chars_of(local.as_slice());
                match chart_group_direct_property_value(&groups[g], &chars) {
                    Some(v) => rewrite_chart_group_val_element(&ev.handle, &ev.name, v.as_str()),
                    None => Ok(copy_byte_string(&ev.content)),
                }
            }
        },
        None => Ok(copy_byte_string(&ev.content)),
    }
}

fn patch_start_exec(groups: &Vec<ChartGroupModel>, st: &mut PatchBuffers, ev: &XmlEvent) -> (r: Result<(), OmError>)
    requires
        old(st).sized(groups@.len()),
    ensures
        match patch_start(groups@, old(st)@, ev.view(), ev.handle.origin()) {
            Ok(s) => r is Ok && final(st)@ == s,
            Err(x) => r matches Err(e) && error_view(e) == x,
        },
        final(st).sized(groups@.len()),
        final(st).skip == old(st).skip || final(st).skip == 1,
{
    let local = xml_local_name(&ev.name);
    match start_group_exec(groups, st, &local) {
        Ok(()) => {},
        Err(e) => {
            return Err(e);
        },
    }
    let chars = byte_chars_of(local.as_slice());
    let prop: Option<usize> = match group_parent_index(st) {
        Some(g) => if chart_group_direct_property_name(&chars) { Some(g) } else { None },
        None => None,
    };
    if let Some(g) = prop {
        mark_seen_exec(st, g, &local);
        if bytes_eq_lit(local.as_slice(), "dLbls") {
            if let Some(labels) = &groups[g].data_labels {
                if labels.dirty {
                    let text = chart_data_labels_xml_string(labels);
                    append_bytes(&mut st.out, text.as_str().as_bytes());
                    st.skip = 1;
                    return Ok(());
                }
            }
        }
        match chart_group_line_flag(&groups[g], &chars) {
            Some(false) => {
                st.skip = 1;
                return Ok(());
            },
            _ => {},
        }
    }
    insertions_exec(groups, st, &local);
    let c = match tag_output_exec(groups, st, &local, ev) {
        Ok(c) => c,
        Err(e) => {
            return Err(e);
        },
    };
    let ghost before = st.out@;
    st.out.push(60u8);
    append_bytes(&mut st.out, c.as_slice());
    st.out.push(62u8);
    assert(st.out@ =~= before + seq![60u8] + c@ + seq![62u8]);
    let ghost stack_before = st.stack@;
    st.stack.push(local);
    assert(byte_lists(st.stack@) =~= byte_lists(stack_before).push(local@));
    Ok(())
}

fn push_tag(out: &mut Vec<u8>, c: &Vec<u8>, empty: bool)
    ensures
        final(out)@ == if empty { old(out)@ + seq![60u8] + c@ + seq![47u8, 62u8] } else { old(out)@ + seq![60u8] + c@ + seq![62u8] },
{
    let ghost before = out@;
    out.push(60u8);
    append_bytes(out, c.as_slice());
    if empty {
        out.push(47u8);
    }
    out.push(62u8);
    if empty {
        assert(out@ =~= before + seq![60u8] + c@ + seq![47u8, 62u8]);
    } else {
        assert(out@ =~= before + seq![60u8] + c@ + seq![62u8]);
    }
}

fn patch_empty_exec(groups: &Vec<ChartGroupModel>, st: &mut PatchBuffers, ev: &XmlEvent) -> (r: Result<(), OmError>)
    requires
        old(st).sized(groups@.len()),
        ev.kind == XmlEventKind::Empty,
    ensures
        match patch_empty(groups@, old(st)@, ev.view(), ev.handle.origin()) {
            Ok(s) => r is Ok && final(st)@ == s,
            Err(x) => r matches Err(e) && error_view(e) == x,
        },
        final(st).sized(groups@.len()),
        final(st).skip == old(st).skip,
{
    let local = xml_local_name(&ev.name);
    let parent = group_parent_index(st);
    if let Some(g) = parent {
        if (bytes_eq_lit(local.as_slice(), "axId") || bytes_eq_lit(local.as_slice(), "extLst")) && !st.tail_done[g] {
            insert_missing_exec(groups, st, g, false);
        }
    }
    match parent {
        Some(g) => {
            let chars = byte_chars_of(local.as_slice());
            if bytes_eq_lit(local.as_slice(), "axId") && groups[g].dirty {
                let c = match tag_output_exec(groups, st, &local, ev) {
                    Ok(c) => c,
                    Err(e) => {
                        return Err(e);
                    },
                };
                push_tag(&mut st.out, &c, true);
            } else if chart_group_direct_property_name(&chars) {
                mark_seen_exec(st, g, &local);
                if bytes_eq_lit(local.as_slice(), "dLbls") {
                    if let Some(labels) = &groups[g].data_labels {
                        if labels.dirty {
                            let text = chart_data_labels_xml_string(labels);
                            append_bytes(&mut st.out, text.as_str().as_bytes());
                            return Ok(());
                        }
                    }
                }
                match chart_group_line_flag(&groups[g], &chars) {
                    Some(enabled) => {
                        if enabled {
                            write_event(&mut st.out, ev);
                        }
                    },
                    None => {
                        let c = match tag_output_exec(groups, st, &local, ev) {
                            Ok(c) => c,
                            Err(e) => {
                                return Err(e);
                            },
                        };
                        push_tag(&mut st.out, &c, true);
                    },
                }
            } else {
                write_event(&mut st.out, ev);
            }
        },
        None => {
            write_event(&mut st.out, ev);
        },
    }
    Ok(())
}

fn pop_stack(st: &mut PatchBuffers)
    ensures
        final(st)@ == (PatchState {
            stack: if old(st)@.stack.len() > 0 { old(st)@.stack.drop_last() } else { old(st)@.stack },
            ..old(st)@
        }),
        final(st).seen == old(st).seen,
        final(st).prefix_done == old(st).prefix_done,
        final(st).tail_done == old(st).tail_done,
        final(st).axis_pos == old(st).axis_pos,
        final(st).next_group == old(st).next_group,
        final(st).current == old(st).current,
        final(st).skip == old(st).skip,
{
    let ghost before = st.stack@;
    let _ = st.stack.pop();
    assert(byte_lists(st.stack@) =~= if before.len() > 0 { byte_lists(before).drop_last() } else { byte_lists(before) });
}

fn patch_end_exec(groups: &Vec<ChartGroupModel>, st: &mut PatchBuffers, ev: &XmlEvent) -> (r: Result<(), OmError>)
    requires
        old(st).sized(groups@.len()),
        ev.kind == XmlEventKind::End,
    ensures
        match patch_end(groups@, old(st)@, ev.view()) {
            Ok(s) => r is Ok && final(st)@ == s,
            Err(x) => r matches Err(e) && error_view(e) == x,
        },
        final(st).sized(groups@.len()),
        final(st).skip == old(st).skip,
{
    let local = xml_local_name(&ev.name);
    if let Some((g, d)) = st.current {
        let chars = byte_chars_of(local.as_slice());
        if st.stack.len() > 0 && d == st.stack.len() - 1 && chart_type_from_group_name(&chars).is_some() {
            if groups[g].dirty && st.axis_pos[g] != groups[g].axis_ids.len() {
                return Err(om_error(
                    OmErrorCode::Unsupported,
                    "loaded chart group axis reference count changed before lossless property patch",
                ));
            }
            if !st.prefix_done[g] {
                write_missing_chart_group_properties(&mut st.out, &groups[g], &st.seen[g], true);
            }
            if !st.tail_done[g] {
                write_missing_chart_group_properties(&mut st.out, &groups[g], &st.seen[g], false);
            }
            st.current = None;
        }
    }
    write_event(&mut st.out, ev);
    pop_stack(st);
    Ok(())
}

fn patch_buffers_for(n: usize) -> (st: PatchBuffers)
    ensures
        st@ == patch_start_state(n as nat),
        st.sized(n as nat),
{
    let mut seen: Vec<Vec<Vec<u8>>> = Vec::new();
    let mut prefix_done: Vec<bool> = Vec::new();
    let mut tail_done: Vec<bool> = Vec::new();
    let mut axis_pos: Vec<usize> = Vec::new();
    let mut k: usize = 0;
    while k < n
        invariant
            k <= n,
            seen@.len() == k,
            prefix_done@.len() == k,
            tail_done@.len() == k,
            axis_pos@.len() == k,
            forall|j: int| 0 <= j < k ==> (#[trigger] seen@[j])@.len() == 0,
            forall|j: int| 0 <= j < k ==> !(#[trigger] prefix_done@[j]),
            forall|j: int| 0 <= j < k ==> !(#[trigger] tail_done@[j]),
            forall|j: int| 0 <= j < k ==> (#[trigger] axis_pos@[j]) == 0,
        decreases n - k,
    {
        seen.push(Vec::new());
        prefix_done.push(false);
        tail_done.push(false);
        axis_pos.push(0);
        k += 1;
    }
    let st = PatchBuffers {
        stack: Vec::new(),
        current: None,
        seen,
        prefix_done,
        tail_done,
        axis_pos,
        next_group: 0,
        skip: 0,
        out: Vec::new(),
    };
    assert(byte_lists(st.stack@) =~= Seq::<Seq<u8>>::empty());
    assert(st.seen@.map_values(|l: Vec<Vec<u8>>| byte_lists(l@)) =~= Seq::new(n as nat, |i: int| Seq::<Seq<u8>>::empty())) by {
        assert forall|j: int| 0 <= j < n implies byte_lists(#[trigger] st.seen@[j]@) =~= Seq::<Seq<u8>>::empty() by {
            assert(st.seen@[j]@.len() == 0);
        }
    }
    assert(st.prefix_done@ =~= Seq::new(n as nat, |i: int| false));
    assert(st.tail_done@ =~= Seq::new(n as nat, |i: int| false));
    assert(st.axis_pos@.map_values(|p: usize| p as nat) =~= Seq::new(n as nat, |i: int| 0nat));
    assert(st.out@ =~= Seq::<u8>::empty());
    st
}

fn any_group_dirty(groups: &Vec<ChartGroupModel>) -> (r: bool)
    ensures
        r == exists|g: int| 0 <= g < groups@.len() && (#[trigger] groups@[g]).dirty,
{
    let mut k: usize = 0;
    while k < groups.len()
        invariant
            k <= groups@.len(),
            forall|g: int| 0 <= g < k ==> !(#[trigger] groups@[g]).dirty,
        decreases groups@.len() - k,
    {
        if groups[k].dirty {
            return true;
        }
        k += 1;
    }
    false
}

/// Patches the group properties of a chart model into the chart XML it was
/// loaded from: changed properties are rewritten in place, added ones are
/// inserted in schema order, changed data labels replace the loaded ones,
/// disabled line elements are dropped, and the axis ids of a changed group
/// are rewritten in order. The XML comes back unchanged when no group
/// changed; the loaded groups must still be the model's groups in order.
pub fn patch_loaded_chart_group_properties(existing_chart_xml: &[u8], chart: &ChartModel) -> (r: Result<Vec<u8>, OmError>)
    ensures
        crate::chart_topology::bytes_error_result(r) == group_properties_patch(existing_chart_xml@, *chart),
{
    let groups = &chart.groups;
    let n = groups.len();
    if n == 0 || !any_group_dirty(groups) {
        let mut copy: Vec<u8> = Vec::new();
        append_bytes(&mut copy, existing_chart_xml);
        assert(copy@ =~= existing_chart_xml@);
        return Ok(copy);
    }
    let ghost input = existing_chart_xml@;
    let ghost fuel = input.len() + 1;
    let mut st = patch_buffers_for(n);
    let mut reader = XmlReader::new(existing_chart_xml, false);
    loop
        invariant
            reader.input() == input,
            input == existing_chart_xml@,
            !reader.trim(),
            fuel == input.len() + 1,
            reader.count() <= fuel,
            reader.pos() <= input.len(),
            fuel - reader.count() >= input.len() - reader.pos() + 1,
            st.sized(n as nat),
            n == groups@.len(),
            groups == &chart.groups,
            st.skip <= reader.count(),
            group_properties_patch(input, *chart) == patch_run(groups@, input, reader.count(), st@, (fuel - reader.count()) as nat),
        decreases input.len() - reader.pos(),
    {
        let ev = match reader.read_event() {
            Ok(ev) => ev,
            Err(e) => {
                return Err(xml_error(e));
            },
        };
        let kind = ev.kind;
        let skippable = kind == XmlEventKind::Start || kind == XmlEventKind::Empty || kind == XmlEventKind::End
            || kind == XmlEventKind::Text || kind == XmlEventKind::CData || kind == XmlEventKind::Comment
            || kind == XmlEventKind::GeneralRef;
        if st.skip > 0 && skippable {
            if kind == XmlEventKind::Start {
                st.skip = st.skip + 1;
            } else if kind == XmlEventKind::End {
                st.skip = st.skip - 1;
            }
        } else if kind == XmlEventKind::Eof {
            if st.next_group != n {
                return Err(om_error(OmErrorCode::Unsupported, "loaded chart group count changed before lossless property patch"));
            }
            return Ok(st.out);
        } else {
            let step = if kind == XmlEventKind::Start {
                patch_start_exec(groups, &mut st, &ev)
            } else if kind == XmlEventKind::Empty {
                patch_empty_exec(groups, &mut st, &ev)
            } else if kind == XmlEventKind::End {
                patch_end_exec(groups, &mut st, &ev)
            } else {
                write_event(&mut st.out, &ev);
                Ok(())
            };
            match step {
                Ok(()) => {},
                Err(e) => {
                    return Err(e);
                },
            }
        }
    }
}

/// A model none of whose groups changed leaves loaded chart XML as it was:
/// the property patch gives back the XML it was given, whatever it holds.
pub proof fn lemma_clean_groups_leave_xml_unchanged(input: Seq<u8>, chart: ChartModel)
    requires
        forall|g: int| 0 <= g < chart.groups@.len() ==> !(#[trigger] chart.groups@[g]).dirty,
    ensures
        group_properties_patch(input, chart) == Ok::<Seq<u8>, ErrorView>(input),
{
}

/// The message for a document that ends inside a copied subtree.
pub open spec fn subtree_eof_message() -> Seq<char> {
    "unexpected EOF while preserving chart group property subtree"@
}

/// Copies events `i` on of `input` until the `depth` open elements close.
pub open spec fn subtree_run(input: Seq<u8>, i: nat, depth: nat, out: Seq<u8>, fuel: nat) -> Result<Seq<u8>, ErrorView>
    decreases fuel,
{
    if depth == 0 || fuel == 0 {
        Ok(out)
    } else {
        let f = (fuel - 1) as nat;
        match xml_read_result(input, false, i) {
            Err(m) => Err((OmErrorCode::Parse, m)),
            Ok(e) => if e.kind == XmlEventKind::Eof {
                Err((OmErrorCode::Parse, subtree_eof_message()))
            } else if e.kind == XmlEventKind::Start {
                subtree_run(input, i + 1, depth + 1, out + written(e), f)
            } else if e.kind == XmlEventKind::End {
                subtree_run(input, i + 1, (depth - 1) as nat, out + written(e), f)
            } else {
                subtree_run(input, i + 1, depth, out + written(e), f)
            },
        }
    }
}

/// Copies an element whose start tag was just read, with everything inside
/// it, from a reader to an XML byte buffer; the reader stops after the
/// element's end tag.
pub fn copy_chart_xml_subtree(reader: &mut XmlReader, out: &mut Vec<u8>, start: &XmlEvent) -> (r: Result<(), OmError>)
    requires
        !old(reader).trim(),
        start.kind == XmlEventKind::Start,
        old(reader).pos() <= old(reader).input().len(),
    ensures
        final(reader).input() == old(reader).input(),
        !final(reader).trim(),
        match subtree_run(
            old(reader).input(),
            old(reader).count(),
            1,
            old(out)@ + written(start.view()),
            old(reader).input().len() + 1,
        ) {
            Ok(x) => r is Ok && final(out)@ == x,
            Err(x) => r matches Err(e) && error_view(e) == x,
        },
{
    let ghost input = reader.input();
    let ghost c0 = reader.count();
    let ghost fuel = input.len() + 1;
    let ghost expected = subtree_run(input, c0, 1, old(out)@ + written(start.view()), fuel);
    write_event(out, start);
    let mut nested: usize = 0;
    loop
        invariant_except_break
            nested <= reader.count() - c0,
            expected == subtree_run(input, reader.count(), nested as nat + 1, out@, (fuel - (reader.count() - c0)) as nat),
        invariant
            reader.input() == input,
            input == old(reader).input(),
            c0 == old(reader).count(),
            expected == subtree_run(input, c0, 1, old(out)@ + written(start.view()), fuel),
            !reader.trim(),
            fuel == input.len() + 1,
            c0 <= reader.count(),
            reader.count() - c0 <= fuel,
            reader.pos() <= input.len(),
            fuel - (reader.count() - c0) >= input.len() - reader.pos() + 1,
        ensures
            expected == Ok::<Seq<u8>, ErrorView>(out@),
        decreases input.len() - reader.pos(),
    {
        let ghost k = reader.count();
        let ghost before = out@;
        let ev = match reader.read_event() {
            Ok(ev) => ev,
            Err(e) => {
                return Err(xml_error(e));
            },
        };
        if ev.kind == XmlEventKind::Eof {
            return Err(om_error(OmErrorCode::Parse, "unexpected EOF while preserving chart group property subtree"));
        }
        write_event(out, &ev);
        assert(out@ == before + written(ev.view()));
        if ev.kind == XmlEventKind::Start {
            nested = nested + 1;
        } else if ev.kind == XmlEventKind::End {
            if nested == 0 {
                assert(expected == subtree_run(input, k + 1, 0, out@, (fuel - (k - c0) - 1) as nat));
                break;
            }
            nested = nested - 1;
        }
    }
    Ok(())
}

} // verus!
