//! Rewriting and inspecting the XML parts of a package: relationships parts,
//! the content-types manifest, owner parts and the workbook part.
use vstd::prelude::*;
use crate::errors::{OmError, OmErrorCode};
use crate::kinds::{
    active_content_kind_from_content_type, active_content_kind_from_relationship_type,
    content_type_kind, relationship_type_kind, ActiveContentKind, KindSet,
};
use crate::package::{canonical_part_identity, part_identity};
use crate::removal::{contains_name, names};
use crate::text::{chars_eq_ignore_case, chars_of, eq_ignore_case};
use crate::xml::{
    attribute_value, bytes_eq_lit, find_attribute, lit, local_name, local_name_is, lookup_view,
    tag_content_len, unescape_value, write_event, written, xml_attribute_at, xml_attribute_namespace,
    xml_read_result, xml_unescaped_value, AttributeCursor, AttributeNamespace, AttributeNamespaceView,
    TagHandle, XmlError, XmlEventKind, XmlReader, NsXmlReader, ns_read_result,
};

verus! {

/// The library error for a quick-xml failure: a parse error with its message.
pub fn xml_error(e: XmlError) -> (r: OmError)
    ensures
        r.code == OmErrorCode::Parse,
        r.message@ == e.message@,
{
    OmError { code: OmErrorCode::Parse, message: e.message }
}

/// The view of a byte-producing result: the bytes, or a parse failure's message.
pub open spec fn bytes_result_view(r: Result<Vec<u8>, OmError>) -> Result<Seq<u8>, Seq<char>> {
    match r {
        Ok(v) => Ok(v@),
        Err(e) => Err(e.message@),
    }
}

/// A result that is a parse failure when it fails.
pub open spec fn fails_as_parse<T>(r: Result<T, OmError>) -> bool {
    r matches Err(e) ==> e.code == OmErrorCode::Parse
}

/// The `Id` attribute of the tag read as event `i`.
pub open spec fn id_of(input: Seq<u8>, i: nat) -> Result<Option<Seq<char>>, Seq<char>> {
    attribute_value((input, false, i), lit("Id"))
}

/// Copies a relationships document from event `i` on, leaving out every
/// `Relationship` element whose `Id` is in `ids`, subtree included.
/// `skip` is the depth still to leave out, `out` what was written so far.
pub open spec fn strip_ids_run(
    input: Seq<u8>,
    ids: Set<Seq<char>>,
    i: nat,
    skip: nat,
    out: Seq<u8>,
    fuel: nat,
) -> Result<Seq<u8>, Seq<char>>
    decreases fuel,
{
    if fuel == 0 {
        Ok(out)
    } else {
        let f = (fuel - 1) as nat;
        match xml_read_result(input, false, i) {
            Err(m) => Err(m),
            Ok(e) => if e.kind == XmlEventKind::Eof {
                Ok(out)
            } else if skip > 0 {
                let next = if e.kind == XmlEventKind::Start {
                    skip + 1
                } else if e.kind == XmlEventKind::End {
                    (skip - 1) as nat
                } else {
                    skip
                };
                strip_ids_run(input, ids, i + 1, next, out, f)
            } else if (e.kind == XmlEventKind::Start || e.kind == XmlEventKind::Empty)
                && local_name(e.name) == lit("Relationship") {
                match id_of(input, i) {
                    Err(m) => Err(m),
                    Ok(Some(id)) => if ids.contains(id) {
                        strip_ids_run(
                            input,
                            ids,
                            i + 1,
                            if e.kind == XmlEventKind::Start { 1 } else { 0 },
                            out,
                            f,
                        )
                    } else {
                        strip_ids_run(input, ids, i + 1, 0, out + crate::xml::written(e), f)
                    },
                    Ok(None) => strip_ids_run(input, ids, i + 1, 0, out + written(e), f),
                }
            } else {
                strip_ids_run(input, ids, i + 1, 0, out + written(e), f)
            },
        }
    }
}

/// A relationships document without the `Relationship` elements whose `Id`
/// is in `ids`; every other event is written back as read.
pub open spec fn strip_ids(input: Seq<u8>, ids: Set<Seq<char>>) -> Result<Seq<u8>, Seq<char>> {
    strip_ids_run(input, ids, 0, 0, Seq::empty(), input.len() + 1)
}

/// The `Id` attribute of a relationship element.
pub fn relationship_element_id(handle: &crate::xml::TagHandle) -> (r: Result<Option<String>, OmError>)
    ensures
        lookup_view(
            match r {
                Ok(v) => Ok(v),
                Err(e) => Err(XmlError { message: e.message }),
            },
        ) == attribute_value(handle.origin(), lit("Id")),
        fails_as_parse(r),
{
    match find_attribute(handle, "Id") {
        Ok(v) => Ok(v),
        Err(e) => Err(xml_error(e)),
    }
}

/// Removes the `Relationship` elements with the given ids from a relationships part.
pub fn strip_relationship_entries_by_id(relationships_xml: &[u8], relationship_ids: &Vec<String>) -> (r: Result<Vec<u8>, OmError>)
    ensures
        bytes_result_view(r) == strip_ids(relationships_xml@, names(relationship_ids@)),
        fails_as_parse(r),
{
    let ghost input = relationships_xml@;
    let ghost ids = names(relationship_ids@);
    let ghost fuel = input.len() + 1;
    let mut reader = XmlReader::new(relationships_xml, false);
    let mut out: Vec<u8> = Vec::new();
    let mut skip: usize = 0;
    loop
        invariant
            reader.input() == input,
            input == relationships_xml@,
            ids == names(relationship_ids@),
            !reader.trim(),
            fuel == input.len() + 1,
            reader.count() <= fuel,
            reader.pos() <= input.len(),
            fuel - reader.count() >= input.len() - reader.pos() + 1,
            skip <= reader.count(),
            strip_ids(input, ids) == strip_ids_run(
                input,
                ids,
                reader.count(),
                skip as nat,
                out@,
                (fuel - reader.count()) as nat,
            ),
        decreases input.len() - reader.pos(),
    {
        let ghost i = reader.count();
        let ev = match reader.read_event() {
            Ok(ev) => ev,
            Err(e) => {
                return Err(xml_error(e));
            },
        };
        if ev.kind == XmlEventKind::Eof {
            return Ok(out);
        }
        if skip > 0 {
            if ev.kind == XmlEventKind::Start {
                skip += 1;
            } else if ev.kind == XmlEventKind::End {
                skip -= 1;
            }
        } else if (ev.kind == XmlEventKind::Start || ev.kind == XmlEventKind::Empty) && local_name_is(
            &ev.name,
            "Relationship",
        ) {
            let id = match find_attribute(&ev.handle, "Id") {
                Ok(id) => id,
                Err(e) => {
                    return Err(xml_error(e));
                },
            };
            let remove = match &id {
                Some(id) => contains_name(relationship_ids, id),
                None => false,
            };
            if remove {
                if ev.kind == XmlEventKind::Start {
                    skip = 1;
                }
            } else {
                write_event(&mut out, &ev);
            }
        } else {
            write_event(&mut out, &ev);
        }
    }
}

/// The message of an unterminated container.
pub open spec fn unterminated_message() -> Seq<char> {
    "unterminated active-content XML container during strip"@
}

/// A pending `controls` or `oleObjects` container: its open depth, whether
/// it has an element child, and its events as written.
pub type PendingView = Option<(nat, bool, Seq<u8>)>;

/// Copies an owner document from event `i` on, dropping every `controls` or
/// `oleObjects` element that has no element child.
pub open spec fn containers_run(
    input: Seq<u8>,
    i: nat,
    pending: PendingView,
    out: Seq<u8>,
    fuel: nat,
) -> Result<Seq<u8>, Seq<char>>
    decreases fuel,
{
    if fuel == 0 {
        Ok(out)
    } else {
        let f = (fuel - 1) as nat;
        match xml_read_result(input, false, i) {
            Err(m) => Err(m),
            Ok(e) => if e.kind == XmlEventKind::Eof {
                if pending is Some {
                    Err(unterminated_message())
                } else {
                    Ok(out)
                }
            } else {
                match pending {
                    Some((d, h, buf)) => {
                        let h2 = if (e.kind == XmlEventKind::Start || e.kind == XmlEventKind::Empty)
                            && d == 1 {
                            true
                        } else {
                            h
                        };
                        let d2: nat = if e.kind == XmlEventKind::Start {
                            d + 1
                        } else if e.kind == XmlEventKind::End {
                            if d > 0 { (d - 1) as nat } else { 0 }
                        } else {
                            d
                        };
                        let buf2 = buf + written(e);
                        if d2 == 0 {
                            containers_run(input, i + 1, None, if h2 { out + buf2 } else { out }, f)
                        } else {
                            containers_run(input, i + 1, Some((d2, h2, buf2)), out, f)
                        }
                    },
                    None => if e.kind == XmlEventKind::Start && (local_name(e.name) == lit(
                        "controls",
                    ) || local_name(e.name) == lit("oleObjects")) {
                        containers_run(input, i + 1, Some((1, false, written(e))), out, f)
                    } else {
                        containers_run(input, i + 1, None, out + written(e), f)
                    },
                }
            },
        }
    }
}

/// An owner document without its empty `controls` and `oleObjects` elements.
pub open spec fn strip_empty_containers(input: Seq<u8>) -> Result<Seq<u8>, Seq<char>> {
    containers_run(input, 0, None, Seq::empty(), input.len() + 1)
}

/// Drops `controls` and `oleObjects` elements that hold no element.
pub fn strip_empty_active_content_containers(owner_xml: &[u8]) -> (r: Result<Vec<u8>, OmError>)
    ensures
        bytes_result_view(r) == strip_empty_containers(owner_xml@),
        fails_as_parse(r),
{
    let ghost input = owner_xml@;
    let ghost fuel = input.len() + 1;
    let mut reader = XmlReader::new(owner_xml, false);
    let mut out: Vec<u8> = Vec::new();
    let mut pending = false;
    let mut depth: usize = 0;
    let mut has_child = false;
    let mut buffered: Vec<u8> = Vec::new();
    loop
        invariant
            reader.input() == input,
            input == owner_xml@,
            !reader.trim(),
            fuel == input.len() + 1,
            reader.count() <= fuel,
            reader.pos() <= input.len(),
            fuel - reader.count() >= input.len() - reader.pos() + 1,
            depth <= reader.count(),
            strip_empty_containers(input) == containers_run(
                input,
                reader.count(),
                if pending { Some((depth as nat, has_child, buffered@)) } else { None },
                out@,
                (fuel - reader.count()) as nat,
            ),
        decreases input.len() - reader.pos(),
    {
        let ev = match reader.read_event() {
            Ok(ev) => ev,
            Err(e) => {
                return Err(xml_error(e));
            },
        };
        if ev.kind == XmlEventKind::Eof {
            if pending {
                return Err(
                    OmError {
                        code: OmErrorCode::Parse,
                        message: String::from_str(
                            "unterminated active-content XML container during strip",
                        ),
                    },
                );
            }
            return Ok(out);
        }
        if pending {
            if (ev.kind == XmlEventKind::Start || ev.kind == XmlEventKind::Empty) && depth == 1 {
                has_child = true;
            }
            if ev.kind == XmlEventKind::Start {
                depth += 1;
            } else if ev.kind == XmlEventKind::End {
                if depth > 0 {
                    depth -= 1;
                }
            }
            write_event(&mut buffered, &ev);
            if depth == 0 {
                if has_child {
                    crate::xml::append_bytes(&mut out, &buffered);
                }
                pending = false;
                has_child = false;
                buffered = Vec::new();
            }
        } else if ev.kind == XmlEventKind::Start && (local_name_is(&ev.name, "controls")
            || local_name_is(&ev.name, "oleObjects")) {
            pending = true;
            depth = 1;
            has_child = false;
            buffered = Vec::new();
            write_event(&mut buffered, &ev);
        } else {
            write_event(&mut out, &ev);
        }
    }
}

/// Whether a sheet's `state` attributes, from attribute `k` on, leave it
/// hidden; the last `state` attribute decides.
pub open spec fn sheet_hidden_run(
    origin: (Seq<u8>, bool, nat),
    k: nat,
    hidden: bool,
    fuel: nat,
) -> Result<bool, Seq<char>>
    decreases fuel,
{
    if fuel == 0 {
        Ok(hidden)
    } else {
        match xml_attribute_at(origin.0, origin.1, origin.2, k) {
            None => Ok(hidden),
            Some(Err(m)) => Err(m),
            Some(Ok((key, raw))) => if key != lit("state") {
                sheet_hidden_run(origin, k + 1, hidden, (fuel - 1) as nat)
            } else {
                match xml_unescaped_value(raw) {
                    Err(m) => Err(m),
                    Ok(v) => sheet_hidden_run(
                        origin,
                        k + 1,
                        eq_ignore_case(v, "hidden"@) || eq_ignore_case(v, "veryHidden"@),
                        (fuel - 1) as nat,
                    ),
                }
            },
        }
    }
}

/// Whether the `sheet` element read as event `origin` is hidden.
pub open spec fn sheet_hidden(origin: (Seq<u8>, bool, nat)) -> Result<bool, Seq<char>> {
    sheet_hidden_run(origin, 0, false, tag_content_len(origin) + 1)
}

/// Counts, from event `i` on, the `sheet` elements of a workbook document and
/// those of them that are not hidden.
pub open spec fn sheet_counts_run(input: Seq<u8>, i: nat, sheets: nat, visible: nat, fuel: nat) -> Result<
    (nat, nat),
    Seq<char>,
>
    decreases fuel,
{
    if fuel == 0 {
        Ok((sheets, visible))
    } else {
        let f = (fuel - 1) as nat;
        match xml_read_result(input, true, i) {
            Err(m) => Err(m),
            Ok(e) => if e.kind == XmlEventKind::Eof {
                Ok((sheets, visible))
            } else if (e.kind == XmlEventKind::Start || e.kind == XmlEventKind::Empty) && local_name(
                e.name,
            ) == lit("sheet") {
                match sheet_hidden((input, true, i)) {
                    Err(m) => Err(m),
                    Ok(h) => sheet_counts_run(
                        input,
                        i + 1,
                        sheets + 1,
                        if h { visible } else { visible + 1 },
                        f,
                    ),
                }
            } else {
                sheet_counts_run(input, i + 1, sheets, visible, f)
            },
        }
    }
}

/// The number of sheets of a workbook document and of its visible sheets.
pub open spec fn sheet_counts(input: Seq<u8>) -> Result<(nat, nat), Seq<char>> {
    sheet_counts_run(input, 0, 0, 0, input.len() + 1)
}

fn sheet_is_hidden(handle: &TagHandle) -> (r: Result<bool, XmlError>)
    ensures
        match r {
            Ok(h) => sheet_hidden(handle.origin()) == Ok::<bool, Seq<char>>(h),
            Err(e) => sheet_hidden(handle.origin()) == Err::<bool, Seq<char>>(e.message@),
        },
{
    let ghost origin = handle.origin();
    let ghost fuel = tag_content_len(origin) + 1;
    let mut cursor = AttributeCursor::of(handle);
    let mut hidden = false;
    loop
        invariant
            cursor.origin() == origin,
            origin == handle.origin(),
            cursor.count() < fuel,
            fuel == tag_content_len(origin) + 1,
            sheet_hidden(origin) == sheet_hidden_run(
                origin,
                cursor.count(),
                hidden,
                (fuel - cursor.count()) as nat,
            ),
        decreases fuel - cursor.count(),
    {
        match cursor.next() {
            None => {
                return Ok(hidden);
            },
            Some(Err(e)) => {
                return Err(e);
            },
            Some(Ok(a)) => {
                if bytes_eq_lit(&a.key, "state") {
                    let state = match unescape_value(&a.value) {
                        Ok(v) => v,
                        Err(e) => {
                            return Err(e);
                        },
                    };
                    let v = chars_of(state.as_str());
                    let h1 = chars_of("hidden");
                    let h2 = chars_of("veryHidden");
                    hidden = chars_eq_ignore_case(&v, &h1) || chars_eq_ignore_case(&v, &h2);
                }
            },
        }
    }
}

/// Counts the sheets of a workbook part and its visible sheets.
pub fn workbook_sheet_counts(workbook_xml: &[u8]) -> (r: Result<(usize, usize), OmError>)
    ensures
        match r {
            Ok((a, b)) => sheet_counts(workbook_xml@) == Ok::<(nat, nat), Seq<char>>((a as nat, b as nat)),
            Err(e) => sheet_counts(workbook_xml@) == Err::<(nat, nat), Seq<char>>(e.message@),
        },
        fails_as_parse(r),
{
    let ghost input = workbook_xml@;
    let ghost fuel = input.len() + 1;
    let mut reader = XmlReader::new(workbook_xml, true);
    let mut sheets: usize = 0;
    let mut visible: usize = 0;
    loop
        invariant
            reader.input() == input,
            input == workbook_xml@,
            reader.trim(),
            fuel == input.len() + 1,
            reader.count() <= fuel,
            reader.pos() <= input.len(),
            fuel - reader.count() >= input.len() - reader.pos() + 1,
            visible <= sheets <= reader.pos(),
            sheet_counts(input) == sheet_counts_run(
                input,
                reader.count(),
                sheets as nat,
                visible as nat,
                (fuel - reader.count()) as nat,
            ),
        decreases input.len() - reader.pos(),
    {
        let ev = match reader.read_event() {
            Ok(ev) => ev,
            Err(e) => {
                return Err(xml_error(e));
            },
        };
        if ev.kind == XmlEventKind::Eof {
            return Ok((sheets, visible));
        }
        if (ev.kind == XmlEventKind::Start || ev.kind == XmlEventKind::Empty) && local_name_is(
            &ev.name,
            "sheet",
        ) {
            let hidden = match sheet_is_hidden(&ev.handle) {
                Ok(h) => h,
                Err(e) => {
                    return Err(xml_error(e));
                },
            };
            sheets += 1;
            if !hidden {
                visible += 1;
            }
        }
    }
}

/// Where active-content markers are looked for: content types of the
/// `Default` and `Override` entries of the content-types manifest, or types
/// of the `Relationship` entries of a relationships part.
#[derive(Clone, Copy, Debug, PartialEq, Eq, Structural)]
pub enum MarkerSource {
    ContentTypes,
    Relationships,
}

/// Whether an element local name carries markers for the source.
pub open spec fn marker_element(source: MarkerSource, local: Seq<u8>) -> bool {
    match source {
        MarkerSource::ContentTypes => local == lit("Default") || local == lit("Override"),
        MarkerSource::Relationships => local == lit("Relationship"),
    }
}

/// The attribute key that carries markers for the source.
pub open spec fn marker_key(source: MarkerSource) -> Seq<u8> {
    match source {
        MarkerSource::ContentTypes => lit("ContentType"),
        MarkerSource::Relationships => lit("Type"),
    }
}

/// The kind that a marker value denotes for the source.
pub open spec fn marker_kind(source: MarkerSource, value: Seq<char>) -> Option<ActiveContentKind> {
    match source {
        MarkerSource::ContentTypes => content_type_kind(value),
        MarkerSource::Relationships => relationship_type_kind(value),
    }
}

/// Adds, from attribute `k` on, the kinds that the marker attributes of a tag denote.
pub open spec fn marker_attrs_run(
    origin: (Seq<u8>, bool, nat),
    source: MarkerSource,
    k: nat,
    acc: Set<ActiveContentKind>,
    fuel: nat,
) -> Result<Set<ActiveContentKind>, Seq<char>>
    decreases fuel,
{
    if fuel == 0 {
        Ok(acc)
    } else {
        match xml_attribute_at(origin.0, origin.1, origin.2, k) {
            None => Ok(acc),
            Some(Err(m)) => Err(m),
            Some(Ok((key, raw))) => if key != marker_key(source) {
                marker_attrs_run(origin, source, k + 1, acc, (fuel - 1) as nat)
            } else {
                match xml_unescaped_value(raw) {
                    Err(m) => Err(m),
                    Ok(v) => marker_attrs_run(
                        origin,
                        source,
                        k + 1,
                        match marker_kind(source, v) {
                            Some(kind) => acc.insert(kind),
                            None => acc,
                        },
                        (fuel - 1) as nat,
                    ),
                }
            },
        }
    }
}

/// Collects, from event `i` on, the kinds that the marker elements of a document denote.
pub open spec fn markers_run(
    input: Seq<u8>,
    source: MarkerSource,
    i: nat,
    acc: Set<ActiveContentKind>,
    fuel: nat,
) -> Result<Set<ActiveContentKind>, Seq<char>>
    decreases fuel,
{
    if fuel == 0 {
        Ok(acc)
    } else {
        let f = (fuel - 1) as nat;
        match xml_read_result(input, true, i) {
            Err(m) => Err(m),
            Ok(e) => if e.kind == XmlEventKind::Eof {
                Ok(acc)
            } else if (e.kind == XmlEventKind::Start || e.kind == XmlEventKind::Empty)
                && marker_element(source, local_name(e.name)) {
                let origin = (input, true, i);
                match marker_attrs_run(origin, source, 0, acc, tag_content_len(origin) + 1) {
                    Err(m) => Err(m),
                    Ok(acc2) => markers_run(input, source, i + 1, acc2, f),
                }
            } else {
                markers_run(input, source, i + 1, acc, f)
            },
        }
    }
}

/// The active-content kinds that the marker elements of a document denote.
pub open spec fn marker_kinds(input: Seq<u8>, source: MarkerSource) -> Result<Set<ActiveContentKind>, Seq<char>> {
    markers_run(input, source, 0, Set::empty(), input.len() + 1)
}

/// The view of a kind-collecting result.
pub open spec fn kinds_result_view(r: Result<KindSet, OmError>) -> Result<Set<ActiveContentKind>, Seq<char>> {
    match r {
        Ok(k) => Ok(k@),
        Err(e) => Err(e.message@),
    }
}

fn marker_element_is(source: MarkerSource, name: &[u8]) -> (r: bool)
    ensures
        r == marker_element(source, local_name(name@)),
{
    match source {
        MarkerSource::ContentTypes => local_name_is(name, "Default") || local_name_is(name, "Override"),
        MarkerSource::Relationships => local_name_is(name, "Relationship"),
    }
}

fn add_marker_kinds(handle: &TagHandle, source: MarkerSource, kinds: &mut KindSet) -> (r: Result<(), XmlError>)
    requires
        old(kinds).wf(),
    ensures
        final(kinds).wf(),
        match r {
            Ok(_) => marker_attrs_run(
                handle.origin(),
                source,
                0,
                old(kinds)@,
                tag_content_len(handle.origin()) + 1,
            ) == Ok::<Set<ActiveContentKind>, Seq<char>>(final(kinds)@),
            Err(e) => marker_attrs_run(
                handle.origin(),
                source,
                0,
                old(kinds)@,
                tag_content_len(handle.origin()) + 1,
            ) == Err::<Set<ActiveContentKind>, Seq<char>>(e.message@),
        },
{
    let ghost origin = handle.origin();
    let ghost fuel = tag_content_len(origin) + 1;
    let ghost start = kinds@;
    let mut cursor = AttributeCursor::of(handle);
    loop
        invariant
            cursor.origin() == origin,
            origin == handle.origin(),
            cursor.count() < fuel,
            fuel == tag_content_len(origin) + 1,
            kinds.wf(),
            start == old(kinds)@,
            marker_attrs_run(origin, source, 0, start, fuel) == marker_attrs_run(
                origin,
                source,
                cursor.count(),
                kinds@,
                (fuel - cursor.count()) as nat,
            ),
        decreases fuel - cursor.count(),
    {
        match cursor.next() {
            None => {
                return Ok(());
            },
            Some(Err(e)) => {
                return Err(e);
            },
            Some(Ok(a)) => {
                let matches = match source {
                    MarkerSource::ContentTypes => bytes_eq_lit(&a.key, "ContentType"),
                    MarkerSource::Relationships => bytes_eq_lit(&a.key, "Type"),
                };
                if matches {
                    let value = match unescape_value(&a.value) {
                        Ok(v) => v,
                        Err(e) => {
                            return Err(e);
                        },
                    };
                    let kind = match source {
                        MarkerSource::ContentTypes => active_content_kind_from_content_type(value.as_str()),
                        MarkerSource::Relationships => active_content_kind_from_relationship_type(value.as_str()),
                    };
                    if let Some(kind) = kind {
                        kinds.insert(kind);
                    }
                }
            },
        }
    }
}

/// The active-content kinds that the marker elements of a document denote.
pub fn marker_kinds_of(xml: &[u8], source: MarkerSource) -> (r: Result<KindSet, OmError>)
    ensures
        kinds_result_view(r) == marker_kinds(xml@, source),
        r matches Ok(k) ==> k.wf(),
        fails_as_parse(r),
{
    let ghost input = xml@;
    let ghost fuel = input.len() + 1;
    let mut reader = XmlReader::new(xml, true);
    let mut kinds = KindSet::new();
    loop
        invariant
            reader.input() == input,
            input == xml@,
            reader.trim(),
            fuel == input.len() + 1,
            reader.count() <= fuel,
            reader.pos() <= input.len(),
            fuel - reader.count() >= input.len() - reader.pos() + 1,
            kinds.wf(),
            marker_kinds(input, source) == markers_run(
                input,
                source,
                reader.count(),
                kinds@,
                (fuel - reader.count()) as nat,
            ),
        decreases input.len() - reader.pos(),
    {
        let ev = match reader.read_event() {
            Ok(ev) => ev,
            Err(e) => {
                return Err(xml_error(e));
            },
        };
        if ev.kind == XmlEventKind::Eof {
            return Ok(kinds);
        }
        if (ev.kind == XmlEventKind::Start || ev.kind == XmlEventKind::Empty) && marker_element_is(
            source,
            &ev.name,
        ) {
            match add_marker_kinds(&ev.handle, source, &mut kinds) {
                Ok(()) => {},
                Err(e) => {
                    return Err(xml_error(e));
                },
            }
        }
    }
}

/// The active-content kinds named by the content types of a content-types manifest.
pub fn active_content_kinds_from_content_types(xml: &[u8]) -> (r: Result<KindSet, OmError>)
    ensures
        kinds_result_view(r) == marker_kinds(xml@, MarkerSource::ContentTypes),
        r matches Ok(k) ==> k.wf(),
        fails_as_parse(r),
{
    marker_kinds_of(xml, MarkerSource::ContentTypes)
}

/// The active-content kinds named by the relationship types of a relationships part.
pub fn active_content_kinds_from_relationships(xml: &[u8]) -> (r: Result<KindSet, OmError>)
    ensures
        kinds_result_view(r) == marker_kinds(xml@, MarkerSource::Relationships),
        r matches Ok(k) ==> k.wf(),
        fails_as_parse(r),
{
    marker_kinds_of(xml, MarkerSource::Relationships)
}

/// Whether a content-types entry applies to a file extension or to one part.
#[derive(Clone, Copy, Debug, PartialEq, Eq, Structural, PartialOrd, Ord, Hash)]
pub enum ActiveContentContentTypeEntryKind {
    Default,
    Override,
}

/// A `Default` or `Override` entry of the content-types manifest.
#[derive(Clone, Debug)]
pub struct ActiveContentRemovedContentTypeEntry {
    pub entry_kind: ActiveContentContentTypeEntryKind,
    pub selector: String,
    pub content_type: String,
}

/// The view of a content-types entry.
pub type EntryView = (ActiveContentContentTypeEntryKind, Seq<char>, Seq<char>);

impl ActiveContentRemovedContentTypeEntry {
    pub open spec fn view(&self) -> EntryView {
        (self.entry_kind, self.selector@, self.content_type@)
    }
}

/// A failure as its category and message.
pub type ErrorView = (OmErrorCode, Seq<char>);

/// The view of a failure.
pub open spec fn error_view(e: OmError) -> ErrorView {
    (e.code, e.message@)
}

/// The entry kind of a manifest element local name.
pub open spec fn entry_kind_of(local: Seq<u8>) -> Option<ActiveContentContentTypeEntryKind> {
    if local == lit("Default") {
        Some(ActiveContentContentTypeEntryKind::Default)
    } else if local == lit("Override") {
        Some(ActiveContentContentTypeEntryKind::Override)
    } else {
        None
    }
}

/// Reads, from attribute `k` on, the selector and content type of a manifest
/// entry; every attribute value is decoded, and later attributes win.
pub open spec fn entry_attrs_run(
    origin: (Seq<u8>, bool, nat),
    kind: ActiveContentContentTypeEntryKind,
    k: nat,
    selector: Option<Seq<char>>,
    content_type: Option<Seq<char>>,
    fuel: nat,
) -> Result<(Option<Seq<char>>, Option<Seq<char>>), Seq<char>>
    decreases fuel,
{
    if fuel == 0 {
        Ok((selector, content_type))
    } else {
        let f = (fuel - 1) as nat;
        match xml_attribute_at(origin.0, origin.1, origin.2, k) {
            None => Ok((selector, content_type)),
            Some(Err(m)) => Err(m),
            Some(Ok((key, raw))) => match xml_unescaped_value(raw) {
                Err(m) => Err(m),
                Ok(v) => if key == lit("Extension") && kind == ActiveContentContentTypeEntryKind::Default {
                    entry_attrs_run(origin, kind, k + 1, Some(v), content_type, f)
                } else if key == lit("PartName") && kind == ActiveContentContentTypeEntryKind::Override {
                    entry_attrs_run(origin, kind, k + 1, Some(v), content_type, f)
                } else if key == lit("ContentType") {
                    entry_attrs_run(origin, kind, k + 1, selector, Some(v), f)
                } else {
                    entry_attrs_run(origin, kind, k + 1, selector, content_type, f)
                },
            },
        }
    }
}

/// The manifest entry that the tag read as event `origin`, named `name`, is:
/// none unless it is a `Default` or `Override` element with both a selector
/// (`Extension` or `PartName`) and a `ContentType`.
pub open spec fn entry_of(origin: (Seq<u8>, bool, nat), name: Seq<u8>) -> Result<Option<EntryView>, Seq<char>> {
    match entry_kind_of(local_name(name)) {
        None => Ok(None),
        Some(kind) => match entry_attrs_run(origin, kind, 0, None, None, tag_content_len(origin) + 1) {
            Err(m) => Err(m),
            Ok((Some(sel), Some(ct))) => Ok(Some((kind, sel, ct))),
            Ok(_) => Ok(None),
        },
    }
}

/// The view of an entry-reading result.
pub open spec fn entry_result_view(r: Result<Option<ActiveContentRemovedContentTypeEntry>, OmError>) -> Result<Option<EntryView>, Seq<char>> {
    match r {
        Ok(Some(e)) => Ok(Some(e@)),
        Ok(None) => Ok(None),
        Err(e) => Err(e.message@),
    }
}

/// The manifest entry behind a start tag named `name`.
pub fn content_type_entry(handle: &TagHandle, name: &[u8]) -> (r: Result<Option<ActiveContentRemovedContentTypeEntry>, OmError>)
    ensures
        entry_result_view(r) == entry_of(handle.origin(), name@),
        fails_as_parse(r),
{
    let kind = if local_name_is(name, "Default") {
        ActiveContentContentTypeEntryKind::Default
    } else if local_name_is(name, "Override") {
        ActiveContentContentTypeEntryKind::Override
    } else {
        return Ok(None);
    };
    let ghost origin = handle.origin();
    let ghost fuel = tag_content_len(origin) + 1;
    let mut cursor = AttributeCursor::of(handle);
    let mut selector: Option<String> = None;
    let mut content_type: Option<String> = None;
    loop
        invariant
            cursor.origin() == origin,
            origin == handle.origin(),
            cursor.count() < fuel,
            fuel == tag_content_len(origin) + 1,
            entry_kind_of(local_name(name@)) == Some(kind),
            entry_attrs_run(origin, kind, 0, None, None, fuel) == entry_attrs_run(
                origin,
                kind,
                cursor.count(),
                crate::parts::opt_view(selector),
                crate::parts::opt_view(content_type),
                (fuel - cursor.count()) as nat,
            ),
        decreases fuel - cursor.count(),
    {
        match cursor.next() {
            None => {
                return match (selector, content_type) {
                    (Some(selector), Some(content_type)) => Ok(
                        Some(ActiveContentRemovedContentTypeEntry { entry_kind: kind, selector, content_type }),
                    ),
                    _ => Ok(None),
                };
            },
            Some(Err(e)) => {
                return Err(xml_error(e));
            },
            Some(Ok(a)) => {
                let value = match unescape_value(&a.value) {
                    Ok(v) => v,
                    Err(e) => {
                        return Err(xml_error(e));
                    },
                };
                if bytes_eq_lit(&a.key, "Extension") && kind == ActiveContentContentTypeEntryKind::Default {
                    selector = Some(value);
                } else if bytes_eq_lit(&a.key, "PartName") && kind == ActiveContentContentTypeEntryKind::Override {
                    selector = Some(value);
                } else if bytes_eq_lit(&a.key, "ContentType") {
                    content_type = Some(value);
                }
            },
        }
    }
}

/// The message for an `Override` entry whose part name has no identity.
pub open spec fn invalid_selector_message(selector: Seq<char>) -> Seq<char> {
    "active-content strip found an invalid content type Override PartName "@ + selector
        + ": part name has an empty segment"@
}

/// The message for a part name without identity.
pub open spec fn empty_segment_message() -> Seq<char> {
    "part name has an empty segment"@
}

/// Whether some removed part name, from position `j` on, has identity `id`;
/// a removed name without identity is an invalid-state failure.
pub open spec fn removed_match_run(id: Seq<char>, removed: Seq<Seq<char>>, j: int) -> Result<bool, ErrorView>
    decreases removed.len() - j,
{
    if j >= removed.len() || j < 0 {
        Ok(false)
    } else {
        match part_identity(removed[j]) {
            None => Err((OmErrorCode::InvalidState, empty_segment_message())),
            Some(pid) => if pid == id {
                Ok(true)
            } else {
                removed_match_run(id, removed, j + 1)
            },
        }
    }
}

/// A manifest entry is stripped when its content type is active content, or
/// when it is an `Override` for one of the removed parts.
pub open spec fn should_strip(entry: EntryView, removed: Seq<Seq<char>>) -> Result<bool, ErrorView> {
    if content_type_kind(entry.2) is Some {
        Ok(true)
    } else if entry.0 != ActiveContentContentTypeEntryKind::Override {
        Ok(false)
    } else {
        match part_identity(entry.1) {
            None => Err((OmErrorCode::InvalidState, invalid_selector_message(entry.1))),
            Some(id) => removed_match_run(id, removed, 0),
        }
    }
}

/// The view of a boolean result.
pub open spec fn bool_result_view(r: Result<bool, OmError>) -> Result<bool, ErrorView> {
    match r {
        Ok(b) => Ok(b),
        Err(e) => Err(error_view(e)),
    }
}

/// Whether a manifest entry must be stripped given the removed part names.
pub fn should_strip_content_type_entry(entry: &ActiveContentRemovedContentTypeEntry, removed_part_uris: &Vec<String>) -> (r: Result<bool, OmError>)
    ensures
        bool_result_view(r) == should_strip(entry@, crate::parts::string_views(removed_part_uris@)),
{
    if active_content_kind_from_content_type(entry.content_type.as_str()).is_some() {
        return Ok(true);
    }
    if entry.entry_kind != ActiveContentContentTypeEntryKind::Override {
        return Ok(false);
    }
    let id = match canonical_part_identity(entry.selector.as_str()) {
        Ok(id) => id,
        Err(_) => {
            let mut message = String::from_str("active-content strip found an invalid content type Override PartName ");
            message.append(entry.selector.as_str());
            message.append(": part name has an empty segment");
            return Err(OmError { code: OmErrorCode::InvalidState, message });
        },
    };
    let ghost removed = crate::parts::string_views(removed_part_uris@);
    let mut j: usize = 0;
    while j < removed_part_uris.len()
        invariant
            j <= removed_part_uris@.len(),
            removed == crate::parts::string_views(removed_part_uris@),
            part_identity(entry.selector@) == Some(id@),
            should_strip(entry@, removed) == removed_match_run(id@, removed, j as int),
        decreases removed_part_uris@.len() - j,
    {
        let candidate = match canonical_part_identity(removed_part_uris[j].as_str()) {
            Ok(c) => c,
            Err(e) => {
                return Err(OmError { code: OmErrorCode::InvalidState, message: String::from_str("part name has an empty segment") });
            },
        };
        if chars_same(&candidate, &id) {
            return Ok(true);
        }
        j += 1;
    }
    Ok(false)
}

fn chars_same(a: &[char], b: &[char]) -> (r: bool)
    ensures
        r == (a@ == b@),
{
    if a.len() != b.len() {
        return false;
    }
    let mut i: usize = 0;
    while i < a.len()
        invariant
            a@.len() == b@.len(),
            i <= a@.len(),
            forall|j: int| 0 <= j < i ==> a@[j] == b@[j],
        decreases a@.len() - i,
    {
        if a[i] != b[i] {
            return false;
        }
        i += 1;
    }
    assert(a@ =~= b@);
    true
}

/// Copies a content-types manifest from event `i` on, leaving out the entries
/// that must be stripped and collecting them.
pub open spec fn strip_entries_run(
    input: Seq<u8>,
    removed: Seq<Seq<char>>,
    i: nat,
    skip: nat,
    out: Seq<u8>,
    entries: Seq<EntryView>,
    fuel: nat,
) -> Result<(Seq<u8>, Seq<EntryView>), ErrorView>
    decreases fuel,
{
    if fuel == 0 {
        Ok((out, entries))
    } else {
        let f = (fuel - 1) as nat;
        match xml_read_result(input, false, i) {
            Err(m) => Err((OmErrorCode::Parse, m)),
            Ok(e) => if e.kind == XmlEventKind::Eof {
                Ok((out, entries))
            } else if skip > 0 {
                let next = if e.kind == XmlEventKind::Start {
                    skip + 1
                } else if e.kind == XmlEventKind::End {
                    (skip - 1) as nat
                } else {
                    skip
                };
                strip_entries_run(input, removed, i + 1, next, out, entries, f)
            } else if e.kind == XmlEventKind::Start || e.kind == XmlEventKind::Empty {
                match entry_of((input, false, i), e.name) {
                    Err(m) => Err((OmErrorCode::Parse, m)),
                    Ok(Some(en)) => match should_strip(en, removed) {
                        Err(x) => Err(x),
                        Ok(true) => strip_entries_run(
                            input,
                            removed,
                            i + 1,
                            if e.kind == XmlEventKind::Start { 1 } else { 0 },
                            out,
                            entries.push(en),
                            f,
                        ),
                        Ok(false) => strip_entries_run(input, removed, i + 1, 0, out + written(e), entries, f),
                    },
                    Ok(None) => strip_entries_run(input, removed, i + 1, 0, out + written(e), entries, f),
                }
            } else {
                strip_entries_run(input, removed, i + 1, 0, out + written(e), entries, f)
            },
        }
    }
}

/// A content-types manifest without the entries that must be stripped, and those entries in order.
pub open spec fn strip_entries(input: Seq<u8>, removed: Seq<Seq<char>>) -> Result<(Seq<u8>, Seq<EntryView>), ErrorView> {
    strip_entries_run(input, removed, 0, 0, Seq::empty(), Seq::empty(), input.len() + 1)
}

/// The views of a list of entries.
pub open spec fn entry_views(v: Seq<ActiveContentRemovedContentTypeEntry>) -> Seq<EntryView> {
    v.map_values(|e: ActiveContentRemovedContentTypeEntry| e@)
}

/// The view of a manifest-stripping result.
pub open spec fn strip_entries_view(r: Result<(Vec<u8>, Vec<ActiveContentRemovedContentTypeEntry>), OmError>) -> Result<(Seq<u8>, Seq<EntryView>), ErrorView> {
    match r {
        Ok((xml, entries)) => Ok((xml@, entry_views(entries@))),
        Err(e) => Err(error_view(e)),
    }
}

/// Removes from a content-types manifest the entries for active content and
/// for removed parts, and returns them.
pub fn strip_active_content_type_entries(content_types_xml: &[u8], removed_part_uris: &Vec<String>) -> (r: Result<(Vec<u8>, Vec<ActiveContentRemovedContentTypeEntry>), OmError>)
    ensures
        strip_entries_view(r) == strip_entries(content_types_xml@, crate::parts::string_views(removed_part_uris@)),
{
    let ghost input = content_types_xml@;
    let ghost removed = crate::parts::string_views(removed_part_uris@);
    let ghost fuel = input.len() + 1;
    let mut reader = XmlReader::new(content_types_xml, false);
    let mut out: Vec<u8> = Vec::new();
    let mut entries: Vec<ActiveContentRemovedContentTypeEntry> = Vec::new();
    let mut skip: usize = 0;
    assert(entry_views(entries@) =~= Seq::<EntryView>::empty());
    loop
        invariant
            reader.input() == input,
            input == content_types_xml@,
            removed == crate::parts::string_views(removed_part_uris@),
            !reader.trim(),
            fuel == input.len() + 1,
            reader.count() <= fuel,
            reader.pos() <= input.len(),
            fuel - reader.count() >= input.len() - reader.pos() + 1,
            skip <= reader.count(),
            strip_entries(input, removed) == strip_entries_run(
                input,
                removed,
                reader.count(),
                skip as nat,
                out@,
                entry_views(entries@),
                (fuel - reader.count()) as nat,
            ),
        decreases input.len() - reader.pos(),
    {
        let ev = match reader.read_event() {
            Ok(ev) => ev,
            Err(e) => {
                return Err(xml_error(e));
            },
        };
        if ev.kind == XmlEventKind::Eof {
            return Ok((out, entries));
        }
        if skip > 0 {
            if ev.kind == XmlEventKind::Start {
                skip += 1;
            } else if ev.kind == XmlEventKind::End {
                skip -= 1;
            }
        } else if ev.kind == XmlEventKind::Start || ev.kind == XmlEventKind::Empty {
            let entry = match content_type_entry(&ev.handle, &ev.name) {
                Ok(en) => en,
                Err(e) => {
                    return Err(e);
                },
            };
            match entry {
                Some(en) => {
                    let strip = match should_strip_content_type_entry(&en, removed_part_uris) {
                        Ok(b) => b,
                        Err(e) => {
                            return Err(e);
                        },
                    };
                    if strip {
                        let ghost before = entries@;
                        entries.push(en);
                        assert(entry_views(entries@) =~= entry_views(before).push(entries@.last()@));
                        if ev.kind == XmlEventKind::Start {
                            skip = 1;
                        }
                    } else {
                        write_event(&mut out, &ev);
                    }
                },
                None => {
                    write_event(&mut out, &ev);
                },
            }
        } else {
            write_event(&mut out, &ev);
        }
    }
}

/// The relationships namespace of transitional documents.
pub open spec fn transitional_relationship_namespace() -> Seq<u8> {
    lit("http://schemas.openxmlformats.org/officeDocument/2006/relationships")
}

/// The relationships namespace of strict documents.
pub open spec fn strict_relationship_namespace() -> Seq<u8> {
    lit("http://purl.oclc.org/ooxml/officeDocument/relationships")
}

/// The position just after the first `:` of a key, or 0.
pub open spec fn first_colon_end(key: Seq<u8>) -> int
    decreases key.len(),
{
    if key.len() == 0 {
        0
    } else if key[0] == 58u8 {
        1
    } else {
        let r = first_colon_end(key.drop_first());
        if r == 0 { 0 } else { r + 1 }
    }
}

/// The local part of an attribute key: the bytes after its first `:`.
pub open spec fn attribute_local_name(key: Seq<u8>) -> Seq<u8> {
    key.skip(first_colon_end(key))
}

/// Whether a key holds a `:`.
pub open spec fn has_colon(key: Seq<u8>) -> bool {
    exists|j: int| 0 <= j < key.len() && key[j] == 58u8
}

proof fn lemma_first_colon_end(key: Seq<u8>)
    ensures
        0 <= first_colon_end(key) <= key.len(),
        first_colon_end(key) == 0 <==> !has_colon(key),
        first_colon_end(key) > 0 ==> key[first_colon_end(key) - 1] == 58u8 && forall|j: int|
            0 <= j < first_colon_end(key) - 1 ==> key[j] != 58u8,
    decreases key.len(),
{
    if key.len() > 0 && key[0] != 58u8 {
        let t = key.drop_first();
        lemma_first_colon_end(t);
        if has_colon(key) {
            let j = choose|j: int| 0 <= j < key.len() && key[j] == 58u8;
            assert(t[j - 1] == 58u8);
        }
        if has_colon(t) {
            let j = choose|j: int| 0 <= j < t.len() && t[j] == 58u8;
            assert(key[j + 1] == 58u8);
        }
        if first_colon_end(key) > 0 {
            assert forall|j: int| 0 <= j < first_colon_end(key) - 1 implies key[j] != 58u8 by {
                if j > 0 {
                    assert(key[j] == t[j - 1]);
                }
            }
        }
    } else if key.len() > 0 {
        assert(has_colon(key)) by {
            assert(key[0] == 58u8);
        }
    }
}

fn attribute_local_name_exec(key: &[u8]) -> (r: (Vec<u8>, bool))
    ensures
        r.0@ == attribute_local_name(key@),
        r.1 == has_colon(key@),
{
    proof {
        lemma_first_colon_end(key@);
    }
    let mut i: usize = 0;
    while i < key.len() && key[i] != 58u8
        invariant
            i <= key@.len(),
            forall|j: int| 0 <= j < i ==> key@[j] != 58u8,
            0 <= first_colon_end(key@) <= key@.len(),
            first_colon_end(key@) == 0 <==> !has_colon(key@),
            first_colon_end(key@) > 0 ==> key@[first_colon_end(key@) - 1] == 58u8 && forall|j: int|
                0 <= j < first_colon_end(key@) - 1 ==> key@[j] != 58u8,
        decreases key@.len() - i,
    {
        i += 1;
    }
    let (start, colon) = if i < key.len() {
        assert(has_colon(key@)) by {
            assert(key@[i as int] == 58u8);
        }
        (i + 1, true)
    } else {
        (0, false)
    };
    assert(start == first_colon_end(key@));
    let mut out: Vec<u8> = Vec::new();
    let mut k: usize = start;
    while k < key.len()
        invariant
            start <= k <= key@.len(),
            out@ == key@.subrange(start as int, k as int),
        decreases key@.len() - k,
    {
        out.push(key[k]);
        k += 1;
    }
    assert(out@ =~= attribute_local_name(key@));
    (out, colon)
}

/// Whether, from attribute `k` on, a tag read as event `i` (after `i + 1`
/// events) has a relationship `id` attribute whose value is in `ids`.
pub open spec fn anchor_run(
    input: Seq<u8>,
    i: nat,
    ids: Set<Seq<char>>,
    k: nat,
    fuel: nat,
) -> Result<bool, Seq<char>>
    decreases fuel,
{
    if fuel == 0 {
        Ok(false)
    } else {
        let f = (fuel - 1) as nat;
        match xml_attribute_at(input, false, i, k) {
            None => Ok(false),
            Some(Err(m)) => Err(m),
            Some(Ok((key, raw))) => if attribute_local_name(key) != lit("id") {
                anchor_run(input, i, ids, k + 1, f)
            } else {
                let relationship_attribute = match xml_attribute_namespace(input, false, i + 1, key) {
                    AttributeNamespaceView::Bound(ns) => ns == transitional_relationship_namespace()
                        || ns == strict_relationship_namespace(),
                    AttributeNamespaceView::Unknown(_) => has_colon(key),
                    AttributeNamespaceView::Unbound => false,
                };
                if !relationship_attribute {
                    anchor_run(input, i, ids, k + 1, f)
                } else {
                    match xml_unescaped_value(raw) {
                        Err(m) => Err(m),
                        Ok(v) => if ids.contains(v) {
                            Ok(true)
                        } else {
                            anchor_run(input, i, ids, k + 1, f)
                        },
                    }
                }
            },
        }
    }
}

/// Whether the tag read as event `i` anchors a removed relationship.
pub open spec fn has_removed_anchor(input: Seq<u8>, i: nat, ids: Set<Seq<char>>) -> Result<bool, Seq<char>> {
    anchor_run(input, i, ids, 0, tag_content_len((input, false, i)) + 1)
}

/// Whether a tag, just read by `reader`, has a relationship `id` attribute
/// (in the transitional or strict relationships namespace, or with an
/// unresolved prefix) whose value is one of `relationship_ids`.
pub fn element_has_removed_relationship_anchor(
    reader: &NsXmlReader,
    handle: &TagHandle,
    relationship_ids: &Vec<String>,
) -> (r: Result<bool, OmError>)
    requires
        reader.count() > 0,
        handle.origin() == (reader.input(), false, (reader.count() - 1) as nat),
        !reader.trim(),
    ensures
        match r {
            Ok(b) => has_removed_anchor(reader.input(), (reader.count() - 1) as nat, names(relationship_ids@)) == Ok::<bool, Seq<char>>(b),
            Err(e) => has_removed_anchor(reader.input(), (reader.count() - 1) as nat, names(relationship_ids@)) == Err::<bool, Seq<char>>(e.message@),
        },
        fails_as_parse(r),
{
    let ghost origin = handle.origin();
    let ghost input = reader.input();
    let ghost i = (reader.count() - 1) as nat;
    let ghost ids = names(relationship_ids@);
    let ghost fuel = tag_content_len(origin) + 1;
    let mut cursor = AttributeCursor::of(handle);
    loop
        invariant
            cursor.origin() == origin,
            origin == handle.origin(),
            origin == (input, false, i),
            input == reader.input(),
            i + 1 == reader.count(),
            !reader.trim(),
            ids == names(relationship_ids@),
            cursor.count() < fuel,
            fuel == tag_content_len(origin) + 1,
            has_removed_anchor(input, i, ids) == anchor_run(
                input,
                i,
                ids,
                cursor.count(),
                (fuel - cursor.count()) as nat,
            ),
        decreases fuel - cursor.count(),
    {
        match cursor.next() {
            None => {
                return Ok(false);
            },
            Some(Err(e)) => {
                return Err(xml_error(e));
            },
            Some(Ok(a)) => {
                let (local, colon) = attribute_local_name_exec(&a.key);
                if bytes_eq_lit(&local, "id") {
                    let relationship_attribute = match reader.resolve_attribute(&a.key) {
                        AttributeNamespace::Bound(ns) => bytes_eq_lit(
                            &ns,
                            "http://schemas.openxmlformats.org/officeDocument/2006/relationships",
                        ) || bytes_eq_lit(&ns, "http://purl.oclc.org/ooxml/officeDocument/relationships"),
                        AttributeNamespace::Unknown(_) => colon,
                        AttributeNamespace::Unbound => false,
                    };
                    if relationship_attribute {
                        let value = match unescape_value(&a.value) {
                            Ok(v) => v,
                            Err(e) => {
                                return Err(xml_error(e));
                            },
                        };
                        if contains_name(relationship_ids, &value) {
                            return Ok(true);
                        }
                    }
                }
            },
        }
    }
}

/// The message for an anchor on the document element.
pub open spec fn root_anchor_message() -> Seq<char> {
    "active-content strip cannot remove an XML document root relationship anchor"@
}

/// Copies an owner document from event `i` on, leaving out every element that
/// anchors a removed relationship, subtree included; `depth` is the document
/// depth, `skip` the depth still to leave out, `removed` whether an anchor
/// was left out.
pub open spec fn anchors_run(
    input: Seq<u8>,
    ids: Set<Seq<char>>,
    i: nat,
    depth: nat,
    skip: nat,
    removed: bool,
    out: Seq<u8>,
    fuel: nat,
) -> Result<(Seq<u8>, bool), ErrorView>
    decreases fuel,
{
    if fuel == 0 {
        Ok((out, removed))
    } else {
        let f = (fuel - 1) as nat;
        let up: nat = if depth > 0 { (depth - 1) as nat } else { 0 };
        match ns_read_result(input, false, i) {
            Err(m) => Err((OmErrorCode::Parse, m)),
            Ok(e) => if e.kind == XmlEventKind::Start && skip > 0 {
                anchors_run(input, ids, i + 1, depth + 1, skip + 1, removed, out, f)
            } else if e.kind == XmlEventKind::End && skip > 0 {
                anchors_run(input, ids, i + 1, up, (skip - 1) as nat, removed, out, f)
            } else if e.kind == XmlEventKind::Start {
                match has_removed_anchor(input, i, ids) {
                    Err(m) => Err((OmErrorCode::Parse, m)),
                    Ok(true) => if depth == 0 {
                        Err((OmErrorCode::InvalidState, root_anchor_message()))
                    } else {
                        anchors_run(input, ids, i + 1, depth + 1, 1, true, out, f)
                    },
                    Ok(false) => anchors_run(input, ids, i + 1, depth + 1, 0, removed, out + written(e), f),
                }
            } else if e.kind == XmlEventKind::Empty && skip == 0 {
                match has_removed_anchor(input, i, ids) {
                    Err(m) => Err((OmErrorCode::Parse, m)),
                    Ok(true) => if depth == 0 {
                        Err((OmErrorCode::InvalidState, root_anchor_message()))
                    } else {
                        anchors_run(input, ids, i + 1, depth, 0, true, out, f)
                    },
                    Ok(false) => anchors_run(input, ids, i + 1, depth, 0, removed, out + written(e), f),
                }
            } else if e.kind == XmlEventKind::End {
                anchors_run(input, ids, i + 1, up, 0, removed, out + written(e), f)
            } else if e.kind == XmlEventKind::Eof {
                Ok((out, removed))
            } else if skip == 0 {
                anchors_run(input, ids, i + 1, depth, 0, removed, out + written(e), f)
            } else {
                anchors_run(input, ids, i + 1, depth, skip, removed, out, f)
            },
        }
    }
}

/// An owner document without the elements that anchor removed relationships;
/// when one was left out, empty `controls` and `oleObjects` containers go too.
pub open spec fn strip_anchors(input: Seq<u8>, ids: Set<Seq<char>>) -> Result<Seq<u8>, ErrorView> {
    match anchors_run(input, ids, 0, 0, 0, false, Seq::empty(), input.len() + 1) {
        Err(x) => Err(x),
        Ok((out, removed)) => if removed {
            match strip_empty_containers(out) {
                Ok(v) => Ok(v),
                Err(m) => Err((OmErrorCode::Parse, m)),
            }
        } else {
            Ok(out)
        },
    }
}

/// The view of a byte-producing result with the failure's category.
pub open spec fn bytes_error_view(r: Result<Vec<u8>, OmError>) -> Result<Seq<u8>, ErrorView> {
    match r {
        Ok(v) => Ok(v@),
        Err(e) => Err(error_view(e)),
    }
}

/// Removes from an owner part the elements that anchor the given relationships.
pub fn strip_relationship_anchors_from_owner_xml(owner_xml: &[u8], relationship_ids: &Vec<String>) -> (r: Result<Vec<u8>, OmError>)
    ensures
        bytes_error_view(r) == strip_anchors(owner_xml@, names(relationship_ids@)),
{
    let ghost input = owner_xml@;
    let ghost ids = names(relationship_ids@);
    let ghost fuel = input.len() + 1;
    let mut reader = NsXmlReader::new(owner_xml, false);
    let mut out: Vec<u8> = Vec::new();
    let mut depth: usize = 0;
    let mut skip: usize = 0;
    let mut removed = false;
    loop
        invariant
            reader.input() == input,
            input == owner_xml@,
            ids == names(relationship_ids@),
            !reader.trim(),
            fuel == input.len() + 1,
            reader.count() <= fuel,
            reader.pos() <= input.len(),
            fuel - reader.count() >= input.len() - reader.pos() + 1,
            depth <= reader.count(),
            skip <= reader.count(),
            anchors_run(input, ids, 0, 0, 0, false, Seq::empty(), fuel) == anchors_run(
                input,
                ids,
                reader.count(),
                depth as nat,
                skip as nat,
                removed,
                out@,
                (fuel - reader.count()) as nat,
            ),
        decreases input.len() - reader.pos(),
    {
        let ev = match reader.read_event() {
            Ok(ev) => ev,
            Err(e) => {
                return Err(xml_error(e));
            },
        };
        if ev.kind == XmlEventKind::Start && skip > 0 {
            skip += 1;
            depth += 1;
        } else if ev.kind == XmlEventKind::End && skip > 0 {
            skip -= 1;
            if depth > 0 {
                depth -= 1;
            }
        } else if ev.kind == XmlEventKind::Start {
            let anchored = match element_has_removed_relationship_anchor(&reader, &ev.handle, relationship_ids) {
                Ok(b) => b,
                Err(e) => {
                    return Err(e);
                },
            };
            if anchored {
                if depth == 0 {
                    return Err(OmError {
                        code: OmErrorCode::InvalidState,
                        message: String::from_str(
                            "active-content strip cannot remove an XML document root relationship anchor",
                        ),
                    });
                }
                skip = 1;
                removed = true;
            } else {
                write_event(&mut out, &ev);
            }
            depth += 1;
        } else if ev.kind == XmlEventKind::Empty && skip == 0 {
            let anchored = match element_has_removed_relationship_anchor(&reader, &ev.handle, relationship_ids) {
                Ok(b) => b,
                Err(e) => {
                    return Err(e);
                },
            };
            if anchored {
                if depth == 0 {
                    return Err(OmError {
                        code: OmErrorCode::InvalidState,
                        message: String::from_str(
                            "active-content strip cannot remove an XML document root relationship anchor",
                        ),
                    });
                }
                removed = true;
            } else {
                write_event(&mut out, &ev);
            }
        } else if ev.kind == XmlEventKind::End {
            if depth > 0 {
                depth -= 1;
            }
            write_event(&mut out, &ev);
        } else if ev.kind == XmlEventKind::Eof {
            if removed {
                return strip_empty_active_content_containers(&out);
            }
            return Ok(out);
        } else if skip == 0 {
            write_event(&mut out, &ev);
        }
    }
}

} // verus!
