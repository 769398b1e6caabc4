//! Series-level rewrites of loaded chart XML: dropping the full-reference
//! elements of a chart extension, and renaming the outer element of a
//! series.
use vstd::prelude::*;
use crate::errors::{OmError, OmErrorCode};
use crate::package_xml::{error_view, xml_error, ErrorView};
use crate::chart_patch::parse_bytes_view;
use crate::xml::{
    append_bytes, bytes_eq_lit, lit, local_name, tag_content_len, write_event, written, xml_attribute_at,
    xml_local_name, xml_read_result, AttributeCursor, TagHandle, XmlEventKind, XmlReader,
};

verus! {

/// Copies a chart extension from event `i` on, leaving out every `fullRef`
/// element below the root with its content; `retained` records whether a
/// child of the root was kept.
pub open spec fn ext_run(
    input: Seq<u8>,
    i: nat,
    depth: nat,
    skip: nat,
    retained: bool,
    out: Seq<u8>,
    fuel: nat,
) -> Result<Option<Seq<u8>>, ErrorView>
    decreases fuel,
{
    if fuel == 0 {
        Ok(if retained { Some(out) } else { None })
    } else {
        let f = (fuel - 1) as nat;
        match xml_read_result(input, false, i) {
            Err(m) => Err((OmErrorCode::Parse, m)),
            Ok(e) => {
                let local = local_name(e.name);
                let full_ref = depth > 0 && local == lit("fullRef");
                if e.kind == XmlEventKind::Eof {
                    Ok(if retained { Some(out) } else { None })
                } else if skip > 0 {
                    let next = if e.kind == XmlEventKind::Start {
                        skip + 1
                    } else if e.kind == XmlEventKind::End {
                        (skip - 1) as nat
                    } else {
                        skip
                    };
                    ext_run(input, i + 1, depth, next, retained, out, f)
                } else if e.kind == XmlEventKind::Start {
                    if full_ref {
                        ext_run(input, i + 1, depth, 1, retained, out, f)
                    } else {
                        ext_run(input, i + 1, depth + 1, 0, retained || depth == 1, out + written(e), f)
                    }
                } else if e.kind == XmlEventKind::Empty {
                    if full_ref {
                        ext_run(input, i + 1, depth, 0, retained, out, f)
                    } else {
                        ext_run(input, i + 1, depth, 0, retained || depth == 1, out + written(e), f)
                    }
                } else if e.kind == XmlEventKind::End {
                    let up = if depth > 0 { (depth - 1) as nat } else { 0 };
                    ext_run(input, i + 1, up, 0, retained, out + written(e), f)
                } else {
                    ext_run(input, i + 1, depth, 0, retained, out + written(e), f)
                }
            },
        }
    }
}

/// A chart extension without its full references: the copy, or `None` when
/// no child of the root is left.
pub open spec fn extension_without_full_reference(input: Seq<u8>) -> Result<Option<Seq<u8>>, ErrorView> {
    ext_run(input, 0, 0, 0, false, Seq::empty(), input.len() + 1)
}

/// The view of an optional byte result.
pub open spec fn opt_bytes_result(r: Result<Option<Vec<u8>>, OmError>) -> Result<Option<Seq<u8>>, ErrorView> {
    match r {
        Ok(Some(v)) => Ok(Some(v@)),
        Ok(None) => Ok(None),
        Err(e) => Err(error_view(e)),
    }
}

/// Copies a chart extension element without the `fullRef` elements inside
/// it; `None` when nothing but full references was inside the root. The end
/// of the input ends the copy, also inside a full reference.
pub fn chart_extension_without_full_reference(extension_xml: &[u8]) -> (r: Result<Option<Vec<u8>>, OmError>)
    ensures
        opt_bytes_result(r) == extension_without_full_reference(extension_xml@),
{
    let ghost input = extension_xml@;
    let ghost fuel = input.len() + 1;
    let mut reader = XmlReader::new(extension_xml, false);
    let mut out: Vec<u8> = Vec::new();
    let mut depth: usize = 0;
    let mut skip: usize = 0;
    let mut retained = false;
    loop
        invariant
            reader.input() == input,
            input == extension_xml@,
            !reader.trim(),
            fuel == input.len() + 1,
            reader.count() <= fuel,
            reader.pos() <= input.len(),
            fuel - reader.count() >= input.len() - reader.pos() + 1,
            depth <= reader.count(),
            skip <= reader.count(),
            extension_without_full_reference(input) == ext_run(
                input,
                reader.count(),
                depth as nat,
                skip as nat,
                retained,
                out@,
                (fuel - reader.count()) as nat,
            ),
        decreases input.len() - reader.pos(),
    {
        let ev = match reader.read_event() {
            Ok(ev) => ev,
            Err(e) => {
                return Err(xml_error(e));
            },
        };
        if ev.kind == XmlEventKind::Eof {
            return Ok(if retained { Some(out) } else { None });
        }
        let local = xml_local_name(&ev.name);
        let full_ref = depth > 0 && bytes_eq_lit(local.as_slice(), "fullRef");
        if skip > 0 {
            if ev.kind == XmlEventKind::Start {
                skip = skip + 1;
            } else if ev.kind == XmlEventKind::End {
                skip = skip - 1;
            }
        } else if ev.kind == XmlEventKind::Start {
            if full_ref {
                skip = 1;
            } else {
                retained = retained || depth == 1;
                write_event(&mut out, &ev);
                depth = depth + 1;
            }
        } else if ev.kind == XmlEventKind::Empty {
            if !full_ref {
                retained = retained || depth == 1;
                write_event(&mut out, &ev);
            }
        } else if ev.kind == XmlEventKind::End {
            write_event(&mut out, &ev);
            if depth > 0 {
                depth = depth - 1;
            }
        } else {
            write_event(&mut out, &ev);
        }
    }
}

/// The namespace declaration a renamed `c:ser` gets when it has none.
pub open spec fn chart_namespace_attribute() -> Seq<u8> {
    lit(" xmlns:c=\"http://schemas.openxmlformats.org/drawingml/2006/chart\"")
}

/// The attributes of the tag read as event `origin`, from attribute `k` on,
/// written back as they were read, and whether one of them is `xmlns:c`.
pub open spec fn copied_attrs_run(
    origin: (Seq<u8>, bool, nat),
    k: nat,
    acc: Seq<u8>,
    has_ns: bool,
    fuel: nat,
) -> Result<(Seq<u8>, bool), Seq<char>>
    decreases fuel,
{
    if fuel == 0 {
        Ok((acc, has_ns))
    } else {
        match xml_attribute_at(origin.0, origin.1, origin.2, k) {
            None => Ok((acc, has_ns)),
            Some(Err(m)) => Err(m),
            Some(Ok((key, raw))) => copied_attrs_run(
                origin,
                k + 1,
                acc + seq![32u8] + key + seq![61u8, 34u8] + raw + seq![34u8],
                has_ns || key == lit("xmlns:c"),
                (fuel - 1) as nat,
            ),
        }
    }
}

/// The content of a series start tag renamed to `name`: the new name, the
/// tag's attributes as read, and the chart namespace when the new name is
/// `c:ser` and the tag does not declare it.
pub open spec fn renamed_ser_tag(origin: (Seq<u8>, bool, nat), name: Seq<u8>) -> Result<Seq<u8>, Seq<char>> {
    match copied_attrs_run(origin, 0, name, false, tag_content_len(origin) + 1) {
        Err(m) => Err(m),
        Ok((c, has_ns)) => Ok(
            if name == lit("c:ser") && !has_ns {
                c + chart_namespace_attribute()
            } else {
                c
            },
        ),
    }
}

fn renamed_ser_start(handle: &TagHandle, qualified_name: &str) -> (r: Result<Vec<u8>, OmError>)
    ensures
        parse_bytes_view(r) == renamed_ser_tag(handle.origin(), vstd::utf8::encode_utf8(qualified_name@)),
        r matches Err(e) ==> e.code == OmErrorCode::Parse,
{
    let ghost origin = handle.origin();
    let ghost fuel = tag_content_len(origin) + 1;
    let ghost name = vstd::utf8::encode_utf8(qualified_name@);
    let mut out: Vec<u8> = Vec::new();
    append_bytes(&mut out, qualified_name.as_bytes());
    let mut has_ns = false;
    let mut cursor = AttributeCursor::of(handle);
    assert(out@ =~= name);
    loop
        invariant
            cursor.origin() == origin,
            origin == handle.origin(),
            cursor.count() < fuel,
            fuel == tag_content_len(origin) + 1,
            name == vstd::utf8::encode_utf8(qualified_name@),
            renamed_ser_tag(origin, name) == match copied_attrs_run(
                origin,
                cursor.count(),
                out@,
                has_ns,
                (fuel - cursor.count()) as nat,
            ) {
                Err(m) => Err(m),
                Ok((c, h)) => Ok::<Seq<u8>, Seq<char>>(if name == lit("c:ser") && !h { c + chart_namespace_attribute() } else { c }),
            },
        decreases fuel - cursor.count(),
    {
        match cursor.next() {
            None => {
                if bytes_eq_lit(qualified_name.as_bytes(), "c:ser") && !has_ns {
                    append_bytes(&mut out, " xmlns:c=\"http://schemas.openxmlformats.org/drawingml/2006/chart\"".as_bytes());
                }
                return Ok(out);
            },
            Some(Err(e)) => {
                return Err(xml_error(e));
            },
            Some(Ok(a)) => {
                let ghost before = out@;
                has_ns = has_ns || bytes_eq_lit(a.key.as_slice(), "xmlns:c");
                out.push(32u8);
                append_bytes(&mut out, a.key.as_slice());
                out.push(61u8);
                out.push(34u8);
                append_bytes(&mut out, a.value.as_slice());
                out.push(34u8);
                assert(out@ =~= before + seq![32u8] + a.key@ + seq![61u8, 34u8] + a.value@ + seq![34u8]);
            },
        }
    }
}

/// Rewrites a series from event `i` on: the outermost `ser` element takes
/// the name `name`, everything else is copied.
pub open spec fn outer_run(input: Seq<u8>, i: nat, depth: nat, name: Seq<u8>, out: Seq<u8>, fuel: nat) -> Result<
    Seq<u8>,
    ErrorView,
>
    decreases fuel,
{
    if fuel == 0 {
        Ok(out)
    } else {
        let f = (fuel - 1) as nat;
        match xml_read_result(input, false, i) {
            Err(m) => Err((OmErrorCode::Parse, m)),
            Ok(e) => {
                let local = local_name(e.name);
                if e.kind == XmlEventKind::Eof {
                    Ok(out)
                } else if e.kind == XmlEventKind::Start {
                    if depth + 1 == 1 && local == lit("ser") {
                        match renamed_ser_tag((input, false, i), name) {
                            Err(m) => Err((OmErrorCode::Parse, m)),
                            Ok(c) => outer_run(input, i + 1, depth + 1, name, out + seq![60u8] + c + seq![62u8], f),
                        }
                    } else {
                        outer_run(input, i + 1, depth + 1, name, out + written(e), f)
                    }
                } else if e.kind == XmlEventKind::End {
                    let up = if depth > 0 { (depth - 1) as nat } else { 0 };
                    if depth == 1 && local == lit("ser") {
                        outer_run(input, i + 1, up, name, out + seq![60u8, 47u8] + name + seq![62u8], f)
                    } else {
                        outer_run(input, i + 1, up, name, out + written(e), f)
                    }
                } else {
                    outer_run(input, i + 1, depth, name, out + written(e), f)
                }
            },
        }
    }
}

/// A series with its outermost `ser` element renamed.
pub open spec fn series_outer_renamed(input: Seq<u8>, name: Seq<u8>) -> Result<Seq<u8>, ErrorView> {
    outer_run(input, 0, 0, name, Seq::empty(), input.len() + 1)
}

/// Renames the outermost `ser` element of a series (to `c:ser` or
/// `c15:ser`), keeping its attributes and adding the chart namespace to a
/// `c:ser` that lacks it.
pub fn rewrite_chart_series_outer_name(series_xml: &[u8], qualified_name: &str) -> (r: Result<Vec<u8>, OmError>)
    ensures
        crate::chart_topology::bytes_error_result(r) == series_outer_renamed(series_xml@, vstd::utf8::encode_utf8(qualified_name@)),
{
    let ghost input = series_xml@;
    let ghost fuel = input.len() + 1;
    let ghost name = vstd::utf8::encode_utf8(qualified_name@);
    let mut reader = XmlReader::new(series_xml, false);
    let mut out: Vec<u8> = Vec::new();
    let mut depth: usize = 0;
    loop
        invariant
            reader.input() == input,
            input == series_xml@,
            !reader.trim(),
            fuel == input.len() + 1,
            reader.count() <= fuel,
            reader.pos() <= input.len(),
            fuel - reader.count() >= input.len() - reader.pos() + 1,
            depth <= reader.count(),
            name == vstd::utf8::encode_utf8(qualified_name@),
            series_outer_renamed(input, name) == outer_run(
                input,
                reader.count(),
                depth as nat,
                name,
                out@,
                (fuel - reader.count()) as nat,
            ),
        decreases input.len() - reader.pos(),
    {
        let ev = match reader.read_event() {
            Ok(ev) => ev,
            Err(e) => {
                return Err(xml_error(e));
            },
        };
        if ev.kind == XmlEventKind::Eof {
            return Ok(out);
        }
        let local = xml_local_name(&ev.name);
        if ev.kind == XmlEventKind::Start {
            if depth == 0 && bytes_eq_lit(local.as_slice(), "ser") {
                let c = match renamed_ser_start(&ev.handle, qualified_name) {
                    Ok(c) => c,
                    Err(e) => {
                        return Err(e);
                    },
                };
                let ghost before = out@;
                out.push(60u8);
                append_bytes(&mut out, c.as_slice());
                out.push(62u8);
                assert(out@ =~= before + seq![60u8] + c@ + seq![62u8]);
            } else {
                write_event(&mut out, &ev);
            }
            depth = depth + 1;
        } else if ev.kind == XmlEventKind::End {
            if depth == 1 && bytes_eq_lit(local.as_slice(), "ser") {
                let ghost before = out@;
                out.push(60u8);
                out.push(47u8);
                append_bytes(&mut out, qualified_name.as_bytes());
                out.push(62u8);
                assert(out@ =~= before + seq![60u8, 47u8] + name + seq![62u8]);
            } else {
                write_event(&mut out, &ev);
            }
            if depth > 0 {
                depth = depth - 1;
            }
        } else {
            write_event(&mut out, &ev);
        }
    }
}

} // verus!
