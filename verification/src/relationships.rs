//! Reading the `Relationship` entries of a relationships part, with targets
//! resolved against the owner part's folder.
use vstd::prelude::*;
use crate::errors::{OmError, OmErrorCode};
use crate::package_xml::{error_view, xml_error, ErrorView};
use crate::parts::{is_external_spec, opt_view, split_slash, split_slash_exec, string_views, RelationshipEntry};
use crate::text::{chars_eq_ignore_case, chars_eq_str, chars_of, string_of, sub_vec};
use crate::xml::{
    bytes_eq_lit, lit, local_name, local_name_is, tag_content_len, unescape_value,
    xml_attribute_at, xml_read_result, xml_unescaped_value, AttributeCursor, TagHandle,
    XmlEventKind, XmlReader,
};

verus! {

/// Drops empty and `.` segments and lets `..` remove the segment before it.
pub open spec fn normalize_segments(segs: Seq<Seq<char>>, acc: Seq<Seq<char>>) -> Seq<Seq<char>>
    decreases segs.len(),
{
    if segs.len() == 0 {
        acc
    } else {
        let s = segs[0];
        let rest = segs.drop_first();
        if s.len() == 0 || s == "."@ {
            normalize_segments(rest, acc)
        } else if s == ".."@ {
            normalize_segments(rest, if acc.len() > 0 { acc.drop_last() } else { acc })
        } else {
            normalize_segments(rest, acc.push(s))
        }
    }
}

/// Segments joined with `/`.
pub open spec fn join_segments(segs: Seq<Seq<char>>) -> Seq<char>
    decreases segs.len(),
{
    if segs.len() == 0 {
        Seq::empty()
    } else if segs.len() == 1 {
        segs[0]
    } else {
        join_segments(segs.drop_last()) + seq!['/'] + segs.last()
    }
}

/// The part name that an internal relationship target designates: from the
/// package root when it starts with `/`, else from the owner's folder.
pub open spec fn resolve_target(base: Seq<Seq<char>>, target: Seq<char>) -> Seq<char> {
    if target.len() > 0 && target[0] == '/' {
        join_segments(normalize_segments(split_slash(target.drop_first()), Seq::empty()))
    } else {
        join_segments(normalize_segments(base + split_slash(target), Seq::empty()))
    }
}

fn normalize_exec(segs: &Vec<Vec<char>>) -> (r: Vec<Vec<char>>)
    ensures
        vec_views(r@) == normalize_segments(vec_views(segs@), Seq::empty()),
{
    let mut acc: Vec<Vec<char>> = Vec::new();
    let mut i: usize = 0;
    assert(vec_views(segs@).skip(0) =~= vec_views(segs@));
    assert(vec_views(acc@) =~= Seq::<Seq<char>>::empty());
    while i < segs.len()
        invariant
            i <= segs@.len(),
            normalize_segments(vec_views(segs@), Seq::empty()) == normalize_segments(
                vec_views(segs@).skip(i as int),
                vec_views(acc@),
            ),
        decreases segs@.len() - i,
    {
        let ghost before = vec_views(acc@);
        assert(vec_views(segs@).skip(i as int).drop_first() =~= vec_views(segs@).skip(i + 1));
        assert(vec_views(segs@).skip(i as int)[0] == segs@[i as int]@);
        let s = &segs[i];
        if s.len() == 0 || chars_eq_str(s, ".") {
        } else if chars_eq_str(s, "..") {
            if acc.len() > 0 {
                acc.pop();
                assert(vec_views(acc@) =~= before.drop_last());
            }
        } else {
            acc.push(s.clone());
            assert(vec_views(acc@) =~= before.push(s@));
        }
        i += 1;
    }
    acc
}

proof fn lemma_vec_views_push(v: Seq<Vec<char>>, x: Vec<char>)
    ensures
        vec_views(v.push(x)) == vec_views(v).push(x@),
{
    assert(vec_views(v.push(x)) =~= vec_views(v).push(x@));
}

/// The character views of a sequence of character vectors.
pub open spec fn vec_views(v: Seq<Vec<char>>) -> Seq<Seq<char>> {
    v.map_values(|x: Vec<char>| x@)
}

fn join_exec(segs: &Vec<Vec<char>>) -> (r: Vec<char>)
    ensures
        r@ == join_segments(vec_views(segs@)),
{
    let mut out: Vec<char> = Vec::new();
    let mut i: usize = 0;
    while i < segs.len()
        invariant
            i <= segs@.len(),
            out@ == join_segments(vec_views(segs@).subrange(0, i as int)),
        decreases segs@.len() - i,
    {
        if i > 0 {
            out.push('/');
        }
        let s = &segs[i];
        let mut k: usize = 0;
        let ghost mid = out@;
        while k < s.len()
            invariant
                k <= s@.len(),
                out@ == mid + s@.subrange(0, k as int),
            decreases s@.len() - k,
        {
            out.push(s[k]);
            k += 1;
        }
        proof {
            let a = vec_views(segs@).subrange(0, i + 1);
            assert(a.drop_last() =~= vec_views(segs@).subrange(0, i as int));
            assert(a.last() == s@);
            assert(s@.subrange(0, s@.len() as int) =~= s@);
            if i == 0 {
                assert(out@ =~= join_segments(a));
            } else {
                assert(out@ =~= join_segments(a));
            }
        }
        i += 1;
    }
    assert(vec_views(segs@).subrange(0, segs@.len() as int) =~= vec_views(segs@));
    out
}

fn split_exec(v: &[char]) -> (r: Vec<Vec<char>>)
    ensures
        vec_views(r@) == split_slash(v@),
{
    let parts = split_slash_exec(v);
    let mut out: Vec<Vec<char>> = Vec::new();
    let mut i: usize = 0;
    while i < parts.len()
        invariant
            i <= parts@.len(),
            out@.len() == i,
            forall|j: int| 0 <= j < i ==> #[trigger] out@[j]@ == parts@[j]@,
        decreases parts@.len() - i,
    {
        out.push(chars_of(parts[i].as_str()));
        i += 1;
    }
    assert(vec_views(out@) =~= string_views(parts@));
    out
}

/// Resolves an internal relationship target against the owner's folder segments.
pub fn resolve_relationship_target(base_segments: &Vec<String>, target: &str) -> (r: String)
    ensures
        r@ == resolve_target(string_views(base_segments@), target@),
{
    let t = chars_of(target);
    let mut segs: Vec<Vec<char>> = Vec::new();
    if t.len() > 0 && t[0] == '/' {
        let rest = sub_vec(&t, 1, t.len());
        assert(rest@ =~= t@.drop_first());
        segs = split_exec(&rest);
    } else {
        let mut i: usize = 0;
        while i < base_segments.len()
            invariant
                i <= base_segments@.len(),
                segs@.len() == i,
                forall|j: int| 0 <= j < i ==> #[trigger] segs@[j]@ == base_segments@[j]@,
            decreases base_segments@.len() - i,
        {
            segs.push(chars_of(base_segments[i].as_str()));
            i += 1;
        }
        let tail = split_exec(&t);
        let ghost head = vec_views(segs@);
        assert(head =~= string_views(base_segments@));
        let mut k: usize = 0;
        while k < tail.len()
            invariant
                k <= tail@.len(),
                vec_views(segs@) == head + vec_views(tail@).subrange(0, k as int),
            decreases tail@.len() - k,
        {
            let ghost before = segs@;
            segs.push(tail[k].clone());
            proof {
                lemma_vec_views_push(before, segs@.last());
                assert(vec_views(tail@).subrange(0, k + 1) =~= vec_views(tail@).subrange(0, k as int).push(tail@[k as int]@));
            }
            assert(vec_views(segs@) =~= head + vec_views(tail@).subrange(0, k + 1));
            k += 1;
        }
        assert(vec_views(tail@).subrange(0, tail@.len() as int) =~= vec_views(tail@));
    }
    let normalized = normalize_exec(&segs);
    let joined = join_exec(&normalized);
    string_of(&joined)
}

/// What a relationship entry holds: id, type, resolved target, target mode.
pub type RelationshipView = (Seq<char>, Seq<char>, Seq<char>, Option<Seq<char>>);

impl RelationshipEntry {
    pub open spec fn view(&self) -> RelationshipView {
        (self.id@, self.relationship_type@, self.target@, opt_view(self.target_mode))
    }
}

/// The raw attributes of a relationship element: id, type, target, target mode.
pub type RawRelationship = (Option<Seq<char>>, Option<Seq<char>>, Option<Seq<char>>, Option<Seq<char>>);

/// Reads, from attribute `k` on, the `Id`, `Type`, `Target` and `TargetMode`
/// attributes of a relationship element.
pub open spec fn relationship_attrs_run(
    origin: (Seq<u8>, bool, nat),
    k: nat,
    acc: RawRelationship,
    fuel: nat,
) -> Result<RawRelationship, Seq<char>>
    decreases fuel,
{
    if fuel == 0 {
        Ok(acc)
    } else {
        let f = (fuel - 1) as nat;
        match xml_attribute_at(origin.0, origin.1, origin.2, k) {
            None => Ok(acc),
            Some(Err(m)) => Err(m),
            Some(Ok((key, raw))) => if key == lit("Id") || key == lit("Type") || key == lit("Target")
                || key == lit("TargetMode") {
                match xml_unescaped_value(raw) {
                    Err(m) => Err(m),
                    Ok(v) => relationship_attrs_run(
                        origin,
                        k + 1,
                        if key == lit("Id") {
                            (Some(v), acc.1, acc.2, acc.3)
                        } else if key == lit("Type") {
                            (acc.0, Some(v), acc.2, acc.3)
                        } else if key == lit("Target") {
                            (acc.0, acc.1, Some(v), acc.3)
                        } else {
                            (acc.0, acc.1, acc.2, Some(v))
                        },
                        f,
                    ),
                }
            } else {
                relationship_attrs_run(origin, k + 1, acc, f)
            },
        }
    }
}

/// The message for a relationship element without `Id`, `Type` or `Target`.
pub open spec fn incomplete_relationship_message() -> Seq<char> {
    "relationship entry is missing Id, Type or Target"@
}

/// The relationship entry that the element read as event `origin` holds,
/// with an internal target resolved against `base`.
pub open spec fn relationship_of(origin: (Seq<u8>, bool, nat), base: Seq<Seq<char>>) -> Result<RelationshipView, ErrorView> {
    match relationship_attrs_run(origin, 0, (None, None, None, None), tag_content_len(origin) + 1) {
        Err(m) => Err((OmErrorCode::Parse, m)),
        Ok((Some(id), Some(t), Some(target), mode)) => Ok(
            (id, t, if is_external_spec(mode) { target } else { resolve_target(base, target) }, mode),
        ),
        Ok(_) => Err((OmErrorCode::Parse, incomplete_relationship_message())),
    }
}

/// Reads, from event `i` on, the relationship entries of a relationships part.
pub open spec fn relationships_run(
    input: Seq<u8>,
    base: Seq<Seq<char>>,
    i: nat,
    acc: Seq<RelationshipView>,
    fuel: nat,
) -> Result<Seq<RelationshipView>, ErrorView>
    decreases fuel,
{
    if fuel == 0 {
        Ok(acc)
    } else {
        let f = (fuel - 1) as nat;
        match xml_read_result(input, true, i) {
            Err(m) => Err((OmErrorCode::Parse, m)),
            Ok(e) => if e.kind == XmlEventKind::Eof {
                Ok(acc)
            } else if (e.kind == XmlEventKind::Start || e.kind == XmlEventKind::Empty) && local_name(
                e.name,
            ) == lit("Relationship") {
                match relationship_of((input, true, i), base) {
                    Err(x) => Err(x),
                    Ok(r) => relationships_run(input, base, i + 1, acc.push(r), f),
                }
            } else {
                relationships_run(input, base, i + 1, acc, f)
            },
        }
    }
}

/// The relationship entries of a relationships part, in document order.
pub open spec fn relationships_of(input: Seq<u8>, base: Seq<Seq<char>>) -> Result<Seq<RelationshipView>, ErrorView> {
    relationships_run(input, base, 0, Seq::empty(), input.len() + 1)
}

/// The views of a list of relationship entries.
pub open spec fn relationship_views(v: Seq<RelationshipEntry>) -> Seq<RelationshipView> {
    v.map_values(|r: RelationshipEntry| r@)
}

fn read_relationship(handle: &TagHandle, base_segments: &Vec<String>) -> (r: Result<RelationshipEntry, OmError>)
    ensures
        match r {
            Ok(e) => relationship_of(handle.origin(), string_views(base_segments@)) == Ok::<RelationshipView, ErrorView>(e@),
            Err(e) => relationship_of(handle.origin(), string_views(base_segments@)) == Err::<RelationshipView, ErrorView>(error_view(e)),
        },
{
    let ghost origin = handle.origin();
    let ghost fuel = tag_content_len(origin) + 1;
    let mut cursor = AttributeCursor::of(handle);
    let mut id: Option<String> = None;
    let mut relationship_type: Option<String> = None;
    let mut target: Option<String> = None;
    let mut target_mode: Option<String> = None;
    loop
        invariant
            cursor.origin() == origin,
            origin == handle.origin(),
            cursor.count() < fuel,
            fuel == tag_content_len(origin) + 1,
            relationship_attrs_run(origin, 0, (None, None, None, None), fuel) == relationship_attrs_run(
                origin,
                cursor.count(),
                (opt_view(id), opt_view(relationship_type), opt_view(target), opt_view(target_mode)),
                (fuel - cursor.count()) as nat,
            ),
        decreases fuel - cursor.count(),
    {
        match cursor.next() {
            None => {
                return match (id, relationship_type, target) {
                    (Some(id), Some(relationship_type), Some(target)) => {
                        let external = match &target_mode {
                            Some(m) => {
                                let v = chars_of(m.as_str());
                                let x = chars_of("External");
                                chars_eq_ignore_case(&v, &x)
                            },
                            None => false,
                        };
                        let target = if external {
                            target
                        } else {
                            resolve_relationship_target(base_segments, target.as_str())
                        };
                        Ok(RelationshipEntry { id, relationship_type, target, target_mode })
                    },
                    _ => Err(OmError {
                        code: OmErrorCode::Parse,
                        message: String::from_str("relationship entry is missing Id, Type or Target"),
                    }),
                };
            },
            Some(Err(e)) => {
                return Err(xml_error(e));
            },
            Some(Ok(a)) => {
                let is_id = bytes_eq_lit(&a.key, "Id");
                let is_type = bytes_eq_lit(&a.key, "Type");
                let is_target = bytes_eq_lit(&a.key, "Target");
                let is_mode = bytes_eq_lit(&a.key, "TargetMode");
                if is_id || is_type || is_target || is_mode {
                    let value = match unescape_value(&a.value) {
                        Ok(v) => v,
                        Err(e) => {
                            return Err(xml_error(e));
                        },
                    };
                    if is_id {
                        id = Some(value);
                    } else if is_type {
                        relationship_type = Some(value);
                    } else if is_target {
                        target = Some(value);
                    } else {
                        target_mode = Some(value);
                    }
                }
            },
        }
    }
}

/// The view of a relationship-reading result.
pub open spec fn relationships_result_view(r: Result<Vec<RelationshipEntry>, OmError>) -> Result<Seq<RelationshipView>, ErrorView> {
    match r {
        Ok(v) => Ok(relationship_views(v@)),
        Err(e) => Err(error_view(e)),
    }
}

/// Reads the `Relationship` entries of a relationships part; internal targets
/// are resolved against the owner's folder segments.
pub fn parse_relationship_entries(relationships_xml: &[u8], base_segments: &Vec<String>) -> (r: Result<Vec<RelationshipEntry>, OmError>)
    ensures
        relationships_result_view(r) == relationships_of(relationships_xml@, string_views(base_segments@)),
{
    let ghost input = relationships_xml@;
    let ghost base = string_views(base_segments@);
    let ghost fuel = input.len() + 1;
    let mut reader = XmlReader::new(relationships_xml, true);
    let mut entries: Vec<RelationshipEntry> = Vec::new();
    assert(relationship_views(entries@) =~= Seq::<RelationshipView>::empty());
    loop
        invariant
            reader.input() == input,
            input == relationships_xml@,
            base == string_views(base_segments@),
            reader.trim(),
            fuel == input.len() + 1,
            reader.count() <= fuel,
            reader.pos() <= input.len(),
            fuel - reader.count() >= input.len() - reader.pos() + 1,
            relationships_of(input, base) == relationships_run(
                input,
                base,
                reader.count(),
                relationship_views(entries@),
                (fuel - reader.count()) as nat,
            ),
        decreases input.len() - reader.pos(),
    {
        let ev = match reader.read_event() {
            Ok(ev) => ev,
            Err(e) => {
                return Err(xml_error(e));
            },
        };
        if ev.kind == XmlEventKind::Eof {
            return Ok(entries);
        }
        if (ev.kind == XmlEventKind::Start || ev.kind == XmlEventKind::Empty) && local_name_is(
            &ev.name,
            "Relationship",
        ) {
            let entry = match read_relationship(&ev.handle, base_segments) {
                Ok(e) => e,
                Err(e) => {
                    return Err(e);
                },
            };
            let ghost before = entries@;
            entries.push(entry);
            assert(relationship_views(entries@) =~= relationship_views(before).push(entries@.last()@));
        }
    }
}

} // verus!
