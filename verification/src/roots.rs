//! Where an active-content strip starts: the parts that carry active content
//! by name or content type, the parts the content-types manifest marks, and
//! the targets of active-content relationships.
use vstd::prelude::*;
use crate::errors::{OmError, OmErrorCode};
use crate::kinds::{active_content_kind_from_content_type, content_type_kind};
use crate::package::OpcPackage;
use crate::package_xml::{content_type_entry, entry_of, xml_error, ActiveContentContentTypeEntryKind, EntryView};
use crate::parts::{has_extension, OpcPart};
use crate::removal::{lemma_names_push, names};
use crate::text::{after_last_vec, chars_eq_ignore_case, chars_of, string_of, sub_vec};
use crate::xml::{xml_read_result, XmlEventKind, XmlReader};

verus! {

/// The name of the content-types manifest part.
pub open spec fn content_types_name() -> Seq<char> {
    "[Content_Types].xml"@
}

/// The message for a package without a content-types manifest.
pub open spec fn missing_manifest_message() -> Seq<char> {
    "workbook package is missing [Content_Types].xml"@
}

/// A name without any of its leading `/` characters.
pub open spec fn trim_leading_slashes(s: Seq<char>) -> Seq<char>
    decreases s.len(),
{
    if s.len() > 0 && s[0] == '/' {
        trim_leading_slashes(s.drop_first())
    } else {
        s
    }
}

/// The names of the parts whose extension is `ext`, ignoring ASCII case.
pub open spec fn parts_with_extension(parts: Seq<OpcPart>, ext: Seq<char>) -> Set<Seq<char>> {
    Set::new(|n: Seq<char>| exists|j: int| 0 <= j < parts.len() && parts[j].name@ == n && has_extension(n, ext))
}

/// The parts that one manifest entry marks as active content: none unless
/// its content type is active content; for an `Override`, the part its part
/// name designates; for a `Default`, every part with that extension.
pub open spec fn manifest_entry_roots(package: OpcPackage, entry: EntryView) -> Set<Seq<char>> {
    if content_type_kind(entry.2) is None {
        Set::empty()
    } else if entry.0 == ActiveContentContentTypeEntryKind::Override {
        match package.find(trim_leading_slashes(entry.1)) {
            Some(j) => set![package.parts@[j].name@],
            None => Set::empty(),
        }
    } else {
        parts_with_extension(package.parts@, entry.1)
    }
}

/// Reads a manifest from event `i` on, gathering the parts its entries mark.
pub open spec fn manifest_roots_run(
    package: OpcPackage,
    input: Seq<u8>,
    i: nat,
    acc: Set<Seq<char>>,
    fuel: nat,
) -> Result<Set<Seq<char>>, Seq<char>>
    decreases fuel,
{
    if fuel == 0 {
        Ok(acc)
    } else {
        let f = (fuel - 1) as nat;
        match xml_read_result(input, true, i) {
            Err(m) => Err(m),
            Ok(e) => if e.kind == XmlEventKind::Eof {
                Ok(acc)
            } else if e.kind == XmlEventKind::Start || e.kind == XmlEventKind::Empty {
                match entry_of((input, true, i), e.name) {
                    Err(m) => Err(m),
                    Ok(None) => manifest_roots_run(package, input, i + 1, acc, f),
                    Ok(Some(en)) => manifest_roots_run(
                        package,
                        input,
                        i + 1,
                        acc.union(manifest_entry_roots(package, en)),
                        f,
                    ),
                }
            } else {
                manifest_roots_run(package, input, i + 1, acc, f)
            },
        }
    }
}

/// The parts that the package's content-types manifest marks as active content.
pub open spec fn manifest_roots(package: OpcPackage) -> Result<Set<Seq<char>>, Seq<char>> {
    match package.find(content_types_name()) {
        None => Err(missing_manifest_message()),
        Some(c) => {
            let input = package.parts@[c].bytes@;
            manifest_roots_run(package, input, 0, Set::empty(), input.len() + 1)
        },
    }
}

/// The view of a list-of-names result.
pub open spec fn names_result_view(r: Result<Vec<String>, OmError>) -> Result<Set<Seq<char>>, Seq<char>> {
    match r {
        Ok(v) => Ok(names(v@)),
        Err(e) => Err(e.message@),
    }
}

/// Whether the text after the last `.` of `name` is `ext`, ignoring ASCII case.
pub fn name_has_extension(name: &str, ext: &[char]) -> (r: bool)
    ensures
        r == has_extension(name@, ext@),
{
    let v = chars_of(name);
    match after_last_vec(&v, '.') {
        Some(e) => chars_eq_ignore_case(&e, ext),
        None => false,
    }
}

/// A name without its leading `/` characters.
pub fn trim_leading_slashes_str(name: &str) -> (r: String)
    ensures
        r@ == trim_leading_slashes(name@),
{
    let v = chars_of(name);
    let mut i: usize = 0;
    assert(v@.skip(0) =~= v@);
    while i < v.len() && v[i] == '/'
        invariant
            i <= v@.len(),
            v@ == name@,
            trim_leading_slashes(v@) == trim_leading_slashes(v@.skip(i as int)),
        decreases v@.len() - i,
    {
        assert(v@.skip(i + 1) =~= v@.skip(i as int).drop_first());
        i += 1;
    }
    let t = sub_vec(&v, i, v.len());
    assert(t@ =~= v@.skip(i as int));
    string_of(&t)
}

/// The names of the first `k` parts whose extension is `ext`.
pub open spec fn parts_with_extension_upto(parts: Seq<OpcPart>, ext: Seq<char>, k: int) -> Set<Seq<char>> {
    Set::new(|n: Seq<char>| exists|j: int| 0 <= j < k && parts[j].name@ == n && has_extension(n, ext))
}

proof fn lemma_parts_with_extension_step(parts: Seq<OpcPart>, ext: Seq<char>, k: int)
    requires
        0 <= k < parts.len(),
    ensures
        parts_with_extension_upto(parts, ext, k + 1) == if has_extension(parts[k].name@, ext) {
            parts_with_extension_upto(parts, ext, k).insert(parts[k].name@)
        } else {
            parts_with_extension_upto(parts, ext, k)
        },
{
    let next = parts_with_extension_upto(parts, ext, k + 1);
    let prev = parts_with_extension_upto(parts, ext, k);
    let expected = if has_extension(parts[k].name@, ext) { prev.insert(parts[k].name@) } else { prev };
    assert forall|n: Seq<char>| #[trigger] next.contains(n) <==> expected.contains(n) by {
        if next.contains(n) {
            let j = choose|j: int| 0 <= j < k + 1 && parts[j].name@ == n && has_extension(n, ext);
            if j < k {
                assert(prev.contains(n));
            }
        }
        if prev.contains(n) {
            let j = choose|j: int| 0 <= j < k && parts[j].name@ == n && has_extension(n, ext);
            assert(0 <= j < k + 1 && parts[j].name@ == n && has_extension(n, ext));
        }
        if n == parts[k].name@ && has_extension(n, ext) {
            assert(0 <= k < k + 1 && parts[k].name@ == n && has_extension(n, ext));
        }
    }
    assert(next =~= expected);
}

/// Adds to `roots` the names of the parts with extension `ext`.
fn push_parts_with_extension(roots: &mut Vec<String>, parts: &Vec<OpcPart>, ext: &[char])
    ensures
        names(final(roots)@) == names(old(roots)@).union(parts_with_extension(parts@, ext@)),
{
    let ghost start = names(roots@);
    let mut k: usize = 0;
    assert(parts_with_extension_upto(parts@, ext@, 0) =~= Set::<Seq<char>>::empty());
    assert(start.union(Set::<Seq<char>>::empty()) =~= start);
    while k < parts.len()
        invariant
            k <= parts@.len(),
            names(roots@) == start.union(parts_with_extension_upto(parts@, ext@, k as int)),
        decreases parts@.len() - k,
    {
        let ghost before = roots@;
        proof {
            lemma_parts_with_extension_step(parts@, ext@, k as int);
        }
        if name_has_extension(parts[k].name.as_str(), ext) {
            roots.push(parts[k].name.clone());
            proof {
                assert(roots@ =~= before.push(roots@.last()));
                lemma_names_push(before, roots@.last());
                assert(names(roots@) =~= start.union(parts_with_extension_upto(parts@, ext@, k + 1)));
            }
        }
        k += 1;
    }
    assert(parts_with_extension_upto(parts@, ext@, k as int) =~= parts_with_extension(parts@, ext@));
}

/// The parts that the content-types manifest marks as active content: the
/// part of each active-content `Override` entry and the parts with the
/// extension of each active-content `Default` entry.
pub fn active_content_part_uris_from_manifest(package: &OpcPackage) -> (r: Result<Vec<String>, OmError>)
    ensures
        names_result_view(r) == manifest_roots(*package),
        r matches Err(e) ==> e.code == OmErrorCode::Parse,
{
    let manifest = match package.part("[Content_Types].xml") {
        Some(p) => p,
        None => {
            proof {
                reveal_strlit("[Content_Types].xml");
            }
            return Err(OmError {
                code: OmErrorCode::Parse,
                message: String::from_str("workbook package is missing [Content_Types].xml"),
            });
        },
    };
    proof {
        reveal_strlit("[Content_Types].xml");
        assert("[Content_Types].xml"@ == content_types_name());
    }
    let ghost c = package.find(content_types_name())->0;
    let xml = manifest.bytes.as_slice();
    let ghost input = xml@;
    let ghost fuel = input.len() + 1;
    assert(input == package.parts@[c].bytes@);
    let mut reader = XmlReader::new(xml, true);
    let mut roots: Vec<String> = Vec::new();
    assert(names(roots@) =~= Set::<Seq<char>>::empty());
    loop
        invariant
            reader.input() == input,
            input == xml@,
            reader.trim(),
            fuel == input.len() + 1,
            reader.count() <= fuel,
            reader.pos() <= input.len(),
            fuel - reader.count() >= input.len() - reader.pos() + 1,
            manifest_roots(*package) == manifest_roots_run(
                *package,
                input,
                reader.count(),
                names(roots@),
                (fuel - reader.count()) as nat,
            ),
        decreases input.len() - reader.pos(),
    {
        let ev = match reader.read_event() {
            Ok(ev) => ev,
            Err(e) => {
                return Err(xml_error(e));
            },
        };
        if ev.kind == XmlEventKind::Eof {
            return Ok(roots);
        }
        if ev.kind == XmlEventKind::Start || ev.kind == XmlEventKind::Empty {
            let entry = match content_type_entry(&ev.handle, &ev.name) {
                Ok(en) => en,
                Err(e) => {
                    return Err(e);
                },
            };
            if let Some(en) = entry {
                if active_content_kind_from_content_type(en.content_type.as_str()).is_some() {
                    match en.entry_kind {
                        ActiveContentContentTypeEntryKind::Override => {
                            let target = trim_leading_slashes_str(en.selector.as_str());
                            match package.part(target.as_str()) {
                                Some(p) => {
                                    let ghost before = roots@;
                                    roots.push(p.name.clone());
                                    proof {
                                        assert(roots@ =~= before.push(roots@.last()));
                                        lemma_names_push(before, roots@.last());
                                        assert(names(before).insert(p.name@) =~= names(before).union(
                                            set![p.name@],
                                        ));
                                    }
                                },
                                None => {
                                    assert(names(roots@).union(Set::empty()) =~= names(roots@));
                                },
                            }
                        },
                        ActiveContentContentTypeEntryKind::Default => {
                            let ext = chars_of(en.selector.as_str());
                            push_parts_with_extension(&mut roots, &package.parts, &ext);
                        },
                    }
                } else {
                    assert(names(roots@).union(Set::empty()) =~= names(roots@));
                }
            }
        }
    }
}

} // verus!
