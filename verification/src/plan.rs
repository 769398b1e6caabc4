//! The removal plan of an active-content strip: its roots, the links between
//! parts, the protected parts it may not touch, and which relationships go.
use vstd::prelude::*;
use crate::kinds::{active_content_kind_from_relationship_type, relationship_type_kind};
use crate::package::OpcPackage;
use crate::parts::{
    active_content_kinds_for_part, is_external_spec, is_relationships_part,
    is_relationships_part_spec, opt_view, part_kinds, relationship_is_external, OpcPart,
};
use crate::removal::{contains_name, lemma_names_push, names, PartLink};
use crate::roots::content_types_name;
use crate::strip::{package_relationship_views, PackageRelationshipEntry, PackageRelationshipView};
use crate::text::{after_last_vec, before_last, chars_eq_ignore_case, chars_of, eq_ignore_case, string_of};

verus! {

/// A part that carries active content by its own name or content type, and
/// is not a relationships part.
pub open spec fn part_is_root(p: OpcPart) -> bool {
    !is_relationships_part_spec(p.name@, opt_view(p.content_type)) && part_kinds(
        p.name@,
        opt_view(p.content_type),
    ) != Set::<crate::kinds::ActiveContentKind>::empty()
}

/// The part that an active-content relationship points at inside the
/// package, if it is one.
pub open spec fn relationship_root(package: OpcPackage, r: PackageRelationshipView) -> Option<Seq<char>> {
    if relationship_type_kind((r.2).1) is Some && !is_external_spec((r.2).3) {
        match package.find((r.2).2) {
            Some(i) => Some(package.parts@[i].name@),
            None => None,
        }
    } else {
        None
    }
}

/// The roots of a strip: parts with active content of their own, parts the
/// manifest marks, and parts that active-content relationships point at.
pub open spec fn strip_roots(
    package: OpcPackage,
    relationships: Seq<PackageRelationshipView>,
    manifest: Set<Seq<char>>,
) -> Set<Seq<char>> {
    Set::new(
        |n: Seq<char>|
            (exists|i: int| 0 <= i < package.parts@.len() && package.parts@[i].name@ == n && part_is_root(#[trigger] package.parts@[i]))
                || manifest.contains(n) || (exists|k: int|
                0 <= k < relationships.len() && relationship_root(package, #[trigger] relationships[k]) == Some(n)),
    )
}

/// The own-content roots among the first `k` parts.
pub open spec fn part_roots_upto(parts: Seq<OpcPart>, k: int) -> Set<Seq<char>> {
    Set::new(|n: Seq<char>| exists|i: int| 0 <= i < k && parts[i].name@ == n && part_is_root(#[trigger] parts[i]))
}

/// The relationship roots among the first `k` relationships.
pub open spec fn relationship_roots_upto(
    package: OpcPackage,
    relationships: Seq<PackageRelationshipView>,
    k: int,
) -> Set<Seq<char>> {
    Set::new(
        |n: Seq<char>|
            exists|j: int| 0 <= j < k && relationship_root(package, #[trigger] relationships[j]) == Some(n),
    )
}

proof fn lemma_part_roots_step(parts: Seq<OpcPart>, k: int)
    requires
        0 <= k < parts.len(),
    ensures
        part_roots_upto(parts, k + 1) == if part_is_root(parts[k]) {
            part_roots_upto(parts, k).insert(parts[k].name@)
        } else {
            part_roots_upto(parts, k)
        },
{
    let next = part_roots_upto(parts, k + 1);
    let prev = part_roots_upto(parts, k);
    let expected = if part_is_root(parts[k]) { prev.insert(parts[k].name@) } else { prev };
    assert forall|n: Seq<char>| #[trigger] next.contains(n) <==> expected.contains(n) by {
        if next.contains(n) {
            let i = choose|i: int| 0 <= i < k + 1 && parts[i].name@ == n && part_is_root(#[trigger] parts[i]);
            if i < k {
                assert(prev.contains(n));
            }
        }
        if prev.contains(n) {
            let i = choose|i: int| 0 <= i < k && parts[i].name@ == n && part_is_root(#[trigger] parts[i]);
            assert(0 <= i < k + 1 && parts[i].name@ == n && part_is_root(parts[i]));
        }
        if n == parts[k].name@ && part_is_root(parts[k]) {
            assert(0 <= k < k + 1 && parts[k].name@ == n && part_is_root(parts[k]));
        }
    }
    assert(next =~= expected);
}

proof fn lemma_relationship_roots_step(package: OpcPackage, relationships: Seq<PackageRelationshipView>, k: int)
    requires
        0 <= k < relationships.len(),
    ensures
        relationship_roots_upto(package, relationships, k + 1) == match relationship_root(
            package,
            relationships[k],
        ) {
            Some(n) => relationship_roots_upto(package, relationships, k).insert(n),
            None => relationship_roots_upto(package, relationships, k),
        },
{
    let next = relationship_roots_upto(package, relationships, k + 1);
    let prev = relationship_roots_upto(package, relationships, k);
    let expected = match relationship_root(package, relationships[k]) {
        Some(n) => prev.insert(n),
        None => prev,
    };
    assert forall|n: Seq<char>| #[trigger] next.contains(n) <==> expected.contains(n) by {
        if next.contains(n) {
            let j = choose|j: int| 0 <= j < k + 1 && relationship_root(package, #[trigger] relationships[j]) == Some(n);
            if j < k {
                assert(prev.contains(n));
            }
        }
        if prev.contains(n) {
            let j = choose|j: int| 0 <= j < k && relationship_root(package, #[trigger] relationships[j]) == Some(n);
            assert(0 <= j < k + 1 && relationship_root(package, relationships[j]) == Some(n));
        }
        if relationship_root(package, relationships[k]) == Some(n) {
            assert(0 <= k < k + 1 && relationship_root(package, relationships[k]) == Some(n));
        }
    }
    assert(next =~= expected);
}

/// The roots of a strip, from the package, its relationships and the parts
/// that the manifest marks.
pub fn active_content_roots(
    package: &OpcPackage,
    relationships: &Vec<PackageRelationshipEntry>,
    manifest_roots: &Vec<String>,
) -> (r: Vec<String>)
    ensures
        names(r@) == strip_roots(*package, package_relationship_views(relationships@), names(manifest_roots@)),
{
    let ghost rels = package_relationship_views(relationships@);
    let mut roots: Vec<String> = Vec::new();
    let mut i: usize = 0;
    assert(part_roots_upto(package.parts@, 0) =~= Set::<Seq<char>>::empty());
    assert(names(roots@) =~= Set::<Seq<char>>::empty());
    while i < package.parts.len()
        invariant
            i <= package.parts@.len(),
            names(roots@) == part_roots_upto(package.parts@, i as int),
        decreases package.parts@.len() - i,
    {
        let part = &package.parts[i];
        proof {
            lemma_part_roots_step(package.parts@, i as int);
        }
        let is_root = !is_relationships_part(part) && !active_content_kinds_for_part(part).is_empty();
        if is_root {
            let ghost before = roots@;
            roots.push(part.name.clone());
            proof {
                assert(roots@ =~= before.push(roots@.last()));
                lemma_names_push(before, roots@.last());
            }
        }
        i += 1;
    }
    let ghost own = names(roots@);
    let mut m: usize = 0;
    while m < manifest_roots.len()
        invariant
            m <= manifest_roots@.len(),
            own == part_roots_upto(package.parts@, package.parts@.len() as int),
            names(roots@) == own.union(names(manifest_roots@.subrange(0, m as int))),
        decreases manifest_roots@.len() - m,
    {
        let ghost before = roots@;
        roots.push(manifest_roots[m].clone());
        proof {
            assert(roots@ =~= before.push(roots@.last()));
            lemma_names_push(before, roots@.last());
            assert(manifest_roots@.subrange(0, m + 1) =~= manifest_roots@.subrange(0, m as int).push(manifest_roots@[m as int]));
            lemma_names_push(manifest_roots@.subrange(0, m as int), manifest_roots@[m as int]);
            assert(names(roots@) =~= own.union(names(manifest_roots@.subrange(0, m + 1))));
        }
        m += 1;
    }
    assert(manifest_roots@.subrange(0, manifest_roots@.len() as int) =~= manifest_roots@);
    let ghost own_and_manifest = names(roots@);
    let mut k: usize = 0;
    assert(relationship_roots_upto(*package, rels, 0) =~= Set::<Seq<char>>::empty());
    assert(own_and_manifest.union(Set::<Seq<char>>::empty()) =~= own_and_manifest);
    while k < relationships.len()
        invariant
            k <= relationships@.len(),
            rels == package_relationship_views(relationships@),
            names(roots@) == own_and_manifest.union(relationship_roots_upto(*package, rels, k as int)),
        decreases relationships@.len() - k,
    {
        let rel = &relationships[k];
        assert(rels[k as int] == rel.view());
        proof {
            lemma_relationship_roots_step(*package, rels, k as int);
        }
        if active_content_kind_from_relationship_type(rel.entry.relationship_type.as_str()).is_some()
            && !relationship_is_external(&rel.entry) {
            if let Some(target) = package.part(rel.entry.target.as_str()) {
                let ghost before = roots@;
                roots.push(target.name.clone());
                proof {
                    assert(roots@ =~= before.push(roots@.last()));
                    lemma_names_push(before, roots@.last());
                    assert(names(roots@) =~= own_and_manifest.union(relationship_roots_upto(*package, rels, k + 1)));
                }
            }
        }
        k += 1;
    }
    assert(names(roots@) =~= strip_roots(*package, rels, names(manifest_roots@))) by {
        assert forall|n: Seq<char>| #[trigger] names(roots@).contains(n) <==> strip_roots(*package, rels, names(manifest_roots@)).contains(n) by {
            if part_roots_upto(package.parts@, package.parts@.len() as int).contains(n) {
                let i = choose|i: int| 0 <= i < package.parts@.len() && package.parts@[i].name@ == n && part_is_root(#[trigger] package.parts@[i]);
            }
            if relationship_roots_upto(*package, rels, rels.len() as int).contains(n) {
                let j = choose|j: int| 0 <= j < rels.len() && relationship_root(*package, #[trigger] rels[j]) == Some(n);
            }
            if strip_roots(*package, rels, names(manifest_roots@)).contains(n) {
                if exists|i: int| 0 <= i < package.parts@.len() && package.parts@[i].name@ == n && part_is_root(#[trigger] package.parts@[i]) {
                    let i = choose|i: int| 0 <= i < package.parts@.len() && package.parts@[i].name@ == n && part_is_root(#[trigger] package.parts@[i]);
                    assert(part_roots_upto(package.parts@, package.parts@.len() as int).contains(n));
                }
                if exists|j: int| 0 <= j < rels.len() && relationship_root(*package, #[trigger] rels[j]) == Some(n) {
                    let j = choose|j: int| 0 <= j < rels.len() && relationship_root(*package, #[trigger] rels[j]) == Some(n);
                    assert(relationship_roots_upto(*package, rels, rels.len() as int).contains(n));
                }
            }
        }
    }
    roots
}

/// The message for a strip that would remove a part the workbook needs.
pub open spec fn required_part_message(part_uri: Seq<char>) -> Seq<char> {
    "active-content strip cannot remove required package part "@ + part_uri
}

/// The first protected part that a root names, ignoring ASCII case: the
/// content-types manifest, then the workbook part.
pub open spec fn protected_root(roots: Set<Seq<char>>, workbook_part_uri: Seq<char>) -> Option<Seq<char>> {
    if exists|n: Seq<char>| roots.contains(n) && eq_ignore_case(n, content_types_name()) {
        Some(content_types_name())
    } else if exists|n: Seq<char>| roots.contains(n) && eq_ignore_case(n, workbook_part_uri) {
        Some(workbook_part_uri)
    } else {
        None
    }
}

fn names_any_ignore_case(roots: &Vec<String>, protected: &[char]) -> (r: bool)
    ensures
        r == exists|n: Seq<char>| names(roots@).contains(n) && eq_ignore_case(n, protected@),
{
    let mut i: usize = 0;
    while i < roots.len()
        invariant
            i <= roots@.len(),
            forall|j: int| 0 <= j < i ==> !eq_ignore_case(#[trigger] roots@[j]@, protected@),
        decreases roots@.len() - i,
    {
        let v = chars_of(roots[i].as_str());
        if chars_eq_ignore_case(&v, protected) {
            assert(names(roots@).contains(roots@[i as int]@));
            return true;
        }
        i += 1;
    }
    assert forall|n: Seq<char>| names(roots@).contains(n) implies !eq_ignore_case(n, protected@) by {
        let j = choose|j: int| 0 <= j < roots@.len() && roots@[j]@ == n;
        assert(!eq_ignore_case(roots@[j]@, protected@));
    }
    false
}

/// The protected part that a root names, if any.
pub fn protected_root_name(roots: &Vec<String>, workbook_part_uri: &str) -> (r: Option<String>)
    ensures
        opt_view(r) == protected_root(names(roots@), workbook_part_uri@),
{
    let ct = chars_of("[Content_Types].xml");
    proof {
        reveal_strlit("[Content_Types].xml");
    }
    if names_any_ignore_case(roots, &ct) {
        return Some(String::from_str("[Content_Types].xml"));
    }
    let wb = chars_of(workbook_part_uri);
    if names_any_ignore_case(roots, &wb) {
        return Some(workbook_part_uri.to_string());
    }
    None
}

/// What a link between parts holds: owner as written, owner part, target part.
pub type LinkView = (Option<Seq<char>>, Option<Seq<char>>, Seq<char>);

/// The view of a link.
pub open spec fn link_view(l: PartLink) -> LinkView {
    (opt_view(l.owner), opt_view(l.owner_part), l.target@)
}

/// The views of a list of links.
pub open spec fn link_views(v: Seq<PartLink>) -> Seq<LinkView> {
    v.map_values(|l: PartLink| link_view(l))
}

/// The link that an internal relationship makes, when its target is a part
/// of the package: its owner as written, the owner's part if the package has
/// one, and the target part.
pub open spec fn link_of(package: OpcPackage, r: PackageRelationshipView) -> Option<LinkView> {
    if is_external_spec((r.2).3) {
        None
    } else {
        match package.find((r.2).2) {
            None => None,
            Some(t) => Some(
                (
                    r.1,
                    match r.1 {
                        Some(o) => match package.find(o) {
                            Some(j) => Some(package.parts@[j].name@),
                            None => None,
                        },
                        None => None,
                    },
                    package.parts@[t].name@,
                ),
            ),
        }
    }
}

/// The links of the first `k` relationships, in order.
pub open spec fn part_links(package: OpcPackage, relationships: Seq<PackageRelationshipView>, k: int) -> Seq<LinkView>
    decreases k,
{
    if k <= 0 || k > relationships.len() {
        Seq::empty()
    } else {
        part_links(package, relationships, k - 1) + match link_of(package, relationships[k - 1]) {
            Some(l) => seq![l],
            None => Seq::empty(),
        }
    }
}

/// The links between parts that a package's internal relationships make.
pub fn relationship_links(package: &OpcPackage, relationships: &Vec<PackageRelationshipEntry>) -> (r: Vec<PartLink>)
    ensures
        link_views(r@) == part_links(
            *package,
            package_relationship_views(relationships@),
            relationships@.len() as int,
        ),
{
    let ghost rels = package_relationship_views(relationships@);
    let mut links: Vec<PartLink> = Vec::new();
    let mut k: usize = 0;
    assert(link_views(links@) =~= Seq::<LinkView>::empty());
    while k < relationships.len()
        invariant
            k <= relationships@.len(),
            rels == package_relationship_views(relationships@),
            link_views(links@) == part_links(*package, rels, k as int),
        decreases relationships@.len() - k,
    {
        let rel = &relationships[k];
        assert(rels[k as int] == rel.view());
        let ghost before = links@;
        if !relationship_is_external(&rel.entry) {
            if let Some(target) = package.part(rel.entry.target.as_str()) {
                let owner_part = match &rel.owner_part_uri {
                    Some(o) => match package.part(o.as_str()) {
                        Some(p) => Some(p.name.clone()),
                        None => None,
                    },
                    None => None,
                };
                links.push(PartLink { owner: rel.owner_part_uri.clone(), owner_part, target: target.name.clone() });
                assert(link_views(links@) =~= link_views(before).push(link_view(links@.last())));
            }
        }
        assert(link_views(links@) =~= part_links(*package, rels, k + 1));
        k += 1;
    }
    links
}

/// Whether a relationship's owner is one of the removed parts.
pub open spec fn owner_removed(r: PackageRelationshipView, removed: Set<Seq<char>>) -> bool {
    r.1 matches Some(o) && removed.contains(o)
}

/// Whether a relationship points inside the package at a removed part.
pub open spec fn target_removed(package: OpcPackage, r: PackageRelationshipView, removed: Set<Seq<char>>) -> bool {
    &&& !is_external_spec((r.2).3)
    &&& package.find((r.2).2) matches Some(t) && removed.contains(package.parts@[t].name@)
}

/// A relationship goes when its owner goes, its target goes, or it is an
/// active-content relationship.
pub open spec fn relationship_removed(package: OpcPackage, r: PackageRelationshipView, removed: Set<Seq<char>>) -> bool {
    owner_removed(r, removed) || target_removed(package, r, removed) || relationship_type_kind(
        (r.2).1,
    ) is Some
}

/// Whether a relationship goes, and whether its owner goes.
pub fn classify_relationship(
    package: &OpcPackage,
    relationship: &PackageRelationshipEntry,
    removed: &Vec<String>,
) -> (r: (bool, bool))
    ensures
        r.0 == relationship_removed(*package, relationship.view(), names(removed@)),
        r.1 == owner_removed(relationship.view(), names(removed@)),
{
    let owner_is_removed = match &relationship.owner_part_uri {
        Some(o) => contains_name(removed, o),
        None => false,
    };
    let target_is_removed = if relationship_is_external(&relationship.entry) {
        false
    } else {
        match package.part(relationship.entry.target.as_str()) {
            Some(p) => contains_name(removed, &p.name),
            None => false,
        }
    };
    let active = active_content_kind_from_relationship_type(relationship.entry.relationship_type.as_str()).is_some();
    (owner_is_removed || target_is_removed || active, owner_is_removed)
}

/// The relationships part of a part: `_rels/<file>.rels` in the part's
/// folder, for the name without its leading `/`; none for an empty name or
/// one that ends in `/`.
pub open spec fn relationships_part_of(part_uri: Seq<char>) -> Option<Seq<char>> {
    let n = crate::roots::trim_leading_slashes(part_uri);
    if n.len() == 0 {
        None
    } else {
        match crate::text::after_last(n, '/') {
            Some(file) => if file.len() == 0 {
                None
            } else {
                Some(before_last(n, '/') + "/_rels/"@ + file + ".rels"@)
            },
            None => Some("_rels/"@ + n + ".rels"@),
        }
    }
}

/// The relationships part of a part, if its name has one.
pub fn relationships_part_uri_for_part(part_uri: &str) -> (r: Option<String>)
    ensures
        opt_view(r) == relationships_part_of(part_uri@),
{
    let trimmed = crate::roots::trim_leading_slashes_str(part_uri);
    let n = chars_of(trimmed.as_str());
    if n.len() == 0 {
        return None;
    }
    proof {
        reveal_strlit("/_rels/");
        reveal_strlit(".rels");
        reveal_strlit("_rels/");
    }
    match after_last_vec(&n, '/') {
        Some(file) => {
            if file.len() == 0 {
                return None;
            }
            let head = crate::text::before_last_vec(&n, '/');
            let mut out = string_of(&head);
            out.append("/_rels/");
            let f = string_of(&file);
            out.append(f.as_str());
            out.append(".rels");
            Some(out)
        },
        None => {
            let mut out = String::from_str("_rels/");
            out.append(trimmed.as_str());
            out.append(".rels");
            Some(out)
        },
    }
}

/// The relationships among the first `k` that go when the parts `removed`
/// go, in order.
pub open spec fn removed_relationships(
    package: OpcPackage,
    relationships: Seq<PackageRelationshipView>,
    removed: Set<Seq<char>>,
    k: int,
) -> Seq<PackageRelationshipView>
    decreases k,
{
    if k <= 0 || k > relationships.len() {
        Seq::empty()
    } else {
        removed_relationships(package, relationships, removed, k - 1) + if relationship_removed(
            package,
            relationships[k - 1],
            removed,
        ) {
            seq![relationships[k - 1]]
        } else {
            Seq::empty()
        }
    }
}

/// The relationships parts that go with the parts `removed`: those of removed
/// parts that the package has, and those that hold a relationship whose
/// owner goes.
pub open spec fn relationship_parts_removed(
    package: OpcPackage,
    removed: Set<Seq<char>>,
    gone: Seq<PackageRelationshipView>,
) -> Set<Seq<char>> {
    Set::new(
        |n: Seq<char>|
            (exists|p: Seq<char>| removed.contains(p) && #[trigger] relationships_part_of(p) == Some(n) && package.find(n) is Some)
                || (exists|k: int| 0 <= k < gone.len() && owner_removed(#[trigger] gone[k], removed) && gone[k].0 == n),
    )
}

/// The links that a package's relationships make.
pub open spec fn strip_links(package: OpcPackage, relationships: Seq<PackageRelationshipView>) -> Seq<LinkView> {
    part_links(package, relationships, relationships.len() as int)
}

/// The parts a strip's roots reach.
pub open spec fn strip_candidates(
    package: OpcPackage,
    relationships: Seq<PackageRelationshipView>,
    manifest: Set<Seq<char>>,
) -> Set<Seq<char>> {
    crate::removal::reach_closure(strip_roots(package, relationships, manifest), strip_links(package, relationships))
}

/// The parts a strip removes for their content: what the roots reach, less
/// what something outside still points at.
pub open spec fn strip_core(
    package: OpcPackage,
    relationships: Seq<PackageRelationshipView>,
    manifest: Set<Seq<char>>,
) -> Set<Seq<char>> {
    crate::removal::unshared_core(strip_roots(package, relationships, manifest), strip_links(package, relationships))
}

/// The relationships a strip removes, in order.
pub open spec fn strip_gone_relationships(
    package: OpcPackage,
    relationships: Seq<PackageRelationshipView>,
    manifest: Set<Seq<char>>,
) -> Seq<PackageRelationshipView> {
    removed_relationships(package, relationships, strip_core(package, relationships, manifest), relationships.len() as int)
}

/// Every part name a strip removes: the core and the relationships parts
/// that go with it.
pub open spec fn strip_removed_names(
    package: OpcPackage,
    relationships: Seq<PackageRelationshipView>,
    manifest: Set<Seq<char>>,
) -> Set<Seq<char>> {
    let core = strip_core(package, relationships, manifest);
    core.union(relationship_parts_removed(package, core, strip_gone_relationships(package, relationships, manifest)))
}

} // verus!
