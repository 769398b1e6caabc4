//! Stripping active content from a workbook package: which parts, manifest
//! entries, relationships and anchors go, and the audit of what went.
use vstd::prelude::*;
use crate::errors::{OmError, OmErrorCode};
use crate::kinds::{active_content_kind_from_relationship_type, ActiveContentKind};
use crate::name_set::{str_lt, chars_lt, NameSet};
use crate::package::OpcPackage;
use crate::package_xml::{
    active_content_kinds_from_relationships, content_type_entry, error_view, marker_kinds,
    xml_error, ActiveContentRemovedContentTypeEntry, ErrorView, MarkerSource,
};
use crate::parts::{
    is_relationships_part, is_relationships_part_spec, opt_view, owner_and_base,
    relationship_owner_and_base, string_views, OpcPart, RelationshipEntry,
};
use crate::relationships::{parse_relationship_entries, relationship_views, relationships_of, RelationshipView};
use crate::sort::{lemma_sorted_by_map, sorted_by, stable_sort};
use crate::text::{chars_of, lower, str_eq};
use crate::audit::{
    kinds_message_text, removed_entry_before, removed_entry_value_lt, removed_part_before,
    removed_part_lt, removed_relationship_before, removed_relationship_lt, removed_relationship_views,
    ActiveContentAuditManifest, ActiveContentPolicy, ActiveContentRemovedPart,
    ActiveContentRemovedRelationship, RemovedRelationshipView,
};
use crate::inventory::{collect_active_content_inventory, inventory_of};
use crate::package::{lemma_remove_part, lemma_replace_part, part_identity, parts_drawn_from, valid_parts};
use crate::package_xml::{
    sheet_counts, strip_active_content_type_entries, workbook_sheet_counts, strip_relationship_anchors_from_owner_xml,
    strip_relationship_entries_by_id,
};
use crate::parts::part_is_xml;
use crate::plan::{
    active_content_roots, classify_relationship, link_views, owner_removed, protected_root, protected_root_name,
    relationship_links, relationship_parts_removed, relationships_part_of, relationships_part_uri_for_part,
    removed_relationships, required_part_message, strip_candidates, strip_core, strip_gone_relationships,
    strip_links, strip_removed_names, strip_roots,
};
use crate::removal::{
    closed_under, contains_name, holds_no_shared, is_reach_closure, is_unshared_core, lemma_link_views_agree,
    lemma_kept_reached_part_is_shared, shared_in,
    lemma_reach_closure_is, lemma_unshared_core_is, link_closed, names, none_shared_in, prune_shared_parts,
    removal_candidates,
};
use crate::roots::{active_content_part_uris_from_manifest, content_types_name, manifest_roots};
use crate::xml::bytes_eq;
use crate::package_xml::entry_views;
use crate::apply_steps::{
    find_view, lemma_find_view, lemma_sorted_names, kept_owners, holding_parts, manifest_step, owner_fold, owner_step, part_views, relationship_fold,
    relationship_step, removal_fold, removed_ids, removed_ids_upto, sorted_names, with_bytes, PartView,
    lemma_owner_fold_fails, lemma_relationship_fold_fails, lemma_replaced_view, lemma_removed_view,
    removal_records, removed_part_views, removed_part_view_lt, RemovedPartView,
};

verus! {

/// A relationship of a package: the relationships part it is written in, its
/// owner part (none for package relationships) and the entry.
pub struct PackageRelationshipEntry {
    pub relationship_part_uri: String,
    pub owner_part_uri: Option<String>,
    pub entry: RelationshipEntry,
}

/// What a package relationship holds.
pub type PackageRelationshipView = (Seq<char>, Option<Seq<char>>, RelationshipView);

impl PackageRelationshipEntry {
    pub open spec fn view(&self) -> PackageRelationshipView {
        (self.relationship_part_uri@, opt_view(self.owner_part_uri), self.entry@)
    }
}

/// Package relationships are ordered by relationships part, then by id.
pub open spec fn package_relationship_lt(a: PackageRelationshipView, b: PackageRelationshipView) -> bool {
    str_lt(a.0, b.0) || (a.0 == b.0 && str_lt((a.2).0, (b.2).0))
}

/// The same order on entries.
pub open spec fn package_relationship_entry_lt(a: PackageRelationshipEntry, b: PackageRelationshipEntry) -> bool {
    package_relationship_lt(a@, b@)
}

/// The view function of package relationships.
pub open spec fn package_relationship_view(a: PackageRelationshipEntry) -> PackageRelationshipView {
    a@
}

/// The message for a relationships part with active content and no owner.
pub open spec fn unresolved_owner_message(part_uri: Seq<char>) -> Seq<char> {
    "active-content strip cannot resolve relationship owner for "@ + part_uri
}

/// Reads, from part `j` on, the relationships of the relationships parts.
pub open spec fn package_relationships_run(
    parts: Seq<OpcPart>,
    j: int,
    acc: Seq<PackageRelationshipView>,
) -> Result<Seq<PackageRelationshipView>, ErrorView>
    decreases parts.len() - j,
{
    if j >= parts.len() || j < 0 {
        Ok(acc)
    } else {
        let p = parts[j];
        if !is_relationships_part_spec(p.name@, opt_view(p.content_type)) {
            package_relationships_run(parts, j + 1, acc)
        } else {
            match marker_kinds(p.bytes@, MarkerSource::Relationships) {
                Err(m) => Err((OmErrorCode::Parse, m)),
                Ok(k) => match owner_and_base(p.name@) {
                    None => if k == Set::<ActiveContentKind>::empty() {
                        package_relationships_run(parts, j + 1, acc)
                    } else {
                        Err((OmErrorCode::InvalidState, unresolved_owner_message(p.name@)))
                    },
                    Some((owner, base)) => match relationships_of(p.bytes@, base) {
                        Err(x) => Err(x),
                        Ok(rs) => package_relationships_run(
                            parts,
                            j + 1,
                            acc + rs.map_values(|r: RelationshipView| (p.name@, owner, r)),
                        ),
                    },
                },
            }
        }
    }
}

/// The relationships of a package's relationships parts, ordered by
/// relationships part and id (ties in reading order).
pub open spec fn package_relationships(parts: Seq<OpcPart>) -> Result<Seq<PackageRelationshipView>, ErrorView> {
    match package_relationships_run(parts, 0, Seq::empty()) {
        Err(x) => Err(x),
        Ok(s) => Ok(sorted_by(s, |a: PackageRelationshipView, b: PackageRelationshipView| package_relationship_lt(a, b))),
    }
}

/// The views of a list of package relationships.
pub open spec fn package_relationship_views(v: Seq<PackageRelationshipEntry>) -> Seq<PackageRelationshipView> {
    v.map_values(|a: PackageRelationshipEntry| a@)
}

/// The view of a package-relationships result.
pub open spec fn package_relationships_view(r: Result<Vec<PackageRelationshipEntry>, OmError>) -> Result<Seq<PackageRelationshipView>, ErrorView> {
    match r {
        Ok(v) => Ok(package_relationship_views(v@)),
        Err(e) => Err(error_view(e)),
    }
}

fn package_relationship_before(a: &PackageRelationshipEntry, b: &PackageRelationshipEntry) -> (r: bool)
    ensures
        r == package_relationship_lt(a@, b@),
{
    let ua = chars_of(a.relationship_part_uri.as_str());
    let ub = chars_of(b.relationship_part_uri.as_str());
    if chars_lt(&ua, &ub) {
        return true;
    }
    if !crate::text::chars_equal(&ua, &ub) {
        return false;
    }
    let ia = chars_of(a.entry.id.as_str());
    let ib = chars_of(b.entry.id.as_str());
    chars_lt(&ia, &ib)
}

/// The relationships of all relationships parts of a package, with their
/// owners, ordered by relationships part and id.
pub fn collect_package_relationship_entries(package: &OpcPackage) -> (r: Result<Vec<PackageRelationshipEntry>, OmError>)
    ensures
        package_relationships_view(r) == package_relationships(package.parts@),
{
    let mut relationships: Vec<PackageRelationshipEntry> = Vec::new();
    let mut j: usize = 0;
    assert(package_relationship_views(relationships@) =~= Seq::<PackageRelationshipView>::empty());
    while j < package.parts.len()
        invariant
            j <= package.parts@.len(),
            package_relationships_run(package.parts@, 0, Seq::empty()) == package_relationships_run(
                package.parts@,
                j as int,
                package_relationship_views(relationships@),
            ),
        decreases package.parts@.len() - j,
    {
        let part = &package.parts[j];
        if is_relationships_part(part) {
            let marker_kinds_found = match active_content_kinds_from_relationships(part.bytes.as_slice()) {
                Ok(k) => k,
                Err(e) => {
                    return Err(e);
                },
            };
            match relationship_owner_and_base(part.name.as_str()) {
                None => {
                    if !marker_kinds_found.is_empty() {
                        let mut message = String::from_str("active-content strip cannot resolve relationship owner for ");
                        message.append(part.name.as_str());
                        return Err(OmError { code: OmErrorCode::InvalidState, message });
                    }
                },
                Some((owner, base)) => {
                    let entries = match parse_relationship_entries(part.bytes.as_slice(), &base) {
                        Ok(es) => es,
                        Err(e) => {
                            return Err(e);
                        },
                    };
                    let ghost before = package_relationship_views(relationships@);
                    let ghost owner_view = opt_view(owner);
                    let ghost added = relationship_views(entries@).map_values(
                        |r: RelationshipView| (part.name@, owner_view, r),
                    );
                    assert(crate::parts::string_views(base@) == owner_and_base(part.name@).unwrap().1);
                    let mut k: usize = 0;
                    while k < entries.len()
                        invariant
                            k <= entries@.len(),
                            added == relationship_views(entries@).map_values(
                                |r: RelationshipView| (part.name@, owner_view, r),
                            ),
                            package_relationship_views(relationships@) == before + added.subrange(0, k as int),
                            owner_view == opt_view(owner),
                        decreases entries@.len() - k,
                    {
                        let e = &entries[k];
                        let item = PackageRelationshipEntry {
                            relationship_part_uri: part.name.clone(),
                            owner_part_uri: owner.clone(),
                            entry: RelationshipEntry {
                                id: e.id.clone(),
                                relationship_type: e.relationship_type.clone(),
                                target: e.target.clone(),
                                target_mode: e.target_mode.clone(),
                            },
                        };
                        let ghost prev = relationships@;
                        relationships.push(item);
                        assert(package_relationship_views(relationships@) =~= package_relationship_views(prev).push(item@));
                        assert(added.subrange(0, k + 1) =~= added.subrange(0, k as int).push(added[k as int]));
                        k += 1;
                    }
                    assert(added.subrange(0, added.len() as int) =~= added);
                },
            }
        }
        j += 1;
    }
    let ghost collected = relationships@;
    let sorted = stable_sort(
        relationships,
        package_relationship_before,
        Ghost(|a: PackageRelationshipEntry, b: PackageRelationshipEntry| package_relationship_entry_lt(a, b)),
    );
    proof {
        lemma_sorted_by_map(
            collected,
            |a: PackageRelationshipEntry| a@,
            |a: PackageRelationshipEntry, b: PackageRelationshipEntry| package_relationship_entry_lt(a, b),
            |a: PackageRelationshipView, b: PackageRelationshipView| package_relationship_lt(a, b),
        );
        assert(package_relationship_views(collected) == collected.map_values(|a: PackageRelationshipEntry| a@));
    }
    Ok(sorted)
}

/// The relationships that go, with whether each one's owner goes.
fn removed_relationship_entries(
    package: &OpcPackage,
    relationships: &Vec<PackageRelationshipEntry>,
    removed: &Vec<String>,
) -> (r: (Vec<PackageRelationshipEntry>, Vec<bool>))
    ensures
        r.0@.len() == r.1@.len(),
        package_relationship_views(r.0@) == removed_relationships(
            *package,
            package_relationship_views(relationships@),
            names(removed@),
            relationships@.len() as int,
        ),
        forall|j: int| 0 <= j < r.1@.len() ==> r.1@[j] == owner_removed(#[trigger] r.0@[j]@, names(removed@)),
{
    let ghost rels = package_relationship_views(relationships@);
    let mut entries: Vec<PackageRelationshipEntry> = Vec::new();
    let mut owner_flags: Vec<bool> = Vec::new();
    let mut k: usize = 0;
    assert(package_relationship_views(entries@) =~= Seq::<PackageRelationshipView>::empty());
    while k < relationships.len()
        invariant
            k <= relationships@.len(),
            rels == package_relationship_views(relationships@),
            entries@.len() == owner_flags@.len(),
            package_relationship_views(entries@) == removed_relationships(*package, rels, names(removed@), k as int),
            forall|j: int| 0 <= j < owner_flags@.len() ==> owner_flags@[j] == owner_removed(#[trigger] entries@[j]@, names(removed@)),
        decreases relationships@.len() - k,
    {
        let rel = &relationships[k];
        assert(rels[k as int] == rel@);
        let (goes, owner_goes) = classify_relationship(package, rel, removed);
        let ghost before = entries@;
        if goes {
            entries.push(copy_package_relationship(rel));
            owner_flags.push(owner_goes);
            assert(package_relationship_views(entries@) =~= package_relationship_views(before).push(rel@));
        }
        assert(package_relationship_views(entries@) =~= removed_relationships(*package, rels, names(removed@), k + 1));
        k += 1;
    }
    (entries, owner_flags)
}

/// A copy of a package relationship.
fn copy_package_relationship(r: &PackageRelationshipEntry) -> (c: PackageRelationshipEntry)
    ensures
        c@ == r@,
{
    PackageRelationshipEntry {
        relationship_part_uri: r.relationship_part_uri.clone(),
        owner_part_uri: r.owner_part_uri.clone(),
        entry: RelationshipEntry {
            id: r.entry.id.clone(),
            relationship_type: r.entry.relationship_type.clone(),
            target: r.entry.target.clone(),
            target_mode: r.entry.target_mode.clone(),
        },
    }
}

/// The ids of the removed relationships written in relationships part `key`,
/// or, with `by_owner`, owned by the kept part `key`.
fn removed_ids_for(
    entries: &Vec<PackageRelationshipEntry>,
    owner_flags: &Vec<bool>,
    key: &String,
    by_owner: bool,
) -> (ids: Vec<String>)
    requires
        entries@.len() == owner_flags@.len(),
    ensures
        string_views(ids@) == removed_ids_upto(package_relationship_views(entries@), owner_flags@, key@, by_owner, entries@.len() as int),
{
    let mut ids: Vec<String> = Vec::new();
    let mut k: usize = 0;
    assert(string_views(ids@) =~= Seq::<Seq<char>>::empty());
    while k < entries.len()
        invariant
            k <= entries@.len(),
            entries@.len() == owner_flags@.len(),
            string_views(ids@) == removed_ids_upto(package_relationship_views(entries@), owner_flags@, key@, by_owner, k as int),
        decreases entries@.len() - k,
    {
        let ghost before = ids@;
        let e = &entries[k];
        let matches_key = if by_owner {
            match &e.owner_part_uri {
                Some(o) => !owner_flags[k] && str_eq(o.as_str(), key.as_str()),
                None => false,
            }
        } else {
            str_eq(e.relationship_part_uri.as_str(), key.as_str())
        };
        if matches_key {
            ids.push(e.entry.id.clone());
            assert(string_views(ids@) =~= string_views(before).push(e.entry.id@));
        }
        assert(entries@[k as int] == *e);
        assert(package_relationship_views(entries@)[k as int] == e@);
        assert(string_views(ids@) =~= removed_ids_upto(package_relationship_views(entries@), owner_flags@, key@, by_owner, k + 1));
        k += 1;
    }
    ids
}

/// The relationships parts that go: those of removed parts that the package
/// has, and those whose owner goes.
fn relationship_parts_to_remove(
    package: &OpcPackage,
    removed: &Vec<String>,
    entries: &Vec<PackageRelationshipEntry>,
    owner_flags: &Vec<bool>,
) -> (r: NameSet)
    requires
        entries@.len() == owner_flags@.len(),
        forall|j: int| 0 <= j < owner_flags@.len() ==> owner_flags@[j] == owner_removed(#[trigger] entries@[j]@, names(removed@)),
    ensures
        r.wf(),
        r@ == relationship_parts_removed(*package, names(removed@), package_relationship_views(entries@)),
{
    let ghost gone = package_relationship_views(entries@);
    let ghost own = Set::new(
        |n: Seq<char>| exists|p: Seq<char>| names(removed@).contains(p) && #[trigger] relationships_part_of(p) == Some(n) && package.find(n) is Some,
    );
    let mut parts = NameSet::new();
    let mut i: usize = 0;
    while i < removed.len()
        invariant
            i <= removed@.len(),
            parts.wf(),
            parts@ == Set::new(
                |n: Seq<char>| exists|t: int| 0 <= t < i && relationships_part_of(#[trigger] removed@[t]@) == Some(n) && package.find(n) is Some,
            ),
        decreases removed@.len() - i,
    {
        let ghost before = parts@;
        if let Some(rp) = relationships_part_uri_for_part(removed[i].as_str()) {
            if package.contains(rp.as_str()) {
                parts.insert(rp);
            }
        }
        assert(parts@ =~= Set::new(
            |n: Seq<char>| exists|t: int| 0 <= t < i + 1 && relationships_part_of(#[trigger] removed@[t]@) == Some(n) && package.find(n) is Some,
        )) by {
            assert forall|n: Seq<char>| parts@.contains(n) <==> exists|t: int| 0 <= t < i + 1 && relationships_part_of(#[trigger] removed@[t]@) == Some(n) && package.find(n) is Some by {
                if exists|t: int| 0 <= t < i + 1 && relationships_part_of(#[trigger] removed@[t]@) == Some(n) && package.find(n) is Some {
                    let t = choose|t: int| 0 <= t < i + 1 && relationships_part_of(#[trigger] removed@[t]@) == Some(n) && package.find(n) is Some;
                    if t < i {
                        assert(before.contains(n));
                    }
                }
                if before.contains(n) {
                    let t = choose|t: int| 0 <= t < i && relationships_part_of(#[trigger] removed@[t]@) == Some(n) && package.find(n) is Some;
                    assert(0 <= t < i + 1);
                }
            }
        }
        i += 1;
    }
    assert(parts@ =~= own) by {
        assert forall|n: Seq<char>| parts@.contains(n) <==> own.contains(n) by {
            if parts@.contains(n) {
                let t = choose|t: int| 0 <= t < removed@.len() && relationships_part_of(#[trigger] removed@[t]@) == Some(n) && package.find(n) is Some;
                assert(names(removed@).contains(removed@[t]@));
            }
            if own.contains(n) {
                let p = choose|p: Seq<char>| names(removed@).contains(p) && #[trigger] relationships_part_of(p) == Some(n) && package.find(n) is Some;
                let t = choose|t: int| 0 <= t < removed@.len() && removed@[t]@ == p;
                assert(relationships_part_of(removed@[t]@) == Some(n));
            }
        }
    }
    let mut k: usize = 0;
    while k < entries.len()
        invariant
            k <= entries@.len(),
            entries@.len() == owner_flags@.len(),
            gone == package_relationship_views(entries@),
            forall|j: int| 0 <= j < owner_flags@.len() ==> owner_flags@[j] == owner_removed(#[trigger] entries@[j]@, names(removed@)),
            parts.wf(),
            parts@ == own.union(Set::new(
                |n: Seq<char>| exists|t: int| 0 <= t < k && owner_removed(#[trigger] gone[t], names(removed@)) && gone[t].0 == n,
            )),
        decreases entries@.len() - k,
    {
        let ghost before = parts@;
        assert(gone[k as int] == entries@[k as int]@);
        if owner_flags[k] {
            parts.insert(entries[k].relationship_part_uri.clone());
        }
        assert(parts@ =~= own.union(Set::new(
            |n: Seq<char>| exists|t: int| 0 <= t < k + 1 && owner_removed(#[trigger] gone[t], names(removed@)) && gone[t].0 == n,
        ))) by {
            assert forall|n: Seq<char>| parts@.contains(n) <==> own.union(Set::new(
                |n: Seq<char>| exists|t: int| 0 <= t < k + 1 && owner_removed(#[trigger] gone[t], names(removed@)) && gone[t].0 == n,
            )).contains(n) by {
                if exists|t: int| 0 <= t < k + 1 && owner_removed(#[trigger] gone[t], names(removed@)) && gone[t].0 == n {
                    let t = choose|t: int| 0 <= t < k + 1 && owner_removed(#[trigger] gone[t], names(removed@)) && gone[t].0 == n;
                    if t < k {
                        assert(before.contains(n));
                    }
                }
                if before.contains(n) && !own.contains(n) {
                    let t = choose|t: int| 0 <= t < k && owner_removed(#[trigger] gone[t], names(removed@)) && gone[t].0 == n;
                    assert(0 <= t < k + 1);
                }
            }
        }
        k += 1;
    }
    assert(parts@ =~= relationship_parts_removed(*package, names(removed@), gone));
    parts
}

/// The rewrites of the kept owners of removed relationships, in ascending
/// order of their names.
pub open spec fn owner_rewrites(pv: Seq<PartView>, gone: Seq<PackageRelationshipView>, flags: Seq<bool>) -> Result<
    (Seq<PartView>, Seq<Seq<char>>),
    crate::package_xml::ErrorView,
> {
    let owners = sorted_names(kept_owners(gone, flags, gone.len() as int));
    owner_fold(pv, gone, flags, owners, owners.len() as int)
}

/// The rewrites of the relationships parts that hold removed relationships,
/// in ascending order of their names, skipping those in `skip`.
pub open spec fn relationship_rewrites(
    pv: Seq<PartView>,
    gone: Seq<PackageRelationshipView>,
    flags: Seq<bool>,
    skip: Set<Seq<char>>,
) -> Result<Seq<PartView>, crate::package_xml::ErrorView> {
    let keys = sorted_names(holding_parts(gone, gone.len() as int));
    relationship_fold(pv, gone, flags, keys, skip, keys.len() as int)
}

/// The kept owners and holding parts of entries are those of their views.
proof fn lemma_entry_names(entries: Seq<PackageRelationshipEntry>, flags: Seq<bool>)
    ensures
        kept_owner_names(entries, flags, entries.len() as int) == kept_owners(
            package_relationship_views(entries),
            flags,
            entries.len() as int,
        ),
        holding_part_names(entries, entries.len() as int) == holding_parts(package_relationship_views(entries), entries.len() as int),
{
    let gone = package_relationship_views(entries);
    assert forall|t: int| 0 <= t < entries.len() implies #[trigger] gone[t] == entries[t]@ by {}
    assert(kept_owner_names(entries, flags, entries.len() as int) =~= kept_owners(gone, flags, entries.len() as int)) by {
        assert forall|n: Seq<char>| kept_owner_names(entries, flags, entries.len() as int).contains(n) <==> kept_owners(gone, flags, entries.len() as int).contains(n) by {
            if kept_owner_names(entries, flags, entries.len() as int).contains(n) {
                let t = choose|t: int| 0 <= t < entries.len() && opt_view((#[trigger] entries[t]).owner_part_uri) == Some(n) && !flags[t];
                assert(gone[t] == entries[t]@);
            }
            if kept_owners(gone, flags, entries.len() as int).contains(n) {
                let t = choose|t: int| 0 <= t < entries.len() && (#[trigger] gone[t]).1 == Some(n) && !flags[t];
                assert(gone[t] == entries[t]@);
            }
        }
    }
    assert(holding_part_names(entries, entries.len() as int) =~= holding_parts(gone, entries.len() as int)) by {
        assert forall|n: Seq<char>| holding_part_names(entries, entries.len() as int).contains(n) <==> holding_parts(gone, entries.len() as int).contains(n) by {
            if holding_part_names(entries, entries.len() as int).contains(n) {
                let t = choose|t: int| 0 <= t < entries.len() && (#[trigger] entries[t]).relationship_part_uri@ == n;
                assert(gone[t] == entries[t]@);
            }
            if holding_parts(gone, entries.len() as int).contains(n) {
                let t = choose|t: int| 0 <= t < entries.len() && (#[trigger] gone[t]).0 == n;
                assert(gone[t] == entries[t]@);
            }
        }
    }
}

/// Removes from the kept owners the anchors of their removed relationships,
/// and returns the owners whose XML changed, in order.
fn rewrite_owner_parts(
    package: &mut OpcPackage,
    entries: &Vec<PackageRelationshipEntry>,
    owner_flags: &Vec<bool>,
    Ghost(orig): Ghost<Seq<OpcPart>>,
) -> (r: Result<Vec<String>, OmError>)
    requires
        entries@.len() == owner_flags@.len(),
        valid_parts(old(package).parts@),
        parts_drawn_from(old(package).parts@, orig),
    ensures
        valid_parts(final(package).parts@),
        parts_drawn_from(final(package).parts@, orig),
        forall|name: Seq<char>| #[trigger] final(package).find(name) == old(package).find(name),
        rewritten_within(final(package).parts@, old(package).parts@, kept_owner_names(entries@, owner_flags@, entries@.len() as int)),
        r matches Ok(v) ==> {
            &&& forall|k: int|
                0 <= k < v@.len() ==> kept_owner_names(entries@, owner_flags@, entries@.len() as int).contains(
                    (#[trigger] v@[k])@,
                ) && old(package).find(v@[k]@) is Some
            &&& forall|a: int, b: int| 0 <= a < b < v@.len() ==> str_lt((#[trigger] v@[a])@, (#[trigger] v@[b])@)
        },
        match owner_rewrites(part_views(old(package).parts@), package_relationship_views(entries@), owner_flags@) {
            Ok((q, rewritten)) => r matches Ok(v) && part_views(final(package).parts@) == q && string_views(v@) == rewritten,
            Err(e) => r matches Err(x) && error_view(x) == e,
        },
{
    let ghost pre = *package;
    let mut owners = NameSet::new();
    let mut k: usize = 0;
    while k < entries.len()
        invariant
            k <= entries@.len(),
            entries@.len() == owner_flags@.len(),
            owners.wf(),
            owners@ == kept_owner_names(entries@, owner_flags@, k as int),
        decreases entries@.len() - k,
    {
        let ghost before = owners@;
        if let Some(o) = &entries[k].owner_part_uri {
            if !owner_flags[k] {
                owners.insert(o.clone());
            }
        }
        assert(owners@ =~= kept_owner_names(entries@, owner_flags@, k + 1)) by {
            assert forall|n: Seq<char>| owners@.contains(n) <==> kept_owner_names(entries@, owner_flags@, k + 1).contains(n) by {
                if kept_owner_names(entries@, owner_flags@, k + 1).contains(n) {
                    let t = choose|t: int| 0 <= t < k + 1 && opt_view((#[trigger] entries@[t]).owner_part_uri) == Some(n) && !owner_flags@[t];
                    if t < k {
                        assert(before.contains(n));
                    }
                }
                if before.contains(n) {
                    let t = choose|t: int| 0 <= t < k && opt_view((#[trigger] entries@[t]).owner_part_uri) == Some(n) && !owner_flags@[t];
                    assert(0 <= t < k + 1);
                }
                if owners@.contains(n) && !before.contains(n) {
                    assert(0 <= k < k + 1 && opt_view(entries@[k as int].owner_part_uri) == Some(n) && !owner_flags@[k as int]);
                }
            }
        }
        k += 1;
    }
    let mut rewritten: Vec<String> = Vec::new();
    let mut i: usize = 0;
    let ghost pv0 = part_views(pre.parts@);
    proof {
        lemma_entry_names(entries@, owner_flags@);
        lemma_sorted_names(owners.seq());
        assert(string_views(rewritten@) =~= Seq::<Seq<char>>::empty());
    }
    while i < owners.len()
        invariant
            sorted_names(owners@) == owners.seq(),
            owners@ == kept_owners(package_relationship_views(entries@), owner_flags@, entries@.len() as int),
            pv0 == part_views(pre.parts@),
            owner_fold(pv0, package_relationship_views(entries@), owner_flags@, owners.seq(), i as int) == Ok::<(Seq<PartView>, Seq<Seq<char>>), crate::package_xml::ErrorView>(
                (part_views(package.parts@), string_views(rewritten@)),
            ),
            i <= owners.seq().len(),
            entries@.len() == owner_flags@.len(),
            valid_parts(package.parts@),
            parts_drawn_from(package.parts@, orig),
            forall|name: Seq<char>| #[trigger] package.find(name) == pre.find(name),
            pre == *old(package),
            owners@ == kept_owner_names(entries@, owner_flags@, entries@.len() as int),
            rewritten_within(package.parts@, pre.parts@, owners@),
            owners.wf(),
            forall|k: int| 0 <= k < rewritten@.len() ==> exists|t: int| 0 <= t < i && owners.seq()[t] == (#[trigger] rewritten@[k])@,
            forall|k: int| 0 <= k < rewritten@.len() ==> pre.find((#[trigger] rewritten@[k])@) is Some,
            forall|a: int, b: int| 0 <= a < b < rewritten@.len() ==> str_lt((#[trigger] rewritten@[a])@, (#[trigger] rewritten@[b])@),
        decreases owners.seq().len() - i,
    {
        let owner = owners.get(i);
        let ids = removed_ids_for(entries, owner_flags, owner, true);
        let ghost cur = part_views(package.parts@);
        let ghost ids_set = removed_ids(package_relationship_views(entries@), owner_flags@, owner@, true);
        let ghost prev_rw = string_views(rewritten@);
        proof {
            lemma_names_string_views(ids@);
            lemma_find_view(*package, owner@);
            assert(owners.seq()[i as int] == owner@);
        }
        if let Some(j) = package.part_index(owner.as_str()) {
            assert(cur[j as int] == crate::apply_steps::part_view(package.parts@[j as int]));
            if part_is_xml(&package.parts[j]) {
                let updated = match strip_relationship_anchors_from_owner_xml(package.parts[j].bytes.as_slice(), &ids) {
                    Ok(b) => b,
                    Err(e) => {
                        proof {
                            lemma_owner_fold_fails(pv0, package_relationship_views(entries@), owner_flags@, owners.seq(), i + 1, owners.seq().len() as int);
                        }
                        return Err(e);
                    },
                };
                if !bytes_eq(updated.as_slice(), package.parts[j].bytes.as_slice()) {
                    let ghost before = *package;
                    match package.replace_part_bytes(owner.as_str(), updated) {
                        Ok(()) => {},
                        Err(e) => {
                            return Err(e);
                        },
                    }
                    proof {
                        lemma_replace_part(before, *package, j as int, orig);
                        crate::package::lemma_find_is_some(before, owner@);
                        lemma_rewritten_replace(pre.parts@, before.parts@, package.parts@, j as int, owner@, owners@);
                        assert(owners@.contains(owner@)) by {
                            assert(owners.seq()[i as int] == owner@);
                        }
                        assert(owners@.insert(owner@) =~= owners@);
                    }
                    let ghost prev = rewritten@;
                    rewritten.push(owner.clone());
                    proof {
                        lemma_replaced_view(before.parts@, package.parts@, j as int);
                        assert(string_views(rewritten@) =~= prev_rw.push(owner@));
                        assert(rewritten@[prev.len() as int]@ == owners.seq()[i as int]);
                        assert forall|k: int| 0 <= k < rewritten@.len() implies exists|t: int| 0 <= t < i + 1 && owners.seq()[t] == (#[trigger] rewritten@[k])@ by {
                            if k < prev.len() {
                                assert(rewritten@[k] == prev[k]);
                                let t = choose|t: int| 0 <= t < i && owners.seq()[t] == prev[k]@;
                            } else {
                                assert(owners.seq()[i as int] == rewritten@[k]@);
                            }
                        }
                        assert forall|k: int| 0 <= k < rewritten@.len() implies pre.find((#[trigger] rewritten@[k])@) is Some by {
                            if k < prev.len() {
                                assert(rewritten@[k] == prev[k]);
                            } else {
                                assert(before.find(owner@) is Some);
                            }
                        }
                        assert forall|a: int, b: int| 0 <= a < b < rewritten@.len() implies str_lt((#[trigger] rewritten@[a])@, (#[trigger] rewritten@[b])@) by {
                            if b < prev.len() {
                                assert(rewritten@[a] == prev[a]);
                                assert(rewritten@[b] == prev[b]);
                            } else {
                                assert(rewritten@[a] == prev[a]);
                                let t = choose|t: int| 0 <= t < i && owners.seq()[t] == prev[a]@;
                                assert(str_lt(owners.seq()[t], owners.seq()[i as int]));
                            }
                        }
                    }
                }
            }
        }
        i += 1;
    }
    proof {
        assert forall|k: int| 0 <= k < rewritten@.len() implies kept_owner_names(entries@, owner_flags@, entries@.len() as int).contains(
            (#[trigger] rewritten@[k])@,
        ) && pre.find(rewritten@[k]@) is Some by {
            let t = choose|t: int| 0 <= t < owners.seq().len() && owners.seq()[t] == rewritten@[k]@;
            assert(owners@.contains(owners.seq()[t]));
        }
    }
    Ok(rewritten)
}

/// Removes the removed relationships from the relationships parts that stay.
fn rewrite_relationship_parts(
    package: &mut OpcPackage,
    entries: &Vec<PackageRelationshipEntry>,
    owner_flags: &Vec<bool>,
    parts_to_remove: &NameSet,
    Ghost(orig): Ghost<Seq<OpcPart>>,
) -> (r: Result<(), OmError>)
    requires
        entries@.len() == owner_flags@.len(),
        valid_parts(old(package).parts@),
        parts_drawn_from(old(package).parts@, orig),
    ensures
        valid_parts(final(package).parts@),
        parts_drawn_from(final(package).parts@, orig),
        forall|name: Seq<char>| #[trigger] final(package).find(name) == old(package).find(name),
        rewritten_within(final(package).parts@, old(package).parts@, holding_part_names(entries@, entries@.len() as int)),
        match relationship_rewrites(part_views(old(package).parts@), package_relationship_views(entries@), owner_flags@, parts_to_remove@) {
            Ok(q) => r is Ok && part_views(final(package).parts@) == q,
            Err(e) => r matches Err(x) && error_view(x) == e,
        },
{
    let ghost pre = *package;
    let mut keys = NameSet::new();
    let mut k: usize = 0;
    while k < entries.len()
        invariant
            k <= entries@.len(),
            keys.wf(),
            keys@ == holding_part_names(entries@, k as int),
        decreases entries@.len() - k,
    {
        let ghost before = keys@;
        keys.insert(entries[k].relationship_part_uri.clone());
        assert(keys@ =~= holding_part_names(entries@, k + 1)) by {
            assert forall|n: Seq<char>| keys@.contains(n) <==> holding_part_names(entries@, k + 1).contains(n) by {
                if holding_part_names(entries@, k + 1).contains(n) {
                    let t = choose|t: int| 0 <= t < k + 1 && (#[trigger] entries@[t]).relationship_part_uri@ == n;
                    if t < k {
                        assert(before.contains(n));
                    }
                }
                if before.contains(n) {
                    let t = choose|t: int| 0 <= t < k && (#[trigger] entries@[t]).relationship_part_uri@ == n;
                    assert(0 <= t < k + 1);
                }
                if keys@.contains(n) && !before.contains(n) {
                    assert(0 <= k < k + 1 && entries@[k as int].relationship_part_uri@ == n);
                }
            }
        }
        k += 1;
    }
    let mut i: usize = 0;
    let ghost pv0 = part_views(pre.parts@);
    proof {
        lemma_entry_names(entries@, owner_flags@);
        lemma_sorted_names(keys.seq());
    }
    while i < keys.len()
        invariant
            sorted_names(keys@) == keys.seq(),
            keys@ == holding_parts(package_relationship_views(entries@), entries@.len() as int),
            pv0 == part_views(pre.parts@),
            relationship_fold(pv0, package_relationship_views(entries@), owner_flags@, keys.seq(), parts_to_remove@, i as int) == Ok::<Seq<PartView>, crate::package_xml::ErrorView>(
                part_views(package.parts@),
            ),
            i <= keys.seq().len(),
            entries@.len() == owner_flags@.len(),
            valid_parts(package.parts@),
            parts_drawn_from(package.parts@, orig),
            forall|name: Seq<char>| #[trigger] package.find(name) == pre.find(name),
            pre == *old(package),
            keys@ == holding_part_names(entries@, entries@.len() as int),
            rewritten_within(package.parts@, pre.parts@, keys@),
        decreases keys.seq().len() - i,
    {
        let key = keys.get(i);
        let ghost cur = part_views(package.parts@);
        proof {
            lemma_find_view(*package, key@);
            assert(keys.seq()[i as int] == key@);
        }
        if !parts_to_remove.contains(key.as_str()) {
            if let Some(j) = package.part_index(key.as_str()) {
                let ids = removed_ids_for(entries, owner_flags, key, false);
                proof {
                    lemma_names_string_views(ids@);
                }
                assert(cur[j as int] == crate::apply_steps::part_view(package.parts@[j as int]));
                let updated = match strip_relationship_entries_by_id(package.parts[j].bytes.as_slice(), &ids) {
                    Ok(b) => b,
                    Err(e) => {
                        proof {
                            lemma_relationship_fold_fails(pv0, package_relationship_views(entries@), owner_flags@, keys.seq(), parts_to_remove@, i + 1, keys.seq().len() as int);
                        }
                        return Err(e);
                    },
                };
                let ghost before = *package;
                match package.replace_part_bytes(key.as_str(), updated) {
                    Ok(()) => {},
                    Err(e) => {
                        return Err(e);
                    },
                }
                proof {
                    lemma_replaced_view(before.parts@, package.parts@, j as int);
                    lemma_replace_part(before, *package, j as int, orig);
                    crate::package::lemma_find_is_some(before, key@);
                    lemma_rewritten_replace(pre.parts@, before.parts@, package.parts@, j as int, key@, keys@);
                    assert(keys@.contains(key@)) by {
                        assert(keys.seq()[i as int] == key@);
                    }
                    assert(keys@.insert(key@) =~= keys@);
                }
            }
        }
        i += 1;
    }
    Ok(())
}

/// Whether `name` has the identity of one of the names in `removed`.
pub open spec fn names_identity_in(removed: Set<Seq<char>>, name: Seq<char>) -> bool {
    exists|n: Seq<char>| removed.contains(n) && part_identity(n) == part_identity(name)
}

proof fn lemma_names_identity_in_push(v: Seq<String>, s: String)
    ensures
        forall|name: Seq<char>|
            #[trigger] names_identity_in(names(v.push(s)), name) <==> (names_identity_in(names(v), name)
                || part_identity(s@) == part_identity(name)),
{
    crate::removal::lemma_names_push(v, s);
    assert forall|name: Seq<char>|
        #[trigger] names_identity_in(names(v.push(s)), name) <==> (names_identity_in(names(v), name) || part_identity(s@)
            == part_identity(name)) by {
        if names_identity_in(names(v.push(s)), name) {
            let n = choose|n: Seq<char>| names(v.push(s)).contains(n) && part_identity(n) == part_identity(name);
            if n != s@ {
                assert(names(v).contains(n));
            }
        }
        if names_identity_in(names(v), name) {
            let n = choose|n: Seq<char>| names(v).contains(n) && part_identity(n) == part_identity(name);
            assert(names(v.push(s)).contains(n));
        }
        if part_identity(s@) == part_identity(name) {
            assert(names(v.push(s)).contains(s@));
        }
    }
}

/// The kept owners of the first `k` removed relationships.
pub open spec fn kept_owner_names(entries: Seq<PackageRelationshipEntry>, flags: Seq<bool>, k: int) -> Set<Seq<char>> {
    Set::new(
        |n: Seq<char>| exists|t: int| 0 <= t < k && opt_view((#[trigger] entries[t]).owner_part_uri) == Some(n) && !flags[t],
    )
}

/// The relationships parts that hold the first `k` removed relationships.
pub open spec fn holding_part_names(entries: Seq<PackageRelationshipEntry>, k: int) -> Set<Seq<char>> {
    Set::new(|n: Seq<char>| exists|t: int| 0 <= t < k && (#[trigger] entries[t]).relationship_part_uri@ == n)
}

/// `cur` has the parts of `prev`, position by position, with the same names
/// and content types, and with the same bytes where the name has no identity
/// among `keys`.
pub open spec fn rewritten_within(cur: Seq<OpcPart>, prev: Seq<OpcPart>, keys: Set<Seq<char>>) -> bool {
    &&& cur.len() == prev.len()
    &&& forall|i: int|
        0 <= i < prev.len() ==> (#[trigger] cur[i]).name == prev[i].name && cur[i].content_type == prev[i].content_type
            && (!names_identity_in(keys, prev[i].name@) ==> cur[i] == prev[i])
}

/// Each part of `cur` is a part of `orig` by name and content type, and the
/// same part where its name has no identity among `keys`.
pub open spec fn taken_within(cur: Seq<OpcPart>, orig: Seq<OpcPart>, keys: Set<Seq<char>>) -> bool {
    forall|i: int|
        0 <= i < cur.len() ==> exists|j: int|
            0 <= j < orig.len() && (#[trigger] cur[i]).name == orig[j].name && cur[i].content_type == orig[j].content_type
                && (!names_identity_in(keys, cur[i].name@) ==> cur[i] == orig[j])
}

/// Replacing the bytes of a part whose name has the identity of `key`.
proof fn lemma_rewritten_replace(
    pre: Seq<OpcPart>,
    before: Seq<OpcPart>,
    after: Seq<OpcPart>,
    j: int,
    key: Seq<char>,
    keys: Set<Seq<char>>,
)
    requires
        rewritten_within(before, pre, keys),
        0 <= j < before.len(),
        part_identity(before[j].name@) == part_identity(key),
        after.len() == before.len(),
        after[j].name == before[j].name,
        after[j].content_type == before[j].content_type,
        forall|i: int| 0 <= i < before.len() && i != j ==> #[trigger] after[i] == before[i],
    ensures
        rewritten_within(after, pre, keys.insert(key)),
{
    assert forall|i: int| 0 <= i < pre.len() implies (#[trigger] after[i]).name == pre[i].name && after[i].content_type
        == pre[i].content_type && (!names_identity_in(keys.insert(key), pre[i].name@) ==> after[i] == pre[i]) by {
        if names_identity_in(keys, pre[i].name@) {
            let n = choose|n: Seq<char>| keys.contains(n) && part_identity(n) == part_identity(pre[i].name@);
            assert(keys.insert(key).contains(n));
        }
        if i == j {
            assert(keys.insert(key).contains(key));
        } else {
            assert(after[i] == before[i]);
        }
    }
}

/// The owners of relationships that a strip removes while keeping the owner.
pub open spec fn strip_kept_owners(
    package: OpcPackage,
    relationships: Seq<PackageRelationshipView>,
    manifest: Set<Seq<char>>,
) -> Set<Seq<char>> {
    let gone = strip_gone_relationships(package, relationships, manifest);
    let core = strip_core(package, relationships, manifest);
    Set::new(
        |n: Seq<char>| exists|k: int| 0 <= k < gone.len() && (#[trigger] gone[k]).1 == Some(n) && !owner_removed(gone[k], core),
    )
}

/// Two rewrites, a removal and a rewrite, in turn.
proof fn lemma_strip_steps(
    p0: Seq<OpcPart>,
    p1: Seq<OpcPart>,
    p2: Seq<OpcPart>,
    p3: Seq<OpcPart>,
    p4: Seq<OpcPart>,
    k1: Set<Seq<char>>,
    k2: Set<Seq<char>>,
    k3: Set<Seq<char>>,
)
    requires
        rewritten_within(p1, p0, k1),
        rewritten_within(p2, p1, k2),
        forall|i: int| 0 <= i < p3.len() ==> exists|j: int| 0 <= j < p2.len() && #[trigger] p3[i] == p2[j],
        rewritten_within(p4, p3, k3),
    ensures
        taken_within(p4, p0, k1.union(k2).union(k3)),
{
    let keys = k1.union(k2).union(k3);
    assert forall|i: int| 0 <= i < p4.len() implies exists|j: int|
        0 <= j < p0.len() && (#[trigger] p4[i]).name == p0[j].name && p4[i].content_type == p0[j].content_type
            && (!names_identity_in(keys, p4[i].name@) ==> p4[i] == p0[j]) by {
        assert(p4[i].name == p3[i].name);
        let j = choose|j: int| 0 <= j < p2.len() && #[trigger] p3[i] == p2[j];
        assert(p2[j].name == p1[j].name);
        assert(p1[j].name == p0[j].name);
        if !names_identity_in(keys, p4[i].name@) {
            if names_identity_in(k3, p3[i].name@) {
                let n = choose|n: Seq<char>| k3.contains(n) && part_identity(n) == part_identity(p3[i].name@);
                assert(keys.contains(n));
            }
            if names_identity_in(k2, p1[j].name@) {
                let n = choose|n: Seq<char>| k2.contains(n) && part_identity(n) == part_identity(p1[j].name@);
                assert(keys.contains(n));
            }
            if names_identity_in(k1, p0[j].name@) {
                let n = choose|n: Seq<char>| k1.contains(n) && part_identity(n) == part_identity(p0[j].name@);
                assert(keys.contains(n));
            }
        }
    }
}

/// Removes the parts that the names designate, and records each one removed.
fn remove_named_parts(
    package: &mut OpcPackage,
    removed: &Vec<String>,
    Ghost(orig): Ghost<Seq<OpcPart>>,
) -> (r: Vec<ActiveContentRemovedPart>)
    requires
        valid_parts(old(package).parts@),
        parts_drawn_from(old(package).parts@, orig),
    ensures
        valid_parts(final(package).parts@),
        parts_drawn_from(final(package).parts@, orig),
        forall|k: int| 0 <= k < removed@.len() ==> final(package).find(#[trigger] removed@[k]@) is None,
        forall|k: int|
            0 <= k < r@.len() ==> final(package).find((#[trigger] r@[k]).part_uri@) is None && exists|j: int|
                0 <= j < orig.len() && orig[j].name == r@[k].part_uri && orig[j].content_type
                    == r@[k].content_type,
        forall|name: Seq<char>|
            #[trigger] final(package).find(name) is Some <==> (old(package).find(name) is Some && !names_identity_in(
                names(removed@),
                name,
            )),
        forall|i: int|
            0 <= i < final(package).parts@.len() ==> exists|j: int|
                0 <= j < old(package).parts@.len() && #[trigger] final(package).parts@[i] == old(package).parts@[j],
        forall|k: int| 0 <= k < r@.len() ==> names_identity_in(names(removed@), (#[trigger] r@[k]).part_uri@),
        forall|j: int|
            0 <= j < old(package).parts@.len() && names_identity_in(names(removed@), (#[trigger] old(package).parts@[j]).name@)
                ==> exists|k: int| 0 <= k < r@.len() && r@[k].part_uri == old(package).parts@[j].name,
        part_views(final(package).parts@) == removal_fold(part_views(old(package).parts@), string_views(removed@), removed@.len() as int),
        removed_part_views(r@) == removal_records(part_views(old(package).parts@), string_views(removed@), removed@.len() as int),
        forall|x: int, y: int| 0 <= x < y < r@.len() ==> (#[trigger] r@[x]).part_uri@ != (#[trigger] r@[y]).part_uri@,
{
    let ghost pre = *package;
    assert(names(removed@.subrange(0, 0)) =~= Set::<Seq<char>>::empty());
    let mut records: Vec<ActiveContentRemovedPart> = Vec::new();
    let mut i: usize = 0;
    while i < removed.len()
        invariant
            i <= removed@.len(),
            valid_parts(package.parts@),
            parts_drawn_from(package.parts@, orig),
            forall|k: int| 0 <= k < i ==> package.find(#[trigger] removed@[k]@) is None,
            forall|k: int|
                0 <= k < records@.len() ==> package.find((#[trigger] records@[k]).part_uri@) is None && exists|j: int|
                    0 <= j < orig.len() && orig[j].name == records@[k].part_uri && orig[j].content_type
                        == records@[k].content_type,
            forall|name: Seq<char>|
                #[trigger] package.find(name) is Some <==> (pre.find(name) is Some && !names_identity_in(
                    names(removed@.subrange(0, i as int)),
                    name,
                )),
            forall|t: int|
                0 <= t < package.parts@.len() ==> exists|j: int|
                    0 <= j < pre.parts@.len() && #[trigger] package.parts@[t] == pre.parts@[j],
            pre == *old(package),
            valid_parts(pre.parts@),
            part_views(package.parts@) == removal_fold(part_views(pre.parts@), string_views(removed@), i as int),
            removed_part_views(records@) == removal_records(part_views(pre.parts@), string_views(removed@), i as int),
            forall|x: int, y: int| 0 <= x < y < records@.len() ==> (#[trigger] records@[x]).part_uri@ != (#[trigger] records@[y]).part_uri@,
            forall|k: int| 0 <= k < records@.len() ==> names_identity_in(names(removed@.subrange(0, i as int)), (#[trigger] records@[k]).part_uri@),
            forall|j: int|
                0 <= j < pre.parts@.len() && names_identity_in(names(removed@.subrange(0, i as int)), (#[trigger] pre.parts@[j]).name@)
                    ==> exists|k: int| 0 <= k < records@.len() && records@[k].part_uri == pre.parts@[j].name,
        decreases removed@.len() - i,
    {
        let ghost before = *package;
        let ghost at = package.find(removed@[i as int]@);
        proof {
            lemma_names_identity_in_push(removed@.subrange(0, i as int), removed@[i as int]);
            assert(removed@.subrange(0, i + 1) =~= removed@.subrange(0, i as int).push(removed@[i as int]));
        }
        proof {
            lemma_find_view(before, removed@[i as int]@);
            assert(string_views(removed@)[i as int] == removed@[i as int]@);
        }
        match package.remove_part(removed[i].as_str()) {
            Some(part) => {
                proof {
                    crate::package::lemma_find_is_some(before, removed@[i as int]@);
                    lemma_removed_view(before.parts@, at->0);
                    crate::package::lemma_remove_part_find(before, *package, removed@[i as int]@);
                    crate::package::lemma_find_is_some(before, removed@[i as int]@);
                    let j0 = at->0;
                    assert(package.parts@ == before.parts@.remove(j0));
                    assert forall|t: int| 0 <= t < package.parts@.len() implies #[trigger] package.parts@[t]
                        == before.parts@[if t < j0 { t } else { t + 1 }] by {}
                    assert forall|t: int| 0 <= t < package.parts@.len() implies exists|j: int|
                        0 <= j < pre.parts@.len() && #[trigger] package.parts@[t] == pre.parts@[j] by {
                        let t2 = if t < j0 { t } else { t + 1 };
                        assert(package.parts@[t] == before.parts@[t2]);
                        assert(exists|j: int| 0 <= j < pre.parts@.len() && #[trigger] before.parts@[t2] == pre.parts@[j]);
                    }
                    lemma_remove_part(before, *package, at->0, orig);
                    let j0 = at->0;
                    assert(part == before.parts@[j0]);
                    crate::package::lemma_find_is_some(before, part.name@);
                    assert(before.find(part.name@) == Some(j0)) by {
                        crate::package::lemma_find_is_some(before, removed@[i as int]@);
                        if before.find(part.name@) != Some(j0) {
                            let j1 = before.find(part.name@)->0;
                            if j1 < j0 {
                                assert(crate::package::part_identity(before.parts@[j1].name@) != crate::package::part_identity(before.parts@[j0].name@));
                            } else {
                                assert(crate::package::part_identity(before.parts@[j0].name@) != crate::package::part_identity(before.parts@[j1].name@));
                            }
                        }
                    }
                    assert(exists|j: int| 0 <= j < orig.len() && (#[trigger] before.parts@[j0]).name == orig[j].name && before.parts@[j0].content_type == orig[j].content_type);
                }
                let ghost prev_records = records@;
                let byte_len = part.bytes.len() as u64;
                let ghost part_bytes_len = part.bytes@.len();
                records.push(ActiveContentRemovedPart { part_uri: part.name, content_type: part.content_type, byte_len });
                proof {
                    assert forall|x: int, y: int| 0 <= x < y < records@.len() implies (#[trigger] records@[x]).part_uri@ != (#[trigger] records@[y]).part_uri@ by {
                        if y == records@.len() - 1 {
                            assert(records@[x] == prev_records[x]);
                            assert(before.find(prev_records[x].part_uri@) is None);
                            assert(before.find(records@[y].part_uri@) is Some);
                        } else {
                            assert(records@[x] == prev_records[x]);
                            assert(records@[y] == prev_records[y]);
                        }
                    }
                    assert(part_views(before.parts@)[at->0] == crate::apply_steps::part_view(before.parts@[at->0]));
                    assert(byte_len as nat == part_bytes_len);
                    assert(removed_part_views(records@) =~= removed_part_views(prev_records).push(
                        crate::apply_steps::removed_part_view(records@.last()),
                    ));
                }
                proof {
                    let j0 = at->0;
                    let rn = removed@[i as int]@;
                    assert(records@.last().part_uri == before.parts@[j0].name);
                    assert forall|k: int| 0 <= k < records@.len() implies names_identity_in(names(removed@.subrange(0, i + 1)), (#[trigger] records@[k]).part_uri@) by {
                        if k < prev_records.len() {
                            assert(records@[k] == prev_records[k]);
                        } else {
                            assert(part_identity(rn) == part_identity(before.parts@[j0].name@));
                        }
                    }
                    assert forall|j: int|
                        0 <= j < pre.parts@.len() && names_identity_in(names(removed@.subrange(0, i + 1)), (#[trigger] pre.parts@[j]).name@)
                        implies exists|k: int| 0 <= k < records@.len() && records@[k].part_uri == pre.parts@[j].name by {
                        if names_identity_in(names(removed@.subrange(0, i as int)), pre.parts@[j].name@) {
                            let k = choose|k: int| 0 <= k < prev_records.len() && prev_records[k].part_uri == pre.parts@[j].name;
                            assert(records@[k] == prev_records[k]);
                        } else {
                            let pn = pre.parts@[j].name@;
                            assert(part_identity(rn) == part_identity(pn));
                            crate::package::lemma_find_is_some(pre, pn);
                            assert(crate::package::has_identity(pre.parts@, part_identity(pn)->0));
                            assert(before.find(pn) is Some);
                            assert(before.find(pn) == before.find(rn));
                            let jj = choose|jj: int| 0 <= jj < pre.parts@.len() && #[trigger] before.parts@[j0] == pre.parts@[jj];
                            if jj != j {
                                if jj < j {
                                    assert(part_identity(pre.parts@[jj].name@) != part_identity(pre.parts@[j].name@));
                                } else {
                                    assert(part_identity(pre.parts@[j].name@) != part_identity(pre.parts@[jj].name@));
                                }
                            }
                            assert(records@[records@.len() - 1].part_uri == pre.parts@[j].name);
                        }
                    }
                }
            },
            None => {
                assert forall|name: Seq<char>| #[trigger] before.find(name) is Some implies part_identity(name) != part_identity(removed@[i as int]@) by {}
                proof {
                    let rn = removed@[i as int]@;
                    assert forall|k: int| 0 <= k < records@.len() implies names_identity_in(names(removed@.subrange(0, i + 1)), (#[trigger] records@[k]).part_uri@) by {}
                    assert forall|j: int|
                        0 <= j < pre.parts@.len() && names_identity_in(names(removed@.subrange(0, i + 1)), (#[trigger] pre.parts@[j]).name@)
                        implies exists|k: int| 0 <= k < records@.len() && records@[k].part_uri == pre.parts@[j].name by {
                        if !names_identity_in(names(removed@.subrange(0, i as int)), pre.parts@[j].name@) {
                            let pn = pre.parts@[j].name@;
                            crate::package::lemma_find_is_some(pre, pn);
                            assert(crate::package::has_identity(pre.parts@, part_identity(pn)->0));
                            assert(before.find(pn) is Some);
                        }
                    }
                }
            },
        }
        i += 1;
    }
    assert(removed@.subrange(0, removed@.len() as int) =~= removed@);
    records
}

fn copy_kinds(kinds: &[ActiveContentKind]) -> (v: Vec<ActiveContentKind>)
    ensures
        v@ == kinds@,
{
    let mut v: Vec<ActiveContentKind> = Vec::new();
    let mut i: usize = 0;
    while i < kinds.len()
        invariant
            i <= kinds@.len(),
            v@ == kinds@.subrange(0, i as int),
        decreases kinds@.len() - i,
    {
        v.push(kinds[i]);
        assert(kinds@.subrange(0, i + 1) =~= kinds@.subrange(0, i as int).push(kinds@[i as int]));
        i += 1;
    }
    assert(kinds@.subrange(0, kinds@.len() as int) =~= kinds@);
    v
}

/// The audit record of a removed package relationship.
pub open spec fn removed_record_of(r: PackageRelationshipView) -> RemovedRelationshipView {
    (r.0, r.1, (r.2).0, (r.2).1, (r.2).2, (r.2).3)
}

fn removed_relationship_record(e: &PackageRelationshipEntry) -> (r: ActiveContentRemovedRelationship)
    ensures
        r@ == (e.relationship_part_uri@, opt_view(e.owner_part_uri), e.entry.id@, e.entry.relationship_type@, e.entry.target@, opt_view(e.entry.target_mode)),
        r@ == removed_record_of(e@),
{
    ActiveContentRemovedRelationship {
        relationship_part_uri: e.relationship_part_uri.clone(),
        owner_part_uri: e.owner_part_uri.clone(),
        id: e.entry.id.clone(),
        relationship_type: e.entry.relationship_type.clone(),
        target: e.entry.target.clone(),
        target_mode: e.entry.target_mode.clone(),
    }
}

/// A package has no active content: its inventory reads and finds no kind.
pub open spec fn has_no_active_content(parts: Seq<OpcPart>) -> bool {
    inventory_of(parts) matches Ok(v) && v.kinds == Set::<ActiveContentKind>::empty()
}

proof fn lemma_to_set_empty<T>(s: Seq<T>)
    ensures
        (s.to_set() == Set::<T>::empty()) <==> s.len() == 0,
{
    if s.len() > 0 {
        assert(s.to_set().contains(s[0]));
    } else {
        assert(s.to_set() =~= Set::<T>::empty());
    }
}

/// What a strip removes: every part it removes (the removal set and the
/// relationships parts that go with it), the parts kept because something
/// else uses them, and the relationships that go with whether their owner goes.
pub struct StripPlan {
    pub removed_part_uris: Vec<String>,
    pub retained_shared_part_uris: Vec<String>,
    pub relationships: Vec<PackageRelationshipEntry>,
    pub owner_removed: Vec<bool>,
    pub relationship_parts_to_remove: NameSet,
}

/// Whether the owner of each relationship a strip removes goes too.
pub open spec fn gone_flags(
    package: OpcPackage,
    relationships: Seq<PackageRelationshipView>,
    manifest: Set<Seq<char>>,
) -> Seq<bool> {
    let gone = strip_gone_relationships(package, relationships, manifest);
    let core = strip_core(package, relationships, manifest);
    Seq::new(gone.len(), |j: int| owner_removed(gone[j], core))
}

/// What the strip's plan does to a package's part views.
pub open spec fn strip_plan_parts(
    package: OpcPackage,
    relationships: Seq<PackageRelationshipView>,
    manifest: Set<Seq<char>>,
) -> Result<
    (Seq<PartView>, Seq<Seq<char>>, Seq<crate::package_xml::EntryView>, Seq<RemovedPartView>),
    crate::package_xml::ErrorView,
> {
    let gone = strip_gone_relationships(package, relationships, manifest);
    let core = strip_core(package, relationships, manifest);
    plan_parts_of(
        part_views(package.parts@),
        gone,
        gone_flags(package, relationships, manifest),
        relationship_parts_removed(package, core, gone),
        sorted_names(strip_removed_names(package, relationships, manifest)),
    )
}

/// The names of a list of strings are the set of their views.
proof fn lemma_names_string_views(v: Seq<String>)
    ensures
        names(v) == string_views(v).to_set(),
{
    assert forall|n: Seq<char>| names(v).contains(n) <==> string_views(v).to_set().contains(n) by {
        if names(v).contains(n) {
            let k = choose|k: int| 0 <= k < v.len() && v[k]@ == n;
            assert(string_views(v)[k] == n);
        }
        if string_views(v).to_set().contains(n) {
            let k = choose|k: int| 0 <= k < string_views(v).len() && string_views(v)[k] == n;
            assert(v[k]@ == n);
        }
    }
    assert(names(v) =~= string_views(v).to_set());
}

/// Plans a strip: its roots, the parts they reach that nothing else uses, and
/// the relationships that go. Fails rather than remove the manifest or the
/// workbook part.
pub fn plan_active_content_strip(package: &OpcPackage, workbook_part_uri: &str) -> (r: Result<StripPlan, OmError>)
    ensures
        match package_relationships(package.parts@) {
            Err(x) => r matches Err(e) && error_view(e) == x,
            Ok(rels) => match manifest_roots(*package) {
                Err(m) => r matches Err(e) && e.code == OmErrorCode::Parse && e.message@ == m,
                Ok(m) => match protected_root(strip_roots(*package, rels, m), workbook_part_uri@) {
                    Some(p) => r matches Err(e) && e.code == OmErrorCode::InvalidState && e.message@
                        == required_part_message(p),
                    None => r matches Ok(plan) && {
                        &&& strip_roots(*package, rels, m).subset_of(strip_core(*package, rels, m))
                        &&& is_unshared_core(
                            strip_core(*package, rels, m),
                            strip_candidates(*package, rels, m),
                            strip_roots(*package, rels, m),
                            strip_links(*package, rels),
                        )
                        &&& names(plan.removed_part_uris@) == strip_removed_names(*package, rels, m)
                        &&& names(plan.retained_shared_part_uris@) == strip_candidates(*package, rels, m).difference(
                            strip_core(*package, rels, m),
                        )
                        &&& forall|i: int, j: int|
                            0 <= i < j < plan.retained_shared_part_uris@.len() ==> str_lt(
                                #[trigger] plan.retained_shared_part_uris@[i]@,
                                #[trigger] plan.retained_shared_part_uris@[j]@,
                            )
                        &&& package_relationship_views(plan.relationships@) == strip_gone_relationships(*package, rels, m)
                        &&& plan.owner_removed@ == gone_flags(*package, rels, m)
                        &&& string_views(plan.removed_part_uris@) == sorted_names(strip_removed_names(*package, rels, m))
                        &&& plan.relationship_parts_to_remove.wf()
                        &&& plan.relationship_parts_to_remove@ == relationship_parts_removed(
                            *package,
                            strip_core(*package, rels, m),
                            strip_gone_relationships(*package, rels, m),
                        )
                        &&& plan.relationships@.len() == plan.owner_removed@.len()
                        &&& forall|j: int|
                            0 <= j < plan.owner_removed@.len() ==> plan.owner_removed@[j] == owner_removed(
                                #[trigger] plan.relationships@[j]@,
                                strip_core(*package, rels, m),
                            )
                    },
                },
            },
        },
{
    let relationships = match collect_package_relationship_entries(package) {
        Ok(r) => r,
        Err(e) => {
            return Err(e);
        },
    };
    let ghost rels = package_relationship_views(relationships@);
    let manifest = match active_content_part_uris_from_manifest(package) {
        Ok(m) => m,
        Err(e) => {
            return Err(e);
        },
    };
    let ghost m = names(manifest@);
    let roots = active_content_roots(package, &relationships, &manifest);
    if let Some(protected) = protected_root_name(&roots, workbook_part_uri) {
        let mut message = String::from_str("active-content strip cannot remove required package part ");
        message.append(protected.as_str());
        proof {
            reveal_strlit("active-content strip cannot remove required package part ");
        }
        return Err(OmError { code: OmErrorCode::InvalidState, message });
    }
    let links = relationship_links(package, &relationships);
    let ghost lv = link_views(links@);
    assert(relationships@.len() == rels.len());
    assert(lv == strip_links(*package, rels));
    let candidates = removal_candidates(&roots, &links);
    proof {
        lemma_link_views_agree(links@);
        assert forall|t: Set<Seq<char>>| names(roots@).subset_of(t) && closed_under(t, lv) implies #[trigger] names(candidates@).subset_of(t) by {
            assert(link_closed(t, links@));
        }
        assert(link_closed(names(candidates@), links@));
        assert(is_reach_closure(names(candidates@), names(roots@), lv));
        lemma_reach_closure_is(names(candidates@), names(roots@), lv);
    }
    let removed = prune_shared_parts(&roots, &candidates, &links);
    proof {
        assert(holds_no_shared(names(removed@), names(roots@), links@));
        assert forall|t: Set<Seq<char>>|
            t.subset_of(names(candidates@)) && names(roots@).subset_of(t) && none_shared_in(t, names(roots@), lv) implies #[trigger] t.subset_of(names(removed@)) by {
            assert(holds_no_shared(t, names(roots@), links@));
        }
        assert(is_unshared_core(names(removed@), names(candidates@), names(roots@), lv));
        lemma_unshared_core_is(names(removed@), names(roots@), lv);
    }
    let ghost core = names(removed@);
    assert(core == strip_core(*package, rels, m));
    let mut retained = NameSet::new();
    let mut c: usize = 0;
    while c < candidates.len()
        invariant
            c <= candidates@.len(),
            core == names(removed@),
            retained.wf(),
            retained@ == Set::new(
                |n: Seq<char>| (exists|t: int| 0 <= t < c && #[trigger] candidates@[t]@ == n) && !core.contains(n),
            ),
        decreases candidates@.len() - c,
    {
        let ghost before = retained@;
        if !contains_name(&removed, &candidates[c]) {
            retained.insert(candidates[c].clone());
        }
        assert(retained@ =~= Set::new(
            |n: Seq<char>| (exists|t: int| 0 <= t < c + 1 && #[trigger] candidates@[t]@ == n) && !core.contains(n),
        )) by {
            assert forall|n: Seq<char>| retained@.contains(n) <==> (exists|t: int| 0 <= t < c + 1 && #[trigger] candidates@[t]@ == n) && !core.contains(n) by {
                if (exists|t: int| 0 <= t < c + 1 && #[trigger] candidates@[t]@ == n) && !core.contains(n) {
                    let t = choose|t: int| 0 <= t < c + 1 && #[trigger] candidates@[t]@ == n;
                    if t < c {
                        assert(before.contains(n));
                    }
                }
                if before.contains(n) {
                    let t = choose|t: int| 0 <= t < c && #[trigger] candidates@[t]@ == n;
                    assert(0 <= t < c + 1);
                }
                if n == candidates@[c as int]@ {
                    assert(0 <= c < c + 1 && candidates@[c as int]@ == n);
                }
            }
        }
        c += 1;
    }
    assert(retained@ =~= names(candidates@).difference(core));
    let (entries, owner_flags) = removed_relationship_entries(package, &relationships, &removed);
    let parts_to_remove = relationship_parts_to_remove(package, &removed, &entries, &owner_flags);
    let mut all_removed = NameSet::new();
    let mut k: usize = 0;
    assert(names(removed@.subrange(0, 0)) =~= Set::<Seq<char>>::empty());
    while k < removed.len()
        invariant
            k <= removed@.len(),
            all_removed.wf(),
            all_removed@ == names(removed@.subrange(0, k as int)),
        decreases removed@.len() - k,
    {
        all_removed.insert(removed[k].clone());
        proof {
            assert(removed@.subrange(0, k + 1) =~= removed@.subrange(0, k as int).push(removed@[k as int]));
            crate::removal::lemma_names_push(removed@.subrange(0, k as int), removed@[k as int]);
        }
        k += 1;
    }
    assert(removed@.subrange(0, removed@.len() as int) =~= removed@);
    let mut q: usize = 0;
    while q < parts_to_remove.len()
        invariant
            q <= parts_to_remove.seq().len(),
            core == names(removed@),
            all_removed.wf(),
            all_removed@ == core.union(parts_to_remove.seq().subrange(0, q as int).to_set()),
        decreases parts_to_remove.seq().len() - q,
    {
        let ghost before = all_removed@;
        all_removed.insert(parts_to_remove.get(q).clone());
        proof {
            let sq = parts_to_remove.seq();
            assert(sq.subrange(0, q + 1) =~= sq.subrange(0, q as int).push(sq[q as int]));
            assert(sq.subrange(0, q + 1).to_set() =~= sq.subrange(0, q as int).to_set().insert(sq[q as int])) by {
                assert forall|x: Seq<char>| sq.subrange(0, q + 1).to_set().contains(x) <==> sq.subrange(0, q as int).to_set().insert(sq[q as int]).contains(x) by {
                    if sq.subrange(0, q + 1).to_set().contains(x) {
                        let j = choose|j: int| 0 <= j < q + 1 && #[trigger] sq.subrange(0, q + 1)[j] == x;
                        if j < q {
                            assert(sq.subrange(0, q as int)[j] == x);
                        }
                    }
                    if sq.subrange(0, q as int).to_set().contains(x) {
                        let j = choose|j: int| 0 <= j < q && #[trigger] sq.subrange(0, q as int)[j] == x;
                        assert(sq.subrange(0, q + 1)[j] == x);
                    }
                    if x == sq[q as int] {
                        assert(sq.subrange(0, q + 1)[q as int] == x);
                    }
                }
            }
            assert(all_removed@ =~= core.union(sq.subrange(0, q + 1).to_set()));
        }
        q += 1;
    }
    assert(parts_to_remove.seq().subrange(0, parts_to_remove.seq().len() as int) =~= parts_to_remove.seq());
    let removed_list = all_removed.to_vec();
    let retained_list = retained.to_vec();
    proof {
        lemma_names_string_views(removed_list@);
        lemma_names_string_views(retained_list@);
        lemma_sorted_names(all_removed.seq());
        assert(string_views(removed_list@).to_set() == names(removed_list@));
        assert(owner_flags@ =~= gone_flags(*package, rels, m)) by {
            assert forall|j: int| 0 <= j < owner_flags@.len() implies owner_flags@[j] == gone_flags(*package, rels, m)[j] by {
                assert(package_relationship_views(entries@)[j] == entries@[j]@);
            }
        }
        assert forall|i: int, j: int| 0 <= i < j < retained_list@.len() implies str_lt(
            #[trigger] retained_list@[i]@,
            #[trigger] retained_list@[j]@,
        ) by {
            assert(string_views(retained_list@)[i] == retained_list@[i]@);
            assert(string_views(retained_list@)[j] == retained_list@[j]@);
        }
        assert(package_relationship_views(entries@) == strip_gone_relationships(*package, rels, m));
        assert(names(removed_list@) =~= strip_removed_names(*package, rels, m));
    }
    Ok(StripPlan {
        removed_part_uris: removed_list,
        retained_shared_part_uris: retained_list,
        relationships: entries,
        owner_removed: owner_flags,
        relationship_parts_to_remove: parts_to_remove,
    })
}

/// Strips the manifest of the entries for active content and for the
/// removed parts, and returns those entries.
fn strip_manifest_part(
    package: &mut OpcPackage,
    removed: &Vec<String>,
    Ghost(orig): Ghost<Seq<OpcPart>>,
) -> (r: Result<Vec<ActiveContentRemovedContentTypeEntry>, OmError>)
    requires
        valid_parts(old(package).parts@),
        parts_drawn_from(old(package).parts@, orig),
    ensures
        valid_parts(final(package).parts@),
        parts_drawn_from(final(package).parts@, orig),
        forall|name: Seq<char>| #[trigger] final(package).find(name) == old(package).find(name),
        rewritten_within(final(package).parts@, old(package).parts@, set![content_types_name()]),
        match manifest_step(part_views(old(package).parts@), string_views(removed@)) {
            Ok((q, entries)) => r matches Ok(v) && part_views(final(package).parts@) == q && entry_views(v@) == entries,
            Err(e) => r matches Err(x) && error_view(x) == e,
        },
{
    proof {
        reveal_strlit("[Content_Types].xml");
        reveal_strlit("workbook package is missing [Content_Types].xml");
        lemma_find_view(*package, content_types_name());
    }
    let ct = match package.part_index("[Content_Types].xml") {
        Some(i) => i,
        None => {
            return Err(OmError {
                code: OmErrorCode::Parse,
                message: String::from_str("workbook package is missing [Content_Types].xml"),
            });
        },
    };
    assert(part_views(package.parts@)[ct as int] == crate::apply_steps::part_view(package.parts@[ct as int]));
    let (manifest_xml, removed_entries) = match strip_active_content_type_entries(package.parts[ct].bytes.as_slice(), removed) {
        Ok(x) => x,
        Err(e) => {
            return Err(e);
        },
    };
    let ghost before = *package;
    match package.replace_part_bytes("[Content_Types].xml", manifest_xml) {
        Ok(()) => {},
        Err(e) => {
            return Err(e);
        },
    }
    proof {
        lemma_replaced_view(before.parts@, package.parts@, ct as int);
        lemma_replace_part(before, *package, ct as int, orig);
        reveal_strlit("[Content_Types].xml");
        crate::package::lemma_find_is_some(before, content_types_name());
        lemma_rewritten_replace(before.parts@, before.parts@, package.parts@, ct as int, content_types_name(), Set::empty());
        assert(Set::<Seq<char>>::empty().insert(content_types_name()) =~= set![content_types_name()]);
    }
    Ok(removed_entries)
}

/// The removed-part records sorted by lower-cased name.
fn sort_removed_parts(records: Vec<ActiveContentRemovedPart>) -> (r: Vec<ActiveContentRemovedPart>)
    ensures
        r@ == sorted_by(records@, |a: ActiveContentRemovedPart, b: ActiveContentRemovedPart| removed_part_lt(a, b)),
        removed_part_views(r@) == sorted_by(
            removed_part_views(records@),
            |a: RemovedPartView, b: RemovedPartView| removed_part_view_lt(a, b),
        ),
        (forall|x: int, y: int| 0 <= x < y < records@.len() ==> (#[trigger] records@[x]).part_uri@ != (#[trigger] records@[y]).part_uri@)
            ==> forall|x: int, y: int| 0 <= x < y < r@.len() ==> (#[trigger] r@[x]).part_uri@ != (#[trigger] r@[y]).part_uri@,
        r@.len() == records@.len(),
        forall|k: int| 0 <= k < r@.len() ==> exists|m: int| 0 <= m < records@.len() && records@[m] == #[trigger] r@[k],
        removed_record_names(r@) == removed_record_names(records@),
{
    let ghost unsorted = records@;
    let sorted = stable_sort(
        records,
        removed_part_before,
        Ghost(|a: ActiveContentRemovedPart, b: ActiveContentRemovedPart| removed_part_lt(a, b)),
    );
    proof {
        crate::sort::lemma_sorted_by_contains(
            unsorted,
            |a: ActiveContentRemovedPart, b: ActiveContentRemovedPart| removed_part_lt(a, b),
        );
        assert forall|k: int| 0 <= k < sorted@.len() implies exists|m: int| 0 <= m < unsorted.len() && unsorted[m] == #[trigger] sorted@[k] by {
            assert(sorted@.contains(sorted@[k]));
        }
        assert forall|m: int| 0 <= m < unsorted.len() implies exists|k: int| 0 <= k < sorted@.len() && #[trigger] unsorted[m] == sorted@[k] by {
            assert(unsorted.contains(unsorted[m]));
            assert(sorted@.contains(unsorted[m]));
        }
        lemma_sorted_records(unsorted, sorted@);
        lemma_sorted_by_map(
            unsorted,
            |x: ActiveContentRemovedPart| crate::apply_steps::removed_part_view(x),
            |a: ActiveContentRemovedPart, b: ActiveContentRemovedPart| removed_part_lt(a, b),
            |a: RemovedPartView, b: RemovedPartView| removed_part_view_lt(a, b),
        );
        assert(removed_part_views(unsorted) == unsorted.map_values(|x: ActiveContentRemovedPart| crate::apply_steps::removed_part_view(x)));
        assert(removed_part_views(sorted@) == sorted@.map_values(|x: ActiveContentRemovedPart| crate::apply_steps::removed_part_view(x)));
        let uri = |x: ActiveContentRemovedPart| x.part_uri@;
        let name_lt = |a: Seq<char>, b: Seq<char>| str_lt(crate::text::lower(a), crate::text::lower(b));
        lemma_sorted_by_map(
            unsorted,
            uri,
            |a: ActiveContentRemovedPart, b: ActiveContentRemovedPart| removed_part_lt(a, b),
            name_lt,
        );
        if forall|x: int, y: int| 0 <= x < y < unsorted.len() ==> (#[trigger] unsorted[x]).part_uri@ != (#[trigger] unsorted[y]).part_uri@ {
            let names_in = unsorted.map_values(uri);
            assert(names_in.no_duplicates()) by {
                assert forall|i: int, j: int| 0 <= i < names_in.len() && 0 <= j < names_in.len() && i != j implies names_in[i] != names_in[j] by {
                    if i < j {
                        assert(unsorted[i].part_uri@ != unsorted[j].part_uri@);
                    } else {
                        assert(unsorted[j].part_uri@ != unsorted[i].part_uri@);
                    }
                }
            }
            crate::sort::lemma_sorted_by_no_duplicates(names_in, name_lt);
            let names_out = sorted@.map_values(uri);
            assert forall|x: int, y: int| 0 <= x < y < sorted@.len() implies (#[trigger] sorted@[x]).part_uri@ != (#[trigger] sorted@[y]).part_uri@ by {
                assert(names_out[x] == sorted@[x].part_uri@);
                assert(names_out[y] == sorted@[y].part_uri@);
            }
        }
    }
    sorted
}

/// The parts whose bytes applying a plan may rewrite: the kept owners of
/// removed relationships, the relationships parts that hold them, and the
/// manifest.
pub open spec fn plan_touched_names(plan: StripPlan) -> Set<Seq<char>> {
    kept_owner_names(plan.relationships@, plan.owner_removed@, plan.relationships@.len() as int).union(
        holding_part_names(plan.relationships@, plan.relationships@.len() as int),
    ).union(set![content_types_name()])
}

/// The parts whose bytes a strip may rewrite: the manifest, the
/// relationships parts that hold a removed relationship, and the kept owners
/// of removed relationships.
pub open spec fn strip_touched_names(
    package: OpcPackage,
    relationships: Seq<PackageRelationshipView>,
    manifest: Set<Seq<char>>,
) -> Set<Seq<char>> {
    let gone = strip_gone_relationships(package, relationships, manifest);
    let core = strip_core(package, relationships, manifest);
    Set::new(
        |n: Seq<char>|
            n == content_types_name() || (exists|k: int| 0 <= k < gone.len() && (#[trigger] gone[k]).0 == n) || (exists|k: int|
                0 <= k < gone.len() && (#[trigger] gone[k]).1 == Some(n) && !owner_removed(gone[k], core)),
    )
}

/// A larger key set allows as much.
proof fn lemma_taken_mono(cur: Seq<OpcPart>, orig: Seq<OpcPart>, keys: Set<Seq<char>>, more: Set<Seq<char>>)
    requires
        taken_within(cur, orig, keys),
        keys.subset_of(more),
    ensures
        taken_within(cur, orig, more),
{
    assert forall|i: int| 0 <= i < cur.len() implies exists|j: int|
        0 <= j < orig.len() && (#[trigger] cur[i]).name == orig[j].name && cur[i].content_type == orig[j].content_type
            && (!names_identity_in(more, cur[i].name@) ==> cur[i] == orig[j]) by {
        let j = choose|j: int|
            0 <= j < orig.len() && (#[trigger] cur[i]).name == orig[j].name && cur[i].content_type == orig[j].content_type
                && (!names_identity_in(keys, cur[i].name@) ==> cur[i] == orig[j]);
        if names_identity_in(keys, cur[i].name@) {
            let n = choose|n: Seq<char>| keys.contains(n) && part_identity(n) == part_identity(cur[i].name@);
            assert(more.contains(n));
        }
    }
}

/// The audit records of removed relationships, sorted by relationships part,
/// id, type and target.
fn removed_relationship_audit(relationships: &Vec<PackageRelationshipEntry>) -> (r: Vec<ActiveContentRemovedRelationship>)
    ensures
        removed_relationship_views(r@) == sorted_by(
            package_relationship_views(relationships@).map_values(|x: PackageRelationshipView| removed_record_of(x)),
            |a: RemovedRelationshipView, b: RemovedRelationshipView| removed_relationship_lt(a, b),
        ),
{
    let ghost record_views = package_relationship_views(relationships@).map_values(
        |x: PackageRelationshipView| removed_record_of(x),
    );
    let mut relationship_records: Vec<ActiveContentRemovedRelationship> = Vec::new();
    let mut e: usize = 0;
    while e < relationships.len()
        invariant
            e <= relationships@.len(),
            record_views == package_relationship_views(relationships@).map_values(
                |x: PackageRelationshipView| removed_record_of(x),
            ),
            removed_relationship_views(relationship_records@) == record_views.subrange(0, e as int),
        decreases relationships@.len() - e,
    {
        let ghost before = relationship_records@;
        relationship_records.push(removed_relationship_record(&relationships[e]));
        assert(removed_relationship_views(relationship_records@) =~= record_views.subrange(0, e + 1)) by {
            assert(removed_relationship_views(relationship_records@) =~= removed_relationship_views(before).push(relationship_records@.last()@));
            assert(record_views[e as int] == removed_record_of(relationships@[e as int]@));
        }
        e += 1;
    }
    assert(record_views.subrange(0, record_views.len() as int) =~= record_views);
    let ghost unsorted_relationship_records = relationship_records@;
    let removed_relationships = stable_sort(
        relationship_records,
        removed_relationship_before,
        Ghost(|a: ActiveContentRemovedRelationship, b: ActiveContentRemovedRelationship| removed_relationship_lt(a@, b@)),
    );
    proof {
        lemma_sorted_by_map(
            unsorted_relationship_records,
            |x: ActiveContentRemovedRelationship| x@,
            |a: ActiveContentRemovedRelationship, b: ActiveContentRemovedRelationship| removed_relationship_lt(a@, b@),
            |a: RemovedRelationshipView, b: RemovedRelationshipView| removed_relationship_lt(a, b),
        );
        assert(removed_relationship_views(removed_relationships@) == sorted_by(unsorted_relationship_records, |a: ActiveContentRemovedRelationship, b: ActiveContentRemovedRelationship| removed_relationship_lt(a@, b@)).map_values(|x: ActiveContentRemovedRelationship| x@));
        assert(unsorted_relationship_records.map_values(|x: ActiveContentRemovedRelationship| x@) == removed_relationship_views(unsorted_relationship_records));
    }
    removed_relationships
}

/// The names of a list of removed-part records.
pub open spec fn removed_record_names(v: Seq<ActiveContentRemovedPart>) -> Set<Seq<char>> {
    Set::new(|n: Seq<char>| exists|k: int| 0 <= k < v.len() && (#[trigger] v[k]).part_uri@ == n)
}

/// The names of the parts whose identity one of the names `removed` has.
pub open spec fn removed_names_in(parts: Seq<OpcPart>, removed: Set<Seq<char>>) -> Set<Seq<char>> {
    Set::new(
        |n: Seq<char>| exists|j: int| 0 <= j < parts.len() && (#[trigger] parts[j]).name@ == n && names_identity_in(removed, n),
    )
}

/// Sorting the records keeps their names.
proof fn lemma_sorted_records(unsorted: Seq<ActiveContentRemovedPart>, sorted: Seq<ActiveContentRemovedPart>)
    requires
        forall|k: int| 0 <= k < sorted.len() ==> exists|m: int| 0 <= m < unsorted.len() && unsorted[m] == #[trigger] sorted[k],
        forall|m: int| 0 <= m < unsorted.len() ==> exists|k: int| 0 <= k < sorted.len() && #[trigger] unsorted[m] == sorted[k],
    ensures
        removed_record_names(sorted) == removed_record_names(unsorted),
{
    assert forall|n: Seq<char>| removed_record_names(sorted).contains(n) <==> removed_record_names(unsorted).contains(n) by {
        if removed_record_names(sorted).contains(n) {
            let k = choose|k: int| 0 <= k < sorted.len() && (#[trigger] sorted[k]).part_uri@ == n;
            let m = choose|m: int| 0 <= m < unsorted.len() && unsorted[m] == sorted[k];
            assert(unsorted[m].part_uri@ == n);
        }
        if removed_record_names(unsorted).contains(n) {
            let m = choose|m: int| 0 <= m < unsorted.len() && (#[trigger] unsorted[m]).part_uri@ == n;
            let k = choose|k: int| 0 <= k < sorted.len() && #[trigger] unsorted[m] == sorted[k];
            assert(sorted[k].part_uri@ == n);
        }
    }
    assert(removed_record_names(sorted) =~= removed_record_names(unsorted));
}

/// What applying a strip plan removed and rewrote, for the audit.
pub struct StripOutcome {
    pub removed_parts: Vec<ActiveContentRemovedPart>,
    pub removed_relationships: Vec<ActiveContentRemovedRelationship>,
    pub removed_content_type_entries: Vec<ActiveContentRemovedContentTypeEntry>,
    pub rewritten_owner_part_uris: Vec<String>,
}

/// What applying a plan does to a package's part views: the kept owners
/// rewritten, then the relationships parts that stay, then the planned parts
/// removed, then the manifest stripped; gives the parts, the owners whose
/// bytes changed and the manifest entries that went.
pub open spec fn plan_parts(pv: Seq<PartView>, plan: StripPlan) -> Result<
    (Seq<PartView>, Seq<Seq<char>>, Seq<crate::package_xml::EntryView>, Seq<RemovedPartView>),
    crate::package_xml::ErrorView,
> {
    plan_parts_of(
        pv,
        package_relationship_views(plan.relationships@),
        plan.owner_removed@,
        plan.relationship_parts_to_remove@,
        string_views(plan.removed_part_uris@),
    )
}

/// What applying a plan does, given the relationships that go with whether
/// their owners go, the relationships parts that go, and the part names to
/// remove, in order.
pub open spec fn plan_parts_of(
    pv: Seq<PartView>,
    gone: Seq<PackageRelationshipView>,
    flags: Seq<bool>,
    skip: Set<Seq<char>>,
    removed: Seq<Seq<char>>,
) -> Result<
    (Seq<PartView>, Seq<Seq<char>>, Seq<crate::package_xml::EntryView>, Seq<RemovedPartView>),
    crate::package_xml::ErrorView,
> {
    match owner_rewrites(pv, gone, flags) {
        Err(e) => Err(e),
        Ok((p1, rewritten)) => match relationship_rewrites(p1, gone, flags, skip) {
            Err(e) => Err(e),
            Ok(p2) => match manifest_step(removal_fold(p2, removed, removed.len() as int), removed) {
                Err(e) => Err(e),
                Ok((p4, entries)) => Ok((p4, rewritten, entries, removal_records(p2, removed, removed.len() as int))),
            },
        },
    }
}

/// Rewrites the kept owners and relationships parts, removes the planned
/// parts and strips the manifest; returns the rewritten owners, a record of
/// each removed part, and the removed manifest entries.
#[verifier::spinoff_prover]
#[verifier::rlimit(50)]
fn apply_plan_to_parts(
    package: &mut OpcPackage,
    plan: &StripPlan,
) -> (r: Result<(Vec<String>, Vec<ActiveContentRemovedPart>, Vec<ActiveContentRemovedContentTypeEntry>), OmError>)
    requires
        valid_parts(old(package).parts@),
        plan.relationships@.len() == plan.owner_removed@.len(),
    ensures
        valid_parts(final(package).parts@),
        parts_drawn_from(final(package).parts@, old(package).parts@),
        r matches Ok(out) ==> {
            &&& forall|k: int|
                0 <= k < plan.removed_part_uris@.len() ==> final(package).find(#[trigger] plan.removed_part_uris@[k]@) is None
            &&& forall|k: int|
                0 <= k < out.1@.len() ==> final(package).find((#[trigger] out.1@[k]).part_uri@) is None
                    && exists|j: int|
                    0 <= j < old(package).parts@.len() && old(package).parts@[j].name == out.1@[k].part_uri
                        && old(package).parts@[j].content_type == out.1@[k].content_type
            &&& forall|name: Seq<char>|
                #[trigger] final(package).find(name) is Some <==> (old(package).find(name) is Some && !names_identity_in(
                    names(plan.removed_part_uris@),
                    name,
                ))
            &&& taken_within(final(package).parts@, old(package).parts@, plan_touched_names(*plan))
            &&& removed_record_names(out.1@) == removed_names_in(old(package).parts@, names(plan.removed_part_uris@))
            &&& forall|k: int|
                0 <= k < out.0@.len() ==> kept_owner_names(plan.relationships@, plan.owner_removed@, plan.relationships@.len() as int).contains(
                    (#[trigger] out.0@[k])@,
                ) && old(package).find(out.0@[k]@) is Some
            &&& forall|a: int, b: int| 0 <= a < b < out.0@.len() ==> str_lt((#[trigger] out.0@[a])@, (#[trigger] out.0@[b])@)
        },
        match plan_parts(part_views(old(package).parts@), *plan) {
            Ok((q, rewritten, entries, records)) => r matches Ok(out) && part_views(final(package).parts@) == q
                && string_views(out.0@) == rewritten && entry_views(out.2@) == entries && removed_part_views(out.1@) == records
                && forall|x: int, y: int| 0 <= x < y < out.1@.len() ==> (#[trigger] out.1@[x]).part_uri@ != (#[trigger] out.1@[y]).part_uri@,
            Err(e) => r matches Err(x) && error_view(x) == e,
        },
{
    let ghost orig = package.parts@;
    assert(parts_drawn_from(package.parts@, orig)) by {
        assert forall|i: int| 0 <= i < package.parts@.len() implies exists|j: int|
            0 <= j < orig.len() && (#[trigger] package.parts@[i]).name == orig[j].name && package.parts@[i].content_type
                == orig[j].content_type by {
            assert(package.parts@[i] == orig[i]);
        }
    }
    let rewritten = match rewrite_owner_parts(package, &plan.relationships, &plan.owner_removed, Ghost(orig)) {
        Ok(r) => r,
        Err(e) => {
            return Err(e);
        },
    };
    let ghost p1 = package.parts@;
    match rewrite_relationship_parts(package, &plan.relationships, &plan.owner_removed, &plan.relationship_parts_to_remove, Ghost(orig)) {
        Ok(()) => {},
        Err(e) => {
            return Err(e);
        },
    }
    let ghost p2 = package.parts@;
    let records = remove_named_parts(package, &plan.removed_part_uris, Ghost(orig));
    let ghost after_removal = *package;
    let removed_entries = match strip_manifest_part(package, &plan.removed_part_uris, Ghost(orig)) {
        Ok(x) => x,
        Err(e) => {
            return Err(e);
        },
    };
    proof {
        lemma_strip_steps(
            orig,
            p1,
            p2,
            after_removal.parts@,
            package.parts@,
            kept_owner_names(plan.relationships@, plan.owner_removed@, plan.relationships@.len() as int),
            holding_part_names(plan.relationships@, plan.relationships@.len() as int),
            set![content_types_name()],
        );
        let rs = names(plan.removed_part_uris@);
        assert(removed_record_names(records@) =~= removed_names_in(orig, rs)) by {
            assert forall|n: Seq<char>| removed_record_names(records@).contains(n) implies removed_names_in(orig, rs).contains(n) by {
                let k = choose|k: int| 0 <= k < records@.len() && (#[trigger] records@[k]).part_uri@ == n;
                assert(names_identity_in(rs, records@[k].part_uri@));
                let j = choose|j: int| 0 <= j < orig.len() && orig[j].name == records@[k].part_uri && orig[j].content_type == records@[k].content_type;
                assert(orig[j].name@ == n);
            }
            assert forall|n: Seq<char>| removed_names_in(orig, rs).contains(n) implies removed_record_names(records@).contains(n) by {
                let j = choose|j: int| 0 <= j < orig.len() && (#[trigger] orig[j]).name@ == n && names_identity_in(rs, n);
                assert(p1[j].name == orig[j].name);
                assert(p2[j].name == p1[j].name);
                assert(names_identity_in(rs, p2[j].name@));
                let k = choose|k: int| 0 <= k < records@.len() && records@[k].part_uri == p2[j].name;
                assert(records@[k].part_uri@ == n);
            }
        }
        assert forall|k: int| 0 <= k < records@.len() implies package.find((#[trigger] records@[k]).part_uri@) is None by {
            assert(after_removal.find(records@[k].part_uri@) is None);
        }
        assert forall|k: int| 0 <= k < plan.removed_part_uris@.len() implies package.find(#[trigger] plan.removed_part_uris@[k]@) is None by {
            assert(after_removal.find(plan.removed_part_uris@[k]@) is None);
        }
    }
    Ok((rewritten, records, removed_entries))
}

/// Applies a strip plan: rewrites the kept owners and relationships parts,
/// removes the planned parts and strips the manifest; the audit lists come
/// sorted.
pub fn apply_active_content_strip(
    package: &mut OpcPackage,
    plan: &StripPlan,
) -> (r: Result<StripOutcome, OmError>)
    requires
        valid_parts(old(package).parts@),
        plan.relationships@.len() == plan.owner_removed@.len(),
    ensures
        valid_parts(final(package).parts@),
        parts_drawn_from(final(package).parts@, old(package).parts@),
        r matches Ok(out) ==> {
            &&& forall|k: int|
                0 <= k < plan.removed_part_uris@.len() ==> final(package).find(#[trigger] plan.removed_part_uris@[k]@) is None
            &&& forall|k: int|
                0 <= k < out.removed_parts@.len() ==> final(package).find((#[trigger] out.removed_parts@[k]).part_uri@) is None
                    && exists|j: int|
                    0 <= j < old(package).parts@.len() && old(package).parts@[j].name == out.removed_parts@[k].part_uri
                        && old(package).parts@[j].content_type == out.removed_parts@[k].content_type
            &&& forall|name: Seq<char>|
                #[trigger] final(package).find(name) is Some <==> (old(package).find(name) is Some && !names_identity_in(
                    names(plan.removed_part_uris@),
                    name,
                ))
            &&& removed_relationship_views(out.removed_relationships@) == sorted_by(
                package_relationship_views(plan.relationships@).map_values(|x: PackageRelationshipView| removed_record_of(x)),
                |a: RemovedRelationshipView, b: RemovedRelationshipView| removed_relationship_lt(a, b),
            )
            &&& taken_within(final(package).parts@, old(package).parts@, plan_touched_names(*plan))
            &&& removed_record_names(out.removed_parts@) == removed_names_in(
                old(package).parts@,
                names(plan.removed_part_uris@),
            )
            &&& forall|k: int|
                0 <= k < out.rewritten_owner_part_uris@.len() ==> kept_owner_names(plan.relationships@, plan.owner_removed@, plan.relationships@.len() as int).contains(
                    (#[trigger] out.rewritten_owner_part_uris@[k])@,
                ) && old(package).find(out.rewritten_owner_part_uris@[k]@) is Some
            &&& forall|a: int, b: int|
                0 <= a < b < out.rewritten_owner_part_uris@.len() ==> str_lt(
                    (#[trigger] out.rewritten_owner_part_uris@[a])@,
                    (#[trigger] out.rewritten_owner_part_uris@[b])@,
                )
        },
        match plan_parts(part_views(old(package).parts@), *plan) {
            Ok((q, rewritten, entries, records)) => r matches Ok(out) && part_views(final(package).parts@) == q && string_views(
                out.rewritten_owner_part_uris@,
            ) == rewritten && entry_views(out.removed_content_type_entries@) == sorted_by(
                entries,
                |a: crate::package_xml::EntryView, b: crate::package_xml::EntryView| crate::audit::removed_entry_lt(a, b),
            ) && removed_part_views(out.removed_parts@) == sorted_by(
                records,
                |a: RemovedPartView, b: RemovedPartView| removed_part_view_lt(a, b),
            ) && forall|x: int, y: int|
                0 <= x < y < out.removed_parts@.len() ==> (#[trigger] out.removed_parts@[x]).part_uri@
                    != (#[trigger] out.removed_parts@[y]).part_uri@,
            Err(e) => r matches Err(x) && error_view(x) == e,
        },
{
    let ghost orig = package.parts@;
    let (rewritten, records, removed_entries) = match apply_plan_to_parts(package, plan) {
        Ok(x) => x,
        Err(e) => {
            return Err(e);
        },
    };
    let removed_relationships = removed_relationship_audit(&plan.relationships);
    let ghost unsorted_records = records@;
    let sorted_records = sort_removed_parts(records);
    proof {
        assert forall|k: int| 0 <= k < sorted_records@.len() implies package.find((#[trigger] sorted_records@[k]).part_uri@) is None
            && exists|j: int|
            0 <= j < orig.len() && orig[j].name == sorted_records@[k].part_uri && orig[j].content_type
                == sorted_records@[k].content_type by {
            let m = choose|m: int| 0 <= m < unsorted_records.len() && unsorted_records[m] == sorted_records@[k];
            assert(package.find(unsorted_records[m].part_uri@) is None);
        }
    }
    let ghost unsorted_entries = removed_entries@;
    let removed_content_type_entries = stable_sort(
        removed_entries,
        removed_entry_before,
        Ghost(|a: ActiveContentRemovedContentTypeEntry, b: ActiveContentRemovedContentTypeEntry| removed_entry_value_lt(a, b)),
    );
    proof {
        lemma_sorted_by_map(
            unsorted_entries,
            |x: ActiveContentRemovedContentTypeEntry| x@,
            |a: ActiveContentRemovedContentTypeEntry, b: ActiveContentRemovedContentTypeEntry| removed_entry_value_lt(a, b),
            |a: crate::package_xml::EntryView, b: crate::package_xml::EntryView| crate::audit::removed_entry_lt(a, b),
        );
        assert(entry_views(unsorted_entries) == unsorted_entries.map_values(|x: ActiveContentRemovedContentTypeEntry| x@));
        assert(entry_views(removed_content_type_entries@) == removed_content_type_entries@.map_values(
            |x: ActiveContentRemovedContentTypeEntry| x@,
        ));
    }
    Ok(StripOutcome {
        removed_parts: sorted_records,
        removed_relationships,
        removed_content_type_entries,
        rewritten_owner_part_uris: rewritten,
    })
}


proof fn lemma_parts_listed_in_order(parts: Seq<ActiveContentRemovedPart>, s: Seq<RemovedPartView>)
    requires
        removed_part_views(parts) == sorted_by(s, |x: RemovedPartView, y: RemovedPartView| removed_part_view_lt(x, y)),
    ensures
        forall|i: int, j: int|
            0 <= i < j < parts.len() ==> !str_lt(
                lower((#[trigger] parts[j]).part_uri@),
                lower((#[trigger] parts[i]).part_uri@),
            ),
{
    crate::apply_steps::lemma_removed_part_order();
    crate::sort::lemma_sorted_by_ordered(s, |x: RemovedPartView, y: RemovedPartView| removed_part_view_lt(x, y));
    let v = removed_part_views(parts);
    assert forall|i: int, j: int| 0 <= i < j < parts.len() implies !str_lt(
        lower((#[trigger] parts[j]).part_uri@),
        lower((#[trigger] parts[i]).part_uri@),
    ) by {
        assert(v[i] == crate::apply_steps::removed_part_view(parts[i]) && v[j] == crate::apply_steps::removed_part_view(parts[j]));
        assert(!removed_part_view_lt(v[j], v[i]));
    }
}

proof fn lemma_relationships_listed_in_order(rels: Seq<ActiveContentRemovedRelationship>, s: Seq<RemovedRelationshipView>)
    requires
        removed_relationship_views(rels) == sorted_by(
            s,
            |x: RemovedRelationshipView, y: RemovedRelationshipView| removed_relationship_lt(x, y),
        ),
    ensures
        forall|i: int, j: int| 0 <= i < j < rels.len() ==> !removed_relationship_lt((#[trigger] rels[j])@, (#[trigger] rels[i])@),
{
    crate::audit::lemma_removed_relationship_order();
    crate::sort::lemma_sorted_by_ordered(s, |x: RemovedRelationshipView, y: RemovedRelationshipView| removed_relationship_lt(x, y));
    let v = removed_relationship_views(rels);
    assert forall|i: int, j: int| 0 <= i < j < rels.len() implies !removed_relationship_lt((#[trigger] rels[j])@, (#[trigger] rels[i])@) by {
        assert(v[i] == rels[i]@ && v[j] == rels[j]@);
    }
}

proof fn lemma_entries_listed_in_order(entries: Seq<ActiveContentRemovedContentTypeEntry>, s: Seq<crate::package_xml::EntryView>)
    requires
        entry_views(entries) == sorted_by(
            s,
            |x: crate::package_xml::EntryView, y: crate::package_xml::EntryView| crate::audit::removed_entry_lt(x, y),
        ),
    ensures
        forall|i: int, j: int|
            0 <= i < j < entries.len() ==> !crate::audit::removed_entry_lt((#[trigger] entries[j])@, (#[trigger] entries[i])@),
{
    crate::audit::lemma_removed_entry_order();
    crate::sort::lemma_sorted_by_ordered(
        s,
        |x: crate::package_xml::EntryView, y: crate::package_xml::EntryView| crate::audit::removed_entry_lt(x, y),
    );
    let v = entry_views(entries);
    assert forall|i: int, j: int| 0 <= i < j < entries.len() implies !crate::audit::removed_entry_lt((#[trigger] entries[j])@, (#[trigger] entries[i])@) by {
        assert(v[i] == entries[i]@ && v[j] == entries[j]@);
    }
}

/// The names of a package's parts.
pub open spec fn part_names(parts: Seq<OpcPart>) -> Set<Seq<char>> {
    Set::new(|n: Seq<char>| exists|i: int| 0 <= i < parts.len() && (#[trigger] parts[i]).name@ == n)
}

/// When the parts a strip keeps are those of the package whose identity no
/// removed name has, and its records name exactly the package's parts with
/// such an identity, the names of the result are the package's part names
/// less the recorded ones.
pub proof fn lemma_strip_keeps_unrecorded_names(
    package: OpcPackage,
    result: OpcPackage,
    removed: Set<Seq<char>>,
    records: Seq<ActiveContentRemovedPart>,
)
    requires
        valid_parts(package.parts@),
        valid_parts(result.parts@),
        parts_drawn_from(result.parts@, package.parts@),
        forall|name: Seq<char>|
            #[trigger] result.find(name) is Some <==> (package.find(name) is Some && !names_identity_in(removed, name)),
        removed_record_names(records) == removed_names_in(package.parts@, removed),
    ensures
        part_names(result.parts@) == part_names(package.parts@).difference(removed_record_names(records)),
{
    assert forall|n: Seq<char>| part_names(result.parts@).contains(n) <==> part_names(package.parts@).difference(
        removed_record_names(records),
    ).contains(n) by {
        if part_names(result.parts@).contains(n) {
            let i = choose|i: int| 0 <= i < result.parts@.len() && (#[trigger] result.parts@[i]).name@ == n;
            let j = choose|j: int|
                0 <= j < package.parts@.len() && (#[trigger] result.parts@[i]).name == package.parts@[j].name
                    && result.parts@[i].content_type == package.parts@[j].content_type;
            assert(package.parts@[j].name@ == n);
            crate::package::lemma_find_is_some(result, n);
            assert(part_identity(result.parts@[i].name@) is Some);
            assert(result.find(n) is Some);
            assert(!names_identity_in(removed, n));
            assert(!removed_names_in(package.parts@, removed).contains(n));
        }
        if part_names(package.parts@).difference(removed_record_names(records)).contains(n) {
            let j = choose|j: int| 0 <= j < package.parts@.len() && (#[trigger] package.parts@[j]).name@ == n;
            assert(!removed_names_in(package.parts@, removed).contains(n));
            assert(!names_identity_in(removed, n));
            crate::package::lemma_find_is_some(package, n);
            assert(part_identity(package.parts@[j].name@) is Some);
            assert(package.find(n) is Some);
            assert(result.find(n) is Some);
            crate::package::lemma_find_is_some(result, n);
            let i = result.find(n)->Some_0;
            let j2 = choose|j2: int|
                0 <= j2 < package.parts@.len() && (#[trigger] result.parts@[i]).name == package.parts@[j2].name
                    && result.parts@[i].content_type == package.parts@[j2].content_type;
            if j2 != j {
                if j2 < j {
                    assert(part_identity(package.parts@[j2].name@) != part_identity(package.parts@[j].name@));
                } else {
                    assert(part_identity(package.parts@[j].name@) != part_identity(package.parts@[j2].name@));
                }
            }
            assert(result.parts@[i].name@ == n);
        }
    }
    assert(part_names(result.parts@) =~= part_names(package.parts@).difference(removed_record_names(records)));
}

/// The final checks on stripped part views and how each fails: the parts
/// must take stock without failure and with no active content left, and the
/// workbook part must be there with a sheet and a visible sheet.
pub open spec fn stripped_check(q: Seq<PartView>, workbook_part_uri: Seq<char>) -> Result<(), ErrorView> {
    match crate::inventory::inventory_of_view(q) {
        Err(m) => Err((OmErrorCode::Parse, m)),
        Ok(v) => if v.kinds != Set::<ActiveContentKind>::empty() {
            Err((
                OmErrorCode::InvalidState,
                "active-content strip left package markers for "@ + crate::audit::kinds_text(
                    crate::kinds::kinds_in_order(v.kinds),
                ),
            ))
        } else {
            match find_view(q, workbook_part_uri) {
                None => Err((OmErrorCode::Parse, "workbook package is missing discovered main part "@ + workbook_part_uri)),
                Some(w) => match sheet_counts(q[w].2) {
                    Err(m) => Err((OmErrorCode::Parse, m)),
                    Ok((sheets, visible)) => if sheets == 0 {
                        Err((OmErrorCode::InvalidState, "active-content strip would leave the workbook without a sheet"@))
                    } else if visible == 0 {
                        Err((
                            OmErrorCode::InvalidState,
                            "active-content strip would leave the workbook without a visible sheet"@,
                        ))
                    } else {
                        Ok(())
                    },
                },
            }
        },
    }
}

/// The view of a check's result.
pub open spec fn unit_result_view(r: Result<(), OmError>) -> Result<(), ErrorView> {
    match r {
        Ok(_) => Ok(()),
        Err(e) => Err(error_view(e)),
    }
}

/// Checks a stripped package: no active content is left, and the workbook
/// part has a sheet and a visible sheet.
pub fn check_stripped_package(package: &OpcPackage, workbook_part_uri: &str) -> (r: Result<(), OmError>)
    ensures
        unit_result_view(r) == stripped_check(part_views(package.parts@), workbook_part_uri@),
        r is Ok <==> {
            &&& has_no_active_content(package.parts@)
            &&& package.find(workbook_part_uri@) matches Some(w) && sheet_counts(package.parts@[w].bytes@) matches Ok(
                (sheets, visible),
            ) && sheets > 0 && visible > 0
        },
{
    proof {
        crate::inventory::lemma_inventory_of_view(package.parts@);
        lemma_find_view(*package, workbook_part_uri@);
        crate::package::lemma_find_is_some(*package, workbook_part_uri@);
        if let Some(w) = package.find(workbook_part_uri@) {
            assert(part_views(package.parts@)[w] == crate::apply_steps::part_view(package.parts@[w]));
        }
        reveal_strlit("active-content strip left package markers for ");
        reveal_strlit("workbook package is missing discovered main part ");
    }
    let remaining = match collect_active_content_inventory(package) {
        Ok(i) => i,
        Err(e) => {
            return Err(e);
        },
    };
    proof {
        lemma_to_set_empty(remaining.kind_seq());
        crate::kinds::lemma_kinds_in_order(remaining.kind_seq());
    }
    if remaining.has_artifacts() {
        let mut message = String::from_str("active-content strip left package markers for ");
        let listed = kinds_message_text(remaining.kinds());
        message.append(listed.as_str());
        return Err(OmError { code: OmErrorCode::InvalidState, message });
    }
    let w = match package.part_index(workbook_part_uri) {
        Some(w) => w,
        None => {
            let mut message = String::from_str("workbook package is missing discovered main part ");
            message.append(workbook_part_uri);
            return Err(OmError { code: OmErrorCode::Parse, message });
        },
    };
    let (sheets, visible) = match workbook_sheet_counts(package.parts[w].bytes.as_slice()) {
        Ok(x) => x,
        Err(e) => {
            return Err(e);
        },
    };
    if sheets == 0 {
        return Err(OmError {
            code: OmErrorCode::InvalidState,
            message: String::from_str("active-content strip would leave the workbook without a sheet"),
        });
    }
    if visible == 0 {
        return Err(OmError {
            code: OmErrorCode::InvalidState,
            message: String::from_str("active-content strip would leave the workbook without a visible sheet"),
        });
    }
    Ok(())
}

/// A strip whose plan is made succeeds exactly when applying the plan
/// succeeds and the result passes the final checks; it fails with the plan's
/// failure, or else with the first final check that fails; and on success gives the parts, rewritten owners,
/// removed manifest entries (sorted by kind, selector and content type) and
/// removed-part records (sorted by lower-cased name) that applying the plan
/// gives.
pub open spec fn strip_success_matches(
    r: Result<(OpcPackage, ActiveContentAuditManifest), OmError>,
    package: OpcPackage,
    relationships: Seq<PackageRelationshipView>,
    manifest: Set<Seq<char>>,
    workbook_part_uri: Seq<char>,
) -> bool {
    match strip_plan_parts(package, relationships, manifest) {
        Err(e) => r matches Err(x) && error_view(x) == e,
        Ok((q, rewritten, entries, records)) => {
            &&& match stripped_check(q, workbook_part_uri) {
                Ok(_) => r is Ok,
                Err(x) => r matches Err(e) && error_view(e) == x,
            }
            &&& r matches Ok((p, a)) ==> {
                &&& part_views(p.parts@) == q
                &&& string_views(a.rewritten_owner_part_uris@) == rewritten
                &&& entry_views(a.removed_content_type_entries@) == sorted_by(
                    entries,
                    |x: crate::package_xml::EntryView, y: crate::package_xml::EntryView| crate::audit::removed_entry_lt(x, y),
                )
                &&& removed_part_views(a.removed_parts@) == sorted_by(
                    records,
                    |x: RemovedPartView, y: RemovedPartView| removed_part_view_lt(x, y),
                )
                &&& forall|x: int, y: int|
                    0 <= x < y < a.removed_parts@.len() ==> (#[trigger] a.removed_parts@[x]).part_uri@
                        != (#[trigger] a.removed_parts@[y]).part_uri@
            }
        },
    }
}

/// Strips the active content from a workbook package.
///
/// A package without active content comes back as it was, with an audit
/// that observed nothing. Otherwise the strip removes the parts that carry
/// active content, the parts that only they reach, the relationships to and
/// from removed parts, and the manifest entries for them; the strip fails
/// rather than remove the manifest or the workbook part, or leave active
/// content behind, or leave the workbook without a (visible) sheet.
pub fn strip_active_content_from_package(
    package: OpcPackage,
    workbook_part_uri: &str,
) -> (r: Result<(OpcPackage, ActiveContentAuditManifest), OmError>)
    requires
        valid_parts(package.parts@),
    ensures
        inventory_of(package.parts@) matches Err(m) ==> (r matches Err(e) && e.message@ == m),
        has_no_active_content(package.parts@) ==> (r matches Ok((p, a)) && p.parts@ == package.parts@
            && a.is_observation(ActiveContentPolicy::Strip, Seq::empty())),
        inventory_of(package.parts@) is Ok && !has_no_active_content(package.parts@) ==> match package_relationships(
            package.parts@,
        ) {
            Err(x) => r matches Err(e) && error_view(e) == x,
            Ok(rels) => match manifest_roots(package) {
                Err(m) => r matches Err(e) && e.code == OmErrorCode::Parse && e.message@ == m,
                Ok(m) => match protected_root(strip_roots(package, rels, m), workbook_part_uri@) {
                    Some(p) => r matches Err(e) && e.code == OmErrorCode::InvalidState && e.message@
                        == required_part_message(p),
                    None => strip_success_matches(r, package, rels, m, workbook_part_uri@) && (r matches Ok((p, a)) ==> {
                        &&& forall|name: Seq<char>|
                            #[trigger] p.find(name) is Some <==> (package.find(name) is Some && !names_identity_in(
                                strip_removed_names(package, rels, m),
                                name,
                            ))
                        &&& names(a.retained_shared_part_uris@) == strip_candidates(package, rels, m).difference(
                            strip_core(package, rels, m),
                        )
                        &&& forall|u: Seq<char>|
                            #[trigger] names(a.retained_shared_part_uris@).contains(u) ==> !strip_roots(package, rels, m).contains(u)
                                && shared_in(u, strip_core(package, rels, m), strip_links(package, rels))
                        &&& forall|i: int, j: int|
                            0 <= i < j < a.retained_shared_part_uris@.len() ==> str_lt(
                                #[trigger] a.retained_shared_part_uris@[i]@,
                                #[trigger] a.retained_shared_part_uris@[j]@,
                            )
                        &&& taken_within(p.parts@, package.parts@, strip_touched_names(package, rels, m))
                        &&& removed_record_names(a.removed_parts@) == removed_names_in(
                            package.parts@,
                            strip_removed_names(package, rels, m),
                        )
                        &&& part_names(p.parts@) == part_names(package.parts@).difference(
                            removed_record_names(a.removed_parts@),
                        )
                        &&& forall|k: int|
                            0 <= k < a.rewritten_owner_part_uris@.len() ==> strip_kept_owners(package, rels, m).contains(
                                (#[trigger] a.rewritten_owner_part_uris@[k])@,
                            ) && package.find(a.rewritten_owner_part_uris@[k]@) is Some
                        &&& forall|i: int, j: int|
                            0 <= i < j < a.rewritten_owner_part_uris@.len() ==> str_lt(
                                (#[trigger] a.rewritten_owner_part_uris@[i])@,
                                (#[trigger] a.rewritten_owner_part_uris@[j])@,
                            )
                        &&& removed_relationship_views(a.removed_relationships@) == sorted_by(
                            strip_gone_relationships(package, rels, m).map_values(
                                |x: PackageRelationshipView| removed_record_of(x),
                            ),
                            |x: RemovedRelationshipView, y: RemovedRelationshipView| removed_relationship_lt(x, y),
                        )
                    }),
                },
            },
        },
        match r {
            Ok((p, a)) => {
                &&& valid_parts(p.parts@)
                &&& parts_drawn_from(p.parts@, package.parts@)
                &&& has_no_active_content(p.parts@)
                &&& a.policy == ActiveContentPolicy::Strip
                &&& inventory_of(package.parts@) matches Ok(v) && a.observed_kinds@.to_set() == v.kinds
                &&& !has_no_active_content(package.parts@) ==> {
                    &&& p.find(workbook_part_uri@) matches Some(w) && sheet_counts(p.parts@[w].bytes@) matches Ok(
                        (sheets, visible),
                    ) && sheets > 0 && visible > 0
                    &&& package_relationships(package.parts@) matches Ok(rels) && manifest_roots(package) matches Ok(m)
                        && forall|n: Seq<char>| #[trigger] strip_roots(package, rels, m).contains(n) ==> p.find(n) is None
                    &&& forall|k: int|
                        0 <= k < a.removed_parts@.len() ==> p.find((#[trigger] a.removed_parts@[k]).part_uri@) is None
                            && exists|j: int|
                            0 <= j < package.parts@.len() && package.parts@[j].name == a.removed_parts@[k].part_uri
                                && package.parts@[j].content_type == a.removed_parts@[k].content_type
                    &&& forall|i: int, j: int|
                        0 <= i < j < a.removed_parts@.len() ==> !str_lt(
                            lower((#[trigger] a.removed_parts@[j]).part_uri@),
                            lower((#[trigger] a.removed_parts@[i]).part_uri@),
                        )
                    &&& forall|i: int, j: int|
                        0 <= i < j < a.removed_relationships@.len() ==> !removed_relationship_lt(
                            (#[trigger] a.removed_relationships@[j])@,
                            (#[trigger] a.removed_relationships@[i])@,
                        )
                    &&& forall|i: int, j: int|
                        0 <= i < j < a.removed_content_type_entries@.len() ==> !crate::audit::removed_entry_lt(
                            (#[trigger] a.removed_content_type_entries@[j])@,
                            (#[trigger] a.removed_content_type_entries@[i])@,
                        )
                }
            },
            Err(_) => true,
        },
{
    let inventory = match collect_active_content_inventory(&package) {
        Ok(i) => i,
        Err(e) => {
            return Err(e);
        },
    };
    proof {
        lemma_to_set_empty(inventory.kind_seq());
    }
    let observed = copy_kinds(inventory.kinds());
    let mut audit = ActiveContentAuditManifest::observed(ActiveContentPolicy::Strip, observed);
    if !inventory.has_artifacts() {
        assert(audit.observed_kinds@ =~= Seq::<ActiveContentKind>::empty());
        return Ok((package, audit));
    }
    let plan = match plan_active_content_strip(&package, workbook_part_uri) {
        Ok(p) => p,
        Err(e) => {
            return Err(e);
        },
    };
    let ghost original = package;
    let mut package = package;
    proof {
        if let Ok(rels) = package_relationships(original.parts@) {
            if let Ok(m) = manifest_roots(original) {
                if protected_root(strip_roots(original, rels, m), workbook_part_uri@) is None {
                    assert(plan_parts(part_views(original.parts@), plan) == strip_plan_parts(original, rels, m));
                }
            }
        }
    }
    let outcome = match apply_active_content_strip(&mut package, &plan) {
        Ok(o) => o,
        Err(e) => {
            return Err(e);
        },
    };
    proof {
        crate::inventory::lemma_inventory_of_view(package.parts@);
        lemma_find_view(package, workbook_part_uri@);
        crate::package::lemma_find_is_some(package, workbook_part_uri@);
        if let Some(w) = package.find(workbook_part_uri@) {
            assert(part_views(package.parts@)[w] == crate::apply_steps::part_view(package.parts@[w]));
        }
    }
    match check_stripped_package(&package, workbook_part_uri) {
        Ok(()) => {},
        Err(e) => {
            return Err(e);
        },
    }
    audit.retained_shared_part_uris = plan.retained_shared_part_uris;
    proof {
        if let Ok(rels) = package_relationships(original.parts@) {
            if let Ok(m) = manifest_roots(original) {
                if protected_root(strip_roots(original, rels, m), workbook_part_uri@) is None {
                    assert forall|u: Seq<char>| #[trigger] names(audit.retained_shared_part_uris@).contains(u) implies !strip_roots(original, rels, m).contains(u)
                        && shared_in(u, strip_core(original, rels, m), strip_links(original, rels)) by {
                        lemma_kept_reached_part_is_shared(
                            strip_core(original, rels, m),
                            strip_candidates(original, rels, m),
                            strip_roots(original, rels, m),
                            strip_links(original, rels),
                            u,
                        );
                    }
                }
            }
        }
    }
    audit.removed_parts = outcome.removed_parts;
    audit.removed_relationships = outcome.removed_relationships;
    audit.removed_content_type_entries = outcome.removed_content_type_entries;
    audit.rewritten_owner_part_uris = outcome.rewritten_owner_part_uris;
    proof {
        let touched = plan_touched_names(plan);
        if let Ok(rels) = package_relationships(original.parts@) {
            if let Ok(m) = manifest_roots(original) {
                let gone = strip_gone_relationships(original, rels, m);
                let core = strip_core(original, rels, m);
                assert forall|n: Seq<char>| touched.contains(n) implies #[trigger] strip_touched_names(original, rels, m).contains(n) by {
                    let len = plan.relationships@.len() as int;
                    if kept_owner_names(plan.relationships@, plan.owner_removed@, len).contains(n) {
                        let t = choose|t: int| 0 <= t < len && opt_view((#[trigger] plan.relationships@[t]).owner_part_uri) == Some(n) && !plan.owner_removed@[t];
                        assert(gone[t] == plan.relationships@[t]@);
                    }
                    if holding_part_names(plan.relationships@, len).contains(n) {
                        let t = choose|t: int| 0 <= t < len && (#[trigger] plan.relationships@[t]).relationship_part_uri@ == n;
                        assert(gone[t] == plan.relationships@[t]@);
                    }
                }
                lemma_taken_mono(package.parts@, original.parts@, touched, strip_touched_names(original, rels, m));
                assert forall|n: Seq<char>| kept_owner_names(plan.relationships@, plan.owner_removed@, plan.relationships@.len() as int).contains(n)
                    implies #[trigger] strip_kept_owners(original, rels, m).contains(n) by {
                    let len = plan.relationships@.len() as int;
                    let t = choose|t: int| 0 <= t < len && opt_view((#[trigger] plan.relationships@[t]).owner_part_uri) == Some(n) && !plan.owner_removed@[t];
                    assert(gone[t] == plan.relationships@[t]@);
                }
            }
        }
        if let Ok(rels) = package_relationships(original.parts@) {
            if let Ok(m) = manifest_roots(original) {
                if protected_root(strip_roots(original, rels, m), workbook_part_uri@) is None {
                    let q = strip_plan_parts(original, rels, m)->Ok_0;
                    lemma_parts_listed_in_order(audit.removed_parts@, q.3);
                    lemma_entries_listed_in_order(audit.removed_content_type_entries@, q.2);
                    lemma_relationships_listed_in_order(
                        audit.removed_relationships@,
                        strip_gone_relationships(original, rels, m).map_values(
                            |x: PackageRelationshipView| removed_record_of(x),
                        ),
                    );
                }
            }
        }
        assert forall|n: Seq<char>| #[trigger] names(plan.removed_part_uris@).contains(n) implies package.find(n) is None by {
            let k = choose|k: int| 0 <= k < plan.removed_part_uris@.len() && plan.removed_part_uris@[k]@ == n;
            assert(package.find(plan.removed_part_uris@[k]@) is None);
        }
    }
    proof {
        if let Ok(rels) = package_relationships(original.parts@) {
            if let Ok(m) = manifest_roots(original) {
                if protected_root(strip_roots(original, rels, m), workbook_part_uri@) is None {
                    lemma_strip_keeps_unrecorded_names(
                        original,
                        package,
                        strip_removed_names(original, rels, m),
                        audit.removed_parts@,
                    );
                }
            }
        }
    }
    Ok((package, audit))
}

} // verus!
