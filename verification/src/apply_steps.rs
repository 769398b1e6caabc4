//! What applying a strip plan does to a package's parts, step by step: the
//! rewrites of the kept owners and relationships parts, the removals, and the
//! manifest, each over the parts that the step before left.
use vstd::prelude::*;
use crate::errors::OmErrorCode;
use crate::name_set::{lemma_str_lt_asym, lemma_str_lt_irreflexive, str_lt};
use crate::package::{first_with_identity, part_identity, OpcPackage};
use crate::package_xml::{strip_anchors, strip_entries, strip_ids, EntryView, ErrorView};
use crate::parts::{opt_view, part_is_xml_spec, OpcPart};
use crate::roots::{content_types_name, missing_manifest_message};
use crate::strip::PackageRelationshipView;
use crate::audit::ActiveContentRemovedPart;
use crate::text::lower;

verus! {

/// What a part holds: its name, content type and bytes.
pub type PartView = (Seq<char>, Option<Seq<char>>, Seq<u8>);

/// The view of a part.
pub open spec fn part_view(p: OpcPart) -> PartView {
    (p.name@, opt_view(p.content_type), p.bytes@)
}

/// The views of a list of parts.
pub open spec fn part_views(s: Seq<OpcPart>) -> Seq<PartView> {
    s.map_values(|p: OpcPart| part_view(p))
}

/// The position of the first part view from `from` on whose name has
/// identity `id`, or the number of parts.
pub open spec fn first_identity_view(pv: Seq<PartView>, id: Seq<char>, from: int) -> int
    decreases pv.len() - from,
{
    if from >= pv.len() || from < 0 {
        pv.len() as int
    } else if part_identity(pv[from].0) == Some(id) {
        from
    } else {
        first_identity_view(pv, id, from + 1)
    }
}

/// The position of the part that `name` designates among part views.
pub open spec fn find_view(pv: Seq<PartView>, name: Seq<char>) -> Option<int> {
    match part_identity(name) {
        None => None,
        Some(id) => {
            let i = first_identity_view(pv, id, 0);
            if i < pv.len() {
                Some(i)
            } else {
                None
            }
        },
    }
}

proof fn lemma_first_identity_view(parts: Seq<OpcPart>, id: Seq<char>, from: int)
    requires
        0 <= from <= parts.len(),
    ensures
        first_with_identity(parts, id, from) == first_identity_view(part_views(parts), id, from),
    decreases parts.len() - from,
{
    if from < parts.len() {
        assert(part_views(parts)[from] == part_view(parts[from]));
        lemma_first_identity_view(parts, id, from + 1);
    }
}

/// A package finds a name where its part views do.
pub proof fn lemma_find_view(package: OpcPackage, name: Seq<char>)
    ensures
        package.find(name) == find_view(part_views(package.parts@), name),
{
    if let Some(id) = part_identity(name) {
        lemma_first_identity_view(package.parts@, id, 0);
    }
}

/// A sequence of names in strictly ascending order.
pub open spec fn strictly_sorted(q: Seq<Seq<char>>) -> bool {
    forall|i: int, j: int| 0 <= i < j < q.len() ==> str_lt(#[trigger] q[i], #[trigger] q[j])
}

/// The names of a finite set in ascending order.
pub open spec fn sorted_names(s: Set<Seq<char>>) -> Seq<Seq<char>> {
    choose|q: Seq<Seq<char>>| strictly_sorted(q) && q.to_set() == s
}

proof fn lemma_sorted_same_set(p: Seq<Seq<char>>, q: Seq<Seq<char>>)
    requires
        strictly_sorted(p),
        strictly_sorted(q),
        p.to_set() == q.to_set(),
    ensures
        p == q,
    decreases p.len(),
{
    if p.len() == 0 {
        if q.len() > 0 {
            assert(q.to_set().contains(q[0]));
        }
        assert(p =~= q);
    } else {
        assert(p.to_set().contains(p[0]));
        assert(q.len() > 0);
        assert(q.to_set().contains(q[0]));
        let i = choose|i: int| 0 <= i < q.len() && q[i] == p[0];
        let j = choose|j: int| 0 <= j < p.len() && p[j] == q[0];
        if i > 0 && j > 0 {
            assert(str_lt(q[0], q[i]));
            assert(str_lt(p[0], p[j]));
            lemma_str_lt_asym(p[0], q[0]);
        }
        assert(p[0] == q[0]) by {
            if i > 0 {
                assert(j == 0 || str_lt(p[0], p[j]));
                if j > 0 {
                    assert(str_lt(q[0], q[i]));
                    lemma_str_lt_asym(p[0], q[0]);
                }
            }
        }
        let pt = p.drop_first();
        let qt = q.drop_first();
        assert(strictly_sorted(pt)) by {
            assert forall|a: int, b: int| 0 <= a < b < pt.len() implies str_lt(#[trigger] pt[a], #[trigger] pt[b]) by {
                assert(pt[a] == p[a + 1] && pt[b] == p[b + 1]);
            }
        }
        assert(strictly_sorted(qt)) by {
            assert forall|a: int, b: int| 0 <= a < b < qt.len() implies str_lt(#[trigger] qt[a], #[trigger] qt[b]) by {
                assert(qt[a] == q[a + 1] && qt[b] == q[b + 1]);
            }
        }
        assert(pt.to_set() =~= qt.to_set()) by {
            assert forall|x: Seq<char>| pt.to_set().contains(x) implies qt.to_set().contains(x) by {
                let a = choose|a: int| 0 <= a < pt.len() && pt[a] == x;
                assert(p[a + 1] == x);
                assert(str_lt(p[0], x));
                lemma_str_lt_irreflexive(x);
                assert(q.to_set().contains(x));
                let b = choose|b: int| 0 <= b < q.len() && q[b] == x;
                assert(b != 0);
                assert(qt[b - 1] == x);
            }
            assert forall|x: Seq<char>| qt.to_set().contains(x) implies pt.to_set().contains(x) by {
                let a = choose|a: int| 0 <= a < qt.len() && qt[a] == x;
                assert(q[a + 1] == x);
                assert(str_lt(q[0], x));
                lemma_str_lt_irreflexive(x);
                assert(p.to_set().contains(x));
                let b = choose|b: int| 0 <= b < p.len() && p[b] == x;
                assert(b != 0);
                assert(pt[b - 1] == x);
            }
        }
        lemma_sorted_same_set(pt, qt);
        assert(p =~= q) by {
            assert forall|k: int| 0 <= k < p.len() implies p[k] == q[k] by {
                if k > 0 {
                    assert(p[k] == pt[k - 1]);
                    assert(q[k] == qt[k - 1]);
                }
            }
        }
    }
}

/// A strictly ascending sequence is the sorted sequence of its names.
pub proof fn lemma_sorted_names(q: Seq<Seq<char>>)
    requires
        strictly_sorted(q),
    ensures
        sorted_names(q.to_set()) == q,
{
    let p = sorted_names(q.to_set());
    assert(strictly_sorted(p) && p.to_set() == q.to_set());
    lemma_sorted_same_set(p, q);
}

/// Whether a removed relationship counts for `key`: owned by the kept part
/// `key` (with `by_owner`), or written in relationships part `key`.
pub open spec fn id_matches(e: PackageRelationshipView, owner_removed: bool, key: Seq<char>, by_owner: bool) -> bool {
    if by_owner {
        e.1 == Some(key) && !owner_removed
    } else {
        e.0 == key
    }
}

/// The ids of the first `k` removed relationships that count for `key`, in order.
pub open spec fn removed_ids_upto(
    gone: Seq<PackageRelationshipView>,
    flags: Seq<bool>,
    key: Seq<char>,
    by_owner: bool,
    k: int,
) -> Seq<Seq<char>>
    decreases k,
{
    if k <= 0 {
        Seq::empty()
    } else {
        removed_ids_upto(gone, flags, key, by_owner, k - 1) + if id_matches(gone[k - 1], flags[k - 1], key, by_owner) {
            seq![(gone[k - 1].2).0]
        } else {
            Seq::empty()
        }
    }
}

/// The ids of the removed relationships that count for `key`.
pub open spec fn removed_ids(gone: Seq<PackageRelationshipView>, flags: Seq<bool>, key: Seq<char>, by_owner: bool) -> Set<
    Seq<char>,
> {
    removed_ids_upto(gone, flags, key, by_owner, gone.len() as int).to_set()
}

/// The owners of the first `k` removed relationships that stay.
pub open spec fn kept_owners(gone: Seq<PackageRelationshipView>, flags: Seq<bool>, k: int) -> Set<Seq<char>> {
    Set::new(|n: Seq<char>| exists|t: int| 0 <= t < k && (#[trigger] gone[t]).1 == Some(n) && !flags[t])
}

/// The relationships parts that hold the first `k` removed relationships.
pub open spec fn holding_parts(gone: Seq<PackageRelationshipView>, k: int) -> Set<Seq<char>> {
    Set::new(|n: Seq<char>| exists|t: int| 0 <= t < k && (#[trigger] gone[t]).0 == n)
}

/// The parts with the bytes of part `j` replaced.
pub open spec fn with_bytes(pv: Seq<PartView>, j: int, b: Seq<u8>) -> Seq<PartView> {
    pv.update(j, (pv[j].0, pv[j].1, b))
}

/// Rewrites kept owner `o`: where it is an XML part of the package, its
/// anchors of the relationships `ids` go; says whether its bytes changed.
pub open spec fn owner_step(pv: Seq<PartView>, ids: Set<Seq<char>>, o: Seq<char>) -> Result<(Seq<PartView>, bool), ErrorView> {
    match find_view(pv, o) {
        None => Ok((pv, false)),
        Some(j) => if !part_is_xml_spec(pv[j].0, pv[j].1) {
            Ok((pv, false))
        } else {
            match strip_anchors(pv[j].2, ids) {
                Err(e) => Err(e),
                Ok(b) => if b == pv[j].2 {
                    Ok((pv, false))
                } else {
                    Ok((with_bytes(pv, j, b), true))
                },
            }
        },
    }
}

/// Rewrites the first `k` kept owners in turn; gives the parts and the
/// owners whose bytes changed, in order.
pub open spec fn owner_fold(
    pv: Seq<PartView>,
    entries: Seq<PackageRelationshipView>,
    flags: Seq<bool>,
    owners: Seq<Seq<char>>,
    k: int,
) -> Result<(Seq<PartView>, Seq<Seq<char>>), ErrorView>
    decreases k,
{
    if k <= 0 {
        Ok((pv, Seq::empty()))
    } else {
        match owner_fold(pv, entries, flags, owners, k - 1) {
            Err(e) => Err(e),
            Ok((q, rewritten)) => match owner_step(q, removed_ids(entries, flags, owners[k - 1], true), owners[k - 1]) {
                Err(e) => Err(e),
                Ok((q2, changed)) => Ok(
                    (
                        q2,
                        if changed {
                            rewritten.push(owners[k - 1])
                        } else {
                            rewritten
                        },
                    ),
                ),
            },
        }
    }
}

/// Rewrites relationships part `key`, unless it goes: its relationships
/// `ids` go.
pub open spec fn relationship_step(pv: Seq<PartView>, ids: Set<Seq<char>>, key: Seq<char>, skip: Set<Seq<char>>) -> Result<
    Seq<PartView>,
    ErrorView,
> {
    if skip.contains(key) {
        Ok(pv)
    } else {
        match find_view(pv, key) {
            None => Ok(pv),
            Some(j) => match strip_ids(pv[j].2, ids) {
                Err(m) => Err((OmErrorCode::Parse, m)),
                Ok(b) => Ok(with_bytes(pv, j, b)),
            },
        }
    }
}

/// Rewrites the first `k` relationships parts in turn.
pub open spec fn relationship_fold(
    pv: Seq<PartView>,
    entries: Seq<PackageRelationshipView>,
    flags: Seq<bool>,
    keys: Seq<Seq<char>>,
    skip: Set<Seq<char>>,
    k: int,
) -> Result<Seq<PartView>, ErrorView>
    decreases k,
{
    if k <= 0 {
        Ok(pv)
    } else {
        match relationship_fold(pv, entries, flags, keys, skip, k - 1) {
            Err(e) => Err(e),
            Ok(q) => relationship_step(q, removed_ids(entries, flags, keys[k - 1], false), keys[k - 1], skip),
        }
    }
}

/// Removes, in turn, the parts that the first `k` names designate.
pub open spec fn removal_fold(pv: Seq<PartView>, removed: Seq<Seq<char>>, k: int) -> Seq<PartView>
    decreases k,
{
    if k <= 0 {
        pv
    } else {
        let q = removal_fold(pv, removed, k - 1);
        match find_view(q, removed[k - 1]) {
            Some(j) => q.remove(j),
            None => q,
        }
    }
}

/// Strips the manifest of the entries for active content and for the
/// removed parts; gives the parts and the entries that went.
pub open spec fn manifest_step(pv: Seq<PartView>, removed: Seq<Seq<char>>) -> Result<(Seq<PartView>, Seq<EntryView>), ErrorView> {
    match find_view(pv, content_types_name()) {
        None => Err((OmErrorCode::Parse, missing_manifest_message())),
        Some(c) => match strip_entries(pv[c].2, removed) {
            Err(e) => Err(e),
            Ok((b, entries)) => Ok((with_bytes(pv, c, b), entries)),
        },
    }
}

/// A failing owner rewrite fails every longer run.
pub proof fn lemma_owner_fold_fails(
    pv: Seq<PartView>,
    entries: Seq<PackageRelationshipView>,
    flags: Seq<bool>,
    owners: Seq<Seq<char>>,
    k: int,
    m: int,
)
    requires
        0 <= k <= m,
        owner_fold(pv, entries, flags, owners, k) is Err,
    ensures
        owner_fold(pv, entries, flags, owners, m) == owner_fold(pv, entries, flags, owners, k),
    decreases m - k,
{
    if m > k {
        lemma_owner_fold_fails(pv, entries, flags, owners, k, m - 1);
    }
}

/// A failing relationships-part rewrite fails every longer run.
pub proof fn lemma_relationship_fold_fails(
    pv: Seq<PartView>,
    entries: Seq<PackageRelationshipView>,
    flags: Seq<bool>,
    keys: Seq<Seq<char>>,
    skip: Set<Seq<char>>,
    k: int,
    m: int,
)
    requires
        0 <= k <= m,
        relationship_fold(pv, entries, flags, keys, skip, k) is Err,
    ensures
        relationship_fold(pv, entries, flags, keys, skip, m) == relationship_fold(pv, entries, flags, keys, skip, k),
    decreases m - k,
{
    if m > k {
        lemma_relationship_fold_fails(pv, entries, flags, keys, skip, k, m - 1);
    }
}

/// Replacing a part's bytes replaces them in its view.
pub proof fn lemma_replaced_view(before: Seq<OpcPart>, after: Seq<OpcPart>, j: int)
    requires
        0 <= j < before.len(),
        after.len() == before.len(),
        after[j].name == before[j].name,
        after[j].content_type == before[j].content_type,
        forall|i: int| 0 <= i < before.len() && i != j ==> #[trigger] after[i] == before[i],
    ensures
        part_views(after) == with_bytes(part_views(before), j, after[j].bytes@),
{
    assert forall|i: int| 0 <= i < after.len() implies #[trigger] part_views(after)[i] == with_bytes(part_views(before), j, after[j].bytes@)[i] by {
        if i != j {
            assert(after[i] == before[i]);
        }
    }
    assert(part_views(after) =~= with_bytes(part_views(before), j, after[j].bytes@));
}

/// Removing a part removes its view.
pub proof fn lemma_removed_view(before: Seq<OpcPart>, j: int)
    requires
        0 <= j < before.len(),
    ensures
        part_views(before.remove(j)) == part_views(before).remove(j),
{
    assert(part_views(before.remove(j)) =~= part_views(before).remove(j));
}

/// What the record of a removed part holds: its name, content type and
/// byte length.
pub type RemovedPartView = (Seq<char>, Option<Seq<char>>, nat);

/// The view of a removed-part record.
pub open spec fn removed_part_view(r: ActiveContentRemovedPart) -> RemovedPartView {
    (r.part_uri@, opt_view(r.content_type), r.byte_len as nat)
}

/// The views of a list of removed-part records.
pub open spec fn removed_part_views(v: Seq<ActiveContentRemovedPart>) -> Seq<RemovedPartView> {
    v.map_values(|r: ActiveContentRemovedPart| removed_part_view(r))
}

/// Removed-part records are listed by lower-cased name.
pub open spec fn removed_part_view_lt(a: RemovedPartView, b: RemovedPartView) -> bool {
    str_lt(lower(a.0), lower(b.0))
}

/// The records of the parts that the first `k` names remove, in turn.
pub open spec fn removal_records(pv: Seq<PartView>, removed: Seq<Seq<char>>, k: int) -> Seq<RemovedPartView>
    decreases k,
{
    if k <= 0 {
        Seq::empty()
    } else {
        let q = removal_fold(pv, removed, k - 1);
        let prev = removal_records(pv, removed, k - 1);
        match find_view(q, removed[k - 1]) {
            Some(j) => prev.push((q[j].0, q[j].1, q[j].2.len())),
            None => prev,
        }
    }
}


/// Removed-part records ordered by lower-cased name form a strict weak order.
pub proof fn lemma_removed_part_order()
    ensures
        crate::sort::strict_weak_order(|x: RemovedPartView, y: RemovedPartView| removed_part_view_lt(x, y)),
{
    let lt = |x: RemovedPartView, y: RemovedPartView| removed_part_view_lt(x, y);
    assert forall|a: RemovedPartView| !#[trigger] lt(a, a) by {
        crate::name_set::lemma_str_order_facts(lower(a.0), lower(a.0), lower(a.0));
    }
    assert forall|a: RemovedPartView, b: RemovedPartView, c: RemovedPartView|
        #![trigger lt(a, b), lt(b, c)]
        (lt(a, b) && lt(b, c) ==> lt(a, c)) && (!lt(a, b) && !lt(b, c) ==> !lt(a, c)) by {
        crate::name_set::lemma_str_order_facts(lower(a.0), lower(b.0), lower(c.0));
    }
}

} // verus!
