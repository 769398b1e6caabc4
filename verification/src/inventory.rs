//! The active-content inventory of a package: which kinds of active content
//! it carries, in which parts, relationships parts and manifest entries.
use vstd::prelude::*;
use crate::errors::OmError;
use crate::kinds::{ActiveContentKind, KindSet};
use crate::name_set::{str_lt, NameSet};
use crate::package::OpcPackage;
use crate::package_xml::{
    active_content_kinds_from_content_types, active_content_kinds_from_relationships, marker_kinds,
    MarkerSource,
};
use crate::parts::{
    active_content_kinds_for_part, is_relationships_part, is_relationships_part_spec, opt_view,
    part_kinds, string_views, OpcPart,
};
use crate::text::{chars_eq_ignore_case, chars_of, eq_ignore_case};

verus! {

/// What the inventory records: the kinds found, the parts whose name or
/// content type is active content, the relationships parts with
/// active-content relationships, and whether the manifest names active content.
pub struct InventoryView {
    pub kinds: Set<ActiveContentKind>,
    pub part_uris: Set<Seq<char>>,
    pub relationship_part_uris: Set<Seq<char>>,
    pub has_content_type_markers: bool,
}

/// The name of the content-types manifest part.
pub open spec fn content_types_part_name() -> Seq<char> {
    "[Content_Types].xml"@
}

/// Takes part `j` into the inventory `acc`; a part whose XML cannot be read
/// ends the inventory with that failure.
pub open spec fn inventory_step(p: OpcPart, acc: InventoryView) -> Result<InventoryView, Seq<char>> {
    let pk = part_kinds(p.name@, opt_view(p.content_type));
    let acc1 = if pk != Set::<ActiveContentKind>::empty() {
        InventoryView { kinds: acc.kinds.union(pk), part_uris: acc.part_uris.insert(p.name@), ..acc }
    } else {
        acc
    };
    let step2 = if eq_ignore_case(p.name@, content_types_part_name()) {
        match marker_kinds(p.bytes@, MarkerSource::ContentTypes) {
            Err(m) => Err(m),
            Ok(k) => if k != Set::<ActiveContentKind>::empty() {
                Ok(InventoryView { kinds: acc1.kinds.union(k), has_content_type_markers: true, ..acc1 })
            } else {
                Ok(acc1)
            },
        }
    } else {
        Ok(acc1)
    };
    match step2 {
        Err(m) => Err(m),
        Ok(acc2) => if is_relationships_part_spec(p.name@, opt_view(p.content_type)) {
            match marker_kinds(p.bytes@, MarkerSource::Relationships) {
                Err(m) => Err(m),
                Ok(k) => if k != Set::<ActiveContentKind>::empty() {
                    Ok(InventoryView {
                        kinds: acc2.kinds.union(k),
                        relationship_part_uris: acc2.relationship_part_uris.insert(p.name@),
                        ..acc2
                    })
                } else {
                    Ok(acc2)
                },
            }
        } else {
            Ok(acc2)
        },
    }
}

/// Takes the parts from position `j` on into the inventory `acc`.
pub open spec fn inventory_run(parts: Seq<OpcPart>, j: int, acc: InventoryView) -> Result<InventoryView, Seq<char>>
    decreases parts.len() - j,
{
    if j >= parts.len() || j < 0 {
        Ok(acc)
    } else {
        match inventory_step(parts[j], acc) {
            Err(m) => Err(m),
            Ok(acc2) => inventory_run(parts, j + 1, acc2),
        }
    }
}

/// The empty inventory.
pub open spec fn empty_inventory() -> InventoryView {
    InventoryView {
        kinds: Set::empty(),
        part_uris: Set::empty(),
        relationship_part_uris: Set::empty(),
        has_content_type_markers: false,
    }
}

/// The inventory of a package's parts.
pub open spec fn inventory_of(parts: Seq<OpcPart>) -> Result<InventoryView, Seq<char>> {
    inventory_run(parts, 0, empty_inventory())
}

/// The kinds that the manifest part names, if the part is the manifest.
pub open spec fn manifest_kinds(p: OpcPart) -> Result<Set<ActiveContentKind>, Seq<char>> {
    if eq_ignore_case(p.name@, content_types_part_name()) {
        marker_kinds(p.bytes@, MarkerSource::ContentTypes)
    } else {
        Ok(Set::empty())
    }
}

/// The kinds that a relationships part's relationships point to, if the
/// part is a relationships part.
pub open spec fn relationship_kinds(p: OpcPart) -> Result<Set<ActiveContentKind>, Seq<char>> {
    if is_relationships_part_spec(p.name@, opt_view(p.content_type)) {
        marker_kinds(p.bytes@, MarkerSource::Relationships)
    } else {
        Ok(Set::empty())
    }
}

/// The kinds in a successful result, none otherwise.
pub open spec fn found_kinds(r: Result<Set<ActiveContentKind>, Seq<char>>) -> Set<ActiveContentKind> {
    match r {
        Ok(k) => k,
        Err(_) => Set::empty(),
    }
}

/// Whether a part's markers can be read: the manifest and relationships
/// parts must read as XML.
pub open spec fn part_readable(p: OpcPart) -> bool {
    manifest_kinds(p) is Ok && relationship_kinds(p) is Ok
}

/// The kinds a part carries: by its name or content type, and by what it
/// names as the manifest or as a relationships part.
pub open spec fn part_contribution(p: OpcPart) -> Set<ActiveContentKind> {
    part_kinds(p.name@, opt_view(p.content_type)).union(found_kinds(manifest_kinds(p))).union(
        found_kinds(relationship_kinds(p)),
    )
}

/// What an inventory of the parts from position `j` on adds to `acc`.
pub open spec fn inventory_adds(parts: Seq<OpcPart>, j: int, acc: InventoryView, v: InventoryView) -> bool {
    &&& forall|k: ActiveContentKind|
        v.kinds.contains(k) <==> (acc.kinds.contains(k) || exists|i: int|
            j <= i < parts.len() && #[trigger] part_contribution(parts[i]).contains(k))
    &&& forall|u: Seq<char>|
        v.part_uris.contains(u) <==> (acc.part_uris.contains(u) || exists|i: int|
            j <= i < parts.len() && (#[trigger] parts[i]).name@ == u && part_kinds(parts[i].name@, opt_view(parts[i].content_type))
                != Set::<ActiveContentKind>::empty())
    &&& forall|u: Seq<char>|
        v.relationship_part_uris.contains(u) <==> (acc.relationship_part_uris.contains(u) || exists|i: int|
            j <= i < parts.len() && (#[trigger] parts[i]).name@ == u && found_kinds(relationship_kinds(parts[i]))
                != Set::<ActiveContentKind>::empty())
    &&& v.has_content_type_markers <==> (acc.has_content_type_markers || exists|i: int|
        j <= i < parts.len() && found_kinds(manifest_kinds(#[trigger] parts[i])) != Set::<ActiveContentKind>::empty())
}

proof fn lemma_inventory_step(p: OpcPart, acc: InventoryView)
    ensures
        inventory_step(p, acc) is Ok <==> part_readable(p),
        inventory_step(p, acc) matches Ok(v) ==> {
            &&& v.kinds == acc.kinds.union(part_contribution(p))
            &&& v.part_uris == if part_kinds(p.name@, opt_view(p.content_type)) != Set::<ActiveContentKind>::empty() {
                acc.part_uris.insert(p.name@)
            } else {
                acc.part_uris
            }
            &&& v.relationship_part_uris == if found_kinds(relationship_kinds(p)) != Set::<ActiveContentKind>::empty() {
                acc.relationship_part_uris.insert(p.name@)
            } else {
                acc.relationship_part_uris
            }
            &&& v.has_content_type_markers == (acc.has_content_type_markers || found_kinds(manifest_kinds(p))
                != Set::<ActiveContentKind>::empty())
        },
{
    if let Ok(v) = inventory_step(p, acc) {
        assert(v.kinds =~= acc.kinds.union(part_contribution(p)));
    }
}

proof fn lemma_inventory_run_adds(parts: Seq<OpcPart>, j: int, acc: InventoryView)
    requires
        0 <= j <= parts.len(),
    ensures
        inventory_run(parts, j, acc) is Ok <==> forall|i: int| j <= i < parts.len() ==> part_readable(#[trigger] parts[i]),
        inventory_run(parts, j, acc) matches Ok(v) ==> inventory_adds(parts, j, acc, v),
    decreases parts.len() - j,
{
    if j < parts.len() {
        lemma_inventory_step(parts[j], acc);
        match inventory_step(parts[j], acc) {
            Err(_) => {
                assert(!part_readable(parts[j]));
            },
            Ok(a2) => {
                lemma_inventory_run_adds(parts, j + 1, a2);
                if let Ok(v) = inventory_run(parts, j, acc) {
                    assert forall|k: ActiveContentKind| v.kinds.contains(k) <==> (acc.kinds.contains(k) || exists|i: int|
                        j <= i < parts.len() && #[trigger] part_contribution(parts[i]).contains(k)) by {
                        if exists|i: int| j <= i < parts.len() && #[trigger] part_contribution(parts[i]).contains(k) {
                            let i = choose|i: int| j <= i < parts.len() && #[trigger] part_contribution(parts[i]).contains(k);
                            if i == j {
                                assert(a2.kinds.contains(k));
                            }
                        }
                    }
                    assert forall|u: Seq<char>| v.part_uris.contains(u) <==> (acc.part_uris.contains(u) || exists|i: int|
                        j <= i < parts.len() && (#[trigger] parts[i]).name@ == u && part_kinds(parts[i].name@, opt_view(parts[i].content_type))
                            != Set::<ActiveContentKind>::empty()) by {
                        if exists|i: int| j <= i < parts.len() && (#[trigger] parts[i]).name@ == u && part_kinds(parts[i].name@, opt_view(parts[i].content_type))
                            != Set::<ActiveContentKind>::empty() {
                            let i = choose|i: int| j <= i < parts.len() && (#[trigger] parts[i]).name@ == u && part_kinds(parts[i].name@, opt_view(parts[i].content_type))
                                != Set::<ActiveContentKind>::empty();
                            if i == j {
                                assert(a2.part_uris.contains(u));
                            }
                        }
                    }
                    assert forall|u: Seq<char>| v.relationship_part_uris.contains(u) <==> (acc.relationship_part_uris.contains(u) || exists|i: int|
                        j <= i < parts.len() && (#[trigger] parts[i]).name@ == u && found_kinds(relationship_kinds(parts[i]))
                            != Set::<ActiveContentKind>::empty()) by {
                        if exists|i: int| j <= i < parts.len() && (#[trigger] parts[i]).name@ == u && found_kinds(relationship_kinds(parts[i]))
                            != Set::<ActiveContentKind>::empty() {
                            let i = choose|i: int| j <= i < parts.len() && (#[trigger] parts[i]).name@ == u && found_kinds(relationship_kinds(parts[i]))
                                != Set::<ActiveContentKind>::empty();
                            if i == j {
                                assert(a2.relationship_part_uris.contains(u));
                            }
                        }
                    }
                    if exists|i: int| j <= i < parts.len() && found_kinds(manifest_kinds(#[trigger] parts[i])) != Set::<ActiveContentKind>::empty() {
                        let i = choose|i: int| j <= i < parts.len() && found_kinds(manifest_kinds(#[trigger] parts[i])) != Set::<ActiveContentKind>::empty();
                        if i == j {
                            assert(a2.has_content_type_markers);
                        }
                    }
                }
            },
        }
    }
}

/// What taking stock of a package finds: the stock-taking succeeds exactly
/// when the manifest and every relationships part read as XML; then the
/// kinds found are the union of what each part carries by its name or
/// content type, by the manifest's entries and by relationships parts'
/// relationships; the listed parts are exactly those whose name or content
/// type is active content; the listed relationships parts are exactly those
/// with active-content relationships; and the manifest is marked exactly
/// when it names active content, so that a marked manifest means some
/// kind was found.
pub proof fn lemma_inventory_finds(parts: Seq<OpcPart>)
    ensures
        inventory_of(parts) is Ok <==> forall|i: int| 0 <= i < parts.len() ==> part_readable(#[trigger] parts[i]),
        inventory_of(parts) matches Ok(v) ==> inventory_adds(parts, 0, empty_inventory(), v),
        inventory_of(parts) matches Ok(v) ==> (v.has_content_type_markers ==> v.kinds != Set::<ActiveContentKind>::empty()),
{
    lemma_inventory_run_adds(parts, 0, empty_inventory());
    if let Ok(v) = inventory_of(parts) {
        if v.has_content_type_markers {
            let i = choose|i: int| 0 <= i < parts.len() && found_kinds(manifest_kinds(#[trigger] parts[i])) != Set::<ActiveContentKind>::empty();
            let found = found_kinds(manifest_kinds(parts[i]));
            assert(!(found =~= Set::<ActiveContentKind>::empty()));
            let k = choose|k: ActiveContentKind| found.contains(k);
            assert(part_contribution(parts[i]).contains(k));
            assert(v.kinds.contains(k));
        }
    }
}

/// `inventory_step` over a part's view.
pub open spec fn inventory_step_view(v: crate::apply_steps::PartView, acc: InventoryView) -> Result<InventoryView, Seq<char>> {
    let pk = part_kinds(v.0, v.1);
    let acc1 = if pk != Set::<ActiveContentKind>::empty() {
        InventoryView { kinds: acc.kinds.union(pk), part_uris: acc.part_uris.insert(v.0), ..acc }
    } else {
        acc
    };
    let step2 = if eq_ignore_case(v.0, content_types_part_name()) {
        match marker_kinds(v.2, MarkerSource::ContentTypes) {
            Err(m) => Err(m),
            Ok(k) => if k != Set::<ActiveContentKind>::empty() {
                Ok(InventoryView { kinds: acc1.kinds.union(k), has_content_type_markers: true, ..acc1 })
            } else {
                Ok(acc1)
            },
        }
    } else {
        Ok(acc1)
    };
    match step2 {
        Err(m) => Err(m),
        Ok(acc2) => if is_relationships_part_spec(v.0, v.1) {
            match marker_kinds(v.2, MarkerSource::Relationships) {
                Err(m) => Err(m),
                Ok(k) => if k != Set::<ActiveContentKind>::empty() {
                    Ok(InventoryView {
                        kinds: acc2.kinds.union(k),
                        relationship_part_uris: acc2.relationship_part_uris.insert(v.0),
                        ..acc2
                    })
                } else {
                    Ok(acc2)
                },
            }
        } else {
            Ok(acc2)
        },
    }
}

/// `inventory_run` over part views.
pub open spec fn inventory_run_view(pv: Seq<crate::apply_steps::PartView>, j: int, acc: InventoryView) -> Result<
    InventoryView,
    Seq<char>,
>
    decreases pv.len() - j,
{
    if j >= pv.len() || j < 0 {
        Ok(acc)
    } else {
        match inventory_step_view(pv[j], acc) {
            Err(m) => Err(m),
            Ok(acc2) => inventory_run_view(pv, j + 1, acc2),
        }
    }
}

/// The inventory of a package, from its part views.
pub open spec fn inventory_of_view(pv: Seq<crate::apply_steps::PartView>) -> Result<InventoryView, Seq<char>> {
    inventory_run_view(pv, 0, empty_inventory())
}

proof fn lemma_inventory_run_view(parts: Seq<OpcPart>, j: int, acc: InventoryView)
    requires
        0 <= j <= parts.len(),
    ensures
        inventory_run(parts, j, acc) == inventory_run_view(crate::apply_steps::part_views(parts), j, acc),
    decreases parts.len() - j,
{
    if j < parts.len() {
        assert(crate::apply_steps::part_views(parts)[j] == crate::apply_steps::part_view(parts[j]));
        assert(inventory_step(parts[j], acc) == inventory_step_view(crate::apply_steps::part_view(parts[j]), acc));
        match inventory_step(parts[j], acc) {
            Err(_) => {},
            Ok(acc2) => lemma_inventory_run_view(parts, j + 1, acc2),
        }
    }
}

/// The inventory depends on the parts' views alone.
pub proof fn lemma_inventory_of_view(parts: Seq<OpcPart>)
    ensures
        inventory_of(parts) == inventory_of_view(crate::apply_steps::part_views(parts)),
{
    lemma_inventory_run_view(parts, 0, empty_inventory());
}

/// The active content found in a package.
#[derive(Debug)]
pub struct ActiveContentInventory {
    kinds: Vec<ActiveContentKind>,
    part_uris: Vec<String>,
    relationship_part_uris: Vec<String>,
    has_content_type_markers: bool,
}

/// Whether a sequence of names is strictly ascending.
pub open spec fn ascending(s: Seq<Seq<char>>) -> bool {
    forall|i: int, j: int| 0 <= i < j < s.len() ==> str_lt(s[i], s[j])
}

impl ActiveContentInventory {
    /// The kinds found, in ascending order.
    pub closed spec fn kind_seq(&self) -> Seq<ActiveContentKind> {
        self.kinds@
    }

    /// The parts with active content, in ascending order.
    pub closed spec fn part_seq(&self) -> Seq<Seq<char>> {
        string_views(self.part_uris@)
    }

    /// The relationships parts with active-content relationships, in ascending order.
    pub closed spec fn relationship_part_seq(&self) -> Seq<Seq<char>> {
        string_views(self.relationship_part_uris@)
    }

    /// Whether the manifest names active content.
    pub closed spec fn content_type_markers(&self) -> bool {
        self.has_content_type_markers
    }

    /// What the inventory records.
    pub open spec fn view(&self) -> InventoryView {
        InventoryView {
            kinds: self.kind_seq().to_set(),
            part_uris: self.part_seq().to_set(),
            relationship_part_uris: self.relationship_part_seq().to_set(),
            has_content_type_markers: self.content_type_markers(),
        }
    }

    /// The lists are ascending without repeats.
    pub open spec fn wf(&self) -> bool {
        &&& forall|i: int, j: int|
            0 <= i < j < self.kind_seq().len() ==> crate::kinds::kind_rank(self.kind_seq()[i])
                < crate::kinds::kind_rank(self.kind_seq()[j])
        &&& ascending(self.part_seq())
        &&& ascending(self.relationship_part_seq())
    }

    /// Whether any active content was found.
    pub fn has_artifacts(&self) -> (r: bool)
        ensures
            r == (self.kind_seq().len() > 0),
    {
        self.kinds.len() != 0
    }

    /// The kinds found, in ascending order.
    pub fn kinds(&self) -> (r: &[ActiveContentKind])
        ensures
            r@ == self.kind_seq(),
    {
        self.kinds.as_slice()
    }

    /// The parts whose name or content type is active content, in ascending order.
    pub fn part_uris(&self) -> (r: &[String])
        ensures
            string_views(r@) == self.part_seq(),
    {
        self.part_uris.as_slice()
    }

    /// The relationships parts with active-content relationships, in ascending order.
    pub fn relationship_part_uris(&self) -> (r: &[String])
        ensures
            string_views(r@) == self.relationship_part_seq(),
    {
        self.relationship_part_uris.as_slice()
    }

    /// Whether the content-types manifest names active content.
    pub fn has_content_type_markers(&self) -> (r: bool)
        ensures
            r == self.content_type_markers(),
    {
        self.has_content_type_markers
    }
}

/// The view of an inventory result.
pub open spec fn inventory_result_view(r: Result<ActiveContentInventory, OmError>) -> Result<InventoryView, Seq<char>> {
    match r {
        Ok(inv) => Ok(inv@),
        Err(e) => Err(e.message@),
    }
}

/// Takes stock of the active content of a package.
pub fn collect_active_content_inventory(package: &OpcPackage) -> (r: Result<ActiveContentInventory, OmError>)
    ensures
        inventory_result_view(r) == inventory_of(package.parts@),
        r matches Ok(inv) ==> inv.wf(),
        crate::package_xml::fails_as_parse(r),
{
    let mut kinds = KindSet::new();
    let mut part_uris = NameSet::new();
    let mut relationship_part_uris = NameSet::new();
    let mut has_content_type_markers = false;
    let mut j: usize = 0;
    let manifest_name = chars_of("[Content_Types].xml");
    while j < package.parts.len()
        invariant
            j <= package.parts@.len(),
            kinds.wf(),
            part_uris.wf(),
            relationship_part_uris.wf(),
            manifest_name@ == content_types_part_name(),
            inventory_of(package.parts@) == inventory_run(
                package.parts@,
                j as int,
                InventoryView {
                    kinds: kinds@,
                    part_uris: part_uris@,
                    relationship_part_uris: relationship_part_uris@,
                    has_content_type_markers,
                },
            ),
        decreases package.parts@.len() - j,
    {
        let part = &package.parts[j];
        let part_kinds_found = active_content_kinds_for_part(part);
        if !part_kinds_found.is_empty() {
            kinds.extend(&part_kinds_found);
            part_uris.insert(part.name.clone());
        }
        let name = chars_of(part.name.as_str());
        if chars_eq_ignore_case(&name, &manifest_name) {
            let found = match active_content_kinds_from_content_types(part.bytes.as_slice()) {
                Ok(k) => k,
                Err(e) => {
                    return Err(e);
                },
            };
            if !found.is_empty() {
                has_content_type_markers = true;
                kinds.extend(&found);
            }
        }
        if is_relationships_part(part) {
            let found = match active_content_kinds_from_relationships(part.bytes.as_slice()) {
                Ok(k) => k,
                Err(e) => {
                    return Err(e);
                },
            };
            if !found.is_empty() {
                kinds.extend(&found);
                relationship_part_uris.insert(part.name.clone());
            }
        }
        j += 1;
    }
    let inv = ActiveContentInventory {
        kinds: kinds.to_vec(),
        part_uris: part_uris.to_vec(),
        relationship_part_uris: relationship_part_uris.to_vec(),
        has_content_type_markers,
    };
    proof {
        kinds.lemma_wf();
    }
    Ok(inv)
}


/// What a collected inventory lists: every listed part carries active
/// content by its name or content type; every listed relationships part has
/// active-content relationships; some kind is found exactly when some part,
/// the manifest or some relationships part carries a marker; and the
/// manifest flag is set exactly when the manifest names active content, in
/// which case some kind is found. (That the lists ascend without repeats is
/// the inventory's `wf`.)
pub proof fn lemma_collected_inventory(parts: Seq<OpcPart>, inv: ActiveContentInventory)
    requires
        inventory_of(parts) == Ok::<InventoryView, Seq<char>>(inv@),
    ensures
        forall|k: int|
            #![trigger inv.part_seq()[k]]
            0 <= k < inv.part_seq().len() ==> exists|i: int|
                0 <= i < parts.len() && (#[trigger] parts[i]).name@ == inv.part_seq()[k] && part_kinds(
                    parts[i].name@,
                    opt_view(parts[i].content_type),
                ) != Set::<ActiveContentKind>::empty(),
        forall|k: int|
            #![trigger inv.relationship_part_seq()[k]]
            0 <= k < inv.relationship_part_seq().len() ==> exists|i: int|
                0 <= i < parts.len() && (#[trigger] parts[i]).name@ == inv.relationship_part_seq()[k]
                    && is_relationships_part_spec(parts[i].name@, opt_view(parts[i].content_type)) && found_kinds(
                    marker_kinds(parts[i].bytes@, MarkerSource::Relationships),
                ) != Set::<ActiveContentKind>::empty(),
        inv.kind_seq().len() > 0 <==> exists|i: int|
            0 <= i < parts.len() && #[trigger] part_contribution(parts[i]) != Set::<ActiveContentKind>::empty(),
        inv.content_type_markers() <==> exists|i: int|
            0 <= i < parts.len() && found_kinds(manifest_kinds(#[trigger] parts[i])) != Set::<ActiveContentKind>::empty(),
        inv.content_type_markers() ==> inv.kind_seq().len() > 0,
{
    lemma_inventory_finds(parts);
    let v = inv@;
    assert forall|k: int| #![trigger inv.part_seq()[k]] 0 <= k < inv.part_seq().len() implies exists|i: int|
        0 <= i < parts.len() && (#[trigger] parts[i]).name@ == inv.part_seq()[k] && part_kinds(
            parts[i].name@,
            opt_view(parts[i].content_type),
        ) != Set::<ActiveContentKind>::empty() by {
        assert(v.part_uris.contains(inv.part_seq()[k]));
    }
    assert forall|k: int| #![trigger inv.relationship_part_seq()[k]] 0 <= k < inv.relationship_part_seq().len() implies exists|i: int|
        0 <= i < parts.len() && (#[trigger] parts[i]).name@ == inv.relationship_part_seq()[k]
            && is_relationships_part_spec(parts[i].name@, opt_view(parts[i].content_type)) && found_kinds(
            marker_kinds(parts[i].bytes@, MarkerSource::Relationships),
        ) != Set::<ActiveContentKind>::empty() by {
        assert(v.relationship_part_uris.contains(inv.relationship_part_seq()[k]));
        let i = choose|i: int|
            0 <= i < parts.len() && (#[trigger] parts[i]).name@ == inv.relationship_part_seq()[k] && found_kinds(
                relationship_kinds(parts[i]),
            ) != Set::<ActiveContentKind>::empty();
        assert(parts[i].name@ == inv.relationship_part_seq()[k]);
    }
    if inv.kind_seq().len() > 0 {
        assert(v.kinds.contains(inv.kind_seq()[0]));
    } else {
        assert(v.kinds =~= Set::<ActiveContentKind>::empty());
    }
    if exists|i: int| 0 <= i < parts.len() && #[trigger] part_contribution(parts[i]) != Set::<ActiveContentKind>::empty() {
        let i = choose|i: int| 0 <= i < parts.len() && #[trigger] part_contribution(parts[i]) != Set::<ActiveContentKind>::empty();
        let c = part_contribution(parts[i]);
        assert(!(c =~= Set::<ActiveContentKind>::empty()));
        let k = choose|k: ActiveContentKind| c.contains(k);
        assert(v.kinds.contains(k));
        let j = choose|j: int| 0 <= j < inv.kind_seq().len() && inv.kind_seq()[j] == k;
    }
}

} // verus!
