//! The audit that an active-content strip returns: what was seen, and what
//! was removed, rewritten or kept.
use vstd::prelude::*;
use crate::kinds::ActiveContentKind;
use crate::name_set::{chars_lt, str_lt};
use crate::package_xml::{ActiveContentContentTypeEntryKind, ActiveContentRemovedContentTypeEntry, EntryView};
use crate::parts::opt_view;
use crate::text::{chars_equal, chars_of, lower, lower_vec};

verus! {

/// What a save does with the active content of a workbook.
#[derive(Clone, Copy, Debug, PartialEq, Eq, Structural)]
pub enum ActiveContentPolicy {
    Preserve,
    Strip,
}

/// A part that a strip removed.
#[derive(Clone, Debug)]
pub struct ActiveContentRemovedPart {
    pub part_uri: String,
    pub content_type: Option<String>,
    pub byte_len: u64,
}

/// A relationship that a strip removed.
#[derive(Clone, Debug)]
pub struct ActiveContentRemovedRelationship {
    pub relationship_part_uri: String,
    pub owner_part_uri: Option<String>,
    pub id: String,
    pub relationship_type: String,
    pub target: String,
    pub target_mode: Option<String>,
}

/// What a removed relationship holds: relationships part, owner, id, type, target, target mode.
pub type RemovedRelationshipView = (Seq<char>, Option<Seq<char>>, Seq<char>, Seq<char>, Seq<char>, Option<Seq<char>>);

impl ActiveContentRemovedRelationship {
    pub open spec fn view(&self) -> RemovedRelationshipView {
        (
            self.relationship_part_uri@,
            opt_view(self.owner_part_uri),
            self.id@,
            self.relationship_type@,
            self.target@,
            opt_view(self.target_mode),
        )
    }
}

/// The audit of a save: the policy, the kinds of active content observed, and
/// what a strip removed, rewrote or kept because something else uses it.
#[derive(Clone, Debug)]
pub struct ActiveContentAuditManifest {
    pub policy: ActiveContentPolicy,
    pub observed_kinds: Vec<ActiveContentKind>,
    pub removed_parts: Vec<ActiveContentRemovedPart>,
    pub removed_relationships: Vec<ActiveContentRemovedRelationship>,
    pub removed_content_type_entries: Vec<ActiveContentRemovedContentTypeEntry>,
    pub rewritten_owner_part_uris: Vec<String>,
    pub retained_shared_part_uris: Vec<String>,
}

impl ActiveContentAuditManifest {
    /// An audit that records what was observed and nothing removed.
    pub open spec fn is_observation(&self, policy: ActiveContentPolicy, kinds: Seq<ActiveContentKind>) -> bool {
        &&& self.policy == policy
        &&& self.observed_kinds@ == kinds
        &&& self.removed_parts@.len() == 0
        &&& self.removed_relationships@.len() == 0
        &&& self.removed_content_type_entries@.len() == 0
        &&& self.rewritten_owner_part_uris@.len() == 0
        &&& self.retained_shared_part_uris@.len() == 0
    }

    /// The audit of a save under `policy` that observed `kinds`.
    pub fn observed(policy: ActiveContentPolicy, kinds: Vec<ActiveContentKind>) -> (r: Self)
        ensures
            r.is_observation(policy, kinds@),
    {
        ActiveContentAuditManifest {
            policy,
            observed_kinds: kinds,
            removed_parts: Vec::new(),
            removed_relationships: Vec::new(),
            removed_content_type_entries: Vec::new(),
            rewritten_owner_part_uris: Vec::new(),
            retained_shared_part_uris: Vec::new(),
        }
    }
}

/// The views of a list of removed relationships.
pub open spec fn removed_relationship_views(v: Seq<ActiveContentRemovedRelationship>) -> Seq<RemovedRelationshipView> {
    v.map_values(|x: ActiveContentRemovedRelationship| x@)
}

/// Removed relationships are listed by relationships part, id, type and target.
pub open spec fn removed_relationship_lt(a: RemovedRelationshipView, b: RemovedRelationshipView) -> bool {
    ||| str_lt(a.0, b.0)
    ||| a.0 == b.0 && str_lt(a.2, b.2)
    ||| a.0 == b.0 && a.2 == b.2 && str_lt(a.3, b.3)
    ||| a.0 == b.0 && a.2 == b.2 && a.3 == b.3 && str_lt(a.4, b.4)
}

fn str_lt_exec(a: &str, b: &str) -> (r: bool)
    ensures
        r == str_lt(a@, b@),
{
    let x = chars_of(a);
    let y = chars_of(b);
    chars_lt(&x, &y)
}

/// Whether removed relationship `a` is listed before `b`.
pub fn removed_relationship_before(a: &ActiveContentRemovedRelationship, b: &ActiveContentRemovedRelationship) -> (r: bool)
    ensures
        r == removed_relationship_lt(a@, b@),
{
    if str_lt_exec(a.relationship_part_uri.as_str(), b.relationship_part_uri.as_str()) {
        return true;
    }
    if !crate::text::str_eq(a.relationship_part_uri.as_str(), b.relationship_part_uri.as_str()) {
        return false;
    }
    if str_lt_exec(a.id.as_str(), b.id.as_str()) {
        return true;
    }
    if !crate::text::str_eq(a.id.as_str(), b.id.as_str()) {
        return false;
    }
    if str_lt_exec(a.relationship_type.as_str(), b.relationship_type.as_str()) {
        return true;
    }
    if !crate::text::str_eq(a.relationship_type.as_str(), b.relationship_type.as_str()) {
        return false;
    }
    str_lt_exec(a.target.as_str(), b.target.as_str())
}

/// Removed parts are listed by their ASCII lower-cased names.
pub open spec fn removed_part_lt(a: ActiveContentRemovedPart, b: ActiveContentRemovedPart) -> bool {
    str_lt(lower(a.part_uri@), lower(b.part_uri@))
}

/// Whether removed part `a` is listed before `b`.
pub fn removed_part_before(a: &ActiveContentRemovedPart, b: &ActiveContentRemovedPart) -> (r: bool)
    ensures
        r == removed_part_lt(*a, *b),
{
    let x = lower_vec(&chars_of(a.part_uri.as_str()));
    let y = lower_vec(&chars_of(b.part_uri.as_str()));
    chars_lt(&x, &y)
}

/// The position of an entry kind in the listing order.
pub open spec fn entry_kind_rank(k: ActiveContentContentTypeEntryKind) -> nat {
    match k {
        ActiveContentContentTypeEntryKind::Default => 0,
        ActiveContentContentTypeEntryKind::Override => 1,
    }
}

/// Removed manifest entries are listed by kind, selector and content type.
pub open spec fn removed_entry_lt(a: EntryView, b: EntryView) -> bool {
    ||| entry_kind_rank(a.0) < entry_kind_rank(b.0)
    ||| a.0 == b.0 && str_lt(a.1, b.1)
    ||| a.0 == b.0 && a.1 == b.1 && str_lt(a.2, b.2)
}

/// The same order on entries.
pub open spec fn removed_entry_value_lt(a: ActiveContentRemovedContentTypeEntry, b: ActiveContentRemovedContentTypeEntry) -> bool {
    removed_entry_lt(a@, b@)
}

/// Whether removed manifest entry `a` is listed before `b`.
pub fn removed_entry_before(a: &ActiveContentRemovedContentTypeEntry, b: &ActiveContentRemovedContentTypeEntry) -> (r: bool)
    ensures
        r == removed_entry_value_lt(*a, *b),
{
    let ra: u8 = match a.entry_kind {
        ActiveContentContentTypeEntryKind::Default => 0,
        ActiveContentContentTypeEntryKind::Override => 1,
    };
    let rb: u8 = match b.entry_kind {
        ActiveContentContentTypeEntryKind::Default => 0,
        ActiveContentContentTypeEntryKind::Override => 1,
    };
    if ra < rb {
        return true;
    }
    if ra != rb {
        return false;
    }
    if str_lt_exec(a.selector.as_str(), b.selector.as_str()) {
        return true;
    }
    if !crate::text::str_eq(a.selector.as_str(), b.selector.as_str()) {
        return false;
    }
    str_lt_exec(a.content_type.as_str(), b.content_type.as_str())
}

/// The name of a kind as it is written in messages.
pub open spec fn kind_label(k: ActiveContentKind) -> Seq<char> {
    match k {
        ActiveContentKind::VbaProject => "VbaProject"@,
        ActiveContentKind::VbaProjectSignature => "VbaProjectSignature"@,
        ActiveContentKind::VbaData => "VbaData"@,
        ActiveContentKind::XlmMacroSheet => "XlmMacroSheet"@,
        ActiveContentKind::DialogSheet => "DialogSheet"@,
        ActiveContentKind::ActiveXControl => "ActiveXControl"@,
        ActiveContentKind::EmbeddedObject => "EmbeddedObject"@,
        ActiveContentKind::CustomUi => "CustomUi"@,
    }
}

/// The names of kinds, separated by `, `.
pub open spec fn kind_labels(kinds: Seq<ActiveContentKind>) -> Seq<char>
    decreases kinds.len(),
{
    if kinds.len() == 0 {
        Seq::empty()
    } else if kinds.len() == 1 {
        kind_label(kinds[0])
    } else {
        kind_labels(kinds.drop_last()) + ", "@ + kind_label(kinds.last())
    }
}

/// A list of kinds as written in messages: `[` names `]`.
pub open spec fn kinds_text(kinds: Seq<ActiveContentKind>) -> Seq<char> {
    "["@ + kind_labels(kinds) + "]"@
}

fn kind_label_str(k: ActiveContentKind) -> (r: &'static str)
    ensures
        r@ == kind_label(k),
{
    proof {
        reveal_strlit("VbaProject");
        reveal_strlit("VbaProjectSignature");
        reveal_strlit("VbaData");
        reveal_strlit("XlmMacroSheet");
        reveal_strlit("DialogSheet");
        reveal_strlit("ActiveXControl");
        reveal_strlit("EmbeddedObject");
        reveal_strlit("CustomUi");
    }
    match k {
        ActiveContentKind::VbaProject => "VbaProject",
        ActiveContentKind::VbaProjectSignature => "VbaProjectSignature",
        ActiveContentKind::VbaData => "VbaData",
        ActiveContentKind::XlmMacroSheet => "XlmMacroSheet",
        ActiveContentKind::DialogSheet => "DialogSheet",
        ActiveContentKind::ActiveXControl => "ActiveXControl",
        ActiveContentKind::EmbeddedObject => "EmbeddedObject",
        ActiveContentKind::CustomUi => "CustomUi",
    }
}

/// A list of kinds as written in messages.
pub fn kinds_message_text(kinds: &[ActiveContentKind]) -> (r: String)
    ensures
        r@ == kinds_text(kinds@),
{
    proof {
        reveal_strlit("[");
        reveal_strlit("]");
        reveal_strlit(", ");
    }
    let mut out = String::from_str("[");
    let mut i: usize = 0;
    assert(kinds@.subrange(0, 0) =~= Seq::<ActiveContentKind>::empty());
    while i < kinds.len()
        invariant
            i <= kinds@.len(),
            out@ == "["@ + kind_labels(kinds@.subrange(0, i as int)),
        decreases kinds@.len() - i,
    {
        let ghost sub = kinds@.subrange(0, i + 1);
        assert(sub.drop_last() =~= kinds@.subrange(0, i as int));
        assert(sub.last() == kinds@[i as int]);
        if i > 0 {
            out.append(", ");
        }
        out.append(kind_label_str(kinds[i]));
        proof {
            if i == 0 {
                assert(out@ =~= "["@ + kind_labels(sub));
            } else {
                assert(out@ =~= "["@ + kind_labels(sub));
            }
        }
        i += 1;
    }
    assert(kinds@.subrange(0, kinds@.len() as int) =~= kinds@);
    out.append("]");
    out
}


/// Removed relationships ordered by holding part, id, type and target form a
/// strict weak order.
pub proof fn lemma_removed_relationship_order()
    ensures
        crate::sort::strict_weak_order(
            |x: RemovedRelationshipView, y: RemovedRelationshipView| removed_relationship_lt(x, y),
        ),
{
    let lt = |x: RemovedRelationshipView, y: RemovedRelationshipView| removed_relationship_lt(x, y);
    assert forall|a: RemovedRelationshipView| !#[trigger] lt(a, a) by {
        crate::name_set::lemma_str_order_facts(a.0, a.2, a.3);
        crate::name_set::lemma_str_order_facts(a.4, a.4, a.4);
    }
    assert forall|a: RemovedRelationshipView, b: RemovedRelationshipView, c: RemovedRelationshipView|
        #![trigger lt(a, b), lt(b, c)]
        (lt(a, b) && lt(b, c) ==> lt(a, c)) && (!lt(a, b) && !lt(b, c) ==> !lt(a, c)) by {
        crate::name_set::lemma_str_order_facts(a.0, b.0, c.0);
        crate::name_set::lemma_str_order_facts(a.2, b.2, c.2);
        crate::name_set::lemma_str_order_facts(a.3, b.3, c.3);
        crate::name_set::lemma_str_order_facts(a.4, b.4, c.4);
    }
}

/// Removed manifest entries ordered by kind, selector and content type form
/// a strict weak order.
pub proof fn lemma_removed_entry_order()
    ensures
        crate::sort::strict_weak_order(|x: EntryView, y: EntryView| removed_entry_lt(x, y)),
{
    let lt = |x: EntryView, y: EntryView| removed_entry_lt(x, y);
    assert forall|a: EntryView| !#[trigger] lt(a, a) by {
        crate::name_set::lemma_str_order_facts(a.1, a.2, a.2);
    }
    assert forall|a: EntryView, b: EntryView, c: EntryView|
        #![trigger lt(a, b), lt(b, c)]
        (lt(a, b) && lt(b, c) ==> lt(a, c)) && (!lt(a, b) && !lt(b, c) ==> !lt(a, c)) by {
        crate::name_set::lemma_str_order_facts(a.1, b.1, c.1);
        crate::name_set::lemma_str_order_facts(a.2, b.2, c.2);
        assert(entry_kind_rank(a.0) == entry_kind_rank(b.0) ==> a.0 == b.0);
        assert(entry_kind_rank(b.0) == entry_kind_rank(c.0) ==> b.0 == c.0);
        assert(entry_kind_rank(a.0) == entry_kind_rank(c.0) ==> a.0 == c.0);
    }
}

} // verus!
