//! Active-content kinds and the classifiers that recognise them in package
//! content types and relationship types.
use vstd::prelude::*;
use crate::text::{chars_eq_str, chars_of, lower, lower_vec, media_type, media_type_vec, trim, trim_vec};

verus! {

/// A kind of executable or embedded content that a workbook package can carry.
#[derive(Clone, Copy, Debug, PartialEq, Eq, Structural, PartialOrd, Ord, Hash)]
pub enum ActiveContentKind {
    VbaProject,
    VbaProjectSignature,
    VbaData,
    XlmMacroSheet,
    DialogSheet,
    ActiveXControl,
    EmbeddedObject,
    CustomUi,
}

/// The position of a kind in the order in which kinds are listed.
pub open spec fn kind_rank(k: ActiveContentKind) -> nat {
    match k {
        ActiveContentKind::VbaProject => 0,
        ActiveContentKind::VbaProjectSignature => 1,
        ActiveContentKind::VbaData => 2,
        ActiveContentKind::XlmMacroSheet => 3,
        ActiveContentKind::DialogSheet => 4,
        ActiveContentKind::ActiveXControl => 5,
        ActiveContentKind::EmbeddedObject => 6,
        ActiveContentKind::CustomUi => 7,
    }
}

pub fn rank_of(k: ActiveContentKind) -> (r: u8)
    ensures
        r == kind_rank(k),
{
    match k {
        ActiveContentKind::VbaProject => 0,
        ActiveContentKind::VbaProjectSignature => 1,
        ActiveContentKind::VbaData => 2,
        ActiveContentKind::XlmMacroSheet => 3,
        ActiveContentKind::DialogSheet => 4,
        ActiveContentKind::ActiveXControl => 5,
        ActiveContentKind::EmbeddedObject => 6,
        ActiveContentKind::CustomUi => 7,
    }
}

pub proof fn lemma_rank_injective(a: ActiveContentKind, b: ActiveContentKind)
    ensures
        kind_rank(a) == kind_rank(b) <==> a == b,
{
}

/// The kind listed at position `r`.
pub open spec fn kind_of_rank(r: int) -> ActiveContentKind {
    if r <= 0 {
        ActiveContentKind::VbaProject
    } else if r == 1 {
        ActiveContentKind::VbaProjectSignature
    } else if r == 2 {
        ActiveContentKind::VbaData
    } else if r == 3 {
        ActiveContentKind::XlmMacroSheet
    } else if r == 4 {
        ActiveContentKind::DialogSheet
    } else if r == 5 {
        ActiveContentKind::ActiveXControl
    } else if r == 6 {
        ActiveContentKind::EmbeddedObject
    } else {
        ActiveContentKind::CustomUi
    }
}

/// The kinds of a set listed from position `r` on, in listing order.
pub open spec fn kinds_in_order_from(s: Set<ActiveContentKind>, r: int) -> Seq<ActiveContentKind>
    decreases 8 - r,
{
    if r >= 8 || r < 0 {
        Seq::empty()
    } else {
        (if s.contains(kind_of_rank(r)) { seq![kind_of_rank(r)] } else { Seq::empty() }) + kinds_in_order_from(s, r + 1)
    }
}

/// The kinds of a set in listing order.
pub open spec fn kinds_in_order(s: Set<ActiveContentKind>) -> Seq<ActiveContentKind> {
    kinds_in_order_from(s, 0)
}

proof fn lemma_kinds_from_agree(s1: Set<ActiveContentKind>, s2: Set<ActiveContentKind>, r: int)
    requires
        0 <= r,
        forall|k: ActiveContentKind| kind_rank(k) >= r ==> (s1.contains(k) <==> s2.contains(k)),
    ensures
        kinds_in_order_from(s1, r) == kinds_in_order_from(s2, r),
    decreases 8 - r,
{
    if r < 8 {
        assert(kind_rank(kind_of_rank(r)) == r);
        lemma_kinds_from_agree(s1, s2, r + 1);
    }
}

proof fn lemma_kinds_in_order_from(q: Seq<ActiveContentKind>, r: int)
    requires
        0 <= r <= 8,
        forall|i: int, j: int| 0 <= i < j < q.len() ==> kind_rank(q[i]) < kind_rank(q[j]),
        forall|i: int| 0 <= i < q.len() ==> kind_rank(#[trigger] q[i]) >= r,
    ensures
        q == kinds_in_order_from(q.to_set(), r),
    decreases 8 - r,
{
    if r == 8 {
        if q.len() > 0 {
            assert(kind_rank(q[0]) >= 8);
        }
        assert(q =~= Seq::<ActiveContentKind>::empty());
    } else if q.len() > 0 && kind_rank(q[0]) == r {
        let rest = q.drop_first();
        assert forall|i: int| 0 <= i < rest.len() implies kind_rank(#[trigger] rest[i]) >= r + 1 by {
            assert(rest[i] == q[i + 1]);
        }
        lemma_kinds_in_order_from(rest, r + 1);
        assert(kind_of_rank(r) == q[0]);
        assert(q.to_set().contains(q[0]));
        assert forall|k: ActiveContentKind| kind_rank(k) >= r + 1 implies (q.to_set().contains(k) <==> rest.to_set().contains(k)) by {
            if q.to_set().contains(k) {
                let i = choose|i: int| 0 <= i < q.len() && q[i] == k;
                if i == 0 {
                    assert(false);
                }
                assert(rest[i - 1] == k);
            }
            if rest.to_set().contains(k) {
                let i = choose|i: int| 0 <= i < rest.len() && rest[i] == k;
                assert(q[i + 1] == k);
            }
        }
        lemma_kinds_from_agree(q.to_set(), rest.to_set(), r + 1);
        assert(q =~= seq![q[0]] + rest);
    } else {
        assert forall|i: int| 0 <= i < q.len() implies kind_rank(#[trigger] q[i]) >= r + 1 by {
            if i > 0 {
                assert(kind_rank(q[0]) < kind_rank(q[i]));
            }
        }
        lemma_kinds_in_order_from(q, r + 1);
        if q.to_set().contains(kind_of_rank(r)) {
            let i = choose|i: int| 0 <= i < q.len() && q[i] == kind_of_rank(r);
            assert(kind_rank(q[i]) >= r + 1);
            assert(false);
        }
        assert(kinds_in_order_from(q.to_set(), r) =~= Seq::<ActiveContentKind>::empty() + kinds_in_order_from(q.to_set(), r + 1));
    }
}

/// A list of kinds in strictly increasing listing order is the listing of
/// its set.
pub proof fn lemma_kinds_in_order(q: Seq<ActiveContentKind>)
    requires
        forall|i: int, j: int| 0 <= i < j < q.len() ==> kind_rank(q[i]) < kind_rank(q[j]),
    ensures
        q == kinds_in_order(q.to_set()),
{
    lemma_kinds_in_order_from(q, 0);
}

/// The kind that a media type (already trimmed and lower-cased) denotes.
pub open spec fn kind_of_media_type(m: Seq<char>) -> Option<ActiveContentKind> {
    if m == "application/vnd.ms-office.vbaproject"@ {
        Some(ActiveContentKind::VbaProject)
    } else if m == "application/vnd.ms-office.vbaprojectsignature"@
        || m == "application/vnd.ms-office.vbaprojectsignatureagile"@
        || m == "application/vnd.ms-office.vbaprojectsignaturev3"@ {
        Some(ActiveContentKind::VbaProjectSignature)
    } else if m == "application/vnd.ms-office.vbadata+xml"@ {
        Some(ActiveContentKind::VbaData)
    } else if m == "application/vnd.ms-excel.macrosheet"@
        || m == "application/vnd.ms-excel.macrosheet+xml"@
        || m == "application/vnd.ms-excel.intlmacrosheet"@
        || m == "application/vnd.ms-excel.intlmacrosheet+xml"@ {
        Some(ActiveContentKind::XlmMacroSheet)
    } else if m == "application/vnd.ms-excel.dialogsheet"@
        || m == "application/vnd.openxmlformats-officedocument.spreadsheetml.dialogsheet+xml"@ {
        Some(ActiveContentKind::DialogSheet)
    } else if m == "application/vnd.ms-office.activex"@ || m
        == "application/vnd.ms-office.activex+xml"@ || m
        == "application/vnd.ms-excel.controlproperties+xml"@ {
        Some(ActiveContentKind::ActiveXControl)
    } else if m == "application/vnd.openxmlformats-officedocument.oleobject"@ {
        Some(ActiveContentKind::EmbeddedObject)
    } else {
        None
    }
}

/// The active-content kind of a content-type value: its media type (the text
/// before any `;`, trimmed) compared without regard to ASCII case.
pub open spec fn content_type_kind(content_type: Seq<char>) -> Option<ActiveContentKind> {
    kind_of_media_type(lower(media_type(content_type)))
}

/// Classifies a package content type as active content.
pub fn active_content_kind_from_content_type(content_type: &str) -> (r: Option<
    ActiveContentKind,
>)
    ensures
        r == content_type_kind(content_type@),
{
    let media = media_type_vec(content_type);
    let m = lower_vec(&media);
    if chars_eq_str(&m, "application/vnd.ms-office.vbaproject") {
        Some(ActiveContentKind::VbaProject)
    } else if chars_eq_str(&m, "application/vnd.ms-office.vbaprojectsignature") || chars_eq_str(
        &m,
        "application/vnd.ms-office.vbaprojectsignatureagile",
    ) || chars_eq_str(&m, "application/vnd.ms-office.vbaprojectsignaturev3") {
        Some(ActiveContentKind::VbaProjectSignature)
    } else if chars_eq_str(&m, "application/vnd.ms-office.vbadata+xml") {
        Some(ActiveContentKind::VbaData)
    } else if chars_eq_str(&m, "application/vnd.ms-excel.macrosheet") || chars_eq_str(
        &m,
        "application/vnd.ms-excel.macrosheet+xml",
    ) || chars_eq_str(&m, "application/vnd.ms-excel.intlmacrosheet") || chars_eq_str(
        &m,
        "application/vnd.ms-excel.intlmacrosheet+xml",
    ) {
        Some(ActiveContentKind::XlmMacroSheet)
    } else if chars_eq_str(&m, "application/vnd.ms-excel.dialogsheet") || chars_eq_str(
        &m,
        "application/vnd.openxmlformats-officedocument.spreadsheetml.dialogsheet+xml",
    ) {
        Some(ActiveContentKind::DialogSheet)
    } else if chars_eq_str(&m, "application/vnd.ms-office.activex") || chars_eq_str(
        &m,
        "application/vnd.ms-office.activex+xml",
    ) || chars_eq_str(&m, "application/vnd.ms-excel.controlproperties+xml") {
        Some(ActiveContentKind::ActiveXControl)
    } else if chars_eq_str(&m, "application/vnd.openxmlformats-officedocument.oleobject") {
        Some(ActiveContentKind::EmbeddedObject)
    } else {
        None
    }
}

/// The kind that a relationship type (already trimmed and lower-cased) denotes.
pub open spec fn kind_of_relationship_uri(t: Seq<char>) -> Option<ActiveContentKind> {
    if t == "http://schemas.microsoft.com/office/2006/relationships/vbaproject"@ {
        Some(ActiveContentKind::VbaProject)
    } else if t == "http://schemas.microsoft.com/office/2006/relationships/vbaprojectsignature"@
        || t == "http://schemas.microsoft.com/office/2006/relationships/vbaprojectsignatureagile"@
        || t == "http://schemas.microsoft.com/office/2006/relationships/vbaprojectsignaturev3"@ {
        Some(ActiveContentKind::VbaProjectSignature)
    } else if t == "http://schemas.microsoft.com/office/2006/relationships/vbadata"@ {
        Some(ActiveContentKind::VbaData)
    } else if t == "http://schemas.microsoft.com/office/2006/relationships/xlmacrosheet"@ || t
        == "http://schemas.microsoft.com/office/2006/relationships/xlintlmacrosheet"@ {
        Some(ActiveContentKind::XlmMacroSheet)
    } else if t == "http://schemas.openxmlformats.org/officedocument/2006/relationships/dialogsheet"@
        || t == "http://purl.oclc.org/ooxml/officedocument/relationships/dialogsheet"@ {
        Some(ActiveContentKind::DialogSheet)
    } else if t == "http://schemas.openxmlformats.org/officedocument/2006/relationships/control"@
        || t == "http://purl.oclc.org/ooxml/officedocument/relationships/control"@ || t
        == "http://schemas.microsoft.com/office/2006/relationships/activexcontrolbinary"@ || t
        == "http://schemas.microsoft.com/office/2006/relationships/ctrlprop"@ {
        Some(ActiveContentKind::ActiveXControl)
    } else if t == "http://schemas.openxmlformats.org/officedocument/2006/relationships/oleobject"@
        || t == "http://schemas.openxmlformats.org/officedocument/2006/relationships/package"@
        || t == "http://purl.oclc.org/ooxml/officedocument/relationships/oleobject"@ || t
        == "http://purl.oclc.org/ooxml/officedocument/relationships/package"@ {
        Some(ActiveContentKind::EmbeddedObject)
    } else if t == "http://schemas.microsoft.com/office/2006/relationships/ui/extensibility"@
        || t == "http://schemas.microsoft.com/office/2007/relationships/ui/extensibility"@ || t
        == "http://schemas.microsoft.com/office/2006/relationships/ui/usercustomization"@ {
        Some(ActiveContentKind::CustomUi)
    } else {
        None
    }
}

/// The active-content kind of a relationship type: the trimmed value compared
/// without regard to ASCII case.
pub open spec fn relationship_type_kind(relationship_type: Seq<char>) -> Option<ActiveContentKind> {
    kind_of_relationship_uri(lower(trim(relationship_type)))
}

/// Classifies a relationship type as active content.
pub fn active_content_kind_from_relationship_type(relationship_type: &str) -> (r: Option<
    ActiveContentKind,
>)
    ensures
        r == relationship_type_kind(relationship_type@),
{
    let v = chars_of(relationship_type);
    let trimmed = trim_vec(&v);
    let t = lower_vec(&trimmed);
    if chars_eq_str(&t, "http://schemas.microsoft.com/office/2006/relationships/vbaproject") {
        Some(ActiveContentKind::VbaProject)
    } else if chars_eq_str(
        &t,
        "http://schemas.microsoft.com/office/2006/relationships/vbaprojectsignature",
    ) || chars_eq_str(
        &t,
        "http://schemas.microsoft.com/office/2006/relationships/vbaprojectsignatureagile",
    ) || chars_eq_str(
        &t,
        "http://schemas.microsoft.com/office/2006/relationships/vbaprojectsignaturev3",
    ) {
        Some(ActiveContentKind::VbaProjectSignature)
    } else if chars_eq_str(&t, "http://schemas.microsoft.com/office/2006/relationships/vbadata") {
        Some(ActiveContentKind::VbaData)
    } else if chars_eq_str(
        &t,
        "http://schemas.microsoft.com/office/2006/relationships/xlmacrosheet",
    ) || chars_eq_str(
        &t,
        "http://schemas.microsoft.com/office/2006/relationships/xlintlmacrosheet",
    ) {
        Some(ActiveContentKind::XlmMacroSheet)
    } else if chars_eq_str(
        &t,
        "http://schemas.openxmlformats.org/officedocument/2006/relationships/dialogsheet",
    ) || chars_eq_str(&t, "http://purl.oclc.org/ooxml/officedocument/relationships/dialogsheet") {
        Some(ActiveContentKind::DialogSheet)
    } else if chars_eq_str(
        &t,
        "http://schemas.openxmlformats.org/officedocument/2006/relationships/control",
    ) || chars_eq_str(&t, "http://purl.oclc.org/ooxml/officedocument/relationships/control")
        || chars_eq_str(
        &t,
        "http://schemas.microsoft.com/office/2006/relationships/activexcontrolbinary",
    ) || chars_eq_str(&t, "http://schemas.microsoft.com/office/2006/relationships/ctrlprop") {
        Some(ActiveContentKind::ActiveXControl)
    } else if chars_eq_str(
        &t,
        "http://schemas.openxmlformats.org/officedocument/2006/relationships/oleobject",
    ) || chars_eq_str(
        &t,
        "http://schemas.openxmlformats.org/officedocument/2006/relationships/package",
    ) || chars_eq_str(&t, "http://purl.oclc.org/ooxml/officedocument/relationships/oleobject")
        || chars_eq_str(&t, "http://purl.oclc.org/ooxml/officedocument/relationships/package") {
        Some(ActiveContentKind::EmbeddedObject)
    } else if chars_eq_str(
        &t,
        "http://schemas.microsoft.com/office/2006/relationships/ui/extensibility",
    ) || chars_eq_str(
        &t,
        "http://schemas.microsoft.com/office/2007/relationships/ui/extensibility",
    ) || chars_eq_str(
        &t,
        "http://schemas.microsoft.com/office/2006/relationships/ui/usercustomization",
    ) {
        Some(ActiveContentKind::CustomUi)
    } else {
        None
    }
}

/// A set of active-content kinds, held in ascending kind order without repeats.
#[derive(Clone, Debug)]
pub struct KindSet {
    items: Vec<ActiveContentKind>,
}

impl KindSet {
    /// The items are in strictly ascending kind order.
    pub open spec fn wf(&self) -> bool {
        forall|i: int, j: int|
            0 <= i < j < self.seq().len() ==> kind_rank(self.seq()[i]) < kind_rank(
                self.seq()[j],
            )
    }

    /// The kinds held, in ascending order.
    pub closed spec fn seq(&self) -> Seq<ActiveContentKind> {
        self.items@
    }

    pub open spec fn view(&self) -> Set<ActiveContentKind> {
        self.seq().to_set()
    }

    pub proof fn lemma_wf(&self)
        requires
            self.wf(),
        ensures
            forall|i: int, j: int|
                0 <= i < j < self.seq().len() ==> kind_rank(self.seq()[i]) < kind_rank(
                    self.seq()[j],
                ),
    {
    }

    /// The empty set.
    pub fn new() -> (s: Self)
        ensures
            s.wf(),
            s@ == Set::<ActiveContentKind>::empty(),
            s.seq().len() == 0,
    {
        let s = KindSet { items: Vec::new() };
        assert(s.seq().to_set() =~= Set::<ActiveContentKind>::empty());
        s
    }

    /// Whether the set is empty.
    pub fn is_empty(&self) -> (r: bool)
        ensures
            r == (self@ =~= Set::<ActiveContentKind>::empty()),
    {
        if self.items.len() == 0 {
            assert(self.seq().to_set() =~= Set::<ActiveContentKind>::empty());
            true
        } else {
            assert(self@.contains(self.items@[0]));
            false
        }
    }

    /// Adds a kind.
    pub fn insert(&mut self, k: ActiveContentKind)
        requires
            old(self).wf(),
        ensures
            final(self).wf(),
            final(self)@ == old(self)@.insert(k),
    {
        let ghost old_items = self.items@;
        assert(self.seq() == old_items);
        assert(forall|a: int, b: int|
            0 <= a < b < old_items.len() ==> kind_rank(old_items[a]) < kind_rank(old_items[b]));
        let rk = rank_of(k);
        let mut i: usize = 0;
        while i < self.items.len() && rank_of(self.items[i]) < rk
            invariant
                i <= self.items@.len(),
                self.items@ == old_items,
                forall|j: int| 0 <= j < i ==> kind_rank(self.items@[j]) < rk,
            decreases self.items@.len() - i,
        {
            i += 1;
        }
        if i < self.items.len() && self.items[i] == k {
            assert(self@.contains(k));
            assert(self@ =~= old_items.to_set().insert(k));
            return ;
        }
        proof {
            if i < self.items@.len() {
                lemma_rank_injective(self.items@[i as int], k);
                assert(kind_rank(old_items[i as int]) > rk);
            }
        }
        self.items.insert(i, k);
        proof {
            let s = self.items@;
            assert forall|a: int, b: int| 0 <= a < b < s.len() implies kind_rank(s[a]) < kind_rank(
                s[b],
            ) by {
                if b < i {
                    assert(s[a] == old_items[a]);
                    assert(s[b] == old_items[b]);
                } else if b == i {
                    assert(s[a] == old_items[a]);
                } else if a < i {
                    assert(s[a] == old_items[a]);
                    assert(s[b] == old_items[b - 1]);
                } else if a == i {
                    assert(s[b] == old_items[b - 1]);
                    assert(s[a] == k);
                    if b - 1 > i {
                        assert(kind_rank(old_items[i as int]) < kind_rank(old_items[b - 1]));
                    }
                } else {
                    assert(s[a] == old_items[a - 1]);
                    assert(s[b] == old_items[b - 1]);
                }
            }
            assert forall|x: ActiveContentKind| s.to_set().contains(x) <==> old_items.to_set().insert(
                k,
            ).contains(x) by {
                if s.to_set().contains(x) {
                    let j = choose|j: int| 0 <= j < s.len() && s[j] == x;
                    if j < i {
                        assert(old_items[j] == x);
                    } else if j > i {
                        assert(old_items[j - 1] == x);
                    }
                }
                if old_items.to_set().contains(x) {
                    let j = choose|j: int| 0 <= j < old_items.len() && old_items[j] == x;
                    if j < i {
                        assert(s[j] == x);
                    } else {
                        assert(s[j + 1] == x);
                    }
                }
                if x == k {
                    assert(s[i as int] == k);
                }
            }
            assert(self@ =~= old_items.to_set().insert(k));
        }
    }

    /// Adds every kind of `other`.
    pub fn extend(&mut self, other: &KindSet)
        requires
            old(self).wf(),
        ensures
            final(self).wf(),
            final(self)@ == old(self)@.union(other@),
    {
        let ghost start = self@;
        let mut i: usize = 0;
        while i < other.items.len()
            invariant
                self.wf(),
                i <= other.items@.len(),
                self@ == start.union(other.items@.subrange(0, i as int).to_set()),
            decreases other.items@.len() - i,
        {
            self.insert(other.items[i]);
            proof {
                assert(other.items@.subrange(0, i + 1).to_set() =~= other.items@.subrange(
                    0,
                    i as int,
                ).to_set().insert(other.items@[i as int])) by {
                    let a = other.items@.subrange(0, i + 1);
                    let b = other.items@.subrange(0, i as int);
                    assert forall|x: ActiveContentKind| a.to_set().contains(x) implies b.to_set().insert(other.items@[i as int]).contains(x) by {
                        let j = choose|j: int| 0 <= j < a.len() && a[j] == x;
                        if j < i {
                            assert(b[j] == x);
                        }
                    }
                    assert forall|x: ActiveContentKind| b.to_set().insert(other.items@[i as int]).contains(x) implies a.to_set().contains(x) by {
                        if x == other.items@[i as int] {
                            assert(a[i as int] == x);
                        } else {
                            let j = choose|j: int| 0 <= j < b.len() && b[j] == x;
                            assert(a[j] == x);
                        }
                    }
                }
            }
            i += 1;
        }
        assert(other.items@.subrange(0, other.items@.len() as int) =~= other.items@);
        assert(self@ =~= start.union(other@));
    }

    /// The kinds in ascending order.
    pub fn to_vec(&self) -> (v: Vec<ActiveContentKind>)
        ensures
            v@ == self.seq(),
    {
        self.items.clone()
    }
}

} // verus!
