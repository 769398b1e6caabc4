//! A package as a list of parts, looked up by part identity: the part name
//! without its leading `/`, compared without regard to ASCII case.
use vstd::prelude::*;
use crate::errors::{OmError, OmErrorCode};
use crate::parts::OpcPart;
use crate::text::{chars_of, lower, lower_vec, sub_vec};

verus! {

/// Whether a name (leading `/` removed) has an empty segment or is empty.
pub open spec fn has_empty_segment(n: Seq<char>) -> bool {
    n.len() == 0 || n[0] == '/' || n.last() == '/' || exists|i: int|
        0 <= i < n.len() - 1 && #[trigger] n[i] == '/' && n[i + 1] == '/'
}

/// The identity of a part name: without one leading `/`, ASCII lower-cased;
/// none when a segment is empty.
pub open spec fn part_identity(name: Seq<char>) -> Option<Seq<char>> {
    let n = if name.len() > 0 && name[0] == '/' { name.drop_first() } else { name };
    if has_empty_segment(n) {
        None
    } else {
        Some(lower(n))
    }
}

/// The identity of a part name, or an invalid-state error for a name with an empty segment.
pub fn canonical_part_identity(name: &str) -> (r: Result<Vec<char>, OmError>)
    ensures
        match r {
            Ok(id) => part_identity(name@) == Some(id@),
            Err(e) => part_identity(name@) is None && e.code == OmErrorCode::InvalidState,
        },
{
    let v = chars_of(name);
    let n = if v.len() > 0 && v[0] == '/' { sub_vec(&v, 1, v.len()) } else { sub_vec(&v, 0, v.len()) };
    assert(n@ == (if v@.len() > 0 && v@[0] == '/' { v@.drop_first() } else { v@ }));
    if n.len() == 0 || n[0] == '/' || n[n.len() - 1] == '/' {
        return Err(OmError { code: OmErrorCode::InvalidState, message: String::from_str("part name has an empty segment") });
    }
    let mut i: usize = 0;
    let ghost stripped = if name@.len() > 0 && name@[0] == '/' { name@.drop_first() } else { name@ };
    while i < n.len() - 1
        invariant
            n@ == stripped,
            stripped == (if name@.len() > 0 && name@[0] == '/' { name@.drop_first() } else { name@ }),
            n@.len() > 0,
            i < n@.len(),
            forall|j: int| 0 <= j < i ==> !(#[trigger] n@[j] == '/' && n@[j + 1] == '/'),
        decreases n@.len() - i,
    {
        if n[i] == '/' && n[i + 1] == '/' {
            assert(has_empty_segment(n@)) by {
                assert(n@[i as int] == '/' && n@[i + 1] == '/');
            }
            return Err(OmError { code: OmErrorCode::InvalidState, message: String::from_str("part name has an empty segment") });
        }
        i += 1;
    }
    assert(!has_empty_segment(n@));
    Ok(lower_vec(&n))
}

/// A package: its parts in order.
pub struct OpcPackage {
    pub parts: Vec<OpcPart>,
}

/// The position of the first part whose identity is `id`, or the number of parts.
pub open spec fn first_with_identity(parts: Seq<OpcPart>, id: Seq<char>, from: int) -> int
    decreases parts.len() - from,
{
    if from >= parts.len() || from < 0 {
        parts.len() as int
    } else if part_identity(parts[from].name@) == Some(id) {
        from
    } else {
        first_with_identity(parts, id, from + 1)
    }
}

impl OpcPackage {
    /// The index of the part that `name` designates, if any.
    pub open spec fn find(&self, name: Seq<char>) -> Option<int> {
        match part_identity(name) {
            None => None,
            Some(id) => {
                let i = first_with_identity(self.parts@, id, 0);
                if i < self.parts@.len() {
                    Some(i)
                } else {
                    None
                }
            },
        }
    }

    /// The index of the part that `name` designates, if any.
    pub fn part_index(&self, name: &str) -> (r: Option<usize>)
        ensures
            match r {
                Some(i) => self.find(name@) == Some(i as int) && i < self.parts@.len(),
                None => self.find(name@) is None,
            },
    {
        let id = match canonical_part_identity(name) {
            Ok(id) => id,
            Err(_) => return None,
        };
        let mut i: usize = 0;
        while i < self.parts.len()
            invariant
                i <= self.parts@.len(),
                first_with_identity(self.parts@, id@, 0) == first_with_identity(self.parts@, id@, i as int),
                part_identity(name@) == Some(id@),
            decreases self.parts@.len() - i,
        {
            let candidate = match canonical_part_identity(self.parts[i].name.as_str()) {
                Ok(c) => Some(c),
                Err(_) => None,
            };
            let same = match &candidate {
                Some(c) => chars_equal(c, &id),
                None => false,
            };
            if same {
                return Some(i);
            }
            i += 1;
        }
        None
    }

    /// The part that `name` designates, if any.
    pub fn part(&self, name: &str) -> (r: Option<&OpcPart>)
        ensures
            match r {
                Some(p) => self.find(name@) matches Some(i) && *p == self.parts@[i],
                None => self.find(name@) is None,
            },
    {
        match self.part_index(name) {
            Some(i) => Some(&self.parts[i]),
            None => None,
        }
    }

    /// Replaces the bytes of the part that `name` designates.
    pub fn replace_part_bytes(&mut self, name: &str, bytes: Vec<u8>) -> (r: Result<(), OmError>)
        ensures
            match old(self).find(name@) {
                Some(i) => r is Ok && final(self).parts@.len() == old(self).parts@.len()
                    && final(self).parts@[i].bytes@ == bytes@
                    && final(self).parts@[i].name == old(self).parts@[i].name
                    && final(self).parts@[i].content_type == old(self).parts@[i].content_type
                    && forall|j: int| 0 <= j < old(self).parts@.len() && j != i ==> #[trigger] final(self).parts@[j] == old(self).parts@[j],
                None => r is Err && *final(self) == *old(self),
            },
    {
        match self.part_index(name) {
            Some(i) => {
                let mut part = self.parts.remove(i);
                part.bytes = bytes;
                self.parts.insert(i, part);
                Ok(())
            },
            None => {
                let mut message = String::from_str("package has no part ");
                message.append(name);
                Err(OmError { code: OmErrorCode::InvalidState, message })
            },
        }
    }

    /// Removes the part that `name` designates, if any.
    pub fn remove_part(&mut self, name: &str) -> (r: Option<OpcPart>)
        ensures
            match old(self).find(name@) {
                Some(i) => r == Some(old(self).parts@[i]) && final(self).parts@ == old(self).parts@.remove(i),
                None => r is None && *final(self) == *old(self),
            },
    {
        match self.part_index(name) {
            Some(i) => Some(self.parts.remove(i)),
            None => None,
        }
    }

    /// Whether the package has a part that `name` designates.
    pub fn contains(&self, name: &str) -> (r: bool)
        ensures
            r == self.find(name@) is Some,
    {
        self.part_index(name).is_some()
    }
}

fn chars_equal(a: &[char], b: &[char]) -> (r: bool)
    ensures
        r == (a@ == b@),
{
    if a.len() != b.len() {
        return false;
    }
    let mut i: usize = 0;
    while i < a.len()
        invariant
            a@.len() == b@.len(),
            i <= a@.len(),
            forall|j: int| 0 <= j < i ==> a@[j] == b@[j],
        decreases a@.len() - i,
    {
        if a[i] != b[i] {
            return false;
        }
        i += 1;
    }
    assert(a@ =~= b@);
    true
}

/// Every part name has an identity and no two parts share one.
pub open spec fn valid_parts(parts: Seq<OpcPart>) -> bool {
    &&& forall|i: int| 0 <= i < parts.len() ==> (#[trigger] part_identity(parts[i].name@)) is Some
    &&& forall|i: int, j: int|
        0 <= i < j < parts.len() ==> part_identity(parts[i].name@) != part_identity(
            parts[j].name@,
        )
}

impl OpcPackage {
    /// A package of the given parts, when every name has an identity and no
    /// two parts share one.
    pub fn try_new(parts: Vec<OpcPart>) -> (r: Result<OpcPackage, OmError>)
        ensures
            r is Ok <==> valid_parts(parts@),
            r matches Ok(p) ==> p.parts@ == parts@,
            r matches Err(e) ==> e.code == OmErrorCode::InvalidState,
    {
        let mut ids: Vec<Vec<char>> = Vec::new();
        let mut i: usize = 0;
        while i < parts.len()
            invariant
                i <= parts@.len(),
                ids@.len() == i,
                forall|j: int| 0 <= j < i ==> part_identity(parts@[j].name@) == Some(#[trigger] ids@[j]@),
                forall|a: int, b: int| 0 <= a < b < i ==> ids@[a]@ != ids@[b]@,
            decreases parts@.len() - i,
        {
            let id = match canonical_part_identity(parts[i].name.as_str()) {
                Ok(id) => id,
                Err(e) => {
                    assert(!valid_parts(parts@)) by {
                        assert(part_identity(parts@[i as int].name@) is None);
                    }
                    return Err(e);
                },
            };
            let mut k: usize = 0;
            while k < ids.len()
                invariant
                    i < parts@.len(),
                    ids@.len() == i,
                    k <= ids@.len(),
                    part_identity(parts@[i as int].name@) == Some(id@),
                    forall|j: int| 0 <= j < i ==> part_identity(parts@[j].name@) == Some(#[trigger] ids@[j]@),
                    forall|j: int| 0 <= j < k ==> ids@[j]@ != id@,
                decreases ids@.len() - k,
            {
                if chars_equal(&ids[k], &id) {
                    assert(!valid_parts(parts@)) by {
                        assert(part_identity(parts@[k as int].name@) == Some(ids@[k as int]@));
                        assert(part_identity(parts@[k as int].name@) == part_identity(parts@[i as int].name@));
                    }
                    return Err(OmError {
                        code: OmErrorCode::InvalidState,
                        message: String::from_str("package parts share a part identity"),
                    });
                }
                k += 1;
            }
            ids.push(id);
            i += 1;
        }
        assert(valid_parts(parts@)) by {
            assert forall|a: int| 0 <= a < parts@.len() implies (#[trigger] part_identity(parts@[a].name@)) is Some by {
                assert(part_identity(parts@[a].name@) == Some(ids@[a]@));
            }
            assert forall|a: int, b: int| 0 <= a < b < parts@.len() implies part_identity(parts@[a].name@) != part_identity(parts@[b].name@) by {
                assert(part_identity(parts@[a].name@) == Some(ids@[a]@));
                assert(part_identity(parts@[b].name@) == Some(ids@[b]@));
            }
        }
        Ok(OpcPackage { parts })
    }
}

/// `first_with_identity` is the first position from `from` on whose part has
/// identity `id`, or the number of parts.
pub proof fn lemma_first_with_identity(parts: Seq<OpcPart>, id: Seq<char>, from: int)
    requires
        0 <= from <= parts.len(),
    ensures
        from <= first_with_identity(parts, id, from) <= parts.len(),
        first_with_identity(parts, id, from) < parts.len() ==> part_identity(
            parts[first_with_identity(parts, id, from)].name@,
        ) == Some(id),
        forall|j: int|
            from <= j < first_with_identity(parts, id, from) ==> part_identity(#[trigger] parts[j].name@)
                != Some(id),
    decreases parts.len() - from,
{
    if from < parts.len() && part_identity(parts[from].name@) != Some(id) {
        lemma_first_with_identity(parts, id, from + 1);
    }
}

/// Whether some part has identity `id`.
pub open spec fn has_identity(parts: Seq<OpcPart>, id: Seq<char>) -> bool {
    exists|j: int| 0 <= j < parts.len() && part_identity(#[trigger] parts[j].name@) == Some(id)
}

/// A name designates a part exactly when its identity is that of some part.
pub proof fn lemma_find_is_some(package: OpcPackage, name: Seq<char>)
    ensures
        package.find(name) is Some <==> (part_identity(name) matches Some(id) && has_identity(package.parts@, id)),
        package.find(name) matches Some(i) ==> 0 <= i < package.parts@.len() && part_identity(
            package.parts@[i].name@,
        ) == part_identity(name),
{
    if let Some(id) = part_identity(name) {
        lemma_first_with_identity(package.parts@, id, 0);
        let f = first_with_identity(package.parts@, id, 0);
        if has_identity(package.parts@, id) {
            let j = choose|j: int| 0 <= j < package.parts@.len() && part_identity(#[trigger] package.parts@[j].name@) == Some(id);
            assert(f <= j);
        }
    }
}

/// Packages whose parts have the same names in the same order find the same parts.
pub proof fn lemma_find_same_names(a: OpcPackage, b: OpcPackage, name: Seq<char>)
    requires
        a.parts@.len() == b.parts@.len(),
        forall|i: int| 0 <= i < a.parts@.len() ==> (#[trigger] a.parts@[i]).name@ == b.parts@[i].name@,
    ensures
        a.find(name) == b.find(name),
{
    if let Some(id) = part_identity(name) {
        lemma_first_with_identity(a.parts@, id, 0);
        lemma_first_with_identity(b.parts@, id, 0);
        let fa = first_with_identity(a.parts@, id, 0);
        let fb = first_with_identity(b.parts@, id, 0);
        if fa < fb {
            assert(a.parts@[fa].name@ == b.parts@[fa].name@);
        }
        if fb < fa {
            assert(a.parts@[fb].name@ == b.parts@[fb].name@);
        }
    }
}

/// Every part of `cur` has the name and content type of some part of `orig`.
pub open spec fn parts_drawn_from(cur: Seq<OpcPart>, orig: Seq<OpcPart>) -> bool {
    forall|i: int|
        0 <= i < cur.len() ==> exists|j: int|
            0 <= j < orig.len() && (#[trigger] cur[i]).name == orig[j].name && cur[i].content_type
                == orig[j].content_type
}

/// Removing a part keeps the names valid; a name that designated no part, or
/// designated the removed part, then designates none.
pub proof fn lemma_remove_part(before: OpcPackage, after: OpcPackage, i: int, orig: Seq<OpcPart>)
    requires
        valid_parts(before.parts@),
        0 <= i < before.parts@.len(),
        after.parts@ == before.parts@.remove(i),
        parts_drawn_from(before.parts@, orig),
    ensures
        valid_parts(after.parts@),
        parts_drawn_from(after.parts@, orig),
        forall|name: Seq<char>| #[trigger] before.find(name) is None ==> after.find(name) is None,
        forall|name: Seq<char>| #[trigger] before.find(name) == Some(i) ==> after.find(name) is None,
{
    let s = before.parts@;
    let t = after.parts@;
    assert forall|k: int| 0 <= k < t.len() implies #[trigger] t[k] == s[if k < i { k } else { k + 1 }] by {}
    assert forall|a: int, b: int| 0 <= a < b < t.len() implies part_identity(t[a].name@) != part_identity(t[b].name@) by {
        let a2 = if a < i { a } else { a + 1 };
        let b2 = if b < i { b } else { b + 1 };
        assert(t[a] == s[a2]);
        assert(t[b] == s[b2]);
    }
    assert forall|k: int| 0 <= k < t.len() implies (#[trigger] part_identity(t[k].name@)) is Some by {
        let k2 = if k < i { k } else { k + 1 };
        assert(t[k] == s[k2]);
    }
    assert forall|k: int| 0 <= k < t.len() implies exists|j: int|
        0 <= j < orig.len() && (#[trigger] t[k]).name == orig[j].name && t[k].content_type == orig[j].content_type by {
        let k2 = if k < i { k } else { k + 1 };
        assert(t[k] == s[k2]);
    }
    assert forall|name: Seq<char>| #[trigger] before.find(name) is None implies after.find(name) is None by {
        lemma_find_is_some(before, name);
        lemma_find_is_some(after, name);
        if let Some(id) = part_identity(name) {
            if has_identity(t, id) {
                let k = choose|k: int| 0 <= k < t.len() && part_identity(#[trigger] t[k].name@) == Some(id);
                let k2 = if k < i { k } else { k + 1 };
                assert(t[k] == s[k2]);
                assert(has_identity(s, id));
            }
        }
    }
    assert forall|name: Seq<char>| #[trigger] before.find(name) == Some(i) implies after.find(name) is None by {
        lemma_find_is_some(before, name);
        lemma_find_is_some(after, name);
        let id = part_identity(name)->0;
        if has_identity(t, id) {
            let k = choose|k: int| 0 <= k < t.len() && part_identity(#[trigger] t[k].name@) == Some(id);
            let k2 = if k < i { k } else { k + 1 };
            assert(t[k] == s[k2]);
            if k2 < i {
                assert(part_identity(s[k2].name@) != part_identity(s[i].name@));
            } else {
                assert(part_identity(s[i].name@) != part_identity(s[k2].name@));
            }
        }
    }
}

/// Replacing a part's bytes keeps names, validity and what every name designates.
pub proof fn lemma_replace_part(before: OpcPackage, after: OpcPackage, i: int, orig: Seq<OpcPart>)
    requires
        0 <= i < before.parts@.len(),
        after.parts@.len() == before.parts@.len(),
        after.parts@[i].name == before.parts@[i].name,
        after.parts@[i].content_type == before.parts@[i].content_type,
        forall|j: int| 0 <= j < before.parts@.len() && j != i ==> #[trigger] after.parts@[j] == before.parts@[j],
        parts_drawn_from(before.parts@, orig),
        valid_parts(before.parts@),
    ensures
        valid_parts(after.parts@),
        parts_drawn_from(after.parts@, orig),
        forall|name: Seq<char>| #[trigger] after.find(name) == before.find(name),
{
    assert forall|k: int| 0 <= k < after.parts@.len() implies (#[trigger] after.parts@[k]).name == before.parts@[k].name
        && after.parts@[k].content_type == before.parts@[k].content_type by {
        if k != i {
            assert(after.parts@[k] == before.parts@[k]);
        }
    }
    assert forall|name: Seq<char>| #[trigger] after.find(name) == before.find(name) by {
        lemma_find_same_names(after, before, name);
    }
    assert forall|k: int| 0 <= k < after.parts@.len() implies exists|j: int|
        0 <= j < orig.len() && (#[trigger] after.parts@[k]).name == orig[j].name && after.parts@[k].content_type == orig[j].content_type by {
        assert(before.parts@[k].name == after.parts@[k].name);
    }
}

/// After removing the part that `removed` designates, a name designates a
/// part exactly when it did before and has another identity.
pub proof fn lemma_remove_part_find(before: OpcPackage, after: OpcPackage, removed: Seq<char>)
    requires
        valid_parts(before.parts@),
        before.find(removed) is Some,
        after.parts@ == before.parts@.remove(before.find(removed)->0),
    ensures
        forall|name: Seq<char>|
            #[trigger] after.find(name) is Some <==> (before.find(name) is Some && part_identity(name) != part_identity(
                removed,
            )),
{
    let i = before.find(removed)->0;
    lemma_find_is_some(before, removed);
    let s = before.parts@;
    let t = after.parts@;
    assert forall|k: int| 0 <= k < t.len() implies #[trigger] t[k] == s[if k < i { k } else { k + 1 }] by {}
    assert forall|name: Seq<char>|
        #[trigger] after.find(name) is Some <==> (before.find(name) is Some && part_identity(name) != part_identity(removed)) by {
        lemma_find_is_some(before, name);
        lemma_find_is_some(after, name);
        if let Some(id) = part_identity(name) {
            if has_identity(t, id) {
                let k = choose|k: int| 0 <= k < t.len() && part_identity(#[trigger] t[k].name@) == Some(id);
                let k2 = if k < i { k } else { k + 1 };
                assert(t[k] == s[k2]);
                assert(has_identity(s, id));
                if k2 < i {
                    assert(part_identity(s[k2].name@) != part_identity(s[i].name@));
                } else {
                    assert(part_identity(s[i].name@) != part_identity(s[k2].name@));
                }
            }
            if has_identity(s, id) && Some(id) != part_identity(removed) {
                let k = choose|k: int| 0 <= k < s.len() && part_identity(#[trigger] s[k].name@) == Some(id);
                assert(k != i);
                let k2 = if k < i { k } else { k - 1 };
                assert(t[k2] == s[k]);
                assert(has_identity(t, id));
            }
        }
    }
}

} // verus!
