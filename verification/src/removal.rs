//! Which package parts an active-content strip removes: the parts reachable
//! from the active-content roots through internal relationships, less every
//! part that something outside the removal still points at.
use vstd::prelude::*;
use crate::parts::opt_view;
use crate::plan::{link_view, link_views, LinkView};

verus! {

/// An internal relationship seen as an edge between parts: the owner as
/// written (absent for package-level relationships), the owner resolved to a
/// part name when the package has such a part, and the resolved target part.
pub struct PartLink {
    pub owner: Option<String>,
    pub owner_part: Option<String>,
    pub target: String,
}

/// The set of names held in a sequence of strings.
pub open spec fn names(v: Seq<String>) -> Set<Seq<char>> {
    Set::new(|n: Seq<char>| exists|i: int| 0 <= i < v.len() && v[i]@ == n)
}

/// Every link whose resolved owner is in `s` has its target in `s`.
pub open spec fn link_closed(s: Set<Seq<char>>, links: Seq<PartLink>) -> bool {
    forall|i: int|
        0 <= i < links.len() && (#[trigger] links[i]).owner_part is Some && s.contains(
            links[i].owner_part->0@,
        ) ==> s.contains(links[i].target@)
}

/// A part is shared with respect to `removed` when some link to it has no
/// owner part or an owner outside `removed`.
pub open spec fn is_shared(p: Seq<char>, removed: Set<Seq<char>>, links: Seq<PartLink>) -> bool {
    exists|i: int|
        0 <= i < links.len() && (#[trigger] links[i]).target@ == p && (links[i].owner is None
            || !removed.contains(links[i].owner->0@))
}

/// No part of `removed` other than a root is shared.
pub open spec fn holds_no_shared(
    removed: Set<Seq<char>>,
    roots: Set<Seq<char>>,
    links: Seq<PartLink>,
) -> bool {
    forall|p: Seq<char>| #[trigger] removed.contains(p) && !roots.contains(p) ==> !is_shared(p, removed, links)
}

/// The number of links whose target is outside `c`.
pub open spec fn outside_targets(c: Set<Seq<char>>, links: Seq<PartLink>) -> nat
    decreases links.len(),
{
    if links.len() == 0 {
        0
    } else {
        outside_targets(c, links.drop_last()) + if c.contains(links.last().target@) {
            0nat
        } else {
            1nat
        }
    }
}

proof fn lemma_outside_targets_mono(c1: Set<Seq<char>>, c2: Set<Seq<char>>, links: Seq<PartLink>, k: int)
    requires
        c1.subset_of(c2),
    ensures
        outside_targets(c2, links) <= outside_targets(c1, links),
        0 <= k < links.len() && !c1.contains(links[k].target@) && c2.contains(links[k].target@)
            ==> outside_targets(c2, links) < outside_targets(c1, links),
    decreases links.len(),
{
    if links.len() > 0 {
        lemma_outside_targets_mono(c1, c2, links.drop_last(), k);
        if 0 <= k < links.len() - 1 {
            assert(links.drop_last()[k] == links[k]);
        }
    }
}

/// Whether `v` holds a string equal to `s`.
pub fn contains_name(v: &Vec<String>, s: &String) -> (r: bool)
    ensures
        r == names(v@).contains(s@),
{
    let mut i: usize = 0;
    while i < v.len()
        invariant
            i <= v@.len(),
            forall|j: int| 0 <= j < i ==> v@[j]@ != s@,
        decreases v@.len() - i,
    {
        if v[i] == *s {
            assert(names(v@).contains(s@)) by {
                assert(v@[i as int]@ == s@);
            }
            return true;
        }
        i += 1;
    }
    false
}

/// Pushing a string adds its name.
pub proof fn lemma_names_push(v: Seq<String>, s: String)
    ensures
        names(v.push(s)) == names(v).insert(s@),
{
    assert forall|n: Seq<char>| names(v.push(s)).contains(n) <==> names(v).insert(s@).contains(n) by {
        if names(v.push(s)).contains(n) {
            let i = choose|i: int| 0 <= i < v.push(s).len() && v.push(s)[i]@ == n;
            if i < v.len() {
                assert(v[i]@ == n);
            }
        }
        if names(v).contains(n) {
            let i = choose|i: int| 0 <= i < v.len() && v[i]@ == n;
            assert(v.push(s)[i]@ == n);
        }
        if n == s@ {
            assert(v.push(s)[v.len() as int]@ == n);
        }
    }
    assert(names(v.push(s)) =~= names(v).insert(s@));
}

/// The parts reachable from `roots` through `links`: the least set that holds
/// every root and the target of every link whose owner part it holds.
pub fn removal_candidates(roots: &Vec<String>, links: &Vec<PartLink>) -> (c: Vec<String>)
    ensures
        names(roots@).subset_of(names(c@)),
        link_closed(names(c@), links@),
        forall|t: Set<Seq<char>>|
            names(roots@).subset_of(t) && link_closed(t, links@) ==> names(c@).subset_of(t),
{
    let mut c: Vec<String> = Vec::new();
    let mut i: usize = 0;
    while i < roots.len()
        invariant
            i <= roots@.len(),
            names(c@) == names(roots@.subrange(0, i as int)),
        decreases roots@.len() - i,
    {
        proof {
            lemma_names_push(roots@.subrange(0, i as int), roots@[i as int]);
            assert(roots@.subrange(0, i + 1) =~= roots@.subrange(0, i as int).push(roots@[i as int]));
            lemma_names_push(c@, roots@[i as int]);
        }
        c.push(roots[i].clone());
        i += 1;
    }
    assert(roots@.subrange(0, roots@.len() as int) =~= roots@);
    let mut changed = true;
    while changed
        invariant
            names(roots@).subset_of(names(c@)),
            forall|t: Set<Seq<char>>|
                names(roots@).subset_of(t) && link_closed(t, links@) ==> names(c@).subset_of(t),
            !changed ==> link_closed(names(c@), links@),
        decreases outside_targets(names(c@), links@) + if changed { 1nat } else { 0nat },
    {
        changed = false;
        let ghost start = names(c@);
        let mut j: usize = 0;
        while j < links.len()
            invariant
                j <= links@.len(),
                names(roots@).subset_of(names(c@)),
                forall|t: Set<Seq<char>>|
                    names(roots@).subset_of(t) && link_closed(t, links@) ==> names(c@).subset_of(t),
                !changed ==> forall|k: int|
                    0 <= k < j && (#[trigger] links@[k]).owner_part is Some && names(c@).contains(
                        links@[k].owner_part->0@,
                    ) ==> names(c@).contains(links@[k].target@),
                !changed ==> names(c@) == start,
                start.subset_of(names(c@)),
                changed ==> outside_targets(names(c@), links@) < outside_targets(start, links@),
            decreases links@.len() - j,
        {
            let link = &links[j];
            if let Some(owner) = &link.owner_part {
                if contains_name(&c, owner) && !contains_name(&c, &link.target) {
                    proof {
                        lemma_names_push(c@, link.target);
                        assert forall|t: Set<Seq<char>>|
                            names(roots@).subset_of(t) && link_closed(t, links@) implies names(
                                c@.push(link.target),
                            ).subset_of(t) by {
                            assert(links@[j as int] == *link);
                        }
                    }
                    let ghost before = names(c@);
                    let ghost prev = c@;
                    c.push(link.target.clone());
                    proof {
                        assert(c@ =~= prev.push(c@.last()));
                        lemma_names_push(prev, c@.last());
                        lemma_outside_targets_mono(start, names(c@), links@, j as int);
                        lemma_outside_targets_mono(before, names(c@), links@, j as int);
                    }
                    changed = true;
                }
            }
            j += 1;
        }
    }
    c
}

/// Whether `p` is shared with respect to `removed`.
pub fn part_is_shared(p: &String, removed: &Vec<String>, links: &Vec<PartLink>) -> (r: bool)
    ensures
        r == is_shared(p@, names(removed@), links@),
{
    let mut i: usize = 0;
    while i < links.len()
        invariant
            i <= links@.len(),
            forall|k: int|
                0 <= k < i && (#[trigger] links@[k]).target@ == p@ ==> !(links@[k].owner is None
                    || !names(removed@).contains(links@[k].owner->0@)),
        decreases links@.len() - i,
    {
        let link = &links[i];
        if link.target == *p {
            let outside = match &link.owner {
                None => true,
                Some(owner) => !contains_name(removed, owner),
            };
            if outside {
                assert(links@[i as int] == *link);
                return true;
            }
        }
        i += 1;
    }
    false
}

/// The removal set: the largest subset of `candidates` that holds every root
/// and in which no part other than a root is shared.
pub fn prune_shared_parts(
    roots: &Vec<String>,
    candidates: &Vec<String>,
    links: &Vec<PartLink>,
) -> (removed: Vec<String>)
    requires
        names(roots@).subset_of(names(candidates@)),
    ensures
        names(removed@).subset_of(names(candidates@)),
        names(roots@).subset_of(names(removed@)),
        holds_no_shared(names(removed@), names(roots@), links@),
        forall|s: Set<Seq<char>>|
            s.subset_of(names(candidates@)) && names(roots@).subset_of(s) && holds_no_shared(
                s,
                names(roots@),
                links@,
            ) ==> s.subset_of(names(removed@)),
{
    let mut removed: Vec<String> = copy_names(candidates);
    loop
        invariant
            names(removed@).subset_of(names(candidates@)),
            names(roots@).subset_of(names(removed@)),
            forall|s: Set<Seq<char>>|
                s.subset_of(names(candidates@)) && names(roots@).subset_of(s) && holds_no_shared(
                    s,
                    names(roots@),
                    links@,
                ) ==> s.subset_of(names(removed@)),
        decreases removed@.len(),
    {
        let mut shared: Vec<String> = Vec::new();
        let mut i: usize = 0;
        while i < removed.len()
            invariant
                i <= removed@.len(),
                forall|n: Seq<char>| #[trigger]
                    names(shared@).contains(n) ==> names(removed@).contains(n) && !names(
                        roots@,
                    ).contains(n) && is_shared(n, names(removed@), links@),
                forall|k: int|
                    0 <= k < i && !names(roots@).contains(#[trigger] removed@[k]@) && is_shared(
                        removed@[k]@,
                        names(removed@),
                        links@,
                    ) ==> names(shared@).contains(removed@[k]@),
            decreases removed@.len() - i,
        {
            let p = &removed[i];
            if !contains_name(roots, p) && part_is_shared(p, &removed, links) {
                proof {
                    lemma_names_push(shared@, *p);
                    assert(names(removed@).contains(p@)) by {
                        assert(removed@[i as int]@ == p@);
                    }
                }
                shared.push(p.clone());
            }
            i += 1;
        }
        if shared.len() == 0 {
            proof {
                assert forall|p: Seq<char>| #[trigger]
                    names(removed@).contains(p) && !names(roots@).contains(p) implies !is_shared(
                    p,
                    names(removed@),
                    links@,
                ) by {
                    let k = choose|k: int| 0 <= k < removed@.len() && removed@[k]@ == p;
                    if is_shared(p, names(removed@), links@) {
                        assert(names(shared@).contains(removed@[k]@));
                        let t = choose|t: int| 0 <= t < shared@.len() && shared@[t]@ == p;
                    }
                }
            }
            return removed;
        }
        let ghost before = names(removed@);
        let mut next: Vec<String> = Vec::new();
        let mut j: usize = 0;
        let ghost mut skipped = false;
        while j < removed.len()
            invariant
                j <= removed@.len(),
                next@.len() + (if skipped { 1int } else { 0int }) <= j,
                (exists|k: int| 0 <= k < j && names(shared@).contains(#[trigger] removed@[k]@))
                    ==> skipped,
                before == names(removed@),
                forall|n: Seq<char>| #[trigger]
                    names(next@).contains(n) <==> (exists|k: int|
                        0 <= k < j && removed@[k]@ == n) && !names(shared@).contains(n),
            decreases removed@.len() - j,
        {
            if !contains_name(&shared, &removed[j]) {
                proof {
                    lemma_names_push(next@, removed@[j as int]);
                }
                next.push(removed[j].clone());
            } else {
                proof {
                    skipped = true;
                }
            }
            proof {
                if exists|k: int| 0 <= k < j + 1 && names(shared@).contains(#[trigger] removed@[k]@) {
                    let k = choose|k: int| 0 <= k < j + 1 && names(shared@).contains(#[trigger] removed@[k]@);
                    if k < j {
                        assert(skipped);
                    }
                }
                assert forall|n: Seq<char>| #[trigger] names(next@).contains(n) <==> (exists|k: int|
                    0 <= k < j + 1 && removed@[k]@ == n) && !names(shared@).contains(n) by {
                    if (exists|k: int| 0 <= k < j + 1 && removed@[k]@ == n) && !names(
                        shared@,
                    ).contains(n) {
                        let k = choose|k: int| 0 <= k < j + 1 && removed@[k]@ == n;
                        if k < j {
                            assert(exists|k2: int| 0 <= k2 < j && removed@[k2]@ == n);
                        }
                    }
                    if names(next@).contains(n) && !(exists|k: int|
                        0 <= k < j && removed@[k]@ == n) {
                        assert(removed@[j as int]@ == n);
                    }
                }
            }
            j += 1;
        }
        proof {
            let first = shared@[0]@;
            assert(names(shared@).contains(first)) by {
                assert(shared@[0]@ == first);
            }
            assert(next@.len() < removed@.len()) by {
                let k = choose|k: int| 0 <= k < removed@.len() && removed@[k]@ == first;
                assert(names(shared@).contains(removed@[k]@));
            }
            assert forall|n: Seq<char>| #[trigger]
                names(next@).contains(n) <==> names(removed@).contains(n) && !names(shared@).contains(
                    n,
                ) by {
            }
            assert forall|s: Set<Seq<char>>|
                s.subset_of(names(candidates@)) && names(roots@).subset_of(s) && holds_no_shared(
                    s,
                    names(roots@),
                    links@,
                ) implies s.subset_of(names(next@)) by {
                assert forall|p: Seq<char>| s.contains(p) implies names(next@).contains(p) by {
                    if names(shared@).contains(p) {
                        assert(!names(roots@).contains(p));
                        assert(is_shared(p, names(removed@), links@));
                        let i = choose|i: int|
                            0 <= i < links@.len() && (#[trigger] links@[i]).target@ == p && (
                            links@[i].owner is None || !names(removed@).contains(
                                links@[i].owner->0@,
                            ));
                        assert(is_shared(p, s, links@));
                    }
                }
            }
            assert forall|r: Seq<char>| names(roots@).contains(r) implies names(next@).contains(r) by {
                if names(shared@).contains(r) {
                }
            }
        }
        removed = next;
    }
}

/// A copy of a list of names.
pub fn copy_names(v: &Vec<String>) -> (r: Vec<String>)
    ensures
        r@.len() == v@.len(),
        forall|i: int| 0 <= i < v@.len() ==> #[trigger] r@[i]@ == v@[i]@,
        names(r@) == names(v@),
{
    let mut r: Vec<String> = Vec::new();
    let mut i: usize = 0;
    while i < v.len()
        invariant
            i <= v@.len(),
            r@.len() == i,
            forall|j: int| 0 <= j < i ==> #[trigger] r@[j]@ == v@[j]@,
        decreases v@.len() - i,
    {
        r.push(v[i].clone());
        i += 1;
    }
    assert(names(r@) =~= names(v@)) by {
        assert forall|n: Seq<char>| names(r@).contains(n) <==> names(v@).contains(n) by {
            if names(r@).contains(n) {
                let j = choose|j: int| 0 <= j < r@.len() && r@[j]@ == n;
                assert(v@[j]@ == n);
            }
            if names(v@).contains(n) {
                let j = choose|j: int| 0 <= j < v@.len() && v@[j]@ == n;
                assert(r@[j]@ == n);
            }
        }
    }
    r
}

/// Every link whose owner part is in `s` has its target in `s`, over link views.
pub open spec fn closed_under(s: Set<Seq<char>>, links: Seq<LinkView>) -> bool {
    forall|i: int|
        0 <= i < links.len() && (#[trigger] links[i]).1 is Some && s.contains(links[i].1->0) ==> s.contains(
            links[i].2,
        )
}

/// Some link to `p` has no owner or an owner outside `removed`, over link views.
pub open spec fn shared_in(p: Seq<char>, removed: Set<Seq<char>>, links: Seq<LinkView>) -> bool {
    exists|i: int|
        0 <= i < links.len() && (#[trigger] links[i]).2 == p && (links[i].0 is None || !removed.contains(
            links[i].0->0,
        ))
}

/// No part of `removed` but a root is shared, over link views.
pub open spec fn none_shared_in(removed: Set<Seq<char>>, roots: Set<Seq<char>>, links: Seq<LinkView>) -> bool {
    forall|p: Seq<char>| #[trigger] removed.contains(p) && !roots.contains(p) ==> !shared_in(p, removed, links)
}

/// `c` is the least set that holds the roots and is closed under the links.
pub open spec fn is_reach_closure(c: Set<Seq<char>>, roots: Set<Seq<char>>, links: Seq<LinkView>) -> bool {
    &&& roots.subset_of(c)
    &&& closed_under(c, links)
    &&& forall|t: Set<Seq<char>>| roots.subset_of(t) && closed_under(t, links) ==> #[trigger] c.subset_of(t)
}

/// The parts reachable from the roots through the links.
pub open spec fn reach_closure(roots: Set<Seq<char>>, links: Seq<LinkView>) -> Set<Seq<char>> {
    choose|c: Set<Seq<char>>| is_reach_closure(c, roots, links)
}

/// `r` is the largest subset of `c` that holds the roots and in which no part
/// but a root is shared.
pub open spec fn is_unshared_core(
    r: Set<Seq<char>>,
    c: Set<Seq<char>>,
    roots: Set<Seq<char>>,
    links: Seq<LinkView>,
) -> bool {
    &&& r.subset_of(c)
    &&& roots.subset_of(r)
    &&& none_shared_in(r, roots, links)
    &&& forall|s: Set<Seq<char>>|
        s.subset_of(c) && roots.subset_of(s) && none_shared_in(s, roots, links) ==> #[trigger] s.subset_of(r)
}

/// The parts a strip removes for its roots: the largest part of what the
/// roots reach that holds them and that nothing outside it still points at.
pub open spec fn unshared_core(roots: Set<Seq<char>>, links: Seq<LinkView>) -> Set<Seq<char>> {
    choose|r: Set<Seq<char>>| is_unshared_core(r, reach_closure(roots, links), roots, links)
}

/// A set that is the reach closure is the one `reach_closure` names.
pub proof fn lemma_reach_closure_is(c: Set<Seq<char>>, roots: Set<Seq<char>>, links: Seq<LinkView>)
    requires
        is_reach_closure(c, roots, links),
    ensures
        reach_closure(roots, links) == c,
{
    let d = reach_closure(roots, links);
    assert(is_reach_closure(d, roots, links));
    assert(c.subset_of(d));
    assert(d.subset_of(c));
    assert(d =~= c);
}

/// A set that is the unshared core of the reach closure is the one
/// `unshared_core` names.
pub proof fn lemma_unshared_core_is(r: Set<Seq<char>>, roots: Set<Seq<char>>, links: Seq<LinkView>)
    requires
        is_unshared_core(r, reach_closure(roots, links), roots, links),
    ensures
        unshared_core(roots, links) == r,
{
    let d = unshared_core(roots, links);
    let c = reach_closure(roots, links);
    assert(is_unshared_core(d, c, roots, links));
    assert(r.subset_of(d));
    assert(d.subset_of(r));
    assert(d =~= r);
}

/// A part that the roots reach but the removal keeps is no root, and some
/// link to it has no owner or an owner that the removal keeps: a reached
/// part is kept only because something outside still points at it.
pub proof fn lemma_kept_reached_part_is_shared(
    r: Set<Seq<char>>,
    c: Set<Seq<char>>,
    roots: Set<Seq<char>>,
    links: Seq<LinkView>,
    u: Seq<char>,
)
    requires
        is_unshared_core(r, c, roots, links),
        c.contains(u),
        !r.contains(u),
    ensures
        !roots.contains(u),
        shared_in(u, r, links),
{
    if !shared_in(u, r, links) {
        let s = r.insert(u);
        assert forall|p: Seq<char>| #[trigger] s.contains(p) && !roots.contains(p) implies !shared_in(p, s, links) by {
            if shared_in(p, s, links) {
                let i = choose|i: int|
                    0 <= i < links.len() && (#[trigger] links[i]).2 == p && (links[i].0 is None || !s.contains(
                        links[i].0->0,
                    ));
                assert(links[i].0 is None || !r.contains(links[i].0->0));
                assert(shared_in(p, r, links));
                if p != u {
                    assert(r.contains(p));
                }
            }
        }
        assert(s.subset_of(c));
        assert(roots.subset_of(s));
        assert(none_shared_in(s, roots, links));
        assert(s.subset_of(r));
        assert(r.contains(u));
    }
}

/// The link predicates over links and over their views agree.
pub proof fn lemma_link_views_agree(links: Seq<PartLink>)
    ensures
        forall|s: Set<Seq<char>>| #[trigger] link_closed(s, links) <==> closed_under(s, link_views(links)),
        forall|p: Seq<char>, s: Set<Seq<char>>| #[trigger] is_shared(p, s, links) <==> shared_in(p, s, link_views(links)),
        forall|s: Set<Seq<char>>, roots: Set<Seq<char>>|
            #[trigger] holds_no_shared(s, roots, links) <==> none_shared_in(s, roots, link_views(links)),
{
    let lv = link_views(links);
    assert forall|i: int| 0 <= i < links.len() implies #[trigger] lv[i] == link_view(links[i]) by {}
    assert forall|s: Set<Seq<char>>| #[trigger] link_closed(s, links) <==> closed_under(s, lv) by {
        if link_closed(s, links) {
            assert forall|i: int| 0 <= i < lv.len() && (#[trigger] lv[i]).1 is Some && s.contains(lv[i].1->0) implies s.contains(lv[i].2) by {
                assert(lv[i] == link_view(links[i]));
                assert(links[i].owner_part is Some && s.contains(links[i].owner_part->0@));
            }
        }
        if closed_under(s, lv) {
            assert forall|i: int| 0 <= i < links.len() && (#[trigger] links[i]).owner_part is Some && s.contains(links[i].owner_part->0@) implies s.contains(links[i].target@) by {
                assert(lv[i] == link_view(links[i]));
            }
        }
    }
    assert forall|p: Seq<char>, s: Set<Seq<char>>| #[trigger] is_shared(p, s, links) <==> shared_in(p, s, lv) by {
        if is_shared(p, s, links) {
            let i = choose|i: int| 0 <= i < links.len() && (#[trigger] links[i]).target@ == p && (links[i].owner is None || !s.contains(links[i].owner->0@));
            assert(lv[i] == link_view(links[i]));
        }
        if shared_in(p, s, lv) {
            let i = choose|i: int| 0 <= i < lv.len() && (#[trigger] lv[i]).2 == p && (lv[i].0 is None || !s.contains(lv[i].0->0));
            assert(lv[i] == link_view(links[i]));
        }
    }
    assert forall|s: Set<Seq<char>>, roots: Set<Seq<char>>| #[trigger] holds_no_shared(s, roots, links) <==> none_shared_in(s, roots, lv) by {
        if holds_no_shared(s, roots, links) {
            assert forall|p: Seq<char>| #[trigger] s.contains(p) && !roots.contains(p) implies !shared_in(p, s, lv) by {
                assert(is_shared(p, s, links) <==> shared_in(p, s, lv));
            }
        }
        if none_shared_in(s, roots, lv) {
            assert forall|p: Seq<char>| #[trigger] s.contains(p) && !roots.contains(p) implies !is_shared(p, s, links) by {
                assert(is_shared(p, s, links) <==> shared_in(p, s, lv));
            }
        }
    }
}

} // verus!
