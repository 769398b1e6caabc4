//! Sets of names kept in ascending string order without repeats, as the
//! ordered sets of the package logic hold them.
use vstd::prelude::*;
use crate::text::chars_of;

verus! {

/// Lexicographic order of character sequences (the order of `String`).
pub open spec fn str_lt(a: Seq<char>, b: Seq<char>) -> bool
    decreases a.len(),
{
    if a.len() == 0 {
        b.len() > 0
    } else if b.len() == 0 {
        false
    } else if a[0] != b[0] {
        (a[0] as int) < (b[0] as int)
    } else {
        str_lt(a.drop_first(), b.drop_first())
    }
}

pub proof fn lemma_str_lt_irreflexive(a: Seq<char>)
    ensures
        !str_lt(a, a),
    decreases a.len(),
{
    if a.len() > 0 {
        lemma_str_lt_irreflexive(a.drop_first());
    }
}

pub proof fn lemma_str_lt_trans(a: Seq<char>, b: Seq<char>, c: Seq<char>)
    requires
        str_lt(a, b),
        str_lt(b, c),
    ensures
        str_lt(a, c),
    decreases a.len(),
{
    if a.len() > 0 && b.len() > 0 && c.len() > 0 && a[0] == b[0] && b[0] == c[0] {
        lemma_str_lt_trans(a.drop_first(), b.drop_first(), c.drop_first());
    }
}

pub proof fn lemma_str_lt_total(a: Seq<char>, b: Seq<char>)
    ensures
        str_lt(a, b) || str_lt(b, a) || a == b,
    decreases a.len(),
{
    if a.len() > 0 && b.len() > 0 && a[0] != b[0] {
        assert((a[0] as int) != (b[0] as int));
    }
    if a.len() > 0 && b.len() > 0 && a[0] == b[0] {
        lemma_str_lt_total(a.drop_first(), b.drop_first());
        if a.drop_first() == b.drop_first() {
            assert(a =~= seq![a[0]] + a.drop_first());
            assert(b =~= seq![b[0]] + b.drop_first());
        }
    } else if a.len() == 0 && b.len() == 0 {
        assert(a =~= b);
    }
}

pub proof fn lemma_str_lt_asym(a: Seq<char>, b: Seq<char>)
    ensures
        !(str_lt(a, b) && str_lt(b, a)),
{
    if str_lt(a, b) && str_lt(b, a) {
        lemma_str_lt_trans(a, b, a);
        lemma_str_lt_irreflexive(a);
    }
}

/// The order facts about three texts: none sorts before itself, any two
/// are equal or one sorts before the other, and sorting before is transitive.
pub proof fn lemma_str_order_facts(a: Seq<char>, b: Seq<char>, c: Seq<char>)
    ensures
        !str_lt(a, a) && !str_lt(b, b) && !str_lt(c, c),
        str_lt(a, b) || str_lt(b, a) || a == b,
        str_lt(b, c) || str_lt(c, b) || b == c,
        str_lt(a, c) || str_lt(c, a) || a == c,
        str_lt(a, b) && str_lt(b, c) ==> str_lt(a, c),
        str_lt(c, b) && str_lt(b, a) ==> str_lt(c, a),
        str_lt(b, a) && str_lt(a, c) ==> str_lt(b, c),
        str_lt(c, a) && str_lt(a, b) ==> str_lt(c, b),
        str_lt(a, c) && str_lt(c, b) ==> str_lt(a, b),
        str_lt(b, c) && str_lt(c, a) ==> str_lt(b, a),
{
    lemma_str_lt_irreflexive(a);
    lemma_str_lt_irreflexive(b);
    lemma_str_lt_irreflexive(c);
    lemma_str_lt_total(a, b);
    lemma_str_lt_total(b, c);
    lemma_str_lt_total(a, c);
    if str_lt(a, b) && str_lt(b, c) {
        lemma_str_lt_trans(a, b, c);
    }
    if str_lt(c, b) && str_lt(b, a) {
        lemma_str_lt_trans(c, b, a);
    }
    if str_lt(b, a) && str_lt(a, c) {
        lemma_str_lt_trans(b, a, c);
    }
    if str_lt(c, a) && str_lt(a, b) {
        lemma_str_lt_trans(c, a, b);
    }
    if str_lt(a, c) && str_lt(c, b) {
        lemma_str_lt_trans(a, c, b);
    }
    if str_lt(b, c) && str_lt(c, a) {
        lemma_str_lt_trans(b, c, a);
    }
}

/// Whether `a` sorts before `b`.
pub fn chars_lt(a: &[char], b: &[char]) -> (r: bool)
    ensures
        r == str_lt(a@, b@),
{
    let mut i: usize = 0;
    assert(a@.skip(0) =~= a@);
    assert(b@.skip(0) =~= b@);
    while i < a.len() && i < b.len() && a[i] == b[i]
        invariant
            i <= a@.len(),
            i <= b@.len(),
            str_lt(a@, b@) == str_lt(a@.skip(i as int), b@.skip(i as int)),
        decreases a@.len() - i,
    {
        assert(a@.skip(i as int).drop_first() =~= a@.skip(i + 1));
        assert(b@.skip(i as int).drop_first() =~= b@.skip(i + 1));
        i += 1;
    }
    if i == a.len() {
        i < b.len()
    } else if i == b.len() {
        false
    } else {
        a[i] < b[i]
    }
}

fn name_before(s: &String, key: &Vec<char>) -> (r: bool)
    ensures
        r == str_lt(s@, key@),
{
    let cur = chars_of(s.as_str());
    chars_lt(&cur, key)
}

/// A set of names, held in ascending order without repeats.
#[derive(Debug)]
pub struct NameSet {
    items: Vec<String>,
}

impl NameSet {
    /// The names, in ascending order.
    pub closed spec fn seq(&self) -> Seq<Seq<char>> {
        crate::parts::string_views(self.items@)
    }

    /// The names are strictly ascending.
    pub open spec fn wf(&self) -> bool {
        forall|i: int, j: int| 0 <= i < j < self.seq().len() ==> str_lt(self.seq()[i], self.seq()[j])
    }

    /// The set of names held.
    pub open spec fn view(&self) -> Set<Seq<char>> {
        self.seq().to_set()
    }

    /// The empty set.
    pub fn new() -> (s: Self)
        ensures
            s.wf(),
            s@ == Set::<Seq<char>>::empty(),
    {
        let s = NameSet { items: Vec::new() };
        assert(s.seq() =~= Seq::<Seq<char>>::empty());
        assert(s@ =~= Set::<Seq<char>>::empty());
        s
    }

    /// The number of names.
    pub fn len(&self) -> (n: usize)
        ensures
            n == self.seq().len(),
    {
        self.items.len()
    }

    /// The name at position `i`.
    pub fn get(&self, i: usize) -> (r: &String)
        requires
            i < self.seq().len(),
        ensures
            r@ == self.seq()[i as int],
    {
        &self.items[i]
    }

    /// Whether `name` is held.
    pub fn contains(&self, name: &str) -> (r: bool)
        ensures
            r == self@.contains(name@),
    {
        let mut i: usize = 0;
        while i < self.items.len()
            invariant
                i <= self.items@.len(),
                forall|j: int| 0 <= j < i ==> self.seq()[j] != name@,
            decreases self.items@.len() - i,
        {
            if crate::text::str_eq(self.items[i].as_str(), name) {
                assert(self.seq()[i as int] == name@);
                return true;
            }
            i += 1;
        }
        false
    }

    /// Adds a name.
    pub fn insert(&mut self, name: String)
        requires
            old(self).wf(),
        ensures
            final(self).wf(),
            final(self)@ == old(self)@.insert(name@),
    {
        let ghost old_seq = self.seq();
        assert(forall|a: int, b: int| 0 <= a < b < old_seq.len() ==> str_lt(old_seq[a], old_seq[b]));
        let key = chars_of(name.as_str());
        let mut i: usize = 0;
        while i < self.items.len() && name_before(&self.items[i], &key)
            invariant
                i <= self.items@.len(),
                self.seq() == old_seq,
                key@ == name@,
                forall|j: int| 0 <= j < i ==> str_lt(#[trigger] old_seq[j], name@),
            decreases self.items@.len() - i,
        {
            i += 1;
        }
        if i < self.items.len() {
            assert(!str_lt(old_seq[i as int], name@));
            let cur = chars_of(self.items[i].as_str());
            if !chars_lt(&key, &cur) {
                proof {
                    lemma_str_lt_total(old_seq[i as int], name@);
                }
                assert(self@.contains(name@)) by {
                    assert(self.seq()[i as int] == name@);
                }
                assert(self@ =~= old_seq.to_set().insert(name@));
                return;
            }
        }
        proof {
            if i < old_seq.len() {
                lemma_str_lt_total(old_seq[i as int], name@);
                assert(str_lt(name@, old_seq[i as int]));
            }
        }
        self.items.insert(i, name);
        proof {
            let s = self.seq();
            assert(s =~= old_seq.insert(i as int, name@));
            assert forall|a: int, b: int| 0 <= a < b < s.len() implies str_lt(s[a], s[b]) by {
                if b < i {
                    assert(s[a] == old_seq[a]);
                    assert(s[b] == old_seq[b]);
                } else if b == i {
                    assert(s[a] == old_seq[a]);
                } else if a < i {
                    assert(s[b] == old_seq[b - 1]);
                    assert(s[a] == old_seq[a]);
                    if b - 1 > i {
                        lemma_str_lt_trans(name@, old_seq[i as int], old_seq[b - 1]);
                    }
                    lemma_str_lt_trans(old_seq[a], name@, old_seq[b - 1]);
                } else if a == i {
                    assert(s[b] == old_seq[b - 1]);
                    if b - 1 > i {
                        lemma_str_lt_trans(name@, old_seq[i as int], old_seq[b - 1]);
                    }
                } else {
                    assert(s[a] == old_seq[a - 1]);
                    assert(s[b] == old_seq[b - 1]);
                }
            }
            assert(s.to_set() =~= old_seq.to_set().insert(name@)) by {
                assert forall|x: Seq<char>| s.to_set().contains(x) <==> old_seq.to_set().insert(name@).contains(x) by {
                    if s.to_set().contains(x) {
                        let j = choose|j: int| 0 <= j < s.len() && s[j] == x;
                        if j < i {
                            assert(old_seq[j] == x);
                        } else if j > i {
                            assert(old_seq[j - 1] == x);
                        }
                    }
                    if old_seq.to_set().contains(x) {
                        let j = choose|j: int| 0 <= j < old_seq.len() && old_seq[j] == x;
                        if j < i {
                            assert(s[j] == x);
                        } else {
                            assert(s[j + 1] == x);
                        }
                    }
                    if x == name@ {
                        assert(s[i as int] == x);
                    }
                }
            }
        }
    }

    /// The names in ascending order.
    pub fn to_vec(&self) -> (v: Vec<String>)
        ensures
            crate::parts::string_views(v@) == self.seq(),
    {
        let mut v: Vec<String> = Vec::new();
        let mut i: usize = 0;
        while i < self.items.len()
            invariant
                i <= self.items@.len(),
                v@.len() == i,
                forall|j: int| 0 <= j < i ==> #[trigger] v@[j]@ == self.items@[j]@,
            decreases self.items@.len() - i,
        {
            v.push(self.items[i].clone());
            i += 1;
        }
        assert(crate::parts::string_views(v@) =~= self.seq());
        v
    }
}

} // verus!
