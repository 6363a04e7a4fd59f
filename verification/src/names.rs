//! The order of texts, and sets of names kept in that order.

use crate::text::{chars_of, str_eq, str_join, views};
use vstd::prelude::*;

verus! {

/// The order of texts: by the first character in which they differ, a prefix first.
pub open spec fn text_lt(a: Seq<char>, b: Seq<char>) -> bool
    decreases a.len(),
{
    if b.len() == 0 {
        false
    } else if a.len() == 0 {
        true
    } else if a[0] != b[0] {
        a[0] < b[0]
    } else {
        text_lt(a.drop_first(), b.drop_first())
    }
}

/// No text comes before itself.
pub proof fn lemma_text_lt_irreflexive(a: Seq<char>)
    ensures
        !text_lt(a, a),
    decreases a.len(),
{
    if a.len() > 0 {
        lemma_text_lt_irreflexive(a.drop_first());
    }
}

/// The order of texts is transitive.
pub proof fn lemma_text_lt_transitive(a: Seq<char>, b: Seq<char>, c: Seq<char>)
    requires
        text_lt(a, b),
        text_lt(b, c),
    ensures
        text_lt(a, c),
    decreases a.len(),
{
    if a.len() > 0 && a[0] == b[0] && b[0] == c[0] {
        lemma_text_lt_transitive(a.drop_first(), b.drop_first(), c.drop_first());
    }
}

/// Of two texts that differ, one comes before the other.
pub proof fn lemma_text_lt_total(a: Seq<char>, b: Seq<char>)
    ensures
        text_lt(a, b) || text_lt(b, a) || a == b,
    decreases a.len(),
{
    if a.len() == 0 || b.len() == 0 {
        if a.len() == b.len() {
            assert(a =~= b);
        }
    } else if a[0] == b[0] {
        lemma_text_lt_total(a.drop_first(), b.drop_first());
        if a.drop_first() == b.drop_first() {
            assert(a =~= seq![a[0]] + a.drop_first());
            assert(b =~= seq![b[0]] + b.drop_first());
        }
    }
}

/// Tells whether `a` comes before `b`.
pub fn text_before(a: &str, b: &str) -> (r: bool)
    ensures
        r == text_lt(a@, b@),
{
    let xs = chars_of(a);
    let ys = chars_of(b);
    let mut i: usize = 0;
    proof {
        assert(a@.skip(0) =~= a@);
        assert(b@.skip(0) =~= b@);
    }
    while i < xs.len() && i < ys.len() && xs[i] == ys[i]
        invariant
            i <= xs@.len(),
            i <= ys@.len(),
            xs@ == a@,
            ys@ == b@,
            text_lt(a@, b@) == text_lt(a@.skip(i as int), b@.skip(i as int)),
        decreases xs.len() - i,
    {
        proof {
            assert(a@.skip(i as int).drop_first() =~= a@.skip(i + 1));
            assert(b@.skip(i as int).drop_first() =~= b@.skip(i + 1));
        }
        i = i + 1;
    }
    if i == ys.len() {
        false
    } else if i == xs.len() {
        true
    } else {
        xs[i] < ys[i]
    }
}

/// Tells whether texts stand in strictly ascending order.
pub open spec fn ascending(v: Seq<Seq<char>>) -> bool {
    forall|i: int, j: int| 0 <= i < j < v.len() ==> text_lt(#[trigger] v[i], #[trigger] v[j])
}

/// The texts of a set in ascending order.
pub open spec fn in_order(s: Set<Seq<char>>) -> Seq<Seq<char>> {
    choose|l: Seq<Seq<char>>| ascending(l) && l.to_set() == s
}

/// Two ascending listings of one set are the same.
pub proof fn lemma_listing_unique(a: Seq<Seq<char>>, b: Seq<Seq<char>>)
    requires
        ascending(a),
        ascending(b),
        a.to_set() == b.to_set(),
    ensures
        a == b,
    decreases a.len(),
{
    if a.len() == 0 {
        if b.len() > 0 {
            assert(b.to_set().contains(b[0]));
            assert(a.to_set().contains(b[0]));
        }
        assert(a =~= b);
    } else {
        assert(a.to_set().contains(a.last()));
        assert(b.to_set().contains(a.last()));
        let i = choose|i: int| 0 <= i < b.len() && b[i] == a.last();
        assert(b.to_set().contains(b.last()));
        assert(a.to_set().contains(b.last()));
        let j = choose|j: int| 0 <= j < a.len() && a[j] == b.last();
        if i < b.len() - 1 {
            assert(text_lt(b[i], b[b.len() - 1]));
            lemma_text_lt_irreflexive(a.last());
            if j < a.len() - 1 {
                assert(text_lt(a[j], a[a.len() - 1]));
                lemma_text_lt_transitive(a.last(), b.last(), a.last());
            }
        }
        assert(a.last() == b.last());
        let a2 = a.drop_last();
        let b2 = b.drop_last();
        assert(ascending(a2)) by {
            assert forall|x: int, y: int|
                0 <= x < y < a2.len() implies text_lt(#[trigger] a2[x], #[trigger] a2[y]) by {
                assert(text_lt(a[x], a[y]));
            }
        }
        assert(ascending(b2)) by {
            assert forall|x: int, y: int|
                0 <= x < y < b2.len() implies text_lt(#[trigger] b2[x], #[trigger] b2[y]) by {
                assert(text_lt(b[x], b[y]));
            }
        }
        assert forall|x: Seq<char>| #[trigger] a2.to_set().contains(x) <==> b2.to_set().contains(x) by {
            lemma_text_lt_irreflexive(a.last());
            if a2.to_set().contains(x) {
                let k = choose|k: int| 0 <= k < a2.len() && a2[k] == x;
                assert(text_lt(a[k], a[a.len() - 1]));
                assert(a.to_set().contains(a[k]));
                assert(b.to_set().contains(x));
                let m = choose|m: int| 0 <= m < b.len() && b[m] == x;
                assert(m != b.len() - 1);
                assert(b2[m] == x);
            }
            if b2.to_set().contains(x) {
                let k = choose|k: int| 0 <= k < b2.len() && b2[k] == x;
                assert(text_lt(b[k], b[b.len() - 1]));
                assert(b.to_set().contains(b[k]));
                assert(a.to_set().contains(x));
                let m = choose|m: int| 0 <= m < a.len() && a[m] == x;
                assert(m != a.len() - 1);
                assert(a2[m] == x);
            }
        }
        assert(a2.to_set() =~= b2.to_set());
        lemma_listing_unique(a2, b2);
        assert(a =~= a2.push(a.last()));
        assert(b =~= b2.push(b.last()));
    }
}

/// A set of names, kept in ascending order.
pub struct NameSet {
    pub items: Vec<String>,
}

impl NameSet {
    /// The names in ascending order.
    pub open spec fn listed(self) -> Seq<Seq<char>> {
        views(self.items@)
    }

    /// The names are in strictly ascending order.
    pub open spec fn wf(self) -> bool {
        ascending(self.listed())
    }

    /// The names.
    pub open spec fn names(self) -> Set<Seq<char>> {
        self.listed().to_set()
    }

    /// The listing is the one of the set in ascending order.
    pub proof fn lemma_listed(self)
        requires
            self.wf(),
        ensures
            self.listed() == in_order(self.names()),
    {
        let l = in_order(self.names());
        assert(ascending(self.listed()) && self.listed().to_set() == self.names());
        lemma_listing_unique(self.listed(), l);
    }

    /// The empty set.
    pub fn new() -> (r: Self)
        ensures
            r.wf(),
            r.listed() == Seq::<Seq<char>>::empty(),
            r.names() == Set::<Seq<char>>::empty(),
    {
        let r = NameSet { items: Vec::new() };
        proof {
            assert(r.listed() =~= Seq::<Seq<char>>::empty());
            assert(r.names() =~= Set::<Seq<char>>::empty());
        }
        r
    }

    /// A copy of the set.
    pub fn copied(&self) -> (r: Self)
        ensures
            r.items@ == self.items@,
    {
        NameSet { items: crate::text::clone_list(&self.items) }
    }

    /// Tells whether the name is in the set.
    pub fn has(&self, name: &str) -> (r: bool)
        ensures
            r == self.names().contains(name@),
    {
        let mut i: usize = 0;
        while i < self.items.len()
            invariant
                i <= self.items@.len(),
                forall|k: int| 0 <= k < i ==> self.items@[k]@ != name@,
            decreases self.items.len() - i,
        {
            if str_eq(self.items[i].as_str(), name) {
                proof {
                    assert(self.listed()[i as int] == name@);
                }
                return true;
            }
            i = i + 1;
        }
        proof {
            if self.names().contains(name@) {
                let k = choose|k: int| 0 <= k < self.listed().len() && self.listed()[k] == name@;
                assert(self.items@[k]@ == name@);
            }
        }
        false
    }

    /// Adds a name.
    pub fn add(&mut self, name: String)
        requires
            old(self).wf(),
        ensures
            final(self).wf(),
            final(self).names() == old(self).names().insert(name@),
    {
        let ghost before = self.listed();
        let ghost given = name@;
        let mut i: usize = 0;
        while i < self.items.len() && text_before(self.items[i].as_str(), name.as_str())
            invariant
                i <= self.items@.len(),
                *self == *old(self),
                given == name@,
                forall|k: int| 0 <= k < i ==> text_lt(#[trigger] self.items@[k]@, given),
            decreases self.items.len() - i,
        {
            i = i + 1;
        }
        proof {
            assert forall|k: int|
                i < k < before.len() implies text_lt(before[i as int], #[trigger] before[k]) by {}
        }
        if i < self.items.len() && str_eq(self.items[i].as_str(), name.as_str()) {
            proof {
                assert(before[i as int] == given);
                assert(before.to_set().insert(given) =~= before.to_set());
            }
            return;
        }
        proof {
            if i < before.len() {
                lemma_text_lt_total(before[i as int], given);
            }
            assert forall|k: int| i <= k < before.len() implies text_lt(given, #[trigger] before[k]) by {
                if k > i {
                    lemma_text_lt_transitive(given, before[i as int], before[k]);
                }
            }
        }
        self.items.insert(i, name);
        proof {
            let after = self.listed();
            assert(after =~= before.insert(i as int, given));
            assert forall|a: int, b: int|
                0 <= a < b < after.len() implies
                    text_lt(#[trigger] after[a], #[trigger] after[b]) by {
                let pa = if a < i { a } else { a - 1 };
                let pb = if b < i { b } else { b - 1 };
                if a != i && b != i {
                    assert(after[a] == before[pa]);
                    assert(after[b] == before[pb]);
                } else if a == i {
                    assert(after[b] == before[b - 1]);
                } else {
                    assert(after[a] == before[a]);
                    assert(self.items@[a]@ == before[a]);
                    assert(text_lt(before[a], given));
                }
            }
            assert forall|x: Seq<char>|
                #[trigger] after.to_set().contains(x) <==>
                    before.to_set().insert(given).contains(x) by {
                if after.to_set().contains(x) {
                    let k = choose|k: int| 0 <= k < after.len() && after[k] == x;
                    if k < i {
                        assert(before[k] == x);
                    } else if k > i {
                        assert(before[k - 1] == x);
                    }
                }
                if before.to_set().contains(x) {
                    let k = choose|k: int| 0 <= k < before.len() && before[k] == x;
                    if k < i {
                        assert(after[k] == x);
                    } else {
                        assert(after[k + 1] == x);
                    }
                }
                assert(after[i as int] == given);
            }
            assert(after.to_set() =~= before.to_set().insert(given));
        }
    }

    /// The names in ascending order, with `", "` between each two of them.
    pub fn listing(&self) -> (r: String)
        ensures
            r@ == crate::text::join(self.listed(), ", "@),
    {
        str_join(&self.items, ", ")
    }

    /// The names that are not in `other`.
    pub fn without(&self, other: &NameSet) -> (r: Vec<String>)
        ensures
            views(r@) == self.listed().filter(|x: Seq<char>| !other.names().contains(x)),
    {
        let ghost keep = |x: Seq<char>| !other.names().contains(x);
        let mut out: Vec<String> = Vec::new();
        let mut i: usize = 0;
        proof {
            assert(views(out@) =~= self.listed().take(0).filter(keep));
        }
        while i < self.items.len()
            invariant
                i <= self.items@.len(),
                keep == (|x: Seq<char>| !other.names().contains(x)),
                views(out@) == self.listed().take(i as int).filter(keep),
            decreases self.items.len() - i,
        {
            let ghost before = views(out@);
            proof {
                let p = self.listed().take(i + 1);
                assert(p.drop_last() =~= self.listed().take(i as int));
                assert(p.last() == self.items@[i as int]@);
                reveal(Seq::filter);
            }
            if !other.has(self.items[i].as_str()) {
                out.push(self.items[i].clone());
                proof {
                    assert(views(out@) =~= before.push(self.items@[i as int]@));
                }
            }
            i = i + 1;
        }
        proof {
            assert(self.listed().take(self.items@.len() as int) =~= self.listed());
        }
        out
    }
}

/// One more name in a list is one more in its set.
pub proof fn lemma_push_to_set(list: Seq<Seq<char>>, name: Seq<char>)
    ensures
        list.push(name).to_set() == list.to_set().insert(name),
{
    let next = list.push(name);
    assert forall|x: Seq<char>| next.to_set().contains(x) <==> list.to_set().insert(name).contains(
        x,
    ) by {
        if next.contains(x) {
            let k = choose|k: int| 0 <= k < next.len() && next[k] == x;
            if k < list.len() {
                assert(list[k] == x);
            }
        }
        if list.contains(x) {
            let k = choose|k: int| 0 <= k < list.len() && list[k] == x;
            assert(next[k] == x);
        }
        assert(next[list.len() as int] == name);
    }
    assert(next.to_set() =~= list.to_set().insert(name));
}

/// The names of a list as a set.
pub fn set_of_names(list: &Vec<String>) -> (r: NameSet)
    ensures
        r.wf(),
        r.names() == views(list@).to_set(),
{
    let ghost all = views(list@);
    let mut out = NameSet::new();
    let mut i: usize = 0;
    proof {
        assert(all.take(0).to_set() =~= Set::<Seq<char>>::empty());
    }
    while i < list.len()
        invariant
            i <= list@.len(),
            all == views(list@),
            out.wf(),
            out.names() == all.take(i as int).to_set(),
        decreases list.len() - i,
    {
        proof {
            assert(all[i as int] == list@[i as int]@);
            lemma_push_to_set(all.take(i as int), all[i as int]);
            assert(all.take(i + 1) =~= all.take(i as int).push(all[i as int]));
        }
        out.add(list[i].clone());
        i = i + 1;
    }
    proof {
        assert(all.take(i as int) =~= all);
    }
    out
}

/// Texts are ordered by the first character in which they differ, and a text comes before what goes on
/// from it.
pub proof fn law_texts_are_ordered_by_their_first_difference(
    p: Seq<char>,
    x: char,
    a: Seq<char>,
    y: char,
    b: Seq<char>,
)
    requires
        x != y,
    ensures
        text_lt(p + seq![x] + a, p + seq![y] + b) <==> x < y,
        text_lt(p, p + seq![x] + a),
        !text_lt(p + seq![x] + a, p),
    decreases p.len(),
{
    let s = p + seq![x] + a;
    let t = p + seq![y] + b;
    if p.len() == 0 {
        assert(s[0] == x && t[0] == y);
    } else {
        let q = p.drop_first();
        law_texts_are_ordered_by_their_first_difference(q, x, a, y, b);
        assert(s[0] == p[0] && t[0] == p[0]);
        assert(s.drop_first() =~= q + seq![x] + a);
        assert(t.drop_first() =~= q + seq![y] + b);
    }
}

} // verus!
