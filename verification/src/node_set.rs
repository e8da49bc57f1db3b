//! A set of node ids kept in ascending order of their bytes.
//!
//! The order is the one in which the set is written into a ticket, so two
//! sets with the same members are written the same way, however they were
//! filled.

use crate::identity::{spec_valid_key, NodeId};
use crate::order::{
    lemma_lex_asymmetric, lemma_lex_irreflexive, lemma_lex_total, lemma_lex_transitive, lex_lt,
};
use vstd::prelude::*;

verus! {

/// Each key comes strictly before the next.
pub open spec fn strictly_sorted(s: Seq<Seq<u8>>) -> bool {
    forall|i: int, j: int| 0 <= i < j < s.len() ==> lex_lt(#[trigger] s[i], #[trigger] s[j])
}

/// `s` with `k` put in its place; `s` itself when `k` is already there.
pub open spec fn sorted_insert(s: Seq<Seq<u8>>, k: Seq<u8>) -> Seq<Seq<u8>>
    decreases s.len(),
{
    if s.len() == 0 {
        seq![k]
    } else if k == s[0] {
        s
    } else if lex_lt(k, s[0]) {
        seq![k] + s
    } else {
        seq![s[0]] + sorted_insert(s.skip(1), k)
    }
}

/// Every key is the encoding of a valid public key.
pub open spec fn all_valid(s: Seq<Seq<u8>>) -> bool {
    forall|i: int| 0 <= i < s.len() ==> (#[trigger] s[i]).len() == 32 && spec_valid_key(s[i])
}

/// The keys of `ids`, in the same order.
pub open spec fn keys_of(ids: Seq<NodeId>) -> Seq<Seq<u8>> {
    ids.map_values(|id: NodeId| id@)
}

/// All of `keys` put into `s`, one after the other.
pub open spec fn sorted_extend(s: Seq<Seq<u8>>, keys: Seq<Seq<u8>>) -> Seq<Seq<u8>>
    decreases keys.len(),
{
    if keys.len() == 0 {
        s
    } else {
        sorted_extend(sorted_insert(s, keys[0]), keys.skip(1))
    }
}

/// Putting a key in its place keeps the order, adds the key to the members
/// and changes nothing else.
pub proof fn lemma_sorted_insert(s: Seq<Seq<u8>>, k: Seq<u8>)
    requires
        strictly_sorted(s),
    ensures
        strictly_sorted(sorted_insert(s, k)),
        sorted_insert(s, k).to_set() == s.to_set().insert(k),
        s.contains(k) ==> sorted_insert(s, k) == s,
        !s.contains(k) ==> sorted_insert(s, k).len() == s.len() + 1,
        sorted_insert(s, k).len() > 0,
        s.len() > 0 ==> sorted_insert(s, k)[0] == (if lex_lt(k, s[0]) {
            k
        } else {
            s[0]
        }),
    decreases s.len(),
{
    let r = sorted_insert(s, k);
    if s.len() == 0 {
        assert(r.to_set() =~= s.to_set().insert(k)) by {
            assert(forall|x: Seq<u8>| r.contains(x) <==> x == k) by {
                assert(r[0] == k);
            }
        }
    } else if k == s[0] {
        assert(s.contains(k));
        assert(r.to_set() =~= s.to_set().insert(k));
    } else if lex_lt(k, s[0]) {
        assert forall|i: int, j: int| 0 <= i < j < r.len() implies lex_lt(
            #[trigger] r[i],
            #[trigger] r[j],
        ) by {
            if i == 0 {
                if j > 1 {
                    lemma_lex_transitive(k, s[0], s[j - 1]);
                }
            } else {
                assert(r[i] == s[i - 1] && r[j] == s[j - 1]);
            }
        }
        assert(r.to_set() =~= s.to_set().insert(k)) by {
            assert forall|x: Seq<u8>| r.contains(x) <==> (s.contains(x) || x == k) by {
                if r.contains(x) {
                    let i = choose|i: int| 0 <= i < r.len() && r[i] == x;
                    if i > 0 {
                        assert(s[i - 1] == x);
                    }
                }
                if s.contains(x) {
                    let i = choose|i: int| 0 <= i < s.len() && s[i] == x;
                    assert(r[i + 1] == x);
                }
                if x == k {
                    assert(r[0] == x);
                }
            }
        }
        if s.contains(k) {
            let i = choose|i: int| 0 <= i < s.len() && s[i] == k;
            if i > 0 {
                lemma_lex_transitive(k, s[0], s[i]);
            }
            lemma_lex_irreflexive(k);
        }
    } else {
        let t = s.skip(1);
        assert(strictly_sorted(t)) by {
            assert forall|i: int, j: int| 0 <= i < j < t.len() implies lex_lt(
                #[trigger] t[i],
                #[trigger] t[j],
            ) by {
                assert(t[i] == s[i + 1] && t[j] == s[j + 1]);
            }
        }
        lemma_sorted_insert(t, k);
        let u = sorted_insert(t, k);
        lemma_lex_total(k, s[0]);
        assert(lex_lt(s[0], k));
        assert forall|i: int, j: int| 0 <= i < j < r.len() implies lex_lt(
            #[trigger] r[i],
            #[trigger] r[j],
        ) by {
            if i == 0 {
                // every member of `u` is `k` or a member of `t`
                assert(u.to_set().contains(u[j - 1]));
                assert(t.to_set().insert(k).contains(u[j - 1]));
                if u[j - 1] != k {
                    let m = choose|m: int| 0 <= m < t.len() && t[m] == u[j - 1];
                    assert(s[m + 1] == t[m]);
                }
            } else {
                assert(r[i] == u[i - 1] && r[j] == u[j - 1]);
            }
        }
        assert(r.to_set() =~= s.to_set().insert(k)) by {
            assert forall|x: Seq<u8>| r.contains(x) <==> (s.contains(x) || x == k) by {
                if r.contains(x) {
                    let i = choose|i: int| 0 <= i < r.len() && r[i] == x;
                    if i > 0 {
                        assert(u.to_set().contains(u[i - 1]));
                        assert(t.to_set().insert(k).contains(x));
                        if x != k {
                            let m = choose|m: int| 0 <= m < t.len() && t[m] == x;
                            assert(s[m + 1] == x);
                        }
                    } else {
                        assert(s[0] == x);
                    }
                }
                if s.contains(x) {
                    let i = choose|i: int| 0 <= i < s.len() && s[i] == x;
                    if i == 0 {
                        assert(r[0] == x);
                    } else {
                        assert(t[i - 1] == x);
                        assert(t.to_set().insert(k).contains(x));
                        assert(u.to_set().contains(x));
                        let m = choose|m: int| 0 <= m < u.len() && u[m] == x;
                        assert(r[m + 1] == x);
                    }
                }
                if x == k {
                    assert(t.to_set().insert(k).contains(x));
                    assert(u.to_set().contains(x));
                    let m = choose|m: int| 0 <= m < u.len() && u[m] == x;
                    assert(r[m + 1] == x);
                }
            }
        }
        if s.contains(k) {
            let i = choose|i: int| 0 <= i < s.len() && s[i] == k;
            assert(t[i - 1] == k);
            assert(t.contains(k));
            assert(r =~= s);
        } else {
            if t.contains(k) {
                let i = choose|i: int| 0 <= i < t.len() && t[i] == k;
                assert(s[i + 1] == k);
            }
        }
    }
}

/// A key that comes after every member is put at the end.
pub proof fn lemma_sorted_insert_last(s: Seq<Seq<u8>>, k: Seq<u8>)
    requires
        forall|i: int| 0 <= i < s.len() ==> lex_lt(#[trigger] s[i], k),
    ensures
        sorted_insert(s, k) == s.push(k),
    decreases s.len(),
{
    if s.len() == 0 {
        assert(sorted_insert(s, k) =~= s.push(k));
    } else {
        lemma_lex_asymmetric(s[0], k);
        let t = s.skip(1);
        assert forall|i: int| 0 <= i < t.len() implies lex_lt(#[trigger] t[i], k) by {
            assert(t[i] == s[i + 1]);
        }
        lemma_sorted_insert_last(t, k);
        assert(seq![s[0]] + t.push(k) =~= s.push(k));
    }
}

/// Putting keys into an ordered set keeps it ordered and adds exactly those
/// keys to its members.
pub proof fn lemma_sorted_extend(s: Seq<Seq<u8>>, keys: Seq<Seq<u8>>)
    requires
        strictly_sorted(s),
    ensures
        strictly_sorted(sorted_extend(s, keys)),
        sorted_extend(s, keys).to_set() == s.to_set().union(keys.to_set()),
    decreases keys.len(),
{
    if keys.len() == 0 {
        assert(keys.to_set() =~= Set::empty());
        assert(s.to_set().union(keys.to_set()) =~= s.to_set());
    } else {
        lemma_sorted_insert(s, keys[0]);
        lemma_sorted_extend(sorted_insert(s, keys[0]), keys.skip(1));
        let t = keys.skip(1);
        assert(s.to_set().insert(keys[0]).union(t.to_set()) =~= s.to_set().union(keys.to_set()))
            by {
            assert forall|x: Seq<u8>| keys.contains(x) <==> (x == keys[0] || t.contains(x)) by {
                if keys.contains(x) {
                    let i = choose|i: int| 0 <= i < keys.len() && keys[i] == x;
                    if i > 0 {
                        assert(t[i - 1] == x);
                    }
                }
                if t.contains(x) {
                    let i = choose|i: int| 0 <= i < t.len() && t[i] == x;
                    assert(keys[i + 1] == x);
                }
                if x == keys[0] {
                    assert(keys[0] == x);
                }
            }
        }
    }
}

/// An ordered sequence is determined by its members: two ordered sequences
/// with the same members are the same sequence.
pub proof fn lemma_sorted_unique(a: Seq<Seq<u8>>, b: Seq<Seq<u8>>)
    requires
        strictly_sorted(a),
        strictly_sorted(b),
        a.to_set() == b.to_set(),
    ensures
        a == b,
    decreases a.len(),
{
    if a.len() == 0 {
        if b.len() > 0 {
            assert(b.to_set().contains(b[0]));
            assert(a.contains(b[0]));
        }
        assert(a =~= b);
    } else {
        assert(a.to_set().contains(a[0]));
        assert(b.contains(a[0]));
        let j = choose|j: int| 0 <= j < b.len() && b[j] == a[0];
        assert(b.to_set().contains(b[0]));
        assert(a.contains(b[0]));
        let i = choose|i: int| 0 <= i < a.len() && a[i] == b[0];
        if j > 0 {
            // b[0] < b[j] == a[0] <= a[i] == b[0]
            if i > 0 {
                lemma_lex_transitive(b[0], a[0], a[i]);
            }
            lemma_lex_irreflexive(b[0]);
            assert(false);
        }
        let ta = a.skip(1);
        let tb = b.skip(1);
        assert(strictly_sorted(ta)) by {
            assert forall|p: int, q: int| 0 <= p < q < ta.len() implies lex_lt(
                #[trigger] ta[p],
                #[trigger] ta[q],
            ) by {
                assert(ta[p] == a[p + 1] && ta[q] == a[q + 1]);
            }
        }
        assert(strictly_sorted(tb)) by {
            assert forall|p: int, q: int| 0 <= p < q < tb.len() implies lex_lt(
                #[trigger] tb[p],
                #[trigger] tb[q],
            ) by {
                assert(tb[p] == b[p + 1] && tb[q] == b[q + 1]);
            }
        }
        assert(ta.to_set() =~= tb.to_set()) by {
            assert forall|x: Seq<u8>| ta.contains(x) <==> tb.contains(x) by {
                if ta.contains(x) {
                    let p = choose|p: int| 0 <= p < ta.len() && ta[p] == x;
                    assert(a[p + 1] == x);
                    assert(lex_lt(a[0], a[p + 1]));
                    lemma_lex_asymmetric(a[0], x);
                    assert(a.to_set().contains(x));
                    assert(b.contains(x));
                    let q = choose|q: int| 0 <= q < b.len() && b[q] == x;
                    assert(q > 0);
                    assert(tb[q - 1] == x);
                }
                if tb.contains(x) {
                    let p = choose|p: int| 0 <= p < tb.len() && tb[p] == x;
                    assert(b[p + 1] == x);
                    assert(lex_lt(b[0], b[p + 1]));
                    lemma_lex_asymmetric(b[0], x);
                    assert(b.to_set().contains(x));
                    assert(a.contains(x));
                    let q = choose|q: int| 0 <= q < a.len() && a[q] == x;
                    assert(q > 0);
                    assert(ta[q - 1] == x);
                }
            }
        }
        lemma_sorted_unique(ta, tb);
        assert(a =~= seq![a[0]] + ta);
        assert(b =~= seq![b[0]] + tb);
    }
}

/// Where a key goes: after the `i` members that come before it.
pub proof fn lemma_sorted_insert_at(s: Seq<Seq<u8>>, k: Seq<u8>, i: int)
    requires
        0 <= i <= s.len(),
        forall|j: int| 0 <= j < i ==> lex_lt(#[trigger] s[j], k),
        i < s.len() ==> !lex_lt(s[i], k),
    ensures
        sorted_insert(s, k) == (if i < s.len() && s[i] == k {
            s
        } else {
            s.insert(i, k)
        }),
    decreases i,
{
    if i == 0 {
        if s.len() == 0 {
            assert(s.insert(0, k) =~= seq![k]);
        } else if s[0] != k {
            lemma_lex_total(k, s[0]);
            assert(s.insert(0, k) =~= seq![k] + s);
        }
    } else {
        lemma_lex_asymmetric(s[0], k);
        let t = s.skip(1);
        assert forall|j: int| 0 <= j < i - 1 implies lex_lt(#[trigger] t[j], k) by {
            assert(t[j] == s[j + 1]);
        }
        lemma_sorted_insert_at(t, k, i - 1);
        if i < s.len() && s[i] == k {
            assert(seq![s[0]] + t =~= s);
        } else {
            assert(seq![s[0]] + t.insert(i - 1, k) =~= s.insert(i, k));
        }
    }
}

/// Taking a member out of an ordered sequence leaves it ordered, with the
/// other members.
pub proof fn lemma_sorted_remove(s: Seq<Seq<u8>>, i: int)
    requires
        strictly_sorted(s),
        0 <= i < s.len(),
    ensures
        strictly_sorted(s.remove(i)),
        s.remove(i).to_set() == s.to_set().remove(s[i]),
{
    let r = s.remove(i);
    assert forall|p: int, q: int| 0 <= p < q < r.len() implies lex_lt(
        #[trigger] r[p],
        #[trigger] r[q],
    ) by {
        let pp = if p < i { p } else { p + 1 };
        let qq = if q < i { q } else { q + 1 };
        assert(r[p] == s[pp] && r[q] == s[qq]);
    }
    assert(r.to_set() =~= s.to_set().remove(s[i])) by {
        assert forall|x: Seq<u8>| r.contains(x) <==> (s.contains(x) && x != s[i]) by {
            if r.contains(x) {
                let p = choose|p: int| 0 <= p < r.len() && r[p] == x;
                let pp = if p < i { p } else { p + 1 };
                assert(s[pp] == x);
                if pp < i {
                    lemma_lex_asymmetric(s[pp], s[i]);
                } else {
                    lemma_lex_asymmetric(s[i], s[pp]);
                }
            }
            if s.contains(x) && x != s[i] {
                let p = choose|p: int| 0 <= p < s.len() && s[p] == x;
                let pp = if p < i { p } else { p - 1 };
                assert(r[pp] == x);
            }
        }
    }
}

/// A copy of `ids` with `id` put in at position `i`.
fn inserted_at(ids: &Vec<NodeId>, i: usize, id: NodeId) -> (out: Vec<NodeId>)
    requires
        i <= ids@.len(),
    ensures
        out@ == ids@.insert(i as int, id),
{
    let mut out: Vec<NodeId> = Vec::new();
    let mut j: usize = 0;
    while j < i
        invariant
            j <= i <= ids@.len(),
            out@ == ids@.take(j as int),
        decreases i - j,
    {
        out.push(ids[j]);
        assert(out@ =~= ids@.take(j + 1));
        j += 1;
    }
    out.push(id);
    while j < ids.len()
        invariant
            i <= j <= ids@.len(),
            out@ == ids@.take(i as int).push(id) + ids@.subrange(i as int, j as int),
        decreases ids@.len() - j,
    {
        out.push(ids[j]);
        assert(out@ =~= ids@.take(i as int).push(id) + ids@.subrange(i as int, j + 1));
        j += 1;
    }
    assert(out@ =~= ids@.insert(i as int, id));
    out
}

/// A copy of `ids` without the entry at position `i`.
fn removed_at(ids: &Vec<NodeId>, i: usize) -> (out: Vec<NodeId>)
    requires
        i < ids@.len(),
    ensures
        out@ == ids@.remove(i as int),
{
    let mut out: Vec<NodeId> = Vec::new();
    let mut j: usize = 0;
    while j < ids.len()
        invariant
            j <= ids@.len(),
            i < ids@.len(),
            j <= i ==> out@ == ids@.take(j as int),
            j > i ==> out@ == ids@.take(i as int) + ids@.subrange(i + 1, j as int),
        decreases ids@.len() - j,
    {
        if j != i {
            out.push(ids[j]);
        }
        proof {
            if j < i {
                assert(out@ =~= ids@.take(j + 1));
            } else if j == i {
                assert(out@ =~= ids@.take(i as int) + ids@.subrange(i + 1, j + 1));
            } else {
                assert(out@ =~= ids@.take(i as int) + ids@.subrange(i + 1, j + 1));
            }
        }
        j += 1;
    }
    assert(out@ =~= ids@.remove(i as int));
    out
}

/// A set of node ids, held in ascending order of their bytes.
#[derive(Debug, PartialEq, Eq)]
pub struct NodeSet {
    ids: Vec<NodeId>,
}

impl View for NodeSet {
    type V = Set<Seq<u8>>;

    open spec fn view(&self) -> Set<Seq<u8>> {
        self.seq().to_set()
    }
}

impl NodeSet {
    /// The keys of the members, in ascending order.
    pub closed spec fn seq(&self) -> Seq<Seq<u8>> {
        keys_of(self.ids@)
    }

    /// The members are in ascending order, none twice, and each is a valid
    /// public key.
    #[verifier::type_invariant]
    pub open spec fn wf(&self) -> bool {
        strictly_sorted(self.seq()) && all_valid(self.seq())
    }

    /// The empty set.
    pub fn new() -> (set: NodeSet)
        ensures
            set.seq() == Seq::<Seq<u8>>::empty(),
            set@ == Set::<Seq<u8>>::empty(),
            set.wf(),
    {
        let set = NodeSet { ids: Vec::new() };
        assert(set.seq() =~= Seq::<Seq<u8>>::empty());
        assert(set@ =~= Set::<Seq<u8>>::empty());
        set
    }

    /// The number of members.
    pub fn len(&self) -> (n: usize)
        ensures
            n == self.seq().len(),
            self.wf(),
    {
        proof {
            use_type_invariant(self);
        }
        self.ids.len()
    }

    /// The member at position `i` in ascending order, if there are that
    /// many.
    pub fn get(&self, i: usize) -> (r: Option<NodeId>)
        ensures
            match r {
                Some(id) => i < self.seq().len() && id@ == self.seq()[i as int] && id.wf(),
                None => i >= self.seq().len(),
            },
    {
        proof {
            use_type_invariant(self);
        }
        if i < self.ids.len() {
            assert(self.seq()[i as int] == self.ids@[i as int]@);
            Some(self.ids[i])
        } else {
            None
        }
    }

    /// Whether `id` is a member.
    pub fn contains(&self, id: &NodeId) -> (found: bool)
        ensures
            found == self@.contains(id@),
    {
        let mut i: usize = 0;
        while i < self.ids.len()
            invariant
                i <= self.ids.len(),
                forall|j: int| 0 <= j < i ==> (#[trigger] self.seq()[j]) != id@,
            decreases self.ids.len() - i,
        {
            if self.ids[i].same(id) {
                assert(self.seq()[i as int] == id@);
                return true;
            }
            i += 1;
        }
        false
    }

    /// Puts `id` into the set. Returns whether it was new.
    pub fn insert(&mut self, id: NodeId) -> (added: bool)
        ensures
            final(self).seq() == sorted_insert(old(self).seq(), id@),
            final(self)@ == old(self)@.insert(id@),
            added == !old(self)@.contains(id@),
            final(self).wf(),
    {
        proof {
            use_type_invariant(&*self);
            use_type_invariant(&id);
        }
        let n = self.ids.len();
        let mut i: usize = 0;
        while i < n && self.ids[i].precedes(&id)
            invariant
                n == self.ids.len(),
                i <= n,
                *self == *old(self),
                forall|j: int| 0 <= j < i ==> lex_lt(#[trigger] self.seq()[j], id@),
            decreases n - i,
        {
            i += 1;
        }
        proof {
            lemma_sorted_insert(self.seq(), id@);
            lemma_sorted_insert_at(self.seq(), id@, i as int);
        }
        if i < n && self.ids[i].same(&id) {
            assert(self.seq()[i as int] == id@);
            return false;
        }
        proof {
            let s = self.seq();
            let r = s.insert(i as int, id@);
            assert(keys_of(self.ids@.insert(i as int, id)) =~= r);
            assert(all_valid(r)) by {
                assert forall|j: int| 0 <= j < r.len() implies (#[trigger] r[j]).len() == 32
                    && spec_valid_key(r[j]) by {
                    if j < i {
                        assert(r[j] == s[j]);
                    } else if j > i {
                        assert(r[j] == s[j - 1]);
                    }
                }
            }
            if s.contains(id@) {
                assert(sorted_insert(s, id@) == s);
                assert(r.len() == s.len() + 1);
            }
        }
        self.ids = inserted_at(&self.ids, i, id);
        true
    }

    /// Takes `id` out of the set. Returns whether it was a member.
    pub fn remove(&mut self, id: &NodeId) -> (removed: bool)
        ensures
            final(self)@ == old(self)@.remove(id@),
            removed == old(self)@.contains(id@),
            final(self).wf(),
    {
        proof {
            use_type_invariant(&*self);
        }
        let n = self.ids.len();
        let mut i: usize = 0;
        while i < n
            invariant
                n == self.ids.len(),
                i <= n,
                *self == *old(self),
                self.wf(),
                forall|j: int| 0 <= j < i ==> (#[trigger] self.seq()[j]) != id@,
            decreases n - i,
        {
            if self.ids[i].same(id) {
                proof {
                    let s = self.seq();
                    let r = s.remove(i as int);
                    lemma_sorted_remove(s, i as int);
                    assert(keys_of(self.ids@.remove(i as int)) =~= r);
                    assert(all_valid(r)) by {
                        assert forall|j: int| 0 <= j < r.len() implies (#[trigger] r[j]).len()
                            == 32 && spec_valid_key(r[j]) by {
                            if j < i {
                                assert(r[j] == s[j]);
                            } else {
                                assert(r[j] == s[j + 1]);
                            }
                        }
                    }
                    assert(s.contains(id@));
                }
                self.ids = removed_at(&self.ids, i);
                return true;
            }
            i += 1;
        }
        assert(self@.remove(id@) =~= self@);
        false
    }

    /// Puts every one of `ids` into the set.
    pub fn extend_from(&mut self, ids: &[NodeId])
        ensures
            final(self).seq() == sorted_extend(old(self).seq(), keys_of(ids@)),
            final(self)@ == old(self)@.union(keys_of(ids@).to_set()),
            final(self).wf(),
    {
        proof {
            use_type_invariant(&*self);
            lemma_sorted_extend(self.seq(), keys_of(ids@));
        }
        let mut i: usize = 0;
        assert(keys_of(ids@).skip(0) =~= keys_of(ids@));
        while i < ids.len()
            invariant
                i <= ids.len(),
                self.wf(),
                sorted_extend(self.seq(), keys_of(ids@).skip(i as int)) == sorted_extend(
                    old(self).seq(),
                    keys_of(ids@),
                ),
            decreases ids.len() - i,
        {
            let ghost before = self.seq();
            self.insert(ids[i]);
            proof {
                let rest = keys_of(ids@).skip(i as int);
                assert(rest[0] == ids@[i as int]@);
                assert(rest.skip(1) =~= keys_of(ids@).skip(i + 1));
            }
            i += 1;
        }
    }

    /// Puts every member of `other` into the set.
    pub fn union_with(&mut self, other: &NodeSet)
        ensures
            final(self)@ == old(self)@.union(other@),
            final(self).wf(),
    {
        self.extend_from(other.ids.as_slice());
    }

    /// A copy of the set.
    pub fn duplicate(&self) -> (copy: NodeSet)
        ensures
            copy.seq() == self.seq(),
            copy@ == self@,
            copy.wf(),
    {
        proof {
            use_type_invariant(self);
        }
        NodeSet { ids: self.to_vec() }
    }

    /// The members in ascending order.
    pub fn to_vec(&self) -> (ids: Vec<NodeId>)
        ensures
            keys_of(ids@) == self.seq(),
            self.wf(),
    {
        proof {
            use_type_invariant(self);
        }
        let mut out: Vec<NodeId> = Vec::new();
        let mut i: usize = 0;
        while i < self.ids.len()
            invariant
                i <= self.ids.len(),
                out@ == self.ids@.take(i as int),
            decreases self.ids.len() - i,
        {
            out.push(self.ids[i]);
            assert(out@ =~= self.ids@.take(i + 1));
            i += 1;
        }
        assert(out@ =~= self.ids@);
        out
    }
}

impl Clone for NodeSet {
    fn clone(&self) -> (copy: NodeSet)
        ensures
            copy.seq() == self.seq(),
    {
        self.duplicate()
    }
}

} // verus!
