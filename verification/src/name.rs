//! Names in the 256-bit XOR address space, and duplicate-free sets of them.

use vstd::prelude::*;

verus! {

/// Number of bytes in a name.
pub const XOR_NAME_LEN: usize = 32;

/// A 256-bit name in the XOR address space.
#[derive(Clone, Copy, Debug, PartialEq, Eq, PartialOrd, Ord, Hash, Default)]
pub struct XorName(pub [u8; 32]);

impl XorName {
    /// The name whose bytes are all zero.
    pub open spec fn spec_zero() -> XorName {
        XorName(vstd::array::spec_array_fill_for_copy_type::<u8, 32>(0u8))
    }

    /// The name whose bytes are all zero.
    #[verifier::when_used_as_spec(spec_zero)]
    pub fn zero() -> (r: XorName)
        ensures
            r == XorName::spec_zero(),
            forall|i: int| 0 <= i < 32 ==> r.0@[i] == 0,
    {
        XorName([0u8; 32])
    }

    /// Whether two names hold the same 32 bytes.
    pub fn same(&self, other: &XorName) -> (r: bool)
        ensures
            r == (*self == *other),
    {
        let mut i: usize = 0;
        while i < 32
            invariant
                i <= 32,
                forall|j: int| 0 <= j < i ==> self.0[j] == other.0[j],
            decreases 32 - i,
        {
            if self.0[i] != other.0[i] {
                return false;
            }
            i = i + 1;
        }
        assert(self.0 =~= other.0);
        true
    }
}

/// The sequence that keeps, in order, the first occurrence of every name of `s`.
pub open spec fn first_occurrences(s: Seq<XorName>) -> Seq<XorName>
    decreases s.len(),
{
    if s.len() == 0 {
        Seq::empty()
    } else {
        let kept = first_occurrences(s.drop_last());
        if kept.contains(s.last()) {
            kept
        } else {
            kept.push(s.last())
        }
    }
}

/// `first_occurrences` holds no name twice and holds exactly the names of its argument.
pub proof fn lemma_first_occurrences(s: Seq<XorName>)
    ensures
        first_occurrences(s).no_duplicates(),
        first_occurrences(s).to_set() == s.to_set(),
        first_occurrences(s).len() <= s.len(),
    decreases s.len(),
{
    if s.len() == 0 {
        assert(first_occurrences(s).to_set() =~= s.to_set());
    } else {
        let front = s.drop_last();
        let kept = first_occurrences(front);
        lemma_first_occurrences(front);
        assert forall|n: XorName| s.to_set().contains(n) <==> (front.to_set().contains(n) || n
            == s.last()) by {
            if s.contains(n) {
                let i = choose|i: int| 0 <= i < s.len() && s[i] == n;
                if i < front.len() {
                    assert(front[i] == n);
                }
            }
            if front.contains(n) {
                let i = choose|i: int| 0 <= i < front.len() && front[i] == n;
                assert(s[i] == n);
            }
            if n == s.last() {
                assert(s[s.len() - 1] == n);
            }
        }
        if kept.contains(s.last()) {
            assert(first_occurrences(s).to_set() =~= s.to_set());
        } else {
            let out = kept.push(s.last());
            assert forall|n: XorName| out.to_set().contains(n) <==> (kept.to_set().contains(n) || n
                == s.last()) by {
                if out.contains(n) {
                    let i = choose|i: int| 0 <= i < out.len() && out[i] == n;
                    if i < kept.len() {
                        assert(kept[i] == n);
                    }
                }
                if kept.contains(n) {
                    let i = choose|i: int| 0 <= i < kept.len() && kept[i] == n;
                    assert(out[i] == n);
                }
                if n == s.last() {
                    assert(out[out.len() - 1] == n);
                }
            }
            assert(out.to_set() =~= s.to_set());
        }
    }
}

/// A set of names, kept in the order in which the names were added.
///
/// No name occurs twice.
#[derive(Debug, PartialEq, Eq)]
pub struct NameSet {
    names: Vec<XorName>,
}

impl View for NameSet {
    type V = Set<XorName>;

    open spec fn view(&self) -> Set<XorName> {
        self.seq().to_set()
    }
}

impl NameSet {
    /// The names of the set in the order in which they were added.
    pub closed spec fn seq(&self) -> Seq<XorName> {
        self.names@
    }

    /// No name occurs twice.
    pub open spec fn wf(&self) -> bool {
        self.seq().no_duplicates()
    }

    /// A well-formed set is finite and has as many members as `seq` has entries.
    pub proof fn lemma_view(&self)
        requires
            self.wf(),
        ensures
            self@.finite(),
            self@.len() == self.seq().len(),
    {
        self.seq().unique_seq_to_set();
    }

    /// The empty set.
    pub fn new() -> (r: NameSet)
        ensures
            r.wf(),
            r.seq() == Seq::<XorName>::empty(),
            r@ == Set::<XorName>::empty(),
    {
        let r = NameSet { names: Vec::new() };
        assert(r.names@.to_set() =~= Set::<XorName>::empty());
        r
    }

    /// The set of the names in `list`, ordered by first occurrence.
    pub fn from_list(list: &Vec<XorName>) -> (r: NameSet)
        ensures
            r.wf(),
            r.seq() == first_occurrences(list@),
            r@ == list@.to_set(),
    {
        let mut r = NameSet::new();
        let mut i: usize = 0;
        while i < list.len()
            invariant
                i <= list.len(),
                r.wf(),
                r.seq() == first_occurrences(list@.subrange(0, i as int)),
            decreases list.len() - i,
        {
            proof {
                let next = list@.subrange(0, i + 1);
                assert(next.drop_last() =~= list@.subrange(0, i as int));
                assert(next.last() == list@[i as int]);
            }
            let _ = r.insert(list[i]);
            i = i + 1;
        }
        proof {
            assert(list@.subrange(0, i as int) =~= list@);
            lemma_first_occurrences(list@);
        }
        r
    }

    /// How many names the set holds.
    pub fn len(&self) -> (r: usize)
        requires
            self.wf(),
        ensures
            r == self.seq().len(),
            r == self@.len(),
    {
        proof {
            self.lemma_view();
        }
        self.names.len()
    }

    /// Whether the set holds no name.
    pub fn is_empty(&self) -> (r: bool)
        ensures
            r == (self.seq().len() == 0),
            r == (self@ == Set::<XorName>::empty()),
    {
        proof {
            if self.names@.len() == 0 {
                assert(self@ =~= Set::<XorName>::empty());
            } else {
                assert(self.names@.contains(self.names@[0]));
                assert(self@.contains(self.names@[0]));
                assert(!Set::<XorName>::empty().contains(self.names@[0]));
            }
        }
        self.names.len() == 0
    }

    /// The name at position `i` of `seq`.
    pub fn get(&self, i: usize) -> (r: XorName)
        requires
            i < self.seq().len(),
        ensures
            r == self.seq()[i as int],
            self@.contains(r),
    {
        assert(self.names@.contains(self.names@[i as int]));
        self.names[i]
    }

    /// The position of `name` in `seq`, if the set holds it.
    pub fn position(&self, name: &XorName) -> (r: Option<usize>)
        ensures
            match r {
                Some(i) => i < self.seq().len() && self.seq()[i as int] == *name,
                None => !self@.contains(*name),
            },
            r is Some == self@.contains(*name),
    {
        let mut i: usize = 0;
        while i < self.names.len()
            invariant
                i <= self.names.len(),
                forall|j: int| 0 <= j < i ==> self.names@[j] != *name,
            decreases self.names.len() - i,
        {
            if self.names[i].same(name) {
                assert(self.names@.contains(self.names@[i as int]));
                return Some(i);
            }
            i = i + 1;
        }
        None
    }

    /// Whether the set holds `name`.
    pub fn contains(&self, name: &XorName) -> (r: bool)
        ensures
            r == self@.contains(*name),
    {
        self.position(name).is_some()
    }

    /// Adds `name`; returns whether it was new.
    pub fn insert(&mut self, name: XorName) -> (r: bool)
        requires
            old(self).wf(),
        ensures
            final(self).wf(),
            r == !old(self)@.contains(name),
            final(self)@ == old(self)@.insert(name),
            final(self).seq() == if r {
                old(self).seq().push(name)
            } else {
                old(self).seq()
            },
    {
        if self.contains(&name) {
            assert(self@ =~= self@.insert(name));
            false
        } else {
            let ghost before = self.names@;
            proof {
                let after = before.push(name);
                assert forall|i: int, j: int| 0 <= i < after.len() && 0 <= j < after.len() && i
                    != j implies after[i] != after[j] by {
                    if i < before.len() {
                        assert(before.contains(before[i]));
                    }
                    if j < before.len() {
                        assert(before.contains(before[j]));
                    }
                }
                assert forall|n: XorName| after.to_set().contains(n) <==> before.to_set().insert(
                    name,
                ).contains(n) by {
                    if after.contains(n) {
                        let i = choose|i: int| 0 <= i < after.len() && after[i] == n;
                        if i < before.len() {
                            assert(before.contains(before[i]));
                        }
                    }
                    if before.contains(n) {
                        let i = choose|i: int| 0 <= i < before.len() && before[i] == n;
                        assert(after[i] == n);
                    }
                    if n == name {
                        assert(after[after.len() - 1] == n);
                    }
                }
                assert(after.to_set() =~= before.to_set().insert(name));
            }
            self.names.push(name);
            true
        }
    }

    /// Takes `name` out; returns whether the set held it.
    pub fn remove(&mut self, name: &XorName) -> (r: bool)
        requires
            old(self).wf(),
        ensures
            final(self).wf(),
            r == old(self)@.contains(*name),
            final(self)@ == old(self)@.remove(*name),
            final(self).seq() == old(self).seq().remove_value(*name),
    {
        let ghost before = self.names@;
        match self.position(name) {
            None => {
                proof {
                    assert(self@ =~= self@.remove(*name));
                    assert(before.index_of_first(*name) is None) by {
                        before.index_of_first_ensures(*name);
                    }
                }
                false
            },
            Some(i) => {
                proof {
                    let after = before.remove(i as int);
                    before.index_of_first_ensures(*name);
                    let first = before.index_of_first(*name);
                    assert(first is Some);
                    assert(first.unwrap() == i as int);
                    assert forall|a: int, b: int| 0 <= a < after.len() && 0 <= b < after.len()
                        && a != b implies after[a] != after[b] by {
                        let a0 = if a < i { a } else { a + 1 };
                        let b0 = if b < i { b } else { b + 1 };
                        assert(after[a] == before[a0]);
                        assert(after[b] == before[b0]);
                    }
                    assert forall|n: XorName| after.to_set().contains(n) <==> before.to_set().remove(
                        *name,
                    ).contains(n) by {
                        if after.contains(n) {
                            let a = choose|a: int| 0 <= a < after.len() && after[a] == n;
                            let a0 = if a < i { a } else { a + 1 };
                            assert(before[a0] == n);
                            assert(before.contains(n));
                        }
                        if before.contains(n) && n != *name {
                            let b = choose|b: int| 0 <= b < before.len() && before[b] == n;
                            let b1 = if b < i { b } else { b - 1 };
                            assert(after[b1] == n);
                        }
                    }
                    assert(after.to_set() =~= before.to_set().remove(*name));
                }
                let _ = self.names.remove(i);
                true
            },
        }
    }

    /// A copy of the set, in the same order.
    pub fn duplicate(&self) -> (r: NameSet)
        ensures
            r.seq() == self.seq(),
            r@ == self@,
            r.wf() == self.wf(),
    {
        let names = self.names.clone();
        assert(names@ =~= self.names@);
        NameSet { names }
    }

    /// The names of the set as a list, in the order of `seq`.
    pub fn to_list(&self) -> (r: Vec<XorName>)
        ensures
            r@ == self.seq(),
    {
        let names = self.names.clone();
        assert(names@ =~= self.names@);
        names
    }
}

} // verus!
