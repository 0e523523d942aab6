//! A set of strings that remembers the order in which its members arrived.

use vstd::prelude::*;

verus! {

/// The texts of a sequence of strings.
pub open spec fn texts(v: Seq<String>) -> Seq<Seq<char>> {
    Seq::new(v.len(), |i: int| v[i]@)
}

/// `s` with `x` added at the end unless it is a member already.
pub open spec fn with_member(s: Seq<Seq<char>>, x: Seq<char>) -> Seq<Seq<char>> {
    if s.contains(x) {
        s
    } else {
        s.push(x)
    }
}

/// `s` without `x`; the other members keep their order.
pub open spec fn without_member(s: Seq<Seq<char>>, x: Seq<char>) -> Seq<Seq<char>> {
    if s.contains(x) {
        s.remove(s.index_of(x))
    } else {
        s
    }
}

/// In a sequence without repetitions a member stands at one place only.
pub proof fn lemma_unique_place(s: Seq<Seq<char>>, i: int)
    requires
        s.no_duplicates(),
        0 <= i < s.len(),
    ensures
        s.contains(s[i]),
        s.index_of(s[i]) == i,
{
    let j = s.index_of(s[i]);
    assert(0 <= j < s.len() && s[j] == s[i]);
}

/// Adding a member keeps the sequence free of repetitions and adds nothing else.
pub proof fn lemma_with_member(s: Seq<Seq<char>>, x: Seq<char>)
    requires
        s.no_duplicates(),
    ensures
        with_member(s, x).no_duplicates(),
        forall|y: Seq<char>| #[trigger] with_member(s, x).contains(y) <==> (y == x || s.contains(y)),
        with_member(s, x).len() == s.len() + (if s.contains(x) { 0int } else { 1int }),
{
    let t = with_member(s, x);
    if !s.contains(x) {
        assert forall|y: Seq<char>| #[trigger] t.contains(y) <==> (y == x || s.contains(y)) by {
            if t.contains(y) {
                let i = choose|i: int| 0 <= i < t.len() && t[i] == y;
                if i < s.len() {
                    assert(s[i] == y);
                }
            }
            if y == x {
                assert(t[s.len() as int] == x);
            }
            if s.contains(y) {
                let i = choose|i: int| 0 <= i < s.len() && s[i] == y;
                assert(t[i] == y);
            }
        }
    }
}

/// Removing a member keeps the sequence free of repetitions and removes nothing else.
pub proof fn lemma_without_member(s: Seq<Seq<char>>, x: Seq<char>)
    requires
        s.no_duplicates(),
    ensures
        without_member(s, x).no_duplicates(),
        forall|y: Seq<char>| #[trigger] without_member(s, x).contains(y) <==> (y != x && s.contains(y)),
        without_member(s, x).len() == s.len() - (if s.contains(x) { 1int } else { 0int }),
{
    let t = without_member(s, x);
    if s.contains(x) {
        let k = s.index_of(x);
        assert(0 <= k < s.len() && s[k] == x);
        assert forall|y: Seq<char>| #[trigger] t.contains(y) <==> (y != x && s.contains(y)) by {
            if t.contains(y) {
                let i = choose|i: int| 0 <= i < t.len() && t[i] == y;
                if i < k {
                    assert(s[i] == y);
                } else {
                    assert(s[i + 1] == y);
                }
            }
            if y != x && s.contains(y) {
                let i = choose|i: int| 0 <= i < s.len() && s[i] == y;
                if i < k {
                    assert(t[i] == y);
                } else {
                    assert(t[i - 1] == y);
                }
            }
        }
    } else {
        assert forall|y: Seq<char>| #[trigger] t.contains(y) <==> (y != x && s.contains(y)) by {}
    }
}

/// A set of strings. Its view lists the members in the order of their arrival.
#[derive(Debug)]
pub struct StringSet {
    pub(crate) items: Vec<String>,
}

impl View for StringSet {
    type V = Seq<Seq<char>>;

    closed spec fn view(&self) -> Seq<Seq<char>> {
        texts(self.items@)
    }
}

impl StringSet {
    /// No member occurs twice.
    pub open spec fn wf(&self) -> bool {
        self@.no_duplicates()
    }

    /// The empty set.
    pub fn new() -> (r: StringSet)
        ensures
            r@ == Seq::<Seq<char>>::empty(),
            r.wf(),
    {
        let r = StringSet { items: Vec::new() };
        assert(r@ =~= Seq::<Seq<char>>::empty());
        r
    }

    /// The number of members.
    pub fn len(&self) -> (n: usize)
        ensures
            n == self@.len(),
    {
        self.items.len()
    }

    /// The member at place `i`, counted from the oldest.
    pub fn get(&self, i: usize) -> (r: &String)
        requires
            i < self@.len(),
        ensures
            r@ == self@[i as int],
    {
        &self.items[i]
    }

    fn position(&self, x: &String) -> (r: Option<usize>)
        requires
            self.wf(),
        ensures
            match r {
                Some(i) => i < self@.len() && self@[i as int] == x@ && self@.contains(x@)
                    && self@.index_of(x@) == i,
                None => !self@.contains(x@),
            },
    {
        let mut i: usize = 0;
        while i < self.items.len()
            invariant
                i <= self.items.len(),
                self.wf(),
                forall|j: int| 0 <= j < i ==> self@[j] != x@,
            decreases self.items.len() - i,
        {
            if self.items[i] == *x {
                proof {
                    lemma_unique_place(self@, i as int);
                }
                return Some(i);
            }
            i += 1;
        }
        None
    }

    /// Whether `x` is a member.
    pub fn contains(&self, x: &String) -> (r: bool)
        requires
            self.wf(),
        ensures
            r == self@.contains(x@),
    {
        self.position(x).is_some()
    }

    /// Adds `x`; says whether it was new.
    pub fn insert(&mut self, x: String) -> (r: bool)
        requires
            old(self).wf(),
        ensures
            final(self).wf(),
            final(self)@ == with_member(old(self)@, x@),
            r == !old(self)@.contains(x@),
    {
        proof {
            lemma_with_member(self@, x@);
        }
        if self.position(&x).is_some() {
            false
        } else {
            self.items.push(x);
            assert(self@ =~= old(self)@.push(x@));
            true
        }
    }

    /// Removes `x`; says whether it was a member.
    pub fn remove(&mut self, x: &String) -> (r: bool)
        requires
            old(self).wf(),
        ensures
            final(self).wf(),
            final(self)@ == without_member(old(self)@, x@),
            r == old(self)@.contains(x@),
    {
        proof {
            lemma_without_member(self@, x@);
        }
        match self.position(x) {
            Some(i) => {
                self.items.remove(i);
                assert(self@ =~= old(self)@.remove(i as int));
                true
            },
            None => false,
        }
    }

    /// The set of the strings in `v`: each once, at the place of its first occurrence.
    pub fn from_vec(v: Vec<String>) -> (r: StringSet)
        ensures
            r.wf(),
            r@ == collected(texts(v@)),
    {
        let mut r = StringSet::new();
        let mut i: usize = 0;
        while i < v.len()
            invariant
                i <= v.len(),
                r.wf(),
                r@ == collected(texts(v@).take(i as int)),
            decreases v.len() - i,
        {
            proof {
                let t = texts(v@);
                assert(t.take(i + 1).drop_last() =~= t.take(i as int));
                assert(t.take(i + 1).last() == v@[i as int]@);
            }
            let s = v[i].clone();
            r.insert(s);
            i += 1;
        }
        assert(texts(v@).take(v.len() as int) =~= texts(v@));
        r
    }

    /// A copy with the same members in the same order.
    pub fn duplicate(&self) -> (r: StringSet)
        ensures
            r@ == self@,
    {
        let mut items: Vec<String> = Vec::new();
        let mut i: usize = 0;
        while i < self.items.len()
            invariant
                i <= self.items.len(),
                items.len() == i,
                texts(items@) == self@.take(i as int),
            decreases self.items.len() - i,
        {
            let s = self.items[i].clone();
            let ghost before = items@;
            items.push(s);
            assert(texts(items@) =~= texts(before).push(self.items@[i as int]@));
            assert(texts(items@) =~= self@.take(i + 1));
            i += 1;
        }
        assert(self@.take(self.items.len() as int) =~= self@);
        StringSet { items }
    }

    /// The members, oldest first.
    pub fn to_vec(&self) -> (r: Vec<String>)
        ensures
            texts(r@) == self@,
    {
        self.duplicate().items
    }
}

/// The members of `s` in the order of their first occurrence.
pub open spec fn collected(s: Seq<Seq<char>>) -> Seq<Seq<char>>
    decreases s.len(),
{
    if s.len() == 0 {
        Seq::empty()
    } else {
        with_member(collected(s.drop_last()), s.last())
    }
}

} // verus!
