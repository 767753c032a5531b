//! A set of extensions, kept as a strictly ascending list.

use crate::order::{
    ascending, lemma_asymmetric, lemma_irreflexive, lemma_total, lemma_transitive, precedes,
    str_precedes,
};
use vstd::prelude::*;

verus! {

/// The set that holds `e` exactly where `s` does not.
pub open spec fn toggled(s: Set<Seq<char>>, e: Seq<char>) -> Set<Seq<char>> {
    if s.contains(e) {
        s.remove(e)
    } else {
        s.insert(e)
    }
}

/// `k` is where `e` belongs in the ascending list `s`: all that stands before
/// index `k` precedes `e`, and nothing from `k` on does.
pub open spec fn is_position(s: Seq<Seq<char>>, e: Seq<char>, k: int) -> bool {
    &&& 0 <= k <= s.len()
    &&& forall|j: int| 0 <= j < k ==> precedes(#[trigger] s[j], e)
    &&& forall|j: int| k <= j < s.len() ==> !precedes(#[trigger] s[j], e)
}

/// An ascending list holds nothing twice.
pub proof fn lemma_ascending_no_duplicates(s: Seq<Seq<char>>)
    requires
        ascending(s),
    ensures
        s.no_duplicates(),
{
    assert forall|i: int, j: int| 0 <= i < s.len() && 0 <= j < s.len() && i != j implies s[i]
        != s[j] by {
        if i < j {
            lemma_irreflexive(s[i]);
        } else {
            lemma_irreflexive(s[j]);
        }
    }
}

/// In an ascending list, `e` can only stand at its position.
pub proof fn lemma_found_at_position(s: Seq<Seq<char>>, e: Seq<char>, k: int)
    requires
        ascending(s),
        is_position(s, e, k),
    ensures
        s.contains(e) <==> (k < s.len() && s[k] == e),
        s.contains(e) <==> (k < s.len() && !precedes(e, s[k])),
{
    if k < s.len() {
        lemma_total(e, s[k]);
    }
    lemma_irreflexive(e);
    if s.contains(e) {
        let i = choose|i: int| 0 <= i < s.len() && s[i] == e;
        assert(!precedes(s[i], e));
        assert(i >= k);
        if i > k {
            assert(precedes(s[k], s[i]));
            assert(!precedes(s[k], e));
        }
    }
}

/// Putting a new element at its position keeps the list ascending and adds
/// that element to what the list holds.
pub proof fn lemma_insert_at_position(s: Seq<Seq<char>>, e: Seq<char>, k: int)
    requires
        ascending(s),
        is_position(s, e, k),
        !s.contains(e),
    ensures
        ascending(s.insert(k, e)),
        s.insert(k, e).to_set() == s.to_set().insert(e),
{
    let t = s.insert(k, e);
    s.insert_ensures(k, e);
    assert forall|i: int, j: int| 0 <= i < j < t.len() implies precedes(t[i], t[j]) by {
        if j == k {
            assert(t[i] == s[i]);
        } else if i == k {
            assert(t[j] == s[j - 1]);
            assert(s.contains(s[j - 1]));
            lemma_total(e, s[j - 1]);
        } else {
            let si = if i < k { i } else { i - 1 };
            let sj = if j < k { j } else { j - 1 };
            assert(t[i] == s[si] && t[j] == s[sj]);
        }
    }
    assert forall|x: Seq<char>| t.to_set().contains(x) <==> s.to_set().insert(e).contains(x) by {
        if t.contains(x) {
            let i = choose|i: int| 0 <= i < t.len() && t[i] == x;
            if i < k {
                assert(s[i] == x);
            } else if i > k {
                assert(s[i - 1] == x);
            }
        }
        if s.contains(x) {
            let i = choose|i: int| 0 <= i < s.len() && s[i] == x;
            if i < k {
                assert(t[i] == x);
            } else {
                assert(t[i + 1] == x);
            }
        }
        if x == e {
            assert(t[k] == x);
        }
    }
    assert(t.to_set() =~= s.to_set().insert(e));
}

/// Taking an element out keeps the list ascending and takes that element from
/// what the list holds.
pub proof fn lemma_remove_at(s: Seq<Seq<char>>, k: int)
    requires
        ascending(s),
        0 <= k < s.len(),
    ensures
        ascending(s.remove(k)),
        s.remove(k).to_set() == s.to_set().remove(s[k]),
{
    let t = s.remove(k);
    s.remove_ensures(k);
    lemma_ascending_no_duplicates(s);
    assert forall|i: int, j: int| 0 <= i < j < t.len() implies precedes(t[i], t[j]) by {
        let si = if i < k { i } else { i + 1 };
        let sj = if j < k { j } else { j + 1 };
        assert(t[i] == s[si] && t[j] == s[sj]);
    }
    assert forall|x: Seq<char>| t.to_set().contains(x) <==> s.to_set().remove(s[k]).contains(
        x,
    ) by {
        if t.contains(x) {
            let i = choose|i: int| 0 <= i < t.len() && t[i] == x;
            let si = if i < k { i } else { i + 1 };
            assert(s[si] == x);
        }
        if s.contains(x) && x != s[k] {
            let i = choose|i: int| 0 <= i < s.len() && s[i] == x;
            if i < k {
                assert(t[i] == x);
            } else {
                assert(t[i - 1] == x);
            }
        }
    }
    assert(t.to_set() =~= s.to_set().remove(s[k]));
}

/// An ascending list is known by what it holds: two ascending lists of the
/// same elements are the same list.
pub proof fn lemma_ascending_determined(s: Seq<Seq<char>>, t: Seq<Seq<char>>)
    requires
        ascending(s),
        ascending(t),
        s.to_set() == t.to_set(),
    ensures
        s == t,
    decreases s.len(),
{
    if s.len() == 0 {
        if t.len() > 0 {
            assert(t.contains(t[0]));
            assert(t.to_set().contains(t[0]));
            assert(s.contains(t[0]));
        }
        assert(s =~= t);
    } else {
        assert(s.contains(s[0]));
        assert(s.to_set().contains(s[0]));
        assert(t.contains(s[0]));
        let j = choose|j: int| 0 <= j < t.len() && t[j] == s[0];
        assert(t.contains(t[0]));
        assert(t.to_set().contains(t[0]));
        assert(s.contains(t[0]));
        let i = choose|i: int| 0 <= i < s.len() && s[i] == t[0];
        if i > 0 && j > 0 {
            assert(precedes(s[0], s[i]));
            assert(precedes(t[0], t[j]));
            lemma_asymmetric(s[0], s[i]);
        }
        assert(s[0] == t[0]);
        lemma_remove_at(s, 0);
        lemma_remove_at(t, 0);
        lemma_ascending_determined(s.remove(0), t.remove(0));
        assert(s =~= seq![s[0]] + s.remove(0));
        assert(t =~= seq![t[0]] + t.remove(0));
    }
}

/// Toggling the same extension twice gives back the set one began with.
pub proof fn lemma_toggle_twice(s: Set<Seq<char>>, e: Seq<char>)
    ensures
        toggled(toggled(s, e), e) == s,
{
    assert(toggled(toggled(s, e), e) =~= s);
}

/// Toggle is its own inverse on lists too: where `once` lists `start` with
/// `e` toggled, and `twice` lists `once` with `e` toggled again, `twice` is
/// `start`.
pub proof fn lemma_toggle_twice_restores(
    start: Seq<Seq<char>>,
    once: Seq<Seq<char>>,
    twice: Seq<Seq<char>>,
    e: Seq<char>,
)
    requires
        ascending(start),
        ascending(twice),
        once.to_set() == toggled(start.to_set(), e),
        twice.to_set() == toggled(once.to_set(), e),
    ensures
        twice == start,
{
    lemma_toggle_twice(start.to_set(), e);
    lemma_ascending_determined(twice, start);
}

/// A set of extensions, listed in ascending order.
#[derive(Debug, PartialEq, Eq)]
pub struct ExtensionSet {
    items: Vec<String>,
}

impl View for ExtensionSet {
    type V = Seq<Seq<char>>;

    /// The extensions, in the order in which they are listed.
    closed spec fn view(&self) -> Seq<Seq<char>> {
        self.items.deep_view()
    }
}

impl ExtensionSet {
    /// What holds of every set: its list is strictly ascending.
    #[verifier::type_invariant]
    pub open spec fn is_ascending(self) -> bool {
        ascending(self@)
    }

    /// The extensions as a set.
    pub open spec fn set(&self) -> Set<Seq<char>> {
        self@.to_set()
    }

    /// The empty set.
    pub fn new() -> (r: Self)
        ensures
            r@ == Seq::<Seq<char>>::empty(),
    {
        let r = ExtensionSet { items: Vec::new() };
        assert(r.items.deep_view() =~= Seq::<Seq<char>>::empty());
        r
    }

    /// How many extensions the set holds.
    pub fn len(&self) -> (n: usize)
        ensures
            n == self@.len(),
    {
        self.items.len()
    }

    /// Whether the set holds nothing.
    pub fn is_empty(&self) -> (r: bool)
        ensures
            r == (self@.len() == 0),
    {
        self.items.len() == 0
    }

    /// The extensions in ascending order.
    pub fn items(&self) -> (r: &Vec<String>)
        ensures
            r.deep_view() == self@,
            ascending(self@),
    {
        proof {
            use_type_invariant(self);
        }
        &self.items
    }

    /// Moves the list out and leaves the empty set behind.
    fn take_items(&mut self) -> (items: Vec<String>)
        ensures
            items == old(self).items,
            final(self)@ == Seq::<Seq<char>>::empty(),
    {
        let mut items: Vec<String> = Vec::new();
        assert(items.deep_view() =~= Seq::<Seq<char>>::empty());
        core::mem::swap(&mut self.items, &mut items);
        items
    }

    /// The index at which `ext` stands, or would have to be put.
    fn position(&self, ext: &str) -> (k: usize)
        ensures
            is_position(self@, ext@, k as int),
    {
        proof {
            use_type_invariant(self);
        }
        let mut k: usize = 0;
        while k < self.items.len() && str_precedes(self.items[k].as_str(), ext)
            invariant
                0 <= k <= self.items.len(),
                forall|j: int| 0 <= j < k ==> precedes(#[trigger] self@[j], ext@),
            decreases self.items.len() - k,
        {
            k += 1;
        }
        proof {
            assert forall|j: int| k <= j < self@.len() implies !precedes(
                #[trigger] self@[j],
                ext@,
            ) by {
                if j > k && precedes(self@[j], ext@) {
                    assert(precedes(self@[k as int], self@[j]));
                    lemma_transitive(self@[k as int], self@[j], ext@);
                }
            }
        }
        k
    }

    /// Whether the set holds `ext`.
    pub fn contains(&self, ext: &str) -> (r: bool)
        ensures
            r == self@.contains(ext@),
            r == self.set().contains(ext@),
    {
        let k = self.position(ext);
        self.stands_at(ext, k)
    }

    /// Whether `ext` stands at index `k`, its position.
    fn stands_at(&self, ext: &str, k: usize) -> (r: bool)
        requires
            is_position(self@, ext@, k as int),
        ensures
            r == self@.contains(ext@),
            r ==> k < self@.len() && self@[k as int] == ext@,
    {
        proof {
            use_type_invariant(self);
            lemma_found_at_position(self@, ext@, k as int);
        }
        k < self.items.len() && !str_precedes(ext, self.items[k].as_str())
    }

    /// Puts `ext`, which the set does not hold, at index `k`, its position.
    fn insert_at(&mut self, k: usize, ext: String)
        requires
            is_position(old(self)@, ext@, k as int),
            !old(self)@.contains(ext@),
        ensures
            final(self)@ == old(self)@.insert(k as int, ext@),
            final(self).set() == old(self).set().insert(ext@),
    {
        proof {
            use_type_invariant(&*self);
            lemma_insert_at_position(self@, ext@, k as int);
        }
        let mut items = self.take_items();
        items.insert(k, ext);
        assert(items.deep_view() =~= old(self)@.insert(k as int, ext@)) by {
            old(self)@.insert_ensures(k as int, ext@);
            old(self).items@.insert_ensures(k as int, ext);
        }
        self.items = items;
    }

    /// Takes out the extension at index `k`.
    fn remove_at(&mut self, k: usize)
        requires
            k < old(self)@.len(),
        ensures
            final(self)@ == old(self)@.remove(k as int),
            final(self).set() == old(self).set().remove(old(self)@[k as int]),
    {
        proof {
            use_type_invariant(&*self);
            lemma_remove_at(self@, k as int);
        }
        let mut items = self.take_items();
        items.remove(k);
        assert(items.deep_view() =~= old(self)@.remove(k as int)) by {
            old(self)@.remove_ensures(k as int);
            old(self).items@.remove_ensures(k as int);
        }
        self.items = items;
    }

    /// Adds `ext` to the set. Says whether it was new.
    pub fn insert(&mut self, ext: String) -> (added: bool)
        ensures
            added == !old(self).set().contains(ext@),
            final(self).set() == old(self).set().insert(ext@),
            ascending(final(self)@),
            !added ==> final(self)@ == old(self)@,
    {
        let k = self.position(ext.as_str());
        let added = !self.stands_at(ext.as_str(), k);
        if added {
            self.insert_at(k, ext);
        } else {
            assert(self.set() =~= self.set().insert(ext@));
        }
        proof {
            use_type_invariant(&*self);
        }
        added
    }

    /// Takes `ext` out of the set. Says whether it was there.
    pub fn remove(&mut self, ext: &str) -> (removed: bool)
        ensures
            removed == old(self).set().contains(ext@),
            final(self).set() == old(self).set().remove(ext@),
            ascending(final(self)@),
            !removed ==> final(self)@ == old(self)@,
    {
        let k = self.position(ext);
        let removed = self.stands_at(ext, k);
        if removed {
            self.remove_at(k);
        } else {
            assert(self.set() =~= self.set().remove(ext@));
        }
        proof {
            use_type_invariant(&*self);
        }
        removed
    }

    /// Takes `ext` out where the set holds it, and puts it in where not.
    pub fn toggle(&mut self, ext: String)
        ensures
            final(self).set() == toggled(old(self).set(), ext@),
            ascending(final(self)@),
    {
        let k = self.position(ext.as_str());
        if self.stands_at(ext.as_str(), k) {
            self.remove_at(k);
        } else {
            self.insert_at(k, ext);
        }
        proof {
            use_type_invariant(&*self);
        }
    }

    /// Empties the set.
    pub fn clear(&mut self)
        ensures
            final(self)@ == Seq::<Seq<char>>::empty(),
    {
        let _ = self.take_items();
    }
}

impl Clone for ExtensionSet {
    /// A set with the same extensions.
    fn clone(&self) -> (r: Self)
        ensures
            r@ == self@,
    {
        proof {
            use_type_invariant(self);
        }
        let mut items: Vec<String> = Vec::new();
        let mut i: usize = 0;
        while i < self.items.len()
            invariant
                0 <= i <= self.items.len(),
                items@ == self.items@.take(i as int),
            decreases self.items.len() - i,
        {
            items.push(self.items[i].clone());
            assert(items@ =~= self.items@.take(i + 1));
            i += 1;
        }
        assert(items@ =~= self.items@);
        ExtensionSet { items }
    }
}

} // verus!
