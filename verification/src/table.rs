//! The color table: a name-to-color mapping with unique, lowercase keys.
//!
//! A [`ColorTable`] is viewed as a `Map<Seq<char>, Color>`; its internal
//! invariant is that stored names are pairwise distinct and lowercase. All
//! insertions go through the normalized (lowercase) form of a name,
//! whichever way an entry enters the table.

use crate::colors::Color;
use crate::norm::normalized;
use vstd::prelude::*;

verus! {

/// The mapping denoted by a sequence of `(name, color)` entries; a later
/// entry overrides an earlier one with the same name.
pub open spec fn map_of(entries: Seq<(String, Color)>) -> Map<Seq<char>, Color>
    decreases entries.len(),
{
    if entries.len() == 0 {
        Map::empty()
    } else {
        map_of(entries.drop_last()).insert(entries.last().0@, entries.last().1)
    }
}

/// The entry names are pairwise distinct.
pub open spec fn distinct_names(entries: Seq<(String, Color)>) -> bool {
    forall|i: int, j: int|
        0 <= i < j < entries.len() ==> entries[i].0@ != entries[j].0@
}

/// The color stored under `k`, or `None` when `k` is absent.
pub open spec fn spec_get(m: Map<Seq<char>, Color>, k: Seq<char>) -> Option<Color> {
    if m.contains_key(k) {
        Some(m[k])
    } else {
        None
    }
}

/// A name is in the denoted mapping exactly when some entry carries it.
proof fn lemma_map_of_domain(entries: Seq<(String, Color)>, k: Seq<char>)
    ensures
        map_of(entries).contains_key(k) <==> exists|i: int|
            0 <= i < entries.len() && entries[i].0@ == k,
    decreases entries.len(),
{
    if entries.len() == 0 {
    } else {
        let prefix = entries.drop_last();
        lemma_map_of_domain(prefix, k);
        let last = entries.len() - 1;
        if entries[last].0@ == k {
            assert(0 <= last < entries.len() && entries[last].0@ == k);
        } else {
            assert forall|i: int| 0 <= i < prefix.len() && prefix[i].0@ == k implies 0 <= i
                < entries.len() && entries[i].0@ == k by {}
            assert forall|i: int| 0 <= i < entries.len() && entries[i].0@ == k implies 0 <= i
                < prefix.len() && prefix[i].0@ == k by {}
        }
    }
}

/// With distinct names, the denoted mapping stores, under an entry's name,
/// exactly that entry's color.
proof fn lemma_map_of_value(entries: Seq<(String, Color)>, i: int)
    requires
        distinct_names(entries),
        0 <= i < entries.len(),
    ensures
        map_of(entries).contains_key(entries[i].0@),
        map_of(entries)[entries[i].0@] == entries[i].1,
    decreases entries.len(),
{
    let last = entries.len() - 1;
    if i == last {
    } else {
        let prefix = entries.drop_last();
        assert(prefix[i] == entries[i]);
        lemma_map_of_value(prefix, i);
        assert(entries[last].0@ != entries[i].0@);
    }
}

/// Appending an entry inserts its name into the denoted mapping.
proof fn lemma_map_of_push(entries: Seq<(String, Color)>, name: String, color: Color)
    ensures
        map_of(entries.push((name, color))) == map_of(entries).insert(name@, color),
{
    assert(entries.push((name, color)).drop_last() =~= entries);
    assert(entries.push((name, color)).last() == (name, color));
}

/// Overwriting the entry that carries `name` updates the denoted mapping at
/// `name` and nothing else.
proof fn lemma_map_of_update(entries: Seq<(String, Color)>, i: int, name: String, color: Color)
    requires
        distinct_names(entries),
        0 <= i < entries.len(),
        entries[i].0@ == name@,
    ensures
        map_of(entries.update(i, (name, color))) == map_of(entries).insert(name@, color),
    decreases entries.len(),
{
    let updated = entries.update(i, (name, color));
    let last = entries.len() - 1;
    if i == last {
        assert(updated.drop_last() =~= entries.drop_last());
        let m = map_of(entries.drop_last());
        assert(m.insert(entries[last].0@, entries[last].1).insert(name@, color) =~= m.insert(
            name@,
            color,
        ));
    } else {
        let prefix = entries.drop_last();
        assert(prefix[i] == entries[i]);
        lemma_map_of_update(prefix, i, name, color);
        assert(updated.drop_last() =~= prefix.update(i, (name, color)));
        assert(updated.last() == entries.last());
        let m = map_of(prefix);
        let lname = entries[last].0@;
        let lcolor = entries[last].1;
        assert(lname != name@);
        assert(m.insert(name@, color).insert(lname, lcolor) =~= m.insert(lname, lcolor).insert(
            name@,
            color,
        ));
    }
}

/// The color table: unique lowercase names mapped to colors.
#[derive(Debug)]
pub struct ColorTable {
    entries: Vec<(String, Color)>,
}

impl View for ColorTable {
    type V = Map<Seq<char>, Color>;

    closed spec fn view(&self) -> Map<Seq<char>, Color> {
        map_of(self.entries@)
    }
}

impl ColorTable {
    /// The internal invariant: stored names are pairwise distinct, and
    /// every stored name is lowercase (the lowercase form of some name).
    pub closed spec fn wf(&self) -> bool {
        distinct_names(self.entries@) && forall|i: int|
            0 <= i < self.entries@.len() ==> normalized(#[trigger] self.entries@[i].0@)
    }

    /// Creates an empty table.
    pub fn new() -> (table: ColorTable)
        ensures
            table.wf(),
            table@ == Map::<Seq<char>, Color>::empty(),
    {
        ColorTable { entries: Vec::new() }
    }

    /// Does the table hold an entry under exactly `name`?
    #[verifier::loop_isolation(false)]
    pub fn contains(&self, name: &String) -> (present: bool)
        requires
            self.wf(),
        ensures
            present == self@.contains_key(name@),
    {
        proof {
            lemma_map_of_domain(self.entries@, name@);
        }
        let n = self.entries.len();
        let mut i: usize = 0;
        while i < n
            invariant
                forall|j: int| 0 <= j < i ==> self.entries@[j].0@ != name@,
            decreases n - i,
        {
            if self.entries[i].0 == *name {
                return true;
            }
            i += 1;
        }
        false
    }

    /// The color stored under exactly `name`, if any.
    #[verifier::loop_isolation(false)]
    pub fn get(&self, name: &String) -> (result: Option<Color>)
        requires
            self.wf(),
        ensures
            result == spec_get(self@, name@),
    {
        proof {
            lemma_map_of_domain(self.entries@, name@);
        }
        let n = self.entries.len();
        let mut i: usize = 0;
        while i < n
            invariant
                forall|j: int| 0 <= j < i ==> self.entries@[j].0@ != name@,
            decreases n - i,
        {
            if self.entries[i].0 == *name {
                proof {
                    lemma_map_of_value(self.entries@, i as int);
                }
                return Some(self.entries[i].1);
            }
            i += 1;
        }
        None
    }

    /// Stores `color` under `name`, replacing an entry that already carries
    /// `name`. The name must already be lowercase; the operations in
    /// `colors` and `parse` normalize before they store.
    #[verifier::loop_isolation(false)]
    pub(crate) fn set(&mut self, name: String, color: Color)
        requires
            old(self).wf(),
            normalized(name@),
        ensures
            final(self).wf(),
            final(self)@ == old(self)@.insert(name@, color),
    {
        let ghost orig = self.entries@;
        let n = self.entries.len();
        let mut i: usize = 0;
        while i < n
            invariant
                self.entries@ == orig,
                i <= n,
                forall|j: int| 0 <= j < i ==> self.entries@[j].0@ != name@,
            decreases n - i,
        {
            if self.entries[i].0 == name {
                let ghost hit = i as int;
                self.entries.set(i, (name, color));
                proof {
                    lemma_map_of_update(orig, hit, name, color);
                    assert forall|p: int, q: int|
                        0 <= p < q < self.entries@.len() implies self.entries@[p].0@
                        != self.entries@[q].0@ by {
                        assert(self.entries@[p].0@ == orig[p].0@);
                        assert(self.entries@[q].0@ == orig[q].0@);
                    }
                    assert forall|p: int| 0 <= p < self.entries@.len() implies normalized(
                        #[trigger] self.entries@[p].0@,
                    ) by {
                        assert(self.entries@[p].0@ == orig[p].0@);
                        assert(normalized(orig[p].0@));
                    }
                }
                return ;
            }
            i += 1;
        }
        self.entries.push((name, color));
        proof {
            lemma_map_of_push(orig, name, color);
            assert forall|p: int, q: int|
                0 <= p < q < self.entries@.len() implies self.entries@[p].0@
                != self.entries@[q].0@ by {
                if q < orig.len() {
                    assert(self.entries@[p] == orig[p]);
                    assert(self.entries@[q] == orig[q]);
                } else {
                    assert(self.entries@[p] == orig[p]);
                    assert(self.entries@[q].0@ == name@);
                }
            }
            assert forall|p: int| 0 <= p < self.entries@.len() implies normalized(
                #[trigger] self.entries@[p].0@,
            ) by {
                if p < orig.len() {
                    assert(self.entries@[p] == orig[p]);
                    assert(normalized(orig[p].0@));
                } else {
                    assert(self.entries@[p].0@ == name@);
                }
            }
        }
    }
}

} // verus!
