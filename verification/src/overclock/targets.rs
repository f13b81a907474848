//! One target per card, kept in the order of the cards' names.
use vstd::prelude::*;
use vstd::string::*;

use crate::overclock::plan::Target;
use crate::text;

verus! {

#[derive(Debug, Clone)]
pub struct Entry {
    pub gpu: String,
    pub target: Target,
}

/// A target for some of the cards. No card occurs twice, and the cards stand
/// in the order of their names.
#[derive(Debug, Clone)]
pub struct TargetMap {
    entries: Vec<Entry>,
}

pub open spec fn has_card(entries: Seq<Entry>, gpu: Seq<char>) -> bool {
    exists|i: int| 0 <= i < entries.len() && (#[trigger] entries[i]).gpu@ == gpu
}

pub open spec fn place_of(entries: Seq<Entry>, gpu: Seq<char>) -> int {
    choose|i: int| 0 <= i < entries.len() && (#[trigger] entries[i]).gpu@ == gpu
}

pub open spec fn as_map(entries: Seq<Entry>) -> Map<Seq<char>, Target> {
    Map::new(
        |gpu: Seq<char>| has_card(entries, gpu),
        |gpu: Seq<char>| entries[place_of(entries, gpu)].target,
    )
}

pub open spec fn in_order(entries: Seq<Entry>) -> bool {
    forall|i: int, j: int|
        0 <= i < j < entries.len() ==> text::precedes(
            (#[trigger] entries[i]).gpu@,
            (#[trigger] entries[j]).gpu@,
        )
}

impl View for TargetMap {
    type V = Map<Seq<char>, Target>;

    closed spec fn view(&self) -> Map<Seq<char>, Target> {
        as_map(self.entries@)
    }
}

proof fn lemma_unique(entries: Seq<Entry>, i: int)
    requires
        in_order(entries),
        0 <= i < entries.len(),
    ensures
        as_map(entries).dom().contains(entries[i].gpu@),
        as_map(entries)[entries[i].gpu@] == entries[i].target,
{
    let gpu = entries[i].gpu@;
    assert(has_card(entries, gpu));
    let p = place_of(entries, gpu);
    if p < i {
        text::lemma_not_before_itself(gpu);
    } else if i < p {
        text::lemma_not_before_itself(gpu);
    }
}

impl TargetMap {
    pub closed spec fn wf(&self) -> bool {
        in_order(self.entries@)
    }

    /// The entries, in the order of the cards' names.
    pub closed spec fn listed(&self) -> Seq<Entry> {
        self.entries@
    }

    pub proof fn lemma_listed(&self)
        requires
            self.wf(),
        ensures
            in_order(self.listed()),
            self@ == as_map(self.listed()),
            forall|i: int|
                0 <= i < self.listed().len() ==> self@.dom().contains(
                    (#[trigger] self.listed()[i]).gpu@,
                ) && self@[self.listed()[i].gpu@] == self.listed()[i].target,
            forall|gpu: Seq<char>| #[trigger]
                self@.dom().contains(gpu) ==> exists|i: int|
                    0 <= i < self.listed().len() && (#[trigger] self.listed()[i]).gpu@ == gpu,
    {
        assert forall|i: int| 0 <= i < self.listed().len() implies self@.dom().contains(
            (#[trigger] self.listed()[i]).gpu@,
        ) && self@[self.listed()[i].gpu@] == self.listed()[i].target by {
            lemma_unique(self.entries@, i);
        }
    }

    pub fn new() -> (r: TargetMap)
        ensures
            r.wf(),
            r@ == Map::<Seq<char>, Target>::empty(),
            r.listed() == Seq::<Entry>::empty(),
    {
        let r = TargetMap { entries: Vec::new() };
        proof {
            assert(r@ =~= Map::<Seq<char>, Target>::empty());
            assert(r.listed() =~= Seq::<Entry>::empty());
        }
        r
    }

    pub fn len(&self) -> (r: usize)
        ensures
            r == self.listed().len(),
    {
        self.entries.len()
    }

    pub fn is_empty(&self) -> (r: bool)
        requires
            self.wf(),
        ensures
            r == (self.listed().len() == 0),
            r == (self@ == Map::<Seq<char>, Target>::empty()),
    {
        proof {
            self.lemma_listed();
            if self.listed().len() == 0 {
                assert(self@ =~= Map::<Seq<char>, Target>::empty());
            } else {
                assert(self@.dom().contains(self.listed()[0].gpu@));
            }
        }
        self.entries.len() == 0
    }

    pub fn at(&self, i: usize) -> (r: &Entry)
        requires
            i < self.listed().len(),
        ensures
            *r == self.listed()[i as int],
    {
        &self.entries[i]
    }

    pub fn get(&self, gpu: &str) -> (r: Option<Target>)
        requires
            self.wf(),
        ensures
            match r {
                Some(t) => self@.dom().contains(gpu@) && self@[gpu@] == t,
                None => !self@.dom().contains(gpu@),
            },
    {
        let n: usize = self.entries.len();
        let mut i: usize = 0;
        while i < n
            invariant
                self.wf(),
                n == self.entries@.len(),
                i <= n,
                forall|k: int| 0 <= k < i ==> (#[trigger] self.entries@[k]).gpu@ != gpu@,
            decreases n - i,
        {
            if text::same(self.entries[i].gpu.as_str(), gpu) {
                proof {
                    lemma_unique(self.entries@, i as int);
                }
                return Some(self.entries[i].target);
            }
            i = i + 1;
        }
        None
    }

    pub fn insert(&mut self, gpu: &str, target: Target)
        requires
            old(self).wf(),
        ensures
            final(self).wf(),
            final(self)@ == old(self)@.insert(gpu@, target),
    {
        let ghost before = self.entries@;
        let name = text::chars_of(gpu);
        let n: usize = self.entries.len();
        let mut i: usize = 0;
        while i < n
            invariant
                before == self.entries@,
                in_order(before),
                name@ == gpu@,
                n == before.len(),
                i <= n,
                forall|k: int| 0 <= k < i ==> text::precedes((#[trigger] before[k]).gpu@, gpu@),
            ensures
                i <= n,
                before == self.entries@,
                forall|k: int| 0 <= k < i ==> text::precedes((#[trigger] before[k]).gpu@, gpu@),
                i == n || !text::precedes(before[i as int].gpu@, gpu@),
            decreases n - i,
        {
            let here = text::chars_of(self.entries[i].gpu.as_str());
            if !text::comes_before(&here, &name) {
                break;
            }
            i = i + 1;
        }
        if i < n && text::same(self.entries[i].gpu.as_str(), gpu) {
            let entry = Entry { gpu: String::from_str(gpu), target };
            self.entries.set(i, entry);
            proof {
                let after = self.entries@;
                assert(forall|k: int| 0 <= k < n ==> (#[trigger] after[k]).gpu@ == before[k].gpu@);
                assert(in_order(after)) by {
                    assert forall|a: int, b: int| 0 <= a < b < after.len() implies text::precedes(
                        (#[trigger] after[a]).gpu@,
                        (#[trigger] after[b]).gpu@,
                    ) by {
                        assert(text::precedes(before[a].gpu@, before[b].gpu@));
                    }
                }
                lemma_same_map(before, after, i as int, gpu@, target);
            }
        } else {
            let entry = Entry { gpu: String::from_str(gpu), target };
            self.entries.insert(i, entry);
            proof {
                let after = self.entries@;
                assert(after == before.insert(i as int, after[i as int]));
                assert forall|k: int| i <= k < n implies text::precedes(
                    gpu@,
                    (#[trigger] before[k]).gpu@,
                ) by {
                    text::lemma_precedes_total(before[i as int].gpu@, gpu@);
                    if k > i {
                        text::lemma_precedes_transitive(gpu@, before[i as int].gpu@, before[k].gpu@);
                    }
                }
                assert(in_order(after)) by {
                    assert forall|a: int, b: int| 0 <= a < b < after.len() implies text::precedes(
                        (#[trigger] after[a]).gpu@,
                        (#[trigger] after[b]).gpu@,
                    ) by {
                        let p = if a < i {
                            a
                        } else {
                            a - 1
                        };
                        let q = if b < i {
                            b
                        } else {
                            b - 1
                        };
                        if a != i {
                            assert(after[a] == before[p]);
                        }
                        if b != i {
                            assert(after[b] == before[q]);
                        }
                    }
                }
                lemma_grown_map(before, after, i as int, gpu@, target);
            }
        }
    }
}

proof fn lemma_same_map(
    before: Seq<Entry>,
    after: Seq<Entry>,
    i: int,
    gpu: Seq<char>,
    target: Target,
)
    requires
        in_order(before),
        in_order(after),
        0 <= i < before.len(),
        after.len() == before.len(),
        before[i].gpu@ == gpu,
        after[i].gpu@ == gpu,
        after[i].target == target,
        forall|k: int| 0 <= k < before.len() && k != i ==> after[k] == before[k],
    ensures
        as_map(after) == as_map(before).insert(gpu, target),
{
    assert forall|g: Seq<char>| as_map(after).dom().contains(g) == as_map(before).insert(
        gpu,
        target,
    ).dom().contains(g) by {
        if has_card(after, g) {
            let p = place_of(after, g);
            if p != i {
                assert(before[p].gpu@ == g);
            }
        }
        if has_card(before, g) {
            let p = place_of(before, g);
            if p != i {
                assert(after[p].gpu@ == g);
            } else {
                assert(after[i].gpu@ == g);
            }
        }
        if g == gpu {
            assert(after[i].gpu@ == g);
        }
    }
    assert forall|g: Seq<char>| as_map(after).dom().contains(g) implies as_map(after)[g]
        == as_map(before).insert(gpu, target)[g] by {
        let p = place_of(after, g);
        lemma_unique(after, p);
        if p != i {
            lemma_unique(before, p);
        }
        if g == gpu {
            lemma_unique(after, i);
        } else {
            assert(p != i);
        }
    }
    assert(as_map(after) =~= as_map(before).insert(gpu, target));
}

proof fn lemma_grown_map(
    before: Seq<Entry>,
    after: Seq<Entry>,
    i: int,
    gpu: Seq<char>,
    target: Target,
)
    requires
        in_order(before),
        in_order(after),
        0 <= i <= before.len(),
        after.len() == before.len() + 1,
        after[i].gpu@ == gpu,
        after[i].target == target,
        forall|k: int| 0 <= k < i ==> after[k] == before[k],
        forall|k: int| i <= k < before.len() ==> after[k + 1] == before[k],
    ensures
        as_map(after) == as_map(before).insert(gpu, target),
{
    assert forall|g: Seq<char>| as_map(after).dom().contains(g) == as_map(before).insert(
        gpu,
        target,
    ).dom().contains(g) by {
        if has_card(after, g) {
            let p = place_of(after, g);
            if p < i {
                assert(before[p].gpu@ == g);
            } else if p > i {
                assert(after[p - 1 + 1] == before[p - 1]);
                assert(before[p - 1].gpu@ == g);
            }
        }
        if has_card(before, g) {
            let p = place_of(before, g);
            if p < i {
                assert(after[p].gpu@ == g);
            } else {
                assert(after[p + 1].gpu@ == g);
            }
        }
        if g == gpu {
            assert(after[i].gpu@ == g);
        }
    }
    assert forall|g: Seq<char>| as_map(after).dom().contains(g) implies as_map(after)[g]
        == as_map(before).insert(gpu, target)[g] by {
        let p = place_of(after, g);
        lemma_unique(after, p);
        if p < i {
            lemma_unique(before, p);
        } else if p > i {
            assert(after[p - 1 + 1] == before[p - 1]);
            lemma_unique(before, p - 1);
        }
        if g == gpu {
            lemma_unique(after, i);
        } else {
            assert(p != i);
        }
    }
    assert(as_map(after) =~= as_map(before).insert(gpu, target));
}

} // verus!
