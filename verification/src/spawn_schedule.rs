use vstd::prelude::*;

verus! {

/// The positions, in ascending order, among the first `k` entries, that are
/// due and were not spawned before.
pub open spec fn newly_due(spawned: Seq<bool>, due: Seq<bool>, k: int) -> Seq<usize>
    decreases k,
{
    if k <= 0 {
        Seq::empty()
    } else {
        let before = newly_due(spawned, due, k - 1);
        if due[k - 1] && !spawned[k - 1] {
            before.push((k - 1) as usize)
        } else {
            before
        }
    }
}

/// The spawn marks after the due entries are spawned.
pub open spec fn after_spawning(spawned: Seq<bool>, due: Seq<bool>) -> Seq<bool> {
    Seq::new(spawned.len(), |i: int| spawned[i] || due[i])
}

/// Which entries of the spawn list have been spawned.
pub struct SpawnSchedule {
    generated: Vec<bool>,
}

impl View for SpawnSchedule {
    type V = Seq<bool>;

    closed spec fn view(&self) -> Seq<bool> {
        self.generated@
    }
}

impl SpawnSchedule {
    /// A schedule of `count` entries, none spawned.
    pub fn new(count: usize) -> (s: Self)
        ensures
            s@.len() == count,
            forall|i: int| 0 <= i < count ==> !#[trigger] s@[i],
    {
        let mut generated: Vec<bool> = Vec::new();
        for i in 0..count
            invariant
                generated@.len() == i,
                forall|j: int| 0 <= j < i ==> !#[trigger] generated@[j],
        {
            generated.push(false);
        }
        SpawnSchedule { generated }
    }

    /// The number of entries.
    pub fn len(&self) -> (n: usize)
        ensures
            n == self@.len(),
    {
        self.generated.len()
    }

    /// Spawns the entries whose time has come (`due[i]`) and that were not
    /// spawned yet: their positions are returned in list order, and they are
    /// marked as spawned.
    pub fn take_due(&mut self, due: &Vec<bool>) -> (spawn: Vec<usize>)
        requires
            due@.len() == old(self)@.len(),
        ensures
            spawn@ == newly_due(old(self)@, due@, due@.len() as int),
            final(self)@ == after_spawning(old(self)@, due@),
    {
        let n = self.generated.len();
        let ghost start = self.generated@;
        let mut spawn: Vec<usize> = Vec::new();
        for i in 0..n
            invariant
                n == start.len(),
                n == due@.len(),
                self.generated@.len() == n,
                spawn@ == newly_due(start, due@, i as int),
                forall|j: int| 0 <= j < i ==> #[trigger] self.generated@[j] == (start[j] || due@[j]),
                forall|j: int| i <= j < n ==> #[trigger] self.generated@[j] == start[j],
        {
            if due[i] && !self.generated[i] {
                spawn.push(i);
                self.generated.set(i, true);
            }
        }
        assert(self.generated@ =~= after_spawning(start, due@));
        spawn
    }
}

proof fn lemma_newly_due_contains(spawned: Seq<bool>, due: Seq<bool>, k: int, x: usize)
    requires
        0 <= k <= spawned.len(),
        k <= due.len(),
        k <= usize::MAX,
    ensures
        newly_due(spawned, due, k).contains(x) <==> (x < k && due[x as int] && !spawned[x as int]),
    decreases k,
{
    if k > 0 {
        lemma_newly_due_contains(spawned, due, k - 1, x);
        let before = newly_due(spawned, due, k - 1);
        if due[k - 1] && !spawned[k - 1] {
            let after = before.push((k - 1) as usize);
            if before.contains(x) {
                let m = choose|m: int| 0 <= m < before.len() && before[m] == x;
                assert(after[m] == x);
            }
            if x == k - 1 {
                assert(after[before.len() as int] == x);
            }
            if after.contains(x) && x != k - 1 {
                let m = choose|m: int| 0 <= m < after.len() && after[m] == x;
                assert(m < before.len());
                assert(before[m] == x);
            }
        }
    }
}

/// An entry of the spawn list is spawned at most once: an entry spawned by
/// one call is never spawned again by the next, whatever is due then.
pub proof fn lemma_spawned_once(spawned: Seq<bool>, due: Seq<bool>, later_due: Seq<bool>, x: usize)
    requires
        due.len() == spawned.len(),
        later_due.len() == spawned.len(),
        spawned.len() <= usize::MAX,
        newly_due(spawned, due, due.len() as int).contains(x),
    ensures
        !newly_due(after_spawning(spawned, due), later_due, later_due.len() as int).contains(x),
{
    lemma_newly_due_contains(spawned, due, due.len() as int, x);
    lemma_newly_due_contains(after_spawning(spawned, due), later_due, later_due.len() as int, x);
}

/// An entry that is due is spawned by the call unless it was spawned before.
pub proof fn lemma_due_spawned(spawned: Seq<bool>, due: Seq<bool>, x: usize)
    requires
        due.len() == spawned.len(),
        spawned.len() <= usize::MAX,
        x < due.len(),
        due[x as int],
        !spawned[x as int],
    ensures
        newly_due(spawned, due, due.len() as int).contains(x),
{
    lemma_newly_due_contains(spawned, due, due.len() as int, x);
}

} // verus!
