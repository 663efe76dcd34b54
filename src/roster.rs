use vstd::prelude::*;

verus! {

/// One participant of the fight.
pub struct Combatant {
    pub name: String,
    pub initiative: i32,
    pub hp: i32,
}

/// What a combatant is, as a mathematical value.
pub struct Entry {
    pub name: Seq<char>,
    pub initiative: i32,
    pub hp: i32,
}

impl View for Combatant {
    type V = Entry;

    open spec fn view(&self) -> Entry {
        Entry { name: self.name@, initiative: self.initiative, hp: self.hp }
    }
}

/// The roster as a sequence of entries.
pub open spec fn entries(v: Seq<Combatant>) -> Seq<Entry> {
    v.map_values(|c: Combatant| c@)
}

/// Index one step after `i` in a cycle of length `n`.
pub open spec fn next_index(i: int, n: int) -> int {
    if i + 1 >= n {
        0
    } else {
        i + 1
    }
}

/// Index one step before `i` in a cycle of length `n`.
pub open spec fn prev_index(i: int, n: int) -> int {
    if i <= 0 {
        n - 1
    } else {
        i - 1
    }
}

/// Where a cursor lands once the roster has shrunk to `n` entries.
pub open spec fn clamp_index(i: int, n: int) -> int {
    if n > 0 && i >= n {
        n - 1
    } else {
        i
    }
}

/// Moves an index forward by one, wrapping to zero past the end.
pub fn step_forward(i: usize, n: usize) -> (r: usize)
    requires
        i < n,
    ensures
        r == next_index(i as int, n as int),
        r < n,
{
    if i + 1 >= n {
        0
    } else {
        i + 1
    }
}

/// Moves an index back by one, wrapping to the last place before zero.
pub fn step_back(i: usize, n: usize) -> (r: usize)
    requires
        i < n,
    ensures
        r == prev_index(i as int, n as int),
        r < n,
{
    if i == 0 {
        n - 1
    } else {
        i - 1
    }
}

/// Keeps a cursor inside a roster that now has `n` entries.
pub fn clamp_cursor(i: usize, n: usize) -> (r: usize)
    ensures
        r == clamp_index(i as int, n as int),
        n > 0 ==> r < n,
        n > 0 && i < n ==> r == i,
{
    if n > 0 && i >= n {
        n - 1
    } else {
        i
    }
}

/// `k` steps forward from `i` in a cycle of length `n`.
pub open spec fn advance(i: int, n: int, k: nat) -> int
    decreases k,
{
    if k == 0 {
        i
    } else {
        next_index(advance(i, n, (k - 1) as nat), n)
    }
}

/// Stepping forward `k` times (at most a full cycle) from `i` is adding `k`
/// and wrapping once.
pub proof fn lemma_advance(i: int, n: int, k: nat)
    requires
        0 <= i < n,
        k <= n,
    ensures
        advance(i, n, k) == if i + k < n { i + k } else { i + k - n },
    decreases k,
{
    if k > 0 {
        lemma_advance(i, n, (k - 1) as nat);
    }
}

/// A full cycle of forward steps comes back to where it started.
pub proof fn lemma_full_cycle(i: int, n: int)
    requires
        0 <= i < n,
    ensures
        advance(i, n, n as nat) == i,
{
    lemma_advance(i, n, n as nat);
}

/// Higher initiative comes first.
pub open spec fn by_initiative(r: Seq<Entry>) -> bool {
    forall|i: int, j: int| 0 <= i < j < r.len() ==> r[i].initiative >= r[j].initiative
}

/// Seats `c` in a roster ordered by initiative: after every combatant whose
/// initiative is at least as high, before the rest. Returns where it went.
pub fn seat(roster: &mut Vec<Combatant>, c: Combatant) -> (p: usize)
    requires
        by_initiative(entries(old(roster)@)),
    ensures
        p <= old(roster)@.len(),
        forall|j: int| 0 <= j < p ==> entries(old(roster)@)[j].initiative >= c.initiative,
        forall|j: int| p <= j < old(roster)@.len() ==> entries(old(roster)@)[j].initiative < c.initiative,
        entries(final(roster)@) == entries(old(roster)@).insert(p as int, c@),
        by_initiative(entries(final(roster)@)),
{
    let n = roster.len();
    let mut p: usize = 0;
    while p < n && roster[p].initiative >= c.initiative
        invariant
            n == roster@.len(),
            p <= n,
            forall|j: int| 0 <= j < p ==> roster@[j].initiative >= c.initiative,
        decreases n - p,
    {
        p = p + 1;
    }
    let ghost before = entries(roster@);
    proof {
        assert forall|j: int| p <= j < n implies roster@[j].initiative < c.initiative by {
            if j > p {
                assert(before[p as int].initiative >= before[j].initiative);
            }
        }
    }
    let ghost k = c.initiative;
    let ghost e = c@;
    roster.insert(p, c);
    assert(entries(roster@) =~= before.insert(p as int, e));
    p
}

} // verus!
