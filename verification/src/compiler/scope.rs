//! Splitting a GLSL graph into scopes: for each branch condition, the
//! islands of expressions that only the branch's two sides use.

use vstd::prelude::*;
use crate::compiler::analysis::{GlslExpr, GlslGraph, GlslType, count_of, expr_deps, readers};

verus! {

/// How many times entry `y` is read.
pub open spec fn uses(entries: Seq<(GlslExpr, GlslType)>, y: int) -> int {
    readers(entries, y, entries.len()).len() as int
}

/// Where an island search stands: for each entry, its remaining uses if it
/// is waiting; for each entry, whether it is in the island; and the entries
/// that joined last and whose operands are yet to be visited, in order.
pub struct IslandState {
    pub waiting: Seq<Option<int>>,
    pub island: Seq<bool>,
    pub exits: Seq<u32>,
}

/// The entries below `k` with `p`, in order.
pub open spec fn marked_upto(p: Seq<bool>, k: nat) -> Seq<u32>
    decreases k,
{
    if k == 0 {
        Seq::empty()
    } else if p[k - 1] {
        marked_upto(p, (k - 1) as nat).push((k - 1) as u32)
    } else {
        marked_upto(p, (k - 1) as nat)
    }
}

/// Where an island search starts from the entries in `start`: those read
/// once are in the island at once; those read more often wait for all but
/// one of their readers.
pub open spec fn island_init(entries: Seq<(GlslExpr, GlslType)>, start: Set<u32>) -> IslandState {
    let n = entries.len();
    let island = Seq::new(n, |y: int| start.contains(y as u32) && uses(entries, y) == 1);
    IslandState {
        waiting: Seq::new(n, |y: int| if start.contains(y as u32) && uses(entries, y) > 1 {
            Some(uses(entries, y) - 1)
        } else {
            None
        }),
        island,
        exits: marked_upto(island, n),
    }
}

/// How many times the operands of the entries `exits` name entry `y`.
pub open spec fn visits(entries: Seq<(GlslExpr, GlslType)>, exits: Seq<u32>, y: int) -> nat
    decreases exits.len(),
{
    if exits.len() == 0 {
        0
    } else {
        visits(entries, exits.drop_last(), y) + count_of(expr_deps(entries[exits.last() as int].0), y as u32)
    }
}

/// The uses of `y` left before a round: what it waits for, or all its uses
/// if it is not waiting.
pub open spec fn uses_left(entries: Seq<(GlslExpr, GlslType)>, st: IslandState, y: int) -> int {
    match st.waiting[y] {
        Some(c) => c,
        None => uses(entries, y),
    }
}

/// What `y` waits for after the operands of the exits are visited.
pub open spec fn waiting_after(entries: Seq<(GlslExpr, GlslType)>, st: IslandState, y: int) -> Option<int> {
    if visits(entries, st.exits, y) > 0 {
        Some(uses_left(entries, st, y) - visits(entries, st.exits, y))
    } else {
        st.waiting[y]
    }
}

/// One round: every operand of an exit uses up one use of what it names;
/// the entries left with no use join the island and are the next exits.
pub open spec fn island_round(entries: Seq<(GlslExpr, GlslType)>, st: IslandState) -> IslandState {
    let n = st.waiting.len();
    let done = Seq::new(n, |y: int| waiting_after(entries, st, y) == Some(0int));
    IslandState {
        waiting: Seq::new(n, |y: int| if done[y] { None } else { waiting_after(entries, st, y) }),
        island: Seq::new(n, |y: int| st.island[y] || done[y]),
        exits: marked_upto(done, n),
    }
}

/// A round never uses up more uses of an entry than it has left.
pub open spec fn round_ok(entries: Seq<(GlslExpr, GlslType)>, st: IslandState) -> bool {
    forall|y: int| 0 <= y < st.waiting.len() && #[trigger] visits(entries, st.exits, y) > 0 ==>
        visits(entries, st.exits, y) <= uses_left(entries, st, y)
}

/// The search after at most `fuel` rounds, stopping once there are no exits.
pub open spec fn island_run(entries: Seq<(GlslExpr, GlslType)>, st: IslandState, fuel: nat) -> IslandState
    decreases fuel,
{
    if st.exits.len() == 0 || fuel == 0 {
        st
    } else {
        island_run(entries, island_round(entries, st), (fuel - 1) as nat)
    }
}

/// No round of the search within `fuel` rounds uses up more than is left.
pub open spec fn island_run_ok(entries: Seq<(GlslExpr, GlslType)>, st: IslandState, fuel: nat) -> bool
    decreases fuel,
{
    st.exits.len() == 0 || fuel == 0 || (round_ok(entries, st) && island_run_ok(entries, island_round(entries, st), (fuel - 1) as nat))
}

/// The island grown from `start`: the entries of `start` and those reached
/// from them all of whose uses were visited, by membership.
pub open spec fn island_of(entries: Seq<(GlslExpr, GlslType)>, start: Set<u32>) -> Seq<bool> {
    island_run(entries, island_init(entries, start), entries.len() + 1).island
}

/// The search from `start` can run: every entry of `start` exists and is
/// read, and no round uses up more than is left.
pub open spec fn island_ok(entries: Seq<(GlslExpr, GlslType)>, start: Set<u32>) -> bool {
    &&& forall|y: u32| #[trigger] start.contains(y) ==> y < entries.len() && uses(entries, y as int) >= 1
    &&& island_run_ok(entries, island_init(entries, start), entries.len() + 1)
}

/// The view of one waiting count kept by the search.
pub open spec fn count_view(c: Option<usize>) -> Option<int> {
    match c {
        Some(v) => Some(v as int),
        None => None,
    }
}

/// The view of the waiting counts kept by the search.
pub open spec fn counts_view(w: Seq<Option<usize>>) -> Seq<Option<int>> {
    w.map_values(|c: Option<usize>| count_view(c))
}

/// What holds of every state of a search over `n` entries: waiting entries
/// wait for at least one use, and the exits are increasing entries.
pub open spec fn state_inv(st: IslandState, n: nat) -> bool {
    &&& st.waiting.len() == n
    &&& st.island.len() == n
    &&& forall|y: int| 0 <= y < n ==> (#[trigger] st.waiting[y] matches Some(c) ==> c > 0)
    &&& forall|j: int| 0 <= j < st.exits.len() ==> #[trigger] st.exits[j] < n
    &&& forall|i: int, j: int| 0 <= i < j < st.exits.len() ==> #[trigger] st.exits[i] < #[trigger] st.exits[j]
}

proof fn lemma_marked(p: Seq<bool>, k: nat)
    requires
        k <= p.len(),
        k <= u32::MAX + 1,
    ensures
        forall|j: int| 0 <= j < marked_upto(p, k).len() ==> #[trigger] marked_upto(p, k)[j] < k
            && p[marked_upto(p, k)[j] as int],
        forall|i: int, j: int| 0 <= i < j < marked_upto(p, k).len() ==>
            #[trigger] marked_upto(p, k)[i] < #[trigger] marked_upto(p, k)[j],
    decreases k,
{
    if k > 0 {
        lemma_marked(p, (k - 1) as nat);
        let prev = marked_upto(p, (k - 1) as nat);
        let cur = marked_upto(p, k);
        if p[k - 1] {
            assert(cur == prev.push((k - 1) as u32));
            assert(((k - 1) as u32) as int == k - 1);
            assert forall|j: int| 0 <= j < cur.len() implies #[trigger] cur[j] < k && p[cur[j] as int] by {
                if j < prev.len() {
                    assert(cur[j] == prev[j]);
                }
            }
            assert forall|i: int, j: int| 0 <= i < j < cur.len() implies #[trigger] cur[i] < #[trigger] cur[j] by {
                if j < prev.len() {
                    assert(cur[i] == prev[i] && cur[j] == prev[j]);
                } else {
                    assert(cur[i] == prev[i]);
                }
            }
        }
    }
}

proof fn lemma_count_pos(s: Seq<u32>, a: u32)
    requires
        count_of(s, a) > 0,
    ensures
        exists|j: int| 0 <= j < s.len() && s[j] == a,
    decreases s.len(),
{
    if s.last() != a {
        lemma_count_pos(s.drop_last(), a);
        let j = choose|j: int| 0 <= j < s.drop_last().len() && s.drop_last()[j] == a;
        assert(s[j] == a);
    } else {
        assert(s[s.len() - 1] == a);
    }
}

proof fn lemma_visits_below(entries: Seq<(GlslExpr, GlslType)>, exits: Seq<u32>, y: int, bound: u32)
    requires
        crate::compiler::analysis::reads_backward(entries),
        forall|j: int| 0 <= j < exits.len() ==> #[trigger] exits[j] < entries.len() && exits[j] <= bound,
        visits(entries, exits, y) > 0,
        0 <= y <= u32::MAX,
    ensures
        y < bound,
    decreases exits.len(),
{
    let last = exits.last();
    if count_of(expr_deps(entries[last as int].0), y as u32) > 0 {
        lemma_count_pos(expr_deps(entries[last as int].0), y as u32);
        let j = choose|j: int| 0 <= j < expr_deps(entries[last as int].0).len()
            && expr_deps(entries[last as int].0)[j] == y as u32;
        assert(exits[exits.len() - 1] == last);
        assert(expr_deps(entries[last as int].0)[j] < last);
        assert((y as u32) as int == y);
    } else {
        lemma_visits_below(entries, exits.drop_last(), y, bound);
    }
}

proof fn lemma_round_state(entries: Seq<(GlslExpr, GlslType)>, st: IslandState)
    requires
        crate::compiler::analysis::reads_backward(entries),
        entries.len() <= u32::MAX,
        state_inv(st, entries.len()),
        round_ok(entries, st),
        st.exits.len() > 0,
    ensures
        state_inv(island_round(entries, st), entries.len()),
        island_round(entries, st).exits.len() > 0 ==> island_round(entries, st).exits.last() < st.exits.last(),
{
    let n = entries.len();
    let next = island_round(entries, st);
    let done = Seq::new(n, |y: int| waiting_after(entries, st, y) == Some(0int));
    lemma_marked(done, n);
    assert forall|y: int| 0 <= y < n implies (#[trigger] next.waiting[y] matches Some(c) ==> c > 0) by {
        if visits(entries, st.exits, y) > 0 {
            assert(visits(entries, st.exits, y) <= uses_left(entries, st, y));
        }
    }
    if next.exits.len() > 0 {
        let y = next.exits.last() as int;
        assert(next.exits[next.exits.len() - 1] == y);
        assert(done[y]);
        assert(visits(entries, st.exits, y) > 0) by {
            if visits(entries, st.exits, y) <= 0 {
                assert(st.waiting[y] == Some(0int));
            }
        }
        assert forall|j: int| 0 <= j < st.exits.len() implies #[trigger] st.exits[j] < entries.len()
            && st.exits[j] <= st.exits.last() by {
            if j < st.exits.len() - 1 {
                assert(st.exits[j] < st.exits[st.exits.len() - 1]);
            }
        }
        lemma_visits_below(entries, st.exits, y, st.exits.last());
    }
}

proof fn lemma_init_state(entries: Seq<(GlslExpr, GlslType)>, start: Set<u32>)
    requires
        entries.len() <= u32::MAX,
    ensures
        state_inv(island_init(entries, start), entries.len()),
{
    let st = island_init(entries, start);
    lemma_marked(st.island, entries.len());
}

proof fn lemma_count_prefix_le(s: Seq<u32>, a: u32, j: int)
    requires
        0 <= j <= s.len(),
    ensures
        count_of(s.take(j), a) <= count_of(s, a),
    decreases s.len() - j,
{
    if j < s.len() {
        lemma_count_prefix_le(s, a, j + 1);
        assert(s.take(j + 1).drop_last() =~= s.take(j));
    } else {
        assert(s.take(j) =~= s);
    }
}

proof fn lemma_visits_prefix_le(entries: Seq<(GlslExpr, GlslType)>, exits: Seq<u32>, y: int, k: int)
    requires
        0 <= k <= exits.len(),
    ensures
        visits(entries, exits.take(k), y) <= visits(entries, exits, y),
    decreases exits.len() - k,
{
    if k < exits.len() {
        lemma_visits_prefix_le(entries, exits, y, k + 1);
        assert(exits.take(k + 1).drop_last() =~= exits.take(k));
    } else {
        assert(exits.take(k) =~= exits);
    }
}

/// Grows an island from `start`, by membership of each entry.
fn extend_island(graph: &GlslGraph, start: &Vec<u32>) -> (island: Vec<bool>)
    requires
        graph.wf(),
        island_ok(graph.entries(), start@.to_set()),
    ensures
        island@ == island_of(graph.entries(), start@.to_set()),
        island@.len() == graph.entries().len(),
{
    let ghost entries = graph.entries();
    let ghost sset = start@.to_set();
    let n = graph.len();
    let mut in_start: Vec<bool> = Vec::new();
    while in_start.len() < n
        invariant
            in_start@.len() <= n,
            n == entries.len(),
            forall|y: int| 0 <= y < in_start@.len() ==> !#[trigger] in_start@[y],
        decreases n - in_start@.len(),
    {
        in_start.push(false);
    }
    let mut i: usize = 0;
    while i < start.len()
        invariant
            i <= start@.len(),
            n == entries.len(),
            in_start@.len() == n,
            sset == start@.to_set(),
            n <= u32::MAX,
            forall|y: u32| #[trigger] sset.contains(y) ==> y < n,
            forall|y: int| 0 <= y < n ==> (#[trigger] in_start@[y] <==> exists|t: int| 0 <= t < i && start@[t] == y as u32),
        decreases start@.len() - i,
    {
        let x = start[i];
        assert(start@.contains(x));
        assert(sset.contains(x));
        let ghost before = in_start@;
        in_start.set(x as usize, true);
        assert forall|y: int| 0 <= y < n implies (#[trigger] in_start@[y] <==> exists|t: int| 0 <= t < i + 1 && start@[t] == y as u32) by {
            if y == x as int {
                assert(start@[i as int] == y as u32);
            } else {
                assert(in_start@[y] == before[y]);
                assert((y as u32) as int == y);
                if exists|t: int| 0 <= t < i + 1 && start@[t] == y as u32 {
                    let t = choose|t: int| 0 <= t < i + 1 && start@[t] == y as u32;
                    assert(t != i);
                }
            }
        }
        i += 1;
    }
    assert forall|y: int| 0 <= y < n implies (#[trigger] in_start@[y] <==> sset.contains(y as u32)) by {
        if sset.contains(y as u32) {
            assert(start@.contains(y as u32));
            let t = choose|t: int| 0 <= t < start@.len() && start@[t] == y as u32;
        }
    }
    let ghost init = island_init(entries, sset);
    let mut waiting: Vec<Option<usize>> = Vec::new();
    let mut island: Vec<bool> = Vec::new();
    let mut exits: Vec<u32> = Vec::new();
    let mut y: usize = 0;
    while y < n
        invariant
            y <= n,
            n == entries.len() <= u32::MAX,
            graph.wf(),
            entries == graph.entries(),
            in_start@.len() == n,
            forall|z: int| 0 <= z < n ==> (#[trigger] in_start@[z] <==> sset.contains(z as u32)),
            forall|z: u32| #[trigger] sset.contains(z) ==> z < n && uses(entries, z as int) >= 1,
            init == island_init(entries, sset),
            waiting@.len() == y,
            island@.len() == y,
            forall|z: int| 0 <= z < y ==> #[trigger] counts_view(waiting@)[z] == init.waiting[z],
            forall|z: int| 0 <= z < y ==> #[trigger] island@[z] == init.island[z],
            exits@ == marked_upto(init.island, y as nat),
        decreases n - y,
    {
        let ghost before = waiting@;
        if in_start[y] {
            let c = graph.forward_count(y as u32);
            assert(c as int == uses(entries, y as int));
            assert(sset.contains(y as u32));
            if c == 1 {
                waiting.push(None);
                island.push(true);
                exits.push(y as u32);
            } else {
                waiting.push(Some(c - 1));
                island.push(false);
            }
            assert(count_view(waiting@[y as int]) == init.waiting[y as int]);
        } else {
            waiting.push(None);
            island.push(false);
            assert(!sset.contains(y as u32));
            assert(count_view(waiting@[y as int]) == init.waiting[y as int]);
        }
        proof {
            assert forall|z: int| 0 <= z < y + 1 implies #[trigger] counts_view(waiting@)[z] == init.waiting[z] by {
                assert(counts_view(waiting@)[z] == count_view(waiting@[z]));
                if z < y {
                    assert(waiting@[z] == before[z]);
                    assert(counts_view(before)[z] == count_view(before[z]));
                }
            }
        }
        y += 1;
    }
    assert(counts_view(waiting@) =~= init.waiting);
    assert(island@ =~= init.island);
    proof {
        lemma_init_state(entries, sset);
    }
    let ghost mut st = init;
    let ghost mut fuel: nat = (n + 1) as nat;
    while exits.len() > 0
        invariant
            n == entries.len() <= u32::MAX,
            graph.wf(),
            entries == graph.entries(),
            state_inv(st, n as nat),
            counts_view(waiting@) == st.waiting,
            island@ == st.island,
            exits@ == st.exits,
            waiting@.len() == n,
            island@.len() == n,
            island_run(entries, init, (n + 1) as nat) == island_run(entries, st, fuel),
            island_run_ok(entries, st, fuel),
            st.exits.len() > 0 ==> st.exits.last() < fuel,
        decreases fuel,
    {
        proof {
            lemma_round_state(entries, st);
        }
        let ghost st0 = st;
        let mut k: usize = 0;
        while k < exits.len()
            invariant
                n == entries.len() <= u32::MAX,
                graph.wf(),
                entries == graph.entries(),
                state_inv(st0, n as nat),
                round_ok(entries, st0),
                exits@ == st0.exits,
                k <= exits@.len(),
                waiting@.len() == n,
                forall|z: int| 0 <= z < n ==> #[trigger] counts_view(waiting@)[z] == (if visits(entries, st0.exits.take(k as int), z) > 0 {
                    Some(uses_left(entries, st0, z) - visits(entries, st0.exits.take(k as int), z))
                } else {
                    st0.waiting[z]
                }),
            decreases exits@.len() - k,
        {
            let e = exits[k];
            let back = graph.backward(e);
            let ghost deps = expr_deps(entries[e as int].0);
            proof {
                assert(st0.exits.take(k as int + 1).drop_last() =~= st0.exits.take(k as int));
            }
            let mut j: usize = 0;
            while j < back.len()
                invariant
                    n == entries.len() <= u32::MAX,
                    graph.wf(),
                    entries == graph.entries(),
                    state_inv(st0, n as nat),
                    round_ok(entries, st0),
                    exits@ == st0.exits,
                    k < exits@.len(),
                    e == st0.exits[k as int],
                    back@ == deps,
                    deps == expr_deps(entries[e as int].0),
                    j <= back@.len(),
                    waiting@.len() == n,
                    forall|z: int| 0 <= z < n ==> #[trigger] counts_view(waiting@)[z] == (if visits(entries, st0.exits.take(k as int), z)
                        + count_of(deps.take(j as int), z as u32) > 0 {
                        Some(uses_left(entries, st0, z) - (visits(entries, st0.exits.take(k as int), z)
                            + count_of(deps.take(j as int), z as u32)))
                    } else {
                        st0.waiting[z]
                    }),
                decreases back@.len() - j,
            {
                let x = back[j];
                proof {
                    assert(st0.exits.take(k as int + 1).drop_last() =~= st0.exits.take(k as int));
                    assert(st0.exits.take(k as int + 1).last() == e);
                    assert(deps.take(j as int + 1).last() == x);
                    assert(crate::compiler::analysis::reads_backward(entries));
                    assert(x < e);
                    assert(deps.take(j as int + 1).drop_last() =~= deps.take(j as int));
                    lemma_count_prefix_le(deps, x, j as int + 1);
                    assert(count_of(deps.take(j as int + 1), x) >= 1);
                    assert(count_of(deps, x) >= 1);
                    lemma_visits_prefix_le(entries, st0.exits, x as int, k as int + 1);
                    assert(visits(entries, st0.exits.take(k as int + 1), x as int)
                        == visits(entries, st0.exits.take(k as int), x as int) + count_of(deps, x));
                    assert(visits(entries, st0.exits, x as int) > 0);
                }
                let cur: usize = match waiting[x as usize] {
                    Some(c) => c,
                    None => graph.forward_count(x),
                };
                proof {
                    assert(counts_view(waiting@)[x as int] == count_view(waiting@[x as int]));
                }
                let ghost before = waiting@;
                waiting.set(x as usize, Some(cur - 1));
                proof {
                    assert forall|z: int| 0 <= z < n implies #[trigger] counts_view(waiting@)[z] == (if visits(entries, st0.exits.take(k as int), z)
                        + count_of(deps.take(j as int + 1), z as u32) > 0 {
                        Some(uses_left(entries, st0, z) - (visits(entries, st0.exits.take(k as int), z)
                            + count_of(deps.take(j as int + 1), z as u32)))
                    } else {
                        st0.waiting[z]
                    }) by {
                        assert(counts_view(waiting@)[z] == count_view(waiting@[z]));
                        assert(counts_view(before)[z] == count_view(before[z]));
                        if z != x as int {
                            assert(waiting@[z] == before[z]);
                            assert((z as u32) != x);
                            assert(count_of(deps.take(j as int + 1), z as u32) == count_of(deps.take(j as int), z as u32));
                        } else {
                            assert(count_of(deps.take(j as int + 1), x) == count_of(deps.take(j as int), x) + 1);
                            assert(graph.forward_of(x as int) == readers(entries, x as int, entries.len()));
                        }
                    }
                }
                j += 1;
            }
            proof {
                assert(deps.take(j as int) =~= deps);
            }
            k += 1;
        }
        proof {
            assert(st0.exits.take(k as int) =~= st0.exits);
        }
        let ghost next = island_round(entries, st0);
        let ghost done = Seq::new(n as nat, |z: int| waiting_after(entries, st0, z) == Some(0int));
        let mut new_exits: Vec<u32> = Vec::new();
        let mut z: usize = 0;
        while z < n
            invariant
                z <= n,
                n == entries.len() <= u32::MAX,
                waiting@.len() == n,
                island@.len() == n,
                next == island_round(entries, st0),
                st0.waiting.len() == n,
                st0.island.len() == n,
                done == Seq::new(n as nat, |q: int| waiting_after(entries, st0, q) == Some(0int)),
                forall|q: int| z <= q < n ==> #[trigger] counts_view(waiting@)[q] == waiting_after(entries, st0, q),
                forall|q: int| z <= q < n ==> #[trigger] island@[q] == st0.island[q],
                forall|q: int| 0 <= q < z ==> #[trigger] counts_view(waiting@)[q] == next.waiting[q],
                forall|q: int| 0 <= q < z ==> #[trigger] island@[q] == next.island[q],
                new_exits@ == marked_upto(done, z as nat),
            decreases n - z,
        {
            let is_done = match waiting[z] {
                Some(c) => c == 0,
                None => false,
            };
            proof {
                assert(counts_view(waiting@)[z as int] == count_view(waiting@[z as int]));
            }
            assert(is_done == done[z as int]);
            let ghost before_w = waiting@;
            let ghost before_i = island@;
            if is_done {
                waiting.set(z, None);
                island.set(z, true);
                new_exits.push(z as u32);
            }
            proof {
                assert forall|q: int| z + 1 <= q < n implies #[trigger] counts_view(waiting@)[q] == waiting_after(entries, st0, q) by {
                    assert(counts_view(waiting@)[q] == count_view(waiting@[q]));
                    assert(counts_view(before_w)[q] == count_view(before_w[q]));
                }
                assert forall|q: int| 0 <= q < z + 1 implies #[trigger] counts_view(waiting@)[q] == next.waiting[q] by {
                    assert(counts_view(waiting@)[q] == count_view(waiting@[q]));
                    assert(counts_view(before_w)[q] == count_view(before_w[q]));
                    if q < z {
                        assert(waiting@[q] == before_w[q]);
                    } else {
                        assert(next.waiting[q] == (if done[q] { None } else { waiting_after(entries, st0, q) }));
                    }
                }
                assert forall|q: int| 0 <= q < z + 1 implies #[trigger] island@[q] == next.island[q] by {
                    if q < z {
                        assert(island@[q] == before_i[q]);
                    } else {
                        assert(next.island[q] == (st0.island[q] || done[q]));
                    }
                }
            }
            z += 1;
        }
        exits = new_exits;
        proof {
            assert(counts_view(waiting@) =~= next.waiting);
            assert(island@ =~= next.island);
            assert(exits@ == next.exits);
            st = next;
            fuel = (fuel - 1) as nat;
        }
    }
    island
}

/// How many times the operands of the entries below `k` set in `marks` name `y`.
pub open spec fn marked_visits(entries: Seq<(GlslExpr, GlslType)>, marks: Seq<bool>, y: int, k: nat) -> nat
    decreases k,
{
    if k == 0 {
        0
    } else {
        marked_visits(entries, marks, y, (k - 1) as nat) + if marks[k - 1] {
            count_of(expr_deps(entries[k - 1].0), y as u32)
        } else {
            0
        }
    }
}

/// A round makes no entry of `start` an exit again.
pub open spec fn round_fresh(entries: Seq<(GlslExpr, GlslType)>, st: IslandState, start: Set<u32>) -> bool {
    forall|y: int| 0 <= y < st.waiting.len() && #[trigger] start.contains(y as u32)
        ==> waiting_after(entries, st, y) != Some(0int)
}

/// No round within `fuel` makes an entry of `start` an exit again.
pub open spec fn run_fresh(entries: Seq<(GlslExpr, GlslType)>, st: IslandState, start: Set<u32>, fuel: nat) -> bool
    decreases fuel,
{
    st.exits.len() == 0 || fuel == 0 || (round_fresh(entries, st, start)
        && run_fresh(entries, island_round(entries, st), start, (fuel - 1) as nat))
}

/// The entries in the island that are not waiting to be visited.
pub open spec fn visited_marks(st: IslandState) -> Seq<bool> {
    Seq::new(st.island.len(), |r: int| st.island[r] && !st.exits.contains(r as u32))
}

/// The entries of a list of exits, by membership.
pub open spec fn exit_marks(exits: Seq<u32>, n: nat) -> Seq<bool> {
    Seq::new(n, |r: int| exits.contains(r as u32))
}

/// The accounting of a search: each entry outside `start` that joined the
/// island had all its uses visited; each that did not waits for exactly
/// the uses not yet visited.
pub open spec fn island_accounting(entries: Seq<(GlslExpr, GlslType)>, start: Set<u32>, st: IslandState) -> bool {
    let n = entries.len();
    let p = visited_marks(st);
    &&& forall|j: int| 0 <= j < st.exits.len() ==> st.island[#[trigger] st.exits[j] as int]
    &&& forall|y: int| 0 <= y < n && !start.contains(y as u32) && #[trigger] st.island[y] ==>
        marked_visits(entries, p, y, n) == uses(entries, y) && st.waiting[y] is None
    &&& forall|y: int| 0 <= y < n && !start.contains(y as u32) && !#[trigger] st.island[y] ==> {
        let m = marked_visits(entries, p, y, n);
        &&& st.waiting[y] == (if m > 0 { Some(uses(entries, y) - m) } else { None })
        &&& (m > 0 ==> m < uses(entries, y))
    }
}

proof fn lemma_marked_visits_all(entries: Seq<(GlslExpr, GlslType)>, marks: Seq<bool>, y: int, k: nat)
    requires
        k <= marks.len(),
        k <= entries.len(),
    ensures
        marked_visits(entries, marks, y, k) <= readers(entries, y, k).len(),
        marked_visits(entries, marks, y, k) == readers(entries, y, k).len() ==>
            forall|r: int| 0 <= r < k && count_of(expr_deps(entries[r].0), y as u32) > 0 ==> #[trigger] marks[r],
    decreases k,
{
    if k > 0 {
        lemma_marked_visits_all(entries, marks, y, (k - 1) as nat);
    }
}

proof fn lemma_marked_visits_union(entries: Seq<(GlslExpr, GlslType)>, a: Seq<bool>, b: Seq<bool>, c: Seq<bool>, y: int, k: nat)
    requires
        k <= a.len() == b.len() == c.len(),
        forall|r: int| 0 <= r < k ==> #[trigger] c[r] == (a[r] || b[r]),
        forall|r: int| 0 <= r < k ==> !(#[trigger] a[r] && b[r]),
    ensures
        marked_visits(entries, c, y, k) == marked_visits(entries, a, y, k) + marked_visits(entries, b, y, k),
    decreases k,
{
    if k > 0 {
        lemma_marked_visits_union(entries, a, b, c, y, (k - 1) as nat);
    }
}

proof fn lemma_marked_visits_same(entries: Seq<(GlslExpr, GlslType)>, a: Seq<bool>, b: Seq<bool>, y: int, k: nat)
    requires
        k <= a.len(),
        k <= b.len(),
        forall|r: int| 0 <= r < k ==> #[trigger] a[r] == b[r],
    ensures
        marked_visits(entries, a, y, k) == marked_visits(entries, b, y, k),
    decreases k,
{
    if k > 0 {
        lemma_marked_visits_same(entries, a, b, y, (k - 1) as nat);
    }
}

proof fn lemma_marked_visits_none(entries: Seq<(GlslExpr, GlslType)>, a: Seq<bool>, y: int, k: nat)
    requires
        k <= a.len(),
        forall|r: int| 0 <= r < k ==> !#[trigger] a[r],
    ensures
        marked_visits(entries, a, y, k) == 0,
    decreases k,
{
    if k > 0 {
        lemma_marked_visits_none(entries, a, y, (k - 1) as nat);
    }
}

/// The operands of a list of increasing exits name `y` as often as those of
/// the entries it holds.
proof fn lemma_visits_marked(entries: Seq<(GlslExpr, GlslType)>, exits: Seq<u32>, y: int)
    requires
        entries.len() <= u32::MAX,
        forall|j: int| 0 <= j < exits.len() ==> #[trigger] exits[j] < entries.len(),
        forall|i: int, j: int| 0 <= i < j < exits.len() ==> #[trigger] exits[i] < #[trigger] exits[j],
    ensures
        visits(entries, exits, y) == marked_visits(entries, exit_marks(exits, entries.len()), y, entries.len()),
    decreases exits.len(),
{
    let n = entries.len();
    if exits.len() == 0 {
        lemma_marked_visits_none(entries, exit_marks(exits, n), y, n);
    } else {
        let e = exits.last();
        let rest = exits.drop_last();
        assert forall|i: int, j: int| 0 <= i < j < rest.len() implies #[trigger] rest[i] < #[trigger] rest[j] by {
            assert(rest[i] == exits[i] && rest[j] == exits[j]);
        }
        lemma_visits_marked(entries, rest, y);
        let single = Seq::new(n, |r: int| r == e as int);
        let a = exit_marks(rest, n);
        let c = exit_marks(exits, n);
        assert forall|r: int| 0 <= r < n implies #[trigger] c[r] == (a[r] || single[r]) by {
            if c[r] {
                let j = choose|j: int| 0 <= j < exits.len() && exits[j] == r as u32;
                if j < exits.len() - 1 {
                    assert(rest[j] == r as u32);
                } else {
                    assert((r as u32) as int == r);
                }
            }
            if a[r] {
                let j = choose|j: int| 0 <= j < rest.len() && rest[j] == r as u32;
                assert(exits[j] == r as u32);
            }
            if single[r] {
                assert(exits[exits.len() - 1] == r as u32);
            }
        }
        assert forall|r: int| 0 <= r < n implies !(#[trigger] a[r] && single[r]) by {
            if a[r] && single[r] {
                let j = choose|j: int| 0 <= j < rest.len() && rest[j] == r as u32;
                assert(exits[j] < exits[exits.len() - 1]);
            }
        }
        lemma_marked_visits_union(entries, a, single, c, y, n);
        lemma_marked_visits_single(entries, e as int, y, n);
    }
}

proof fn lemma_marked_visits_single(entries: Seq<(GlslExpr, GlslType)>, e: int, y: int, k: nat)
    requires
        0 <= e < entries.len(),
        k == entries.len(),
    ensures
        marked_visits(entries, Seq::new(k, |r: int| r == e), y, k) == count_of(expr_deps(entries[e].0), y as u32),
{
    lemma_marked_visits_single_upto(entries, e, y, k, k);
}

proof fn lemma_marked_visits_single_upto(entries: Seq<(GlslExpr, GlslType)>, e: int, y: int, n: nat, k: nat)
    requires
        0 <= e,
        k <= n,
        n <= entries.len(),
    ensures
        marked_visits(entries, Seq::new(n, |r: int| r == e), y, k)
            == if e < k { count_of(expr_deps(entries[e].0), y as u32) } else { 0 },
    decreases k,
{
    if k > 0 {
        lemma_marked_visits_single_upto(entries, e, y, n, (k - 1) as nat);
    }
}

proof fn lemma_readers_total(entries: Seq<(GlslExpr, GlslType)>, y: int, k: nat)
    requires
        k <= entries.len(),
    ensures
        marked_visits(entries, Seq::new(entries.len(), |r: int| true), y, k) == readers(entries, y, k).len(),
    decreases k,
{
    if k > 0 {
        lemma_readers_total(entries, y, (k - 1) as nat);
    }
}

proof fn lemma_accounting_init(entries: Seq<(GlslExpr, GlslType)>, start: Set<u32>)
    requires
        entries.len() <= u32::MAX,
    ensures
        island_accounting(entries, start, island_init(entries, start)),
{
    let n = entries.len();
    let st = island_init(entries, start);
    lemma_marked(st.island, n);
    let p = visited_marks(st);
    assert forall|r: int| 0 <= r < n implies !#[trigger] p[r] by {
        if st.island[r] {
            assert((r as u32) as int == r);
            lemma_marked_contains(st.island, n, r);
        }
    }
    assert forall|y: int| 0 <= y < n implies marked_visits(entries, p, y, n) == 0 by {
        lemma_marked_visits_none(entries, p, y, n);
    }
}

proof fn lemma_marked_contains(p: Seq<bool>, k: nat, r: int)
    requires
        k <= p.len(),
        k <= u32::MAX + 1,
        0 <= r < k,
        p[r],
    ensures
        marked_upto(p, k).contains(r as u32),
    decreases k,
{
    if r < k - 1 {
        lemma_marked_contains(p, (k - 1) as nat, r);
        let prev = marked_upto(p, (k - 1) as nat);
        let j = choose|j: int| 0 <= j < prev.len() && #[trigger] prev[j] == r as u32;
        assert(marked_upto(p, k)[j] == r as u32);
    } else {
        let m = marked_upto(p, k);
        assert(m[m.len() - 1] == r as u32);
    }
}
proof fn lemma_marked_member(p: Seq<bool>, k: nat, r: int)
    requires
        k <= p.len(),
        k <= u32::MAX + 1,
        0 <= r < k,
    ensures
        marked_upto(p, k).contains(r as u32) <==> p[r],
{
    if p[r] {
        lemma_marked_contains(p, k, r);
    }
    if marked_upto(p, k).contains(r as u32) {
        lemma_marked(p, k);
        let m = marked_upto(p, k);
        let j = choose|j: int| 0 <= j < m.len() && #[trigger] m[j] == r as u32;
        assert((r as u32) as int == r);
        assert(p[m[j] as int]);
    }
}

proof fn lemma_accounting_round(entries: Seq<(GlslExpr, GlslType)>, start: Set<u32>, st: IslandState)
    requires
        crate::compiler::analysis::reads_backward(entries),
        entries.len() <= u32::MAX,
        state_inv(st, entries.len()),
        round_ok(entries, st),
        round_fresh(entries, st, start),
        island_accounting(entries, start, st),
        st.exits.len() > 0,
    ensures
        island_accounting(entries, start, island_round(entries, st)),
{
    let n = entries.len();
    let next = island_round(entries, st);
    let done = Seq::new(n, |y: int| waiting_after(entries, st, y) == Some(0int));
    let p = visited_marks(st);
    let e = exit_marks(st.exits, n);
    let all = Seq::new(n, |r: int| true);
    let both = Seq::new(n, |r: int| p[r] || e[r]);
    assert forall|r: int| 0 <= r < n implies !(#[trigger] p[r] && e[r]) by {}
    assert forall|r: int| 0 <= r < n implies #[trigger] both[r] == (p[r] || e[r]) by {}
    assert forall|r: int| 0 <= r < n implies (#[trigger] e[r] ==> st.island[r]) by {
        if e[r] {
            let j = choose|j: int| 0 <= j < st.exits.len() && #[trigger] st.exits[j] == r as u32;
            assert(st.island[st.exits[j] as int]);
            assert((r as u32) as int == r);
        }
    }
    // Each entry's visits so far and in this round add up, and never pass its uses.
    assert forall|y: int| 0 <= y < n implies #[trigger] marked_visits(entries, both, y, n)
        == marked_visits(entries, p, y, n) + visits(entries, st.exits, y)
        && marked_visits(entries, both, y, n) <= uses(entries, y) by {
        lemma_marked_visits_union(entries, p, e, both, y, n);
        lemma_visits_marked(entries, st.exits, y);
        lemma_marked_visits_all(entries, both, y, n);
    }
    // No entry already in the island becomes an exit again.
    assert forall|r: int| 0 <= r < n && #[trigger] st.island[r] implies !done[r] by {
        if !start.contains(r as u32) {
            assert(marked_visits(entries, both, r, n) == marked_visits(entries, p, r, n) + visits(entries, st.exits, r));
        }
    }
    lemma_marked(done, n);
    let p2 = visited_marks(next);
    assert forall|r: int| 0 <= r < n implies #[trigger] p2[r] == both[r] by {
        lemma_marked_member(done, n, r);
    }
    assert forall|y: int| 0 <= y < n implies marked_visits(entries, p2, y, n) == marked_visits(entries, both, y, n) by {
        lemma_marked_visits_same(entries, p2, both, y, n);
    }
    assert forall|j: int| 0 <= j < next.exits.len() implies next.island[#[trigger] next.exits[j] as int] by {}
    assert forall|y: int| 0 <= y < n && !start.contains(y as u32) && #[trigger] next.island[y] implies
        marked_visits(entries, p2, y, n) == uses(entries, y) && next.waiting[y] is None by {
        assert(marked_visits(entries, both, y, n) == marked_visits(entries, p, y, n) + visits(entries, st.exits, y));
    }
    assert forall|y: int| 0 <= y < n && !start.contains(y as u32) && !#[trigger] next.island[y] implies ({
        let m = marked_visits(entries, p2, y, n);
        &&& next.waiting[y] == (if m > 0 { Some(uses(entries, y) - m) } else { None })
        &&& (m > 0 ==> m < uses(entries, y))
    }) by {
        assert(marked_visits(entries, both, y, n) == marked_visits(entries, p, y, n) + visits(entries, st.exits, y));
    }
}

proof fn lemma_run_accounting(entries: Seq<(GlslExpr, GlslType)>, start: Set<u32>, st: IslandState, fuel: nat)
    requires
        crate::compiler::analysis::reads_backward(entries),
        entries.len() <= u32::MAX,
        state_inv(st, entries.len()),
        island_accounting(entries, start, st),
        island_run_ok(entries, st, fuel),
        run_fresh(entries, st, start, fuel),
        st.exits.len() > 0 ==> st.exits.last() < fuel,
    ensures
        island_accounting(entries, start, island_run(entries, st, fuel)),
        island_run(entries, st, fuel).exits.len() == 0,
        state_inv(island_run(entries, st, fuel), entries.len()),
    decreases fuel,
{
    if st.exits.len() > 0 {
        lemma_round_state(entries, st);
        lemma_accounting_round(entries, start, st);
        lemma_run_accounting(entries, start, island_round(entries, st), (fuel - 1) as nat);
    }
}

/// An island holds every reader of each entry it gained beyond its start:
/// such an entry is used only inside the island. This holds when no entry
/// of the start is reached again from the island.
pub proof fn lemma_island_closed(entries: Seq<(GlslExpr, GlslType)>, start: Set<u32>, y: int, r: int)
    requires
        crate::compiler::analysis::reads_backward(entries),
        entries.len() <= u32::MAX,
        island_ok(entries, start),
        run_fresh(entries, island_init(entries, start), start, entries.len() + 1),
        0 <= y < entries.len(),
        0 <= r < entries.len(),
        !start.contains(y as u32),
        island_of(entries, start)[y],
        count_of(expr_deps(entries[r].0), y as u32) > 0,
    ensures
        island_of(entries, start)[r],
{
    let n = entries.len();
    let init = island_init(entries, start);
    lemma_init_state(entries, start);
    lemma_accounting_init(entries, start);
    lemma_marked(init.island, n);
    if init.exits.len() > 0 {
        assert(init.exits[init.exits.len() - 1] < n);
    }
    lemma_run_accounting(entries, start, init, (n + 1) as nat);
    let fin = island_run(entries, init, (n + 1) as nat);
    let p = visited_marks(fin);
    assert(p.len() == n);
    assert(island_of(entries, start) == fin.island);
    assert(fin.island[y]);
    assert(marked_visits(entries, p, y, n) == uses(entries, y));
    lemma_marked_visits_all(entries, p, y, n);
    assert(p[r]);
}

/// A part of a shader body: an expression, or a branch on a condition with
/// the values it picks between and the parts on each of its sides.
#[derive(Debug)]
pub enum Scoped {
    Expression(u32),
    Branch { condition: u32, outputs: Vec<(u32, u32)>, then_nodes: Vec<Scoped>, else_nodes: Vec<Scoped> },
}

/// The mathematical form of a [`Scoped`].
pub enum ScopedSpec {
    Expression(u32),
    Branch { condition: u32, outputs: Seq<(u32, u32)>, then_nodes: Seq<ScopedSpec>, else_nodes: Seq<ScopedSpec> },
}

/// The mathematical form of a part.
pub open spec fn scoped_view(s: Scoped) -> ScopedSpec
    decreases s, 0nat,
{
    match s {
        Scoped::Expression(x) => ScopedSpec::Expression(x),
        Scoped::Branch { condition, outputs, then_nodes, else_nodes } => ScopedSpec::Branch {
            condition,
            outputs: outputs@,
            then_nodes: scoped_views(then_nodes@),
            else_nodes: scoped_views(else_nodes@),
        },
    }
}

/// The mathematical form of a list of parts.
pub open spec fn scoped_views(v: Seq<Scoped>) -> Seq<ScopedSpec>
    decreases v, 1nat,
{
    if v.len() == 0 {
        Seq::empty()
    } else {
        scoped_views(v.drop_last()).push(scoped_view(v.last()))
    }
}

/// The values picked between by the branches on condition `c` among the
/// first `k` entries, in order: (then, else).
pub open spec fn select_outputs(entries: Seq<(GlslExpr, GlslType)>, c: u32, k: nat) -> Seq<(u32, u32)>
    decreases k,
{
    if k == 0 {
        Seq::empty()
    } else {
        let prev = select_outputs(entries, c, (k - 1) as nat);
        match entries[k - 1].0 {
            GlslExpr::Select(cond, t, e) => if cond == c { prev.push((t, e)) } else { prev },
            _ => prev,
        }
    }
}

/// Whether some branch among the first `k` entries is on condition `c`.
pub open spec fn is_condition(entries: Seq<(GlslExpr, GlslType)>, c: u32, k: nat) -> bool {
    select_outputs(entries, c, k).len() > 0
}

/// For each entry `c`, whether some branch is on it.
pub open spec fn conditions(entries: Seq<(GlslExpr, GlslType)>) -> Seq<bool> {
    Seq::new(entries.len(), |c: int| is_condition(entries, c as u32, entries.len()))
}

/// The then values of the branches on `c`.
pub open spec fn then_values(entries: Seq<(GlslExpr, GlslType)>, c: u32) -> Set<u32> {
    select_outputs(entries, c, entries.len()).map_values(|p: (u32, u32)| p.0).to_set()
}

/// The else values of the branches on `c`.
pub open spec fn else_values(entries: Seq<(GlslExpr, GlslType)>, c: u32) -> Set<u32> {
    select_outputs(entries, c, entries.len()).map_values(|p: (u32, u32)| p.1).to_set()
}

/// The islands of the conditions below `k`, in increasing order of the
/// condition, each without what earlier islands took, and all that they took.
pub open spec fn branch_islands(entries: Seq<(GlslExpr, GlslType)>, k: nat) -> (Seq<(Seq<bool>, Seq<bool>)>, Seq<bool>)
    decreases k,
{
    let n = entries.len();
    if k == 0 {
        (Seq::empty(), Seq::new(n, |y: int| false))
    } else {
        let (islands, taken) = branch_islands(entries, (k - 1) as nat);
        let c = (k - 1) as u32;
        if is_condition(entries, c, n) {
            let t = island_of(entries, then_values(entries, c));
            let e = island_of(entries, else_values(entries, c));
            let t2 = Seq::new(n, |y: int| t[y] && !taken[y]);
            let e2 = Seq::new(n, |y: int| e[y] && !taken[y]);
            (islands.push((t2, e2)), Seq::new(n, |y: int| taken[y] || t2[y] || e2[y]))
        } else {
            (islands.push((Seq::new(n, |y: int| false), Seq::new(n, |y: int| false))), taken)
        }
    }
}

/// The parts made of the entries `nodes`, in order, with the branches
/// `avail` still to place: the first branch entry on a condition whose
/// branch is still to place becomes that branch, with the parts of its two
/// islands; later branch entries on it are left out.
pub open spec fn emit_spec(
    entries: Seq<(GlslExpr, GlslType)>,
    islands: Seq<(Seq<bool>, Seq<bool>)>,
    nodes: Seq<u32>,
    avail: Seq<bool>,
    fuel: nat,
) -> (Seq<ScopedSpec>, Seq<bool>)
    decreases fuel, nodes.len(),
{
    if nodes.len() == 0 {
        (Seq::empty(), avail)
    } else {
        let (r, a1) = emit_spec(entries, islands, nodes.drop_last(), avail, fuel);
        let x = nodes.last();
        match entries[x as int].0 {
            GlslExpr::Select(c, _, _) => if c < a1.len() && a1[c as int] && fuel > 0 {
                let a2 = a1.update(c as int, false);
                let n = entries.len();
                let (tn, a3) = emit_spec(entries, islands, marked_upto(islands[c as int].0, n), a2, (fuel - 1) as nat);
                let (en, a4) = emit_spec(entries, islands, marked_upto(islands[c as int].1, n), a3, (fuel - 1) as nat);
                (r.push(ScopedSpec::Branch {
                    condition: c,
                    outputs: select_outputs(entries, c, n),
                    then_nodes: tn,
                    else_nodes: en,
                }), a4)
            } else {
                (r, a1)
            },
            _ => (r.push(ScopedSpec::Expression(x)), a1),
        }
    }
}

/// The scopes of a graph: its branches, each with the islands of entries
/// only its sides use, nested where an island holds a branch of its own.
pub open spec fn discover_spec(entries: Seq<(GlslExpr, GlslType)>) -> Seq<ScopedSpec> {
    let n = entries.len();
    let (islands, taken) = branch_islands(entries, n);
    emit_spec(entries, islands, marked_upto(Seq::new(n, |y: int| !taken[y]), n), conditions(entries), n).0
}

/// Every branch's islands can be searched for.
pub open spec fn discover_ok(entries: Seq<(GlslExpr, GlslType)>) -> bool {
    forall|c: u32| c < entries.len() && #[trigger] is_condition(entries, c, entries.len()) ==>
        island_ok(entries, then_values(entries, c)) && island_ok(entries, else_values(entries, c))
}

/// How many entries of `s` are set.
pub open spec fn count_set(s: Seq<bool>) -> nat
    decreases s.len(),
{
    if s.len() == 0 {
        0
    } else {
        count_set(s.drop_last()) + if s.last() { 1nat } else { 0nat }
    }
}

/// Every entry set in `a` is set in `b`.
pub open spec fn set_within(a: Seq<bool>, b: Seq<bool>) -> bool {
    a.len() == b.len() && forall|i: int| 0 <= i < a.len() && #[trigger] a[i] ==> b[i]
}

proof fn lemma_count_within(a: Seq<bool>, b: Seq<bool>)
    requires
        set_within(a, b),
    ensures
        count_set(a) <= count_set(b),
    decreases a.len(),
{
    if a.len() > 0 {
        assert(set_within(a.drop_last(), b.drop_last()));
        lemma_count_within(a.drop_last(), b.drop_last());
    }
}

proof fn lemma_count_clear(a: Seq<bool>, i: int)
    requires
        0 <= i < a.len(),
        a[i],
    ensures
        count_set(a.update(i, false)) + 1 == count_set(a),
    decreases a.len(),
{
    if i < a.len() - 1 {
        lemma_count_clear(a.drop_last(), i);
        assert(a.update(i, false).drop_last() =~= a.drop_last().update(i, false));
    } else {
        assert(a.update(i, false).drop_last() =~= a.drop_last());
    }
}

/// The view of the islands kept by [`discover`].
pub open spec fn islands_view(v: Seq<(Vec<bool>, Vec<bool>)>) -> Seq<(Seq<bool>, Seq<bool>)> {
    v.map_values(|p: (Vec<bool>, Vec<bool>)| (p.0@, p.1@))
}

proof fn lemma_count_bound(s: Seq<bool>)
    ensures
        count_set(s) <= s.len(),
    decreases s.len(),
{
    if s.len() > 0 {
        lemma_count_bound(s.drop_last());
    }
}

fn falses(n: usize) -> (r: Vec<bool>)
    ensures
        r@ == Seq::new(n as nat, |y: int| false),
{
    let mut r: Vec<bool> = Vec::new();
    while r.len() < n
        invariant
            r@.len() <= n,
            forall|y: int| 0 <= y < r@.len() ==> !#[trigger] r@[y],
        decreases n - r@.len(),
    {
        r.push(false);
    }
    assert(r@ =~= Seq::new(n as nat, |y: int| false));
    r
}

/// The entries set in `flags`, in order.
fn marked_list(flags: &Vec<bool>) -> (r: Vec<u32>)
    requires
        flags@.len() <= u32::MAX,
    ensures
        r@ == marked_upto(flags@, flags@.len()),
{
    let mut r: Vec<u32> = Vec::new();
    let mut y: usize = 0;
    while y < flags.len()
        invariant
            y <= flags@.len() <= u32::MAX,
            r@ == marked_upto(flags@, y as nat),
        decreases flags@.len() - y,
    {
        if flags[y] {
            r.push(y as u32);
        }
        y += 1;
    }
    r
}

fn copy_pairs(v: &Vec<(u32, u32)>) -> (r: Vec<(u32, u32)>)
    ensures
        r@ == v@,
{
    let mut r: Vec<(u32, u32)> = Vec::new();
    let mut i: usize = 0;
    while i < v.len()
        invariant
            i <= v@.len(),
            r@ == v@.take(i as int),
        decreases v@.len() - i,
    {
        r.push(v[i]);
        assert(r@ =~= v@.take(i as int + 1));
        i += 1;
    }
    assert(v@.take(i as int) =~= v@);
    r
}

fn emit_nodes(
    graph: &GlslGraph,
    islands: &Vec<(Vec<bool>, Vec<bool>)>,
    outs: &Vec<Vec<(u32, u32)>>,
    nodes: &Vec<u32>,
    avail: &mut Vec<bool>,
    Ghost(fuel): Ghost<nat>,
) -> (r: Vec<Scoped>)
    requires
        graph.wf(),
        islands@.len() == graph.entries().len(),
        forall|c: int| 0 <= c < islands@.len() ==> (#[trigger] islands@[c]).0@.len() == graph.entries().len()
            && islands@[c].1@.len() == graph.entries().len(),
        outs@.len() == graph.entries().len(),
        forall|c: int| 0 <= c < outs@.len() ==> (#[trigger] outs@[c])@ == select_outputs(graph.entries(), c as u32,
            graph.entries().len()),
        forall|j: int| 0 <= j < nodes@.len() ==> #[trigger] nodes@[j] < graph.entries().len(),
        old(avail)@.len() == graph.entries().len(),
        count_set(old(avail)@) <= fuel,
    ensures
        (scoped_views(r@), final(avail)@) == emit_spec(graph.entries(), islands_view(islands@), nodes@, old(avail)@, fuel),
        set_within(final(avail)@, old(avail)@),
    decreases fuel, nodes@.len(),
{
    let ghost entries = graph.entries();
    let ghost iv = islands_view(islands@);
    let n = graph.len();
    let mut r: Vec<Scoped> = Vec::new();
    let mut i: usize = 0;
    proof {
        assert(nodes@.take(0) =~= Seq::<u32>::empty());
        assert(scoped_views(r@) =~= Seq::<ScopedSpec>::empty());
    }
    while i < nodes.len()
        invariant
            graph.wf(),
            entries == graph.entries(),
            n == entries.len(),
            iv == islands_view(islands@),
            islands@.len() == n,
            forall|c: int| 0 <= c < islands@.len() ==> (#[trigger] islands@[c]).0@.len() == n && islands@[c].1@.len() == n,
            outs@.len() == n,
            forall|c: int| 0 <= c < outs@.len() ==> (#[trigger] outs@[c])@ == select_outputs(entries, c as u32, n as nat),
            forall|j: int| 0 <= j < nodes@.len() ==> #[trigger] nodes@[j] < n,
            i <= nodes@.len(),
            avail@.len() == n,
            (scoped_views(r@), avail@) == emit_spec(entries, iv, nodes@.take(i as int), old(avail)@, fuel),
            set_within(avail@, old(avail)@),
            count_set(old(avail)@) <= fuel,
        decreases nodes@.len() - i,
    {
        let x = nodes[i];
        let (e, _) = graph.get(x);
        proof {
            assert(nodes@.take(i as int + 1).drop_last() =~= nodes@.take(i as int));
            assert(nodes@.take(i as int + 1).last() == x);
        }
        let ghost r0 = r@;
        let ghost a1 = avail@;
        match e {
            GlslExpr::Select(c, _, _) => {
                if (c as usize) < avail.len() && avail[c as usize] {
                    proof {
                        lemma_count_within(a1, old(avail)@);
                        lemma_count_clear(a1, c as int);
                    }
                    avail.set(c as usize, false);
                    let then_list = marked_list(&islands[c as usize].0);
                    let else_list = marked_list(&islands[c as usize].1);
                    proof {
                        lemma_marked(islands@[c as int].0@, n as nat);
                        lemma_marked(islands@[c as int].1@, n as nat);
                        assert(iv[c as int] == (islands@[c as int].0@, islands@[c as int].1@));
                    }
                    let ghost a2 = avail@;
                    let then_nodes = emit_nodes(graph, islands, outs, &then_list, avail, Ghost((fuel - 1) as nat));
                    let ghost a3 = avail@;
                    proof {
                        lemma_count_within(a3, a2);
                    }
                    let else_nodes = emit_nodes(graph, islands, outs, &else_list, avail, Ghost((fuel - 1) as nat));
                    let outputs = copy_pairs(&outs[c as usize]);
                    let b = Scoped::Branch { condition: c, outputs, then_nodes, else_nodes };
                    r.push(b);
                    proof {
                        assert(r@.drop_last() =~= r0);
                        assert(scoped_views(r@) == scoped_views(r0).push(scoped_view(b)));
                        assert((c as int) as u32 == c);
                        assert(outs@[c as int]@ == select_outputs(entries, c, n as nat));
                        assert(fuel > 0);
                        assert(a2 == a1.update(c as int, false));
                        assert(then_list@ == marked_upto(iv[c as int].0, entries.len()));
                        assert(else_list@ == marked_upto(iv[c as int].1, entries.len()));
                        assert forall|q: int| 0 <= q < avail@.len() && #[trigger] avail@[q] implies old(avail)@[q] by {
                            assert(a3[q]);
                            assert(a2[q]);
                            assert(a1[q]);
                        }
                        assert((scoped_views(r@), avail@) == emit_spec(entries, iv, nodes@.take(i as int + 1), old(avail)@, fuel));
                    }
                } else {
                    assert((scoped_views(r@), avail@) == emit_spec(entries, iv, nodes@.take(i as int + 1), old(avail)@, fuel));
                }
            },
            _ => {
                r.push(Scoped::Expression(x));
                proof {
                    assert(r@.drop_last() =~= r0);
                    assert(r@.last() == Scoped::Expression(x));
                    assert(scoped_views(r@) == scoped_views(r0).push(scoped_view(Scoped::Expression(x))));
                    assert(scoped_view(Scoped::Expression(x)) == ScopedSpec::Expression(x));
                    assert((scoped_views(r@), avail@) == emit_spec(entries, iv, nodes@.take(i as int + 1), old(avail)@, fuel));
                }
            },
        }
        i += 1;
    }
    proof {
        assert(nodes@.take(i as int) =~= nodes@);
    }
    r
}

/// Finds the branches of a graph and, for each, the islands of expressions
/// that only its then side or only its else side uses, and arranges the
/// expressions into parts: those outside every island in order, with each
/// branch, in place of its first select, holding the parts of its islands.
/// Branches are taken in increasing order of their condition, and an island
/// leaves out what an earlier branch's islands took.
///
/// A search whose counting of uses would underflow panics; such graphs are
/// left out here.
pub fn discover(graph: &GlslGraph) -> (r: Vec<Scoped>)
    requires
        graph.wf(),
        discover_ok(graph.entries()),
    ensures
        scoped_views(r@) == discover_spec(graph.entries()),
{
    let ghost entries = graph.entries();
    let n = graph.len();
    let mut outs: Vec<Vec<(u32, u32)>> = Vec::new();
    while outs.len() < n
        invariant
            outs@.len() <= n,
            forall|c: int| 0 <= c < outs@.len() ==> (#[trigger] outs@[c])@ == Seq::<(u32, u32)>::empty(),
        decreases n - outs@.len(),
    {
        outs.push(Vec::new());
    }
    let mut i: usize = 0;
    while i < n
        invariant
            graph.wf(),
            entries == graph.entries(),
            n == entries.len() <= u32::MAX,
            i <= n,
            outs@.len() == n,
            forall|c: int| 0 <= c < n ==> (#[trigger] outs@[c])@ == select_outputs(entries, c as u32, i as nat),
        decreases n - i,
    {
        let (e, _) = graph.get(i as u32);
        let ghost before = outs@;
        match e {
            GlslExpr::Select(c, t, f) => {
                proof {
                    assert(crate::compiler::analysis::reads_backward(entries));
                    assert(expr_deps(entries[i as int].0)[0] == c);
                }
                let mut inner = copy_pairs(&outs[c as usize]);
                inner.push((t, f));
                outs.set(c as usize, inner);
                proof {
                    assert forall|q: int| 0 <= q < n implies (#[trigger] outs@[q])@ == select_outputs(entries, q as u32, (i + 1) as nat) by {
                        assert((q as u32) as int == q);
                        if q != c as int {
                            assert(outs@[q] == before[q]);
                        }
                    }
                }
            },
            _ => {},
        }
        i += 1;
    }
    let mut taken = falses(n);
    let mut islands: Vec<(Vec<bool>, Vec<bool>)> = Vec::new();
    let mut c: usize = 0;
    proof {
        assert(islands_view(islands@) =~= Seq::<(Seq<bool>, Seq<bool>)>::empty());
    }
    while c < n
        invariant
            graph.wf(),
            entries == graph.entries(),
            discover_ok(entries),
            n == entries.len() <= u32::MAX,
            c <= n,
            outs@.len() == n,
            forall|q: int| 0 <= q < n ==> (#[trigger] outs@[q])@ == select_outputs(entries, q as u32, n as nat),
            islands@.len() == c,
            forall|q: int| 0 <= q < islands@.len() ==> (#[trigger] islands@[q]).0@.len() == n && islands@[q].1@.len() == n,
            (islands_view(islands@), taken@) == branch_islands(entries, c as nat),
            taken@.len() == n,
        decreases n - c,
    {
        let ghost before = islands@;
        if outs[c].len() > 0 {
            let pairs = &outs[c];
            let mut then_list: Vec<u32> = Vec::new();
            let mut else_list: Vec<u32> = Vec::new();
            let mut j: usize = 0;
            while j < pairs.len()
                invariant
                    j <= pairs@.len(),
                    then_list@ == pairs@.take(j as int).map_values(|p: (u32, u32)| p.0),
                    else_list@ == pairs@.take(j as int).map_values(|p: (u32, u32)| p.1),
                decreases pairs@.len() - j,
            {
                then_list.push(pairs[j].0);
                else_list.push(pairs[j].1);
                assert(then_list@ =~= pairs@.take(j as int + 1).map_values(|p: (u32, u32)| p.0));
                assert(else_list@ =~= pairs@.take(j as int + 1).map_values(|p: (u32, u32)| p.1));
                j += 1;
            }
            proof {
                assert(pairs@.take(j as int) =~= pairs@);
                assert((c as u32) as int == c as int);
                assert(is_condition(entries, c as u32, n as nat));
                assert(then_list@.to_set() == then_values(entries, c as u32));
                assert(else_list@.to_set() == else_values(entries, c as u32));
            }
            let t = extend_island(graph, &then_list);
            let f = extend_island(graph, &else_list);
            let mut t2: Vec<bool> = Vec::new();
            let mut f2: Vec<bool> = Vec::new();
            let ghost taken0 = taken@;
            let mut y: usize = 0;
            while y < n
                invariant
                    y <= n,
                    t@.len() == n,
                    f@.len() == n,
                    taken@.len() == n,
                    t2@.len() == y,
                    f2@.len() == y,
                    forall|q: int| 0 <= q < y ==> #[trigger] t2@[q] == (t@[q] && !taken0[q]),
                    forall|q: int| 0 <= q < y ==> #[trigger] f2@[q] == (f@[q] && !taken0[q]),
                    forall|q: int| 0 <= q < y ==> #[trigger] taken@[q] == (taken0[q] || t2@[q] || f2@[q]),
                    forall|q: int| y <= q < n ==> #[trigger] taken@[q] == taken0[q],
                decreases n - y,
            {
                let a = t[y] && !taken[y];
                let b = f[y] && !taken[y];
                t2.push(a);
                f2.push(b);
                let ghost before_t = taken@;
                if a || b {
                    taken.set(y, true);
                }
                proof {
                    assert forall|q: int| 0 <= q < y + 1 implies #[trigger] taken@[q] == (taken0[q] || t2@[q] || f2@[q]) by {
                        if q < y {
                            assert(taken@[q] == before_t[q]);
                        }
                    }
                }
                y += 1;
            }
            islands.push((t2, f2));
            proof {
                let prev = branch_islands(entries, c as nat);
                assert(t2@ =~= Seq::new(n as nat, |q: int| island_of(entries, then_values(entries, c as u32))[q] && !prev.1[q]));
                assert(f2@ =~= Seq::new(n as nat, |q: int| island_of(entries, else_values(entries, c as u32))[q] && !prev.1[q]));
                assert(taken@ =~= Seq::new(n as nat, |q: int| prev.1[q] || t2@[q] || f2@[q]));
                assert(islands_view(islands@) =~= islands_view(before).push((t2@, f2@)));
            }
        } else {
            islands.push((falses(n), falses(n)));
            proof {
                assert((c as u32) as int == c as int);
                assert(!is_condition(entries, c as u32, n as nat));
                assert(islands_view(islands@) =~= islands_view(before).push((Seq::new(n as nat, |y: int| false), Seq::new(n as nat, |y: int| false))));
            }
        }
        c += 1;
    }
    let mut top_flags: Vec<bool> = Vec::new();
    let mut avail: Vec<bool> = Vec::new();
    let mut y: usize = 0;
    while y < n
        invariant
            y <= n,
            n == entries.len(),
            taken@.len() == n,
            outs@.len() == n,
            forall|q: int| 0 <= q < n ==> (#[trigger] outs@[q])@ == select_outputs(entries, q as u32, n as nat),
            top_flags@.len() == y,
            avail@.len() == y,
            forall|q: int| 0 <= q < y ==> #[trigger] top_flags@[q] == !taken@[q],
            forall|q: int| 0 <= q < y ==> #[trigger] avail@[q] == is_condition(entries, q as u32, n as nat),
        decreases n - y,
    {
        top_flags.push(!taken[y]);
        avail.push(outs[y].len() > 0);
        y += 1;
    }
    let top = marked_list(&top_flags);
    proof {
        let (isl, tk) = branch_islands(entries, n as nat);
        assert(top_flags@ =~= Seq::new(n as nat, |q: int| !tk[q]));
        assert(avail@ =~= conditions(entries));
        lemma_marked(top_flags@, n as nat);
        lemma_count_bound(avail@);
    }
    emit_nodes(graph, &islands, &outs, &top, &mut avail, Ghost(n as nat))
}

} // verus!
