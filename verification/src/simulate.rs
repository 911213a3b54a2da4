//! The pipeline simulation: an in-order window of `width` slots split into a
//! fetch, a decode and an execute stage, in which an instruction executes
//! once no earlier instruction still in the execute stage blocks it.
use vstd::prelude::*;
use vstd::slice::slice_subrange;

use crate::models::{instr_views, Instruction, InstructionView, Window};

verus! {

/// Some register name occurs in both lists.
pub open spec fn share_register(a: Seq<Seq<char>>, b: Seq<Seq<char>>) -> bool {
    exists|i: int, j: int| 0 <= i < a.len() && 0 <= j < b.len() && a[i] == b[j]
}

/// Whether the memory access of `later` must wait for that of `earlier`:
/// a store waits for every earlier load and store; a load waits for every
/// earlier store, or, with memory renaming, only for an earlier store whose
/// logged address equals its own, and for any earlier store while either of
/// the two addresses is not logged (renaming needs both addresses).
pub open spec fn memory_hazard(
    later: InstructionView,
    earlier: InstructionView,
    memory_renaming: bool,
) -> bool {
    if later.mem_store {
        earlier.mem_store || earlier.mem_load
    } else if later.mem_load {
        earlier.mem_store && (!memory_renaming || later.mem_addr is None || earlier.mem_addr is None
            || later.mem_addr == earlier.mem_addr)
    } else {
        false
    }
}

/// Whether the earlier instruction `earlier` blocks `later`: `later` waits
/// on it by its recorded shortcut, by a memory hazard, by a read-after-write
/// register hazard, or, without register renaming, by a write-after-read or
/// write-after-write register hazard.
pub open spec fn blocks(
    later: InstructionView,
    earlier: InstructionView,
    memory_renaming: bool,
    register_renaming: bool,
) -> bool {
    ||| later.shortcut_dep >= 0 && earlier.key == later.shortcut_dep
    ||| memory_hazard(later, earlier, memory_renaming)
    ||| share_register(later.reg_read_dep, earlier.reg_write_dep)
    ||| !register_renaming && (share_register(later.reg_write_dep, earlier.reg_read_dep)
        || share_register(later.reg_write_dep, earlier.reg_write_dep))
}

/// The key of the latest instruction of `prev` that blocks `later`, if any.
pub open spec fn blocker(
    later: InstructionView,
    prev: Seq<InstructionView>,
    memory_renaming: bool,
    register_renaming: bool,
) -> Option<i32>
    decreases prev.len(),
{
    if prev.len() == 0 {
        None
    } else if blocks(later, prev.last(), memory_renaming, register_renaming) {
        Some(prev.last().key)
    } else {
        blocker(later, prev.drop_last(), memory_renaming, register_renaming)
    }
}

/// The answer of the dependency check: `(true, -1)` when nothing blocks
/// `later`, else `(false, key)` with the key of its latest blocker.
pub open spec fn dependency_check(
    later: InstructionView,
    prev: Seq<InstructionView>,
    memory_renaming: bool,
    register_renaming: bool,
) -> (bool, i32) {
    match blocker(later, prev, memory_renaming, register_renaming) {
        Some(k) => (false, k),
        None => (true, -1i32),
    }
}

fn share_register_exec(a: &Vec<String>, b: &Vec<String>) -> (r: bool)
    ensures
        r == share_register(crate::text::views(a@), crate::text::views(b@)),
{
    let ghost va = crate::text::views(a@);
    let ghost vb = crate::text::views(b@);
    let mut i: usize = 0;
    while i < a.len()
        invariant
            i <= a.len(),
            va == crate::text::views(a@),
            vb == crate::text::views(b@),
            forall|x: int, y: int| 0 <= x < i && 0 <= y < vb.len() ==> va[x] != vb[y],
        decreases a.len() - i,
    {
        let mut j: usize = 0;
        while j < b.len()
            invariant
                i < a.len(),
                j <= b.len(),
                va == crate::text::views(a@),
                vb == crate::text::views(b@),
                forall|x: int, y: int| 0 <= x < i && 0 <= y < vb.len() ==> va[x] != vb[y],
                forall|y: int| 0 <= y < j ==> va[i as int] != vb[y],
            decreases b.len() - j,
        {
            if a[i] == b[j] {
                assert(va[i as int] == vb[j as int]);
                return true;
            }
            j += 1;
        }
        i += 1;
    }
    false
}

fn blocks_exec(
    later: &Instruction,
    earlier: &Instruction,
    memory_renaming: bool,
    register_renaming: bool,
) -> (r: bool)
    ensures
        r == blocks(later@, earlier@, memory_renaming, register_renaming),
{
    if later.shortcut_dep >= 0 && earlier.key == later.shortcut_dep {
        return true;
    }
    if later.mem_store {
        if earlier.mem_store || earlier.mem_load {
            return true;
        }
    } else if later.mem_load {
        if earlier.mem_store {
            if memory_renaming {
                match (&later.mem_addr, &earlier.mem_addr) {
                    (Some(a1), Some(a2)) => {
                        if crate::text::str_equals(a1.as_str(), a2.as_str()) {
                            return true;
                        }
                    },
                    // renaming is only possible once both addresses are logged
                    _ => {
                        return true;
                    },
                }
            } else {
                return true;
            }
        }
    }
    if share_register_exec(&later.reg_read_dep, &earlier.reg_write_dep) {
        return true;
    }
    if !register_renaming {
        let war = share_register_exec(&later.reg_write_dep, &earlier.reg_read_dep);
        let waw = share_register_exec(&later.reg_write_dep, &earlier.reg_write_dep);
        if war || waw {
            return true;
        }
    }
    false
}

/// Checks `inst1` against the instructions `prev` ahead of it in the execute
/// stage, from the latest to the oldest: `(false, key)` with the key of the
/// latest one that blocks it, or `(true, -1)` when none does.
pub fn check_dependencies(
    inst1: &Instruction,
    prev: &[Instruction],
    memory_renaming: bool,
    register_renaming: bool,
) -> (r: (bool, i32))
    ensures
        r == dependency_check(inst1@, instr_views(prev@), memory_renaming, register_renaming),
{
    let ghost pv = instr_views(prev@);
    let mut j = prev.len();
    assert(pv.take(j as int) =~= pv);
    while j > 0
        invariant
            j <= prev@.len(),
            pv == instr_views(prev@),
            blocker(inst1@, pv, memory_renaming, register_renaming) == blocker(
                inst1@,
                pv.take(j as int),
                memory_renaming,
                register_renaming,
            ),
        decreases j,
    {
        assert(pv.take(j as int).drop_last() =~= pv.take(j - 1));
        assert(pv.take(j as int).last() == prev@[j - 1]@);
        j -= 1;
        if blocks_exec(inst1, &prev[j], memory_renaming, register_renaming) {
            return (false, prev[j].key);
        }
    }
    (true, -1)
}

/// `x` with its shortcut set to `k`.
pub open spec fn with_shortcut(x: InstructionView, k: i32) -> InstructionView {
    InstructionView { shortcut_dep: k, ..x }
}

/// Of the first `n` instructions of `now`, those that stay in the execute
/// stage, in order: each one blocked by an instruction before it in `now`,
/// with its shortcut set to the key of its latest blocker.
pub open spec fn retained_prefix(
    now: Seq<InstructionView>,
    n: nat,
    memory_renaming: bool,
    register_renaming: bool,
) -> Seq<InstructionView>
    decreases n,
{
    if n == 0 {
        seq![]
    } else {
        let kept = retained_prefix(now, (n - 1) as nat, memory_renaming, register_renaming);
        match blocker(now[n - 1], now.take(n - 1), memory_renaming, register_renaming) {
            Some(k) => kept.push(with_shortcut(now[n - 1], k)),
            None => kept,
        }
    }
}

/// The instructions of the execute stage `now` that do not execute this cycle.
pub open spec fn retained(
    now: Seq<InstructionView>,
    memory_renaming: bool,
    register_renaming: bool,
) -> Seq<InstructionView> {
    retained_prefix(now, now.len(), memory_renaming, register_renaming)
}

proof fn lemma_retained_prefix_len(
    now: Seq<InstructionView>,
    n: nat,
    memory_renaming: bool,
    register_renaming: bool,
)
    ensures
        retained_prefix(now, n, memory_renaming, register_renaming).len() <= n,
        n >= 1 ==> retained_prefix(now, n, memory_renaming, register_renaming).len() < n,
    decreases n,
{
    if n > 0 {
        lemma_retained_prefix_len(now, (n - 1) as nat, memory_renaming, register_renaming);
        if n == 1 {
            assert(now.take(0).len() == 0);
        }
    }
}

/// Progress of the execute stage: of a non-empty execute stage at least one
/// instruction (the oldest) executes, so fewer instructions stay than enter.
pub proof fn lemma_execute_stage_progress(
    now: Seq<InstructionView>,
    memory_renaming: bool,
    register_renaming: bool,
)
    ensures
        retained(now, memory_renaming, register_renaming).len() <= now.len(),
        now.len() > 0 ==> retained(now, memory_renaming, register_renaming).len() < now.len(),
{
    lemma_retained_prefix_len(now, now.len(), memory_renaming, register_renaming);
}

/// Runs the execute stage on `now`: keeps, in order, the instructions that an
/// earlier instruction of `now` blocks, each with its shortcut set to its
/// blocker's key; the others execute.
pub fn execute_stage(
    now: &Vec<Instruction>,
    memory_renaming: bool,
    register_renaming: bool,
) -> (r: Vec<Instruction>)
    ensures
        instr_views(r@) == retained(instr_views(now@), memory_renaming, register_renaming),
{
    let ghost nv = instr_views(now@);
    let mut decisions: Vec<(bool, i32)> = Vec::new();
    let mut i: usize = 0;
    while i < now.len()
        invariant
            i <= now.len(),
            nv == instr_views(now@),
            decisions@.len() == i,
            forall|k: int|
                0 <= k < i ==> decisions@[k] == #[trigger] dependency_check(
                    nv[k],
                    nv.take(k),
                    memory_renaming,
                    register_renaming,
                ),
        decreases now.len() - i,
    {
        let prev = slice_subrange(now.as_slice(), 0, i);
        assert(instr_views(prev@) =~= nv.take(i as int));
        let d = check_dependencies(&now[i], prev, memory_renaming, register_renaming);
        decisions.push(d);
        i += 1;
    }
    let mut kept: Vec<Instruction> = Vec::new();
    let mut i: usize = 0;
    while i < now.len()
        invariant
            i <= now.len(),
            nv == instr_views(now@),
            decisions@.len() == now.len(),
            forall|k: int|
                0 <= k < now.len() ==> decisions@[k] == #[trigger] dependency_check(
                    nv[k],
                    nv.take(k),
                    memory_renaming,
                    register_renaming,
                ),
            instr_views(kept@) == retained_prefix(nv, i as nat, memory_renaming, register_renaming),
        decreases now.len() - i,
    {
        let (decide, key) = decisions[i];
        assert(decisions@[i as int] == dependency_check(
            nv[i as int],
            nv.take(i as int),
            memory_renaming,
            register_renaming,
        ));
        if !decide {
            let mut x = now[i].clone();
            x.shortcut_dep = key;
            let ghost before = instr_views(kept@);
            kept.push(x);
            assert(instr_views(kept@) =~= before.push(with_shortcut(nv[i as int], key)));
        }
        i += 1;
    }
    kept
}

/// The state of the simulated pipeline: the three stages, how far into the
/// trace fetching has got (which may run past its end) and how many
/// instructions have executed.
pub struct SimState {
    pub fetch: Seq<InstructionView>,
    pub decode: Seq<InstructionView>,
    pub execute: Seq<InstructionView>,
    pub fetched: nat,
    pub executed: nat,
}

/// The number of instructions in the window.
pub open spec fn occupancy(s: SimState) -> nat {
    s.fetch.len() + s.decode.len() + s.execute.len()
}

pub open spec fn min(a: int, b: int) -> int {
    if a <= b {
        a
    } else {
        b
    }
}

/// The state before the first cycle.
pub open spec fn initial_state() -> SimState {
    SimState { fetch: seq![], decode: seq![], execute: seq![], fetched: 0, executed: 0 }
}

/// One cycle: the free slots of the window fetch the next instructions of the
/// trace, the fetched instructions move to decode, and the execute stage runs
/// on its own instructions followed by the decoded ones.
pub open spec fn cycle(
    prog: Seq<InstructionView>,
    width: nat,
    register_renaming: bool,
    memory_renaming: bool,
    s: SimState,
) -> SimState {
    let capacity = (width - occupancy(s)) as nat;
    let n = prog.len() as int;
    let now = s.execute + s.decode;
    let kept = retained(now, memory_renaming, register_renaming);
    SimState {
        fetch: prog.subrange(min(s.fetched as int, n), min((s.fetched + capacity) as int, n)),
        decode: s.fetch,
        execute: kept,
        fetched: s.fetched + capacity,
        executed: (s.executed + now.len() - kept.len()) as nat,
    }
}

/// The state after `k` cycles.
pub open spec fn run(
    prog: Seq<InstructionView>,
    width: nat,
    register_renaming: bool,
    memory_renaming: bool,
    k: nat,
) -> SimState
    decreases k,
{
    if k == 0 {
        initial_state()
    } else {
        cycle(
            prog,
            width,
            register_renaming,
            memory_renaming,
            run(prog, width, register_renaming, memory_renaming, (k - 1) as nat),
        )
    }
}

/// After `k` cycles every instruction of the trace has executed.
pub open spec fn finished(
    prog: Seq<InstructionView>,
    width: nat,
    register_renaming: bool,
    memory_renaming: bool,
    k: nat,
) -> bool {
    run(prog, width, register_renaming, memory_renaming, k).executed >= prog.len()
}

/// Every instruction of the trace is, in `s`, either not fetched yet, in one
/// of the stages, or executed, exactly once.
pub open spec fn accounted(n: nat, s: SimState) -> bool {
    s.executed + occupancy(s) == min(s.fetched as int, n as int)
}

/// A measure that every cycle of an unfinished run lowers.
pub open spec fn potential(n: nat, s: SimState) -> int {
    3 * (n - min(s.fetched as int, n as int)) + 2 * s.fetch.len() + s.decode.len()
        + s.execute.len()
}

proof fn lemma_cycle(
    prog: Seq<InstructionView>,
    width: nat,
    register_renaming: bool,
    memory_renaming: bool,
    s: SimState,
)
    requires
        accounted(prog.len(), s),
        occupancy(s) <= width,
    ensures
        ({
            let t = cycle(prog, width, register_renaming, memory_renaming, s);
            &&& accounted(prog.len(), t)
            &&& occupancy(t) <= width
            &&& t.executed >= s.executed
            &&& potential(prog.len(), t) <= potential(prog.len(), s)
            &&& (s.executed < prog.len() && width > 0) ==> potential(prog.len(), t) < potential(
                prog.len(),
                s,
            )
            &&& t.fetched <= s.fetched + width
        }),
{
    let now = s.execute + s.decode;
    lemma_execute_stage_progress(now, memory_renaming, register_renaming);
}

/// The state after `k` cycles keeps the window within `width` slots and
/// accounts for every instruction exactly once; fetching advances by at most
/// `width` per cycle.
pub proof fn lemma_run_invariants(
    prog: Seq<InstructionView>,
    width: nat,
    register_renaming: bool,
    memory_renaming: bool,
    k: nat,
)
    ensures
        occupancy(run(prog, width, register_renaming, memory_renaming, k)) <= width,
        accounted(prog.len(), run(prog, width, register_renaming, memory_renaming, k)),
        run(prog, width, register_renaming, memory_renaming, k).executed <= prog.len(),
        run(prog, width, register_renaming, memory_renaming, k).fetched <= k * width,
    decreases k,
{
    if k > 0 {
        lemma_run_invariants(prog, width, register_renaming, memory_renaming, (k - 1) as nat);
        let s = run(prog, width, register_renaming, memory_renaming, (k - 1) as nat);
        lemma_cycle(prog, width, register_renaming, memory_renaming, s);
        assert(k * width == (k - 1) * width + width) by (nonlinear_arith);
    }
}

proof fn lemma_finished_or_measured(
    prog: Seq<InstructionView>,
    width: nat,
    register_renaming: bool,
    memory_renaming: bool,
    k: nat,
)
    requires
        width > 0,
    ensures
        finished(prog, width, register_renaming, memory_renaming, k) || k + potential(
            prog.len(),
            run(prog, width, register_renaming, memory_renaming, k),
        ) <= 3 * prog.len(),
    decreases k,
{
    if k > 0 {
        lemma_finished_or_measured(prog, width, register_renaming, memory_renaming, (k - 1) as nat);
        lemma_run_invariants(prog, width, register_renaming, memory_renaming, (k - 1) as nat);
        let s = run(prog, width, register_renaming, memory_renaming, (k - 1) as nat);
        lemma_cycle(prog, width, register_renaming, memory_renaming, s);
    }
}

/// With at least one slot in the window the simulation ends: after three
/// cycles per instruction of the trace every instruction has executed.
pub proof fn lemma_run_finishes(
    prog: Seq<InstructionView>,
    width: nat,
    register_renaming: bool,
    memory_renaming: bool,
)
    requires
        width > 0,
    ensures
        finished(prog, width, register_renaming, memory_renaming, 3 * prog.len()),
{
    let k = 3 * prog.len();
    lemma_finished_or_measured(prog, width, register_renaming, memory_renaming, k);
    lemma_run_invariants(prog, width, register_renaming, memory_renaming, k);
}

/// How many instructions of the trace have entered the window after `k` cycles.
pub open spec fn entered(
    prog: Seq<InstructionView>,
    width: nat,
    register_renaming: bool,
    memory_renaming: bool,
    k: nat,
) -> int {
    min(run(prog, width, register_renaming, memory_renaming, k).fetched as int, prog.len() as int)
}

/// An instruction holds its slot of the window in the cycle it is fetched
/// and in the two cycles after it, so the instructions fetched in any three
/// consecutive cycles fit in the window together.
pub proof fn lemma_entered_window(
    prog: Seq<InstructionView>,
    width: nat,
    register_renaming: bool,
    memory_renaming: bool,
    k: nat,
)
    ensures
        entered(prog, width, register_renaming, memory_renaming, k + 3) <= entered(
            prog,
            width,
            register_renaming,
            memory_renaming,
            k,
        ) + width,
        entered(prog, width, register_renaming, memory_renaming, k) <= entered(
            prog,
            width,
            register_renaming,
            memory_renaming,
            k + 1,
        ),
{
    let s0 = run(prog, width, register_renaming, memory_renaming, k);
    let s1 = run(prog, width, register_renaming, memory_renaming, k + 1);
    let s2 = run(prog, width, register_renaming, memory_renaming, k + 2);
    let s3 = run(prog, width, register_renaming, memory_renaming, k + 3);
    lemma_run_invariants(prog, width, register_renaming, memory_renaming, k);
    lemma_run_invariants(prog, width, register_renaming, memory_renaming, k + 1);
    lemma_run_invariants(prog, width, register_renaming, memory_renaming, k + 2);
    assert(s1 == cycle(prog, width, register_renaming, memory_renaming, s0));
    assert(s2 == cycle(prog, width, register_renaming, memory_renaming, s1));
    assert(s3 == cycle(prog, width, register_renaming, memory_renaming, s2));
}

/// The window refills: after each cycle, as many instructions have entered
/// as have executed before it plus the width of the window (or the whole trace).
pub proof fn lemma_window_refills(
    prog: Seq<InstructionView>,
    width: nat,
    register_renaming: bool,
    memory_renaming: bool,
    k: nat,
)
    ensures
        entered(prog, width, register_renaming, memory_renaming, k + 1) == min(
            (run(prog, width, register_renaming, memory_renaming, k).executed + width) as int,
            prog.len() as int,
        ),
{
    let s0 = run(prog, width, register_renaming, memory_renaming, k);
    lemma_run_invariants(prog, width, register_renaming, memory_renaming, k);
    assert(run(prog, width, register_renaming, memory_renaming, k + 1) == cycle(
        prog,
        width,
        register_renaming,
        memory_renaming,
        s0,
    ));
}

/// At most `width` instructions enter the window in every three cycles.
pub proof fn lemma_entered_bound(
    prog: Seq<InstructionView>,
    width: nat,
    register_renaming: bool,
    memory_renaming: bool,
    k: nat,
)
    ensures
        entered(prog, width, register_renaming, memory_renaming, k) <= width * ((k + 2) / 3),
    decreases k,
{
    if k < 3 {
        let s0 = run(prog, width, register_renaming, memory_renaming, 0);
        let s1 = run(prog, width, register_renaming, memory_renaming, 1);
        let s2 = run(prog, width, register_renaming, memory_renaming, 2);
        assert(s0 == initial_state());
        assert(s1 == cycle(prog, width, register_renaming, memory_renaming, s0));
        assert(s2 == cycle(prog, width, register_renaming, memory_renaming, s1));
        lemma_run_invariants(prog, width, register_renaming, memory_renaming, 1);
        assert(width * ((k + 2) / 3) == if k == 0 {
            0
        } else {
            width as int
        }) by (nonlinear_arith)
            requires
                k < 3,
        ;
    } else {
        lemma_entered_bound(prog, width, register_renaming, memory_renaming, (k - 3) as nat);
        lemma_entered_window(prog, width, register_renaming, memory_renaming, (k - 3) as nat);
        assert(width * ((k - 1) / 3) + width == width * ((k + 2) / 3)) by (nonlinear_arith)
            requires
                k >= 3,
        ;
    }
}

/// Throughput: an instruction is fetched, decoded and executed in three
/// different cycles and the window holds at most `width` instructions, so
/// after `k + 2` cycles at most the instructions that had entered after `k`
/// cycles have executed, which is at most `width` for every three cycles.
pub proof fn lemma_throughput(
    prog: Seq<InstructionView>,
    width: nat,
    register_renaming: bool,
    memory_renaming: bool,
    k: nat,
)
    ensures
        run(prog, width, register_renaming, memory_renaming, k + 2).executed <= entered(
            prog,
            width,
            register_renaming,
            memory_renaming,
            k,
        ),
        run(prog, width, register_renaming, memory_renaming, k + 2).executed <= width * ((k + 2)
            / 3),
{
    let s0 = run(prog, width, register_renaming, memory_renaming, k);
    let s1 = run(prog, width, register_renaming, memory_renaming, k + 1);
    let s2 = run(prog, width, register_renaming, memory_renaming, k + 2);
    lemma_run_invariants(prog, width, register_renaming, memory_renaming, k);
    lemma_run_invariants(prog, width, register_renaming, memory_renaming, k + 1);
    lemma_run_invariants(prog, width, register_renaming, memory_renaming, k + 2);
    assert(s1 == cycle(prog, width, register_renaming, memory_renaming, s0));
    assert(s2 == cycle(prog, width, register_renaming, memory_renaming, s1));
    lemma_cycle(prog, width, register_renaming, memory_renaming, s0);
    lemma_cycle(prog, width, register_renaming, memory_renaming, s1);
    lemma_entered_bound(prog, width, register_renaming, memory_renaming, k);
}

/// Register renaming and memory renaming only ever remove hazards: whatever
/// blocks an instruction with renaming also blocks it without.
pub proof fn lemma_renaming_removes_hazards(
    later: InstructionView,
    earlier: InstructionView,
    memory_renaming: bool,
    register_renaming: bool,
)
    ensures
        blocks(later, earlier, memory_renaming, true) ==> blocks(
            later,
            earlier,
            memory_renaming,
            false,
        ),
        blocks(later, earlier, true, register_renaming) ==> blocks(
            later,
            earlier,
            false,
            register_renaming,
        ),
{
}

/// Consequently, an instruction that the dependency check lets execute
/// without renaming also executes with renaming.
pub proof fn lemma_renaming_frees_instructions(
    later: InstructionView,
    prev: Seq<InstructionView>,
    memory_renaming: bool,
    register_renaming: bool,
)
    ensures
        dependency_check(later, prev, memory_renaming, false).0 ==> dependency_check(
            later,
            prev,
            memory_renaming,
            register_renaming,
        ).0,
        dependency_check(later, prev, false, register_renaming).0 ==> dependency_check(
            later,
            prev,
            memory_renaming,
            register_renaming,
        ).0,
    decreases prev.len(),
{
    if prev.len() > 0 {
        lemma_renaming_frees_instructions(later, prev.drop_last(), memory_renaming, register_renaming);
        lemma_renaming_removes_hazards(later, prev.last(), memory_renaming, register_renaming);
        lemma_renaming_removes_hazards(later, prev.last(), false, register_renaming);
        lemma_renaming_removes_hazards(later, prev.last(), memory_renaming, false);
    }
}

/// A blocked instruction waits on an instruction ahead of it: the key that
/// the dependency check reports is the key of an earlier instruction that blocks it,
/// and no later one blocks it; the oldest instruction is never blocked.
pub proof fn lemma_blocker_is_latest(
    later: InstructionView,
    prev: Seq<InstructionView>,
    memory_renaming: bool,
    register_renaming: bool,
)
    ensures
        prev.len() == 0 ==> dependency_check(later, prev, memory_renaming, register_renaming) == (
        true, -1i32),
        !dependency_check(later, prev, memory_renaming, register_renaming).0 ==> exists|j: int|
            0 <= j < prev.len() && prev[j].key == dependency_check(
                later,
                prev,
                memory_renaming,
                register_renaming,
            ).1 && blocks(later, prev[j], memory_renaming, register_renaming) && forall|m: int|
                j < m < prev.len() ==> !blocks(later, #[trigger] prev[m], memory_renaming, register_renaming),
        dependency_check(later, prev, memory_renaming, register_renaming).0 ==> forall|m: int|
            0 <= m < prev.len() ==> !blocks(later, #[trigger] prev[m], memory_renaming, register_renaming),
    decreases prev.len(),
{
    if prev.len() > 0 {
        let rest = prev.drop_last();
        lemma_blocker_is_latest(later, rest, memory_renaming, register_renaming);
        if blocks(later, prev.last(), memory_renaming, register_renaming) {
            assert(prev[prev.len() - 1] == prev.last());
        } else {
            assert forall|m: int| 0 <= m < rest.len() implies rest[m] == prev[m] by {}
            if !dependency_check(later, prev, memory_renaming, register_renaming).0 {
                let j = choose|j: int|
                    0 <= j < rest.len() && rest[j].key == dependency_check(
                        later,
                        rest,
                        memory_renaming,
                        register_renaming,
                    ).1 && blocks(later, rest[j], memory_renaming, register_renaming) && forall|m: int|
                        j < m < rest.len() ==> !blocks(later, #[trigger] rest[m], memory_renaming, register_renaming);
                assert(prev[j] == rest[j]);
                assert forall|m: int| j < m < prev.len() implies !blocks(later, #[trigger] prev[m], memory_renaming, register_renaming) by {
                    if m < rest.len() {
                        assert(prev[m] == rest[m]);
                    }
                }
            }
        }
    }
}

/// Memory order: a store waits for every earlier store and load, and a load
/// for every earlier store unless memory renaming is on and both addresses
/// are logged and differ, whatever registers and shortcuts the two carry.
pub proof fn lemma_memory_order(
    later: InstructionView,
    earlier: InstructionView,
    memory_renaming: bool,
    register_renaming: bool,
)
    ensures
        later.mem_store && (earlier.mem_store || earlier.mem_load) ==> blocks(
            later,
            earlier,
            memory_renaming,
            register_renaming,
        ),
        later.mem_load && earlier.mem_store && !(memory_renaming && later.mem_addr is Some
            && earlier.mem_addr is Some && later.mem_addr != earlier.mem_addr) ==> blocks(
            later,
            earlier,
            memory_renaming,
            register_renaming,
        ),
{
}

/// Some register occurs in both lists.
pub open spec fn common_register(a: Seq<Seq<char>>, b: Seq<Seq<char>>) -> bool {
    exists|r: Seq<char>| a.contains(r) && b.contains(r)
}

/// The whole blocking rule: `later` waits for `earlier` exactly when its
/// shortcut names `earlier`, when memory order requires it (a store after
/// any store or load; a load after a store, unless memory renaming is on and
/// both addresses are logged and differ), when it reads a register that
/// `earlier` writes, or, without register renaming, when it writes a
/// register that `earlier` reads or writes.
pub proof fn lemma_blocking_rule(
    later: InstructionView,
    earlier: InstructionView,
    memory_renaming: bool,
    register_renaming: bool,
)
    ensures
        blocks(later, earlier, memory_renaming, register_renaming) == (
        (later.shortcut_dep >= 0 && earlier.key == later.shortcut_dep) || (later.mem_store && (
        earlier.mem_store || earlier.mem_load)) || (!later.mem_store && later.mem_load
            && earlier.mem_store && !(memory_renaming && later.mem_addr is Some
            && earlier.mem_addr is Some && later.mem_addr != earlier.mem_addr)) || common_register(
            later.reg_read_dep,
            earlier.reg_write_dep,
        ) || (!register_renaming && (common_register(later.reg_write_dep, earlier.reg_read_dep)
            || common_register(later.reg_write_dep, earlier.reg_write_dep)))),
{
    lemma_share_register_common(later.reg_read_dep, earlier.reg_write_dep);
    lemma_share_register_common(later.reg_write_dep, earlier.reg_read_dep);
    lemma_share_register_common(later.reg_write_dep, earlier.reg_write_dep);
}

proof fn lemma_share_register_common(a: Seq<Seq<char>>, b: Seq<Seq<char>>)
    ensures
        share_register(a, b) == common_register(a, b),
{
    if share_register(a, b) {
        let (i, j) = choose|i: int, j: int| 0 <= i < a.len() && 0 <= j < b.len() && a[i] == b[j];
        assert(a.contains(a[i]) && b.contains(a[i]));
    }
    if common_register(a, b) {
        let r = choose|r: Seq<char>| a.contains(r) && b.contains(r);
        let i = choose|i: int| 0 <= i < a.len() && a[i] == r;
        let j = choose|j: int| 0 <= j < b.len() && b[j] == r;
        assert(a[i] == b[j]);
    }
}

/// Hence the dependency check never lets a memory access pass an earlier
/// one that it must wait for: it reports the instruction blocked, by the key
/// of an instruction at or after that one.
pub proof fn lemma_memory_order_check(
    later: InstructionView,
    prev: Seq<InstructionView>,
    j: int,
    memory_renaming: bool,
    register_renaming: bool,
)
    requires
        0 <= j < prev.len(),
        (later.mem_store && (prev[j].mem_store || prev[j].mem_load)) || (later.mem_load
            && prev[j].mem_store && !(memory_renaming && later.mem_addr is Some
            && prev[j].mem_addr is Some && later.mem_addr != prev[j].mem_addr)),
    ensures
        !dependency_check(later, prev, memory_renaming, register_renaming).0,
        exists|m: int|
            j <= m < prev.len() && prev[m].key == dependency_check(
                later,
                prev,
                memory_renaming,
                register_renaming,
            ).1,
{
    lemma_memory_order(later, prev[j], memory_renaming, register_renaming);
    lemma_blocker_is_latest(later, prev, memory_renaming, register_renaming);
}

/// The positions of `now` below `n` whose instruction something ahead of it
/// blocks.
spec fn blocked_positions(
    now: Seq<InstructionView>,
    n: nat,
    memory_renaming: bool,
    register_renaming: bool,
) -> Seq<int>
    decreases n,
{
    if n == 0 {
        seq![]
    } else {
        let p = blocked_positions(now, (n - 1) as nat, memory_renaming, register_renaming);
        if blocker(now[n - 1], now.take(n - 1), memory_renaming, register_renaming) is Some {
            p.push(n - 1)
        } else {
            p
        }
    }
}

/// `kept` holds, in order, exactly the instructions of `now` below `n` that
/// an instruction ahead of them blocks, each carrying as its shortcut the key
/// of its latest blocker.
pub open spec fn keeps_blocked(
    now: Seq<InstructionView>,
    n: int,
    kept: Seq<InstructionView>,
    idx: Seq<int>,
    memory_renaming: bool,
    register_renaming: bool,
) -> bool {
    &&& idx.len() == kept.len()
    &&& forall|t: int| 0 <= t < idx.len() ==> 0 <= #[trigger] idx[t] < n
    &&& forall|t: int, u: int| 0 <= t < u < idx.len() ==> idx[t] < idx[u]
    &&& forall|i: int, j: int|
        0 <= j < i < n && #[trigger] blocks(now[i], now[j], memory_renaming, register_renaming)
            ==> exists|t: int| 0 <= t < idx.len() && idx[t] == i
    &&& forall|t: int|
        0 <= t < idx.len() ==> carries_latest_blocker(
            now,
            #[trigger] idx[t],
            kept[t],
            memory_renaming,
            register_renaming,
        )
}

/// `x` is instruction `i` of `now` carrying as its shortcut the key of its
/// latest blocker ahead of it in `now`.
pub open spec fn carries_latest_blocker(
    now: Seq<InstructionView>,
    i: int,
    x: InstructionView,
    memory_renaming: bool,
    register_renaming: bool,
) -> bool {
    exists|j: int|
        {
            &&& 0 <= j < i
            &&& #[trigger] blocks(now[i], now[j], memory_renaming, register_renaming)
            &&& forall|m: int|
                j < m < i ==> !blocks(now[i], #[trigger] now[m], memory_renaming, register_renaming)
            &&& x == (InstructionView { shortcut_dep: now[j].key, ..now[i] })
        }
}

proof fn lemma_retained_prefix_keeps_blocked(
    now: Seq<InstructionView>,
    n: nat,
    memory_renaming: bool,
    register_renaming: bool,
)
    requires
        n <= now.len(),
    ensures
        keeps_blocked(
            now,
            n as int,
            retained_prefix(now, n, memory_renaming, register_renaming),
            blocked_positions(now, n, memory_renaming, register_renaming),
            memory_renaming,
            register_renaming,
        ),
    decreases n,
{
    if n > 0 {
        let n1 = (n - 1) as nat;
        let i = n1 as int;
        lemma_retained_prefix_keeps_blocked(now, n1, memory_renaming, register_renaming);
        let kept = retained_prefix(now, n1, memory_renaming, register_renaming);
        let idx = blocked_positions(now, n1, memory_renaming, register_renaming);
        let prev = now.take(i);
        lemma_blocker_is_latest(now[i], prev, memory_renaming, register_renaming);
        match blocker(now[i], prev, memory_renaming, register_renaming) {
            Some(c) => {
                let kept2 = kept.push(with_shortcut(now[i], c));
                let idx2 = idx.push(i);
                assert(retained_prefix(now, n, memory_renaming, register_renaming) == kept2);
                assert(blocked_positions(now, n, memory_renaming, register_renaming) == idx2);
                let j = choose|j: int|
                    0 <= j < prev.len() && prev[j].key == dependency_check(
                        now[i],
                        prev,
                        memory_renaming,
                        register_renaming,
                    ).1 && blocks(now[i], prev[j], memory_renaming, register_renaming) && forall|
                        m: int,
                    |
                        j < m < prev.len() ==> !blocks(
                            now[i],
                            #[trigger] prev[m],
                            memory_renaming,
                            register_renaming,
                        );
                assert(prev[j] == now[j]);
                assert forall|m: int| j < m < i implies !blocks(
                    now[i],
                    #[trigger] now[m],
                    memory_renaming,
                    register_renaming,
                ) by {
                    assert(prev[m] == now[m]);
                }
                assert(carries_latest_blocker(now, i, with_shortcut(now[i], c), memory_renaming, register_renaming));
                assert forall|t: int| 0 <= t < idx2.len() implies carries_latest_blocker(
                    now,
                    #[trigger] idx2[t],
                    kept2[t],
                    memory_renaming,
                    register_renaming,
                ) by {
                    if t < idx.len() {
                        assert(kept2[t] == kept[t]);
                        assert(idx2[t] == idx[t]);
                    } else {
                        assert(kept2[t] == with_shortcut(now[i], c));
                        assert(idx2[t] == i);
                    }
                }
                assert forall|i2: int, j2: int|
                    0 <= j2 < i2 < n && #[trigger] blocks(
                        now[i2],
                        now[j2],
                        memory_renaming,
                        register_renaming,
                    ) implies exists|t: int| 0 <= t < idx2.len() && idx2[t] == i2 by {
                    if i2 < i {
                        let t = choose|t: int| 0 <= t < idx.len() && idx[t] == i2;
                        assert(idx2[t] == i2);
                    } else {
                        assert(idx2[idx.len() as int] == i2);
                    }
                }
                assert(forall|t: int| 0 <= t < idx2.len() ==> 0 <= #[trigger] idx2[t] < n);
                assert(forall|t: int, u: int| 0 <= t < u < idx2.len() ==> idx2[t] < idx2[u]);
                assert(keeps_blocked(now, n as int, kept2, idx2, memory_renaming, register_renaming));
            },
            None => {
                assert(retained_prefix(now, n, memory_renaming, register_renaming) == kept);
                assert(blocked_positions(now, n, memory_renaming, register_renaming) == idx);
                assert forall|i2: int, j2: int|
                    0 <= j2 < i2 < n && #[trigger] blocks(
                        now[i2],
                        now[j2],
                        memory_renaming,
                        register_renaming,
                    ) implies exists|t: int| 0 <= t < idx.len() && idx[t] == i2 by {
                    if i2 == i {
                        assert(prev[j2] == now[j2]);
                        assert(!blocks(now[i], prev[j2], memory_renaming, register_renaming));
                    }
                }
                assert(keeps_blocked(now, n as int, kept, idx, memory_renaming, register_renaming));
            },
        }
    }
}

/// The execute stage keeps, in order, exactly the instructions that an
/// instruction ahead of them in the stage blocks, and each one it keeps
/// carries as its shortcut the key of its latest blocker in this cycle,
/// whatever shortcut it came in with.
pub proof fn lemma_retained_carry_latest_blocker(
    now: Seq<InstructionView>,
    memory_renaming: bool,
    register_renaming: bool,
)
    ensures
        exists|idx: Seq<int>|
            keeps_blocked(
                now,
                now.len() as int,
                retained(now, memory_renaming, register_renaming),
                idx,
                memory_renaming,
                register_renaming,
            ),
{
    lemma_retained_prefix_keeps_blocked(now, now.len(), memory_renaming, register_renaming);
    let idx = blocked_positions(now, now.len(), memory_renaming, register_renaming);
    assert(keeps_blocked(
        now,
        now.len() as int,
        retained(now, memory_renaming, register_renaming),
        idx,
        memory_renaming,
        register_renaming,
    ));
}

/// Simulates the trace `inst_list` on a window of `width` slots and returns
/// the number of instructions and the number of cycles until all have
/// executed.
#[verifier::rlimit(40)]
pub fn simulate_list(
    inst_list: &Vec<Instruction>,
    width: &usize,
    register_renaming: bool,
    memory_renaming: bool,
) -> (r: (usize, usize))
    requires
        *width > 0 || inst_list.len() == 0,
        inst_list.len() <= usize::MAX / 3,
    ensures
        r.0 == inst_list.len(),
        finished(instr_views(inst_list@), *width as nat, register_renaming, memory_renaming, r.1 as nat),
        forall|j: nat|
            j < r.1 ==> !finished(
                instr_views(inst_list@),
                *width as nat,
                register_renaming,
                memory_renaming,
                j,
            ),
        r.1 <= 3 * inst_list.len(),
        inst_list.len() <= *width * (r.1 / 3),
        inst_list.len() > 0 ==> r.1 >= 3,
{
    let ghost prog = instr_views(inst_list@);
    let w = *width;
    let total_instructions = inst_list.len();
    let mut total_executed: usize = 0;
    let mut total_fetched: usize = 0;
    let mut num_cycles: usize = 0;
    let mut window = Window { fetch: Vec::new(), decode: Vec::new(), execute: Vec::new() };
    assert(instr_views(window.fetch@) =~= Seq::<InstructionView>::empty());
    while total_executed < total_instructions
        invariant
            prog == instr_views(inst_list@),
            total_instructions == inst_list.len(),
            total_instructions <= usize::MAX / 3,
            w > 0 || total_instructions == 0,
            ({
                let s = run(prog, w as nat, register_renaming, memory_renaming, num_cycles as nat);
                &&& instr_views(window.fetch@) == s.fetch
                &&& instr_views(window.decode@) == s.decode
                &&& instr_views(window.execute@) == s.execute
                &&& total_executed == s.executed
                &&& total_fetched == min(s.fetched as int, total_instructions as int)
                &&& accounted(total_instructions as nat, s)
                &&& occupancy(s) <= w
                &&& num_cycles + potential(total_instructions as nat, s) <= 3 * total_instructions
            }),
            forall|j: nat|
                j < num_cycles ==> !finished(prog, w as nat, register_renaming, memory_renaming, j),
        decreases potential(
            total_instructions as nat,
            run(prog, w as nat, register_renaming, memory_renaming, num_cycles as nat),
        ),
    {
        let ghost s = run(prog, w as nat, register_renaming, memory_renaming, num_cycles as nat);
        proof {
            lemma_cycle(prog, w as nat, register_renaming, memory_renaming, s);
        }
        num_cycles += 1;

        // fetch what fits in the window
        let occupied = window.fetch.len() + window.decode.len() + window.execute.len();
        let capacity = w - occupied;
        let end = if capacity >= total_instructions - total_fetched {
            total_instructions
        } else {
            total_fetched + capacity
        };
        let mut fetch_now: Vec<Instruction> = Vec::new();
        let mut i = total_fetched;
        while i < end
            invariant
                total_fetched <= i <= end <= total_instructions,
                total_instructions == inst_list.len(),
                prog == instr_views(inst_list@),
                instr_views(fetch_now@) == prog.subrange(total_fetched as int, i as int),
            decreases end - i,
        {
            let ghost before = instr_views(fetch_now@);
            fetch_now.push(inst_list[i].clone());
            assert(instr_views(fetch_now@) =~= before.push(prog[i as int]));
            assert(prog.subrange(total_fetched as int, i + 1) =~= prog.subrange(
                total_fetched as int,
                i as int,
            ).push(prog[i as int]));
            i += 1;
        }
        total_fetched = end;

        // the fetched instructions move on to decode, and the execute stage
        // runs on what it held followed by what was decoded
        let Window { fetch, decode, execute } = window;
        let decode_now = fetch;
        let mut execute_now = execute;
        let mut decoded = decode;
        let ghost ev = instr_views(execute_now@);
        let ghost dv = instr_views(decoded@);
        execute_now.append(&mut decoded);
        assert(instr_views(execute_now@) =~= ev + dv);
        let len = execute_now.len();
        let kept = execute_stage(&execute_now, memory_renaming, register_renaming);
        proof {
            lemma_execute_stage_progress(ev + dv, memory_renaming, register_renaming);
        }
        total_executed = total_executed + (len - kept.len());
        window = Window { fetch: fetch_now, decode: decode_now, execute: kept };
    }
    proof {
        if total_instructions > 0 {
            lemma_throughput(prog, w as nat, register_renaming, memory_renaming, 0);
            assert(run(prog, w as nat, register_renaming, memory_renaming, 0) == initial_state());
            let s1 = run(prog, w as nat, register_renaming, memory_renaming, 1);
            assert(s1 == cycle(prog, w as nat, register_renaming, memory_renaming, initial_state()));
            assert(initial_state().execute + initial_state().decode =~= Seq::<InstructionView>::empty());
            assert(!finished(prog, w as nat, register_renaming, memory_renaming, 0));
            assert(!finished(prog, w as nat, register_renaming, memory_renaming, 1));
            assert(!finished(prog, w as nat, register_renaming, memory_renaming, 2));
            lemma_throughput(prog, w as nat, register_renaming, memory_renaming, (num_cycles - 2) as nat);
        }
    }
    (total_instructions, num_cycles)
}

} // verus!
