//! The simulation seen instruction by instruction: which instructions have
//! executed after each cycle, and how that compares between two runs of one
//! trace whose hazards or window differ.
use vstd::prelude::*;

use crate::experiment::takes_cycles;
use crate::models::InstructionView;
use crate::simulate::{
    blocker, blocks, cycle, dependency_check, entered, finished, lemma_blocker_is_latest,
    lemma_run_invariants, lemma_window_refills, memory_hazard, retained_prefix, run,
    share_register, with_shortcut,
};

verus! {

/// The positions below `m` at which `p` holds, in increasing order.
pub open spec fn select(p: spec_fn(int) -> bool, m: nat) -> Seq<int>
    decreases m,
{
    if m == 0 {
        seq![]
    } else {
        let s = select(p, (m - 1) as nat);
        if p(m - 1) {
            s.push(m - 1)
        } else {
            s
        }
    }
}

proof fn lemma_select_members(p: spec_fn(int) -> bool, m: nat)
    ensures
        forall|u: int|
            0 <= u < select(p, m).len() ==> 0 <= #[trigger] select(p, m)[u] < m && p(
                select(p, m)[u],
            ),
        forall|j: int| 0 <= j < m && #[trigger] p(j) ==> exists|u: int| 0 <= u < select(p, m).len() && select(p, m)[u] == j,
    decreases m,
{
    if m > 0 {
        lemma_select_members(p, (m - 1) as nat);
        let s = select(p, (m - 1) as nat);
        assert forall|j: int| 0 <= j < m && #[trigger] p(j) implies exists|u: int|
            0 <= u < select(p, m).len() && select(p, m)[u] == j by {
            if j < m - 1 {
                let u = choose|u: int| 0 <= u < s.len() && s[u] == j;
                assert(select(p, m)[u] == j);
            } else {
                assert(select(p, m)[s.len() as int] == j);
            }
        }
    }
}

proof fn lemma_select_prefix(p: spec_fn(int) -> bool, m1: nat, m2: nat)
    requires
        m1 <= m2,
    ensures
        select(p, m1).len() <= select(p, m2).len(),
        forall|u: int| 0 <= u < select(p, m1).len() ==> select(p, m2)[u] == select(p, m1)[u],
    decreases m2,
{
    if m1 < m2 {
        lemma_select_prefix(p, m1, (m2 - 1) as nat);
    }
}

proof fn lemma_select_complement(p: spec_fn(int) -> bool, q: spec_fn(int) -> bool, m: nat)
    requires
        forall|i: int| #[trigger] p(i) == !q(i),
    ensures
        select(p, m).len() + select(q, m).len() == m,
    decreases m,
{
    if m > 0 {
        lemma_select_complement(p, q, (m - 1) as nat);
    }
}

proof fn lemma_select_stable(p: spec_fn(int) -> bool, m1: nat, m2: nat)
    requires
        m1 <= m2,
        forall|i: int| m1 <= i < m2 ==> !#[trigger] p(i),
    ensures
        select(p, m2) == select(p, m1),
    decreases m2,
{
    if m1 < m2 {
        lemma_select_stable(p, m1, (m2 - 1) as nat);
    }
}

proof fn lemma_select_full(p: spec_fn(int) -> bool, m1: nat, m2: nat)
    requires
        m1 <= m2,
        forall|i: int| m1 <= i < m2 ==> #[trigger] p(i),
    ensures
        select(p, m2).len() == select(p, m1).len() + (m2 - m1),
        forall|t: int|
            select(p, m1).len() <= t < select(p, m2).len() ==> select(p, m2)[t] == m1 + (t
                - select(p, m1).len()),
    decreases m2,
{
    if m1 < m2 {
        lemma_select_full(p, m1, (m2 - 1) as nat);
    }
}

proof fn lemma_select_monotone(p: spec_fn(int) -> bool, q: spec_fn(int) -> bool, m: nat)
    requires
        forall|i: int| #[trigger] p(i) ==> q(i),
    ensures
        select(p, m).len() <= select(q, m).len(),
    decreases m,
{
    if m > 0 {
        lemma_select_monotone(p, q, (m - 1) as nat);
    }
}


/// How many instructions had entered the window `k` cycles after the start
/// (none before it).
pub open spec fn ent(
    prog: Seq<InstructionView>,
    width: nat,
    register_renaming: bool,
    memory_renaming: bool,
    k: int,
) -> int {
    if k <= 0 {
        0
    } else {
        entered(prog, width, register_renaming, memory_renaming, k as nat)
    }
}

/// Whether `later` must wait for `earlier` by the hazards of the two
/// instructions alone, whatever shortcut `later` carries.
pub open spec fn hazard(
    later: InstructionView,
    earlier: InstructionView,
    memory_renaming: bool,
    register_renaming: bool,
) -> bool {
    ||| memory_hazard(later, earlier, memory_renaming)
    ||| share_register(later.reg_read_dep, earlier.reg_write_dep)
    ||| !register_renaming && (share_register(later.reg_write_dep, earlier.reg_read_dep)
        || share_register(later.reg_write_dep, earlier.reg_write_dep))
}

/// Whether instruction `i` of the trace has executed after `k` cycles: it
/// executes in the first cycle in which it has passed decode and every
/// earlier instruction it has a hazard with has already executed.
pub open spec fn done(
    prog: Seq<InstructionView>,
    width: nat,
    register_renaming: bool,
    memory_renaming: bool,
    k: nat,
    i: int,
) -> bool
    decreases k,
{
    if k == 0 {
        false
    } else {
        done(prog, width, register_renaming, memory_renaming, (k - 1) as nat, i) || (0 <= i < ent(
            prog,
            width,
            register_renaming,
            memory_renaming,
            k - 2,
        ) && forall|j: int|
            0 <= j < i && hazard(prog[i], #[trigger] prog[j], memory_renaming, register_renaming)
                ==> done(prog, width, register_renaming, memory_renaming, (k - 1) as nat, j))
    }
}

/// The instructions that have not executed after `k` cycles.
pub open spec fn waiting(
    prog: Seq<InstructionView>,
    width: nat,
    register_renaming: bool,
    memory_renaming: bool,
    k: nat,
) -> spec_fn(int) -> bool {
    |i: int| !done(prog, width, register_renaming, memory_renaming, k, i)
}

/// The instructions that have executed after `k` cycles.
pub open spec fn executed_by(
    prog: Seq<InstructionView>,
    width: nat,
    register_renaming: bool,
    memory_renaming: bool,
    k: nat,
) -> spec_fn(int) -> bool {
    |i: int| done(prog, width, register_renaming, memory_renaming, k, i)
}

/// No two instructions of the trace share a key.
pub open spec fn distinct_keys(prog: Seq<InstructionView>) -> bool {
    forall|i: int, j: int| 0 <= i < j < prog.len() ==> prog[i].key != prog[j].key
}

/// No instruction of the trace carries a shortcut yet.
pub open spec fn no_shortcuts(prog: Seq<InstructionView>) -> bool {
    forall|i: int| 0 <= i < prog.len() ==> prog[i].shortcut_dep < 0
}

/// `x` is instruction `i` of the trace, possibly carrying as its shortcut the
/// key of an earlier instruction that it has a hazard with.
pub open spec fn stands_for(
    prog: Seq<InstructionView>,
    x: InstructionView,
    i: int,
    memory_renaming: bool,
    register_renaming: bool,
) -> bool {
    &&& 0 <= i < prog.len()
    &&& (x == prog[i] || exists|j: int|
        0 <= j < i && hazard(prog[i], prog[j], memory_renaming, register_renaming) && x
            == with_shortcut(prog[i], prog[j].key))
}

/// The state after `k` cycles, described by the instructions that have
/// executed: fetch and decode hold the last two batches of the trace, and
/// the execute stage holds, in order, the earlier ones that have not executed.
pub open spec fn described(
    prog: Seq<InstructionView>,
    width: nat,
    register_renaming: bool,
    memory_renaming: bool,
    k: nat,
) -> bool {
    let s = run(prog, width, register_renaming, memory_renaming, k);
    let e0 = ent(prog, width, register_renaming, memory_renaming, k - 2);
    let e1 = ent(prog, width, register_renaming, memory_renaming, k - 1);
    let e2 = ent(prog, width, register_renaming, memory_renaming, k as int);
    let pending = select(waiting(prog, width, register_renaming, memory_renaming, k), e0 as nat);
    &&& 0 <= e0 <= e1 <= e2 <= prog.len()
    &&& s.fetch == prog.subrange(e1, e2)
    &&& s.decode == prog.subrange(e0, e1)
    &&& s.execute.len() == pending.len()
    &&& forall|t: int|
        0 <= t < pending.len() ==> stands_for(
            prog,
            #[trigger] s.execute[t],
            pending[t],
            memory_renaming,
            register_renaming,
        )
    &&& forall|i: int|
        #[trigger] done(prog, width, register_renaming, memory_renaming, k, i) ==> 0 <= i < e0
}


proof fn lemma_blocks_is_hazard(
    prog: Seq<InstructionView>,
    x: InstructionView,
    i: int,
    y: InstructionView,
    j: int,
    memory_renaming: bool,
    register_renaming: bool,
)
    requires
        distinct_keys(prog),
        no_shortcuts(prog),
        stands_for(prog, x, i, memory_renaming, register_renaming),
        stands_for(prog, y, j, memory_renaming, register_renaming),
        j < i,
    ensures
        blocks(x, y, memory_renaming, register_renaming) == hazard(
            prog[i],
            prog[j],
            memory_renaming,
            register_renaming,
        ),
{
    assert(y.key == prog[j].key);
    if x != prog[i] {
        let j2 = choose|j2: int|
            0 <= j2 < i && hazard(prog[i], prog[j2], memory_renaming, register_renaming) && x
                == with_shortcut(prog[i], prog[j2].key);
        if x.shortcut_dep >= 0 && y.key == x.shortcut_dep {
            if j < j2 {
                assert(prog[j].key != prog[j2].key);
            } else if j2 < j {
                assert(prog[j2].key != prog[j].key);
            }
        }
    }
}

proof fn lemma_retained_follows(
    prog: Seq<InstructionView>,
    width: nat,
    register_renaming: bool,
    memory_renaming: bool,
    k: nat,
    now: Seq<InstructionView>,
    m: nat,
)
    requires
        distinct_keys(prog),
        no_shortcuts(prog),
        m <= ent(prog, width, register_renaming, memory_renaming, k - 1) <= prog.len(),
        now.len() == select(
            waiting(prog, width, register_renaming, memory_renaming, k),
            ent(prog, width, register_renaming, memory_renaming, k - 1) as nat,
        ).len(),
        forall|t: int|
            0 <= t < now.len() ==> stands_for(
                prog,
                #[trigger] now[t],
                select(
                    waiting(prog, width, register_renaming, memory_renaming, k),
                    ent(prog, width, register_renaming, memory_renaming, k - 1) as nat,
                )[t],
                memory_renaming,
                register_renaming,
            ),
    ensures
        ({
            let kept = retained_prefix(
                now,
                select(waiting(prog, width, register_renaming, memory_renaming, k), m).len(),
                memory_renaming,
                register_renaming,
            );
            let pending = select(
                waiting(prog, width, register_renaming, memory_renaming, k + 1),
                m,
            );
            &&& kept.len() == pending.len()
            &&& forall|t: int|
                0 <= t < pending.len() ==> stands_for(
                    prog,
                    #[trigger] kept[t],
                    pending[t],
                    memory_renaming,
                    register_renaming,
                )
        }),
    decreases m,
{
    if m > 0 {
        let m1 = (m - 1) as nat;
        let i = m - 1;
        lemma_retained_follows(prog, width, register_renaming, memory_renaming, k, now, m1);
        let e1 = ent(prog, width, register_renaming, memory_renaming, k - 1) as nat;
        let pk = waiting(prog, width, register_renaming, memory_renaming, k);
        let pk1 = waiting(prog, width, register_renaming, memory_renaming, k + 1);
        let a = select(pk, m1);
        let b = select(pk1, m1);
        let kept = retained_prefix(now, a.len(), memory_renaming, register_renaming);
        if done(prog, width, register_renaming, memory_renaming, k, i) {
            assert(done(prog, width, register_renaming, memory_renaming, k + 1, i));
            assert(select(pk, m) == a);
            assert(select(pk1, m) == b);
        } else {
            let t = a.len() as int;
            assert(select(pk, m) == a.push(i));
            lemma_select_prefix(pk, m, e1);
            lemma_select_members(pk, m1);
            assert(select(pk, e1)[t] == i);
            let x = now[t];
            assert(stands_for(prog, x, i, memory_renaming, register_renaming));
            let prev = now.take(t);
            lemma_blocker_is_latest(x, prev, memory_renaming, register_renaming);
            assert(retained_prefix(now, (t + 1) as nat, memory_renaming, register_renaming)
                == match blocker(now[t], now.take(t), memory_renaming, register_renaming) {
                Some(c) => kept.push(with_shortcut(now[t], c)),
                None => kept,
            });
            match blocker(x, prev, memory_renaming, register_renaming) {
                Some(c) => {
                    assert(!dependency_check(x, prev, memory_renaming, register_renaming).0);
                    let u = choose|u: int|
                        0 <= u < prev.len() && prev[u].key == dependency_check(
                            x,
                            prev,
                            memory_renaming,
                            register_renaming,
                        ).1 && blocks(x, prev[u], memory_renaming, register_renaming);
                    let j = a[u];
                    assert(select(pk, e1)[u] == j);
                    assert(prev[u] == now[u]);
                    assert(stands_for(prog, now[u], j, memory_renaming, register_renaming));
                    assert(pk(j));
                    lemma_blocks_is_hazard(
                        prog,
                        x,
                        i,
                        prev[u],
                        j,
                        memory_renaming,
                        register_renaming,
                    );
                    assert(!done(prog, width, register_renaming, memory_renaming, k + 1, i));
                    assert(select(pk1, m) == b.push(i));
                    assert(prev[u].key == prog[j].key);
                    assert(with_shortcut(x, c) == with_shortcut(prog[i], prog[j].key));
                    assert(stands_for(
                        prog,
                        with_shortcut(x, c),
                        i,
                        memory_renaming,
                        register_renaming,
                    ));
                },
                None => {
                    assert forall|j: int|
                        0 <= j < i && hazard(
                            prog[i],
                            #[trigger] prog[j],
                            memory_renaming,
                            register_renaming,
                        ) implies done(
                        prog,
                        width,
                        register_renaming,
                        memory_renaming,
                        k,
                        j,
                    ) by {
                        if !done(prog, width, register_renaming, memory_renaming, k, j) {
                            assert(pk(j));
                            let u = choose|u: int| 0 <= u < a.len() && a[u] == j;
                            assert(select(pk, e1)[u] == j);
                            assert(prev[u] == now[u]);
                            lemma_blocks_is_hazard(
                                prog,
                                x,
                                i,
                                prev[u],
                                j,
                                memory_renaming,
                                register_renaming,
                            );
                            assert(!blocks(x, prev[u], memory_renaming, register_renaming));
                        }
                    }
                    assert(done(prog, width, register_renaming, memory_renaming, k + 1, i));
                    assert(select(pk1, m) == b);
                },
            }
        }
    }
}


proof fn lemma_entered_step(
    prog: Seq<InstructionView>,
    width: nat,
    register_renaming: bool,
    memory_renaming: bool,
    k: nat,
)
    ensures
        ent(prog, width, register_renaming, memory_renaming, k as int) == crate::simulate::min(
            run(prog, width, register_renaming, memory_renaming, k).fetched as int,
            prog.len() as int,
        ),
        run(prog, width, register_renaming, memory_renaming, k + 1) == cycle(
            prog,
            width,
            register_renaming,
            memory_renaming,
            run(prog, width, register_renaming, memory_renaming, k),
        ),
{
}

proof fn lemma_described_step(
    prog: Seq<InstructionView>,
    width: nat,
    register_renaming: bool,
    memory_renaming: bool,
    k: nat,
)
    requires
        distinct_keys(prog),
        no_shortcuts(prog),
        described(prog, width, register_renaming, memory_renaming, k),
    ensures
        described(prog, width, register_renaming, memory_renaming, k + 1),
{
    let s = run(prog, width, register_renaming, memory_renaming, k);
    lemma_entered_step(prog, width, register_renaming, memory_renaming, k);
    lemma_entered_step(prog, width, register_renaming, memory_renaming, k + 1);
    let e0 = ent(prog, width, register_renaming, memory_renaming, k - 2);
    let e1 = ent(prog, width, register_renaming, memory_renaming, k - 1);
    let pk = waiting(prog, width, register_renaming, memory_renaming, k);
    let now = s.execute + s.decode;
    lemma_select_full(pk, e0 as nat, e1 as nat);
    lemma_select_prefix(pk, e0 as nat, e1 as nat);
    let l0 = select(pk, e0 as nat).len();
    assert forall|t: int| 0 <= t < now.len() implies stands_for(
        prog,
        #[trigger] now[t],
        select(pk, e1 as nat)[t],
        memory_renaming,
        register_renaming,
    ) by {
        if t < l0 {
            assert(now[t] == s.execute[t]);
        } else {
            assert(now[t] == s.decode[t - l0]);
        }
    }
    lemma_retained_follows(
        prog,
        width,
        register_renaming,
        memory_renaming,
        k,
        now,
        e1 as nat,
    );
    assert forall|i: int|
        #[trigger] done(
            prog,
            width,
            register_renaming,
            memory_renaming,
            k + 1,
            i,
        ) implies 0 <= i < e1 by {
        if done(prog, width, register_renaming, memory_renaming, k, i) {
        }
    }
}

proof fn lemma_described(
    prog: Seq<InstructionView>,
    width: nat,
    register_renaming: bool,
    memory_renaming: bool,
    k: nat,
)
    requires
        distinct_keys(prog),
        no_shortcuts(prog),
    ensures
        described(prog, width, register_renaming, memory_renaming, k),
    decreases k,
{
    if k == 0 {
        let s = run(prog, width, register_renaming, memory_renaming, 0);
        assert(s.fetch =~= prog.subrange(0, 0));
        assert(s.decode =~= prog.subrange(0, 0));
    } else {
        lemma_described(prog, width, register_renaming, memory_renaming, (k - 1) as nat);
        lemma_described_step(prog, width, register_renaming, memory_renaming, (k - 1) as nat);
    }
}


/// The number of instructions executed after `k` cycles is the number of
/// instructions of the trace that have executed by then.
pub proof fn lemma_executed_count(
    prog: Seq<InstructionView>,
    width: nat,
    register_renaming: bool,
    memory_renaming: bool,
    k: nat,
)
    requires
        distinct_keys(prog),
        no_shortcuts(prog),
    ensures
        run(prog, width, register_renaming, memory_renaming, k).executed == select(
            executed_by(prog, width, register_renaming, memory_renaming, k),
            prog.len(),
        ).len(),
{
    lemma_described(prog, width, register_renaming, memory_renaming, k);
    lemma_run_invariants(prog, width, register_renaming, memory_renaming, k);
    lemma_entered_step(prog, width, register_renaming, memory_renaming, k);
    let e0 = ent(prog, width, register_renaming, memory_renaming, k - 2) as nat;
    let p = executed_by(prog, width, register_renaming, memory_renaming, k);
    let q = waiting(prog, width, register_renaming, memory_renaming, k);
    lemma_select_complement(p, q, e0);
    lemma_select_stable(p, e0, prog.len());
}

proof fn lemma_hazard_monotone(
    later: InstructionView,
    earlier: InstructionView,
    register_renaming1: bool,
    memory_renaming1: bool,
    register_renaming2: bool,
    memory_renaming2: bool,
)
    requires
        register_renaming1 ==> register_renaming2,
        memory_renaming1 ==> memory_renaming2,
        hazard(later, earlier, memory_renaming2, register_renaming2),
    ensures
        hazard(later, earlier, memory_renaming1, register_renaming1),
{
}

proof fn lemma_done_dominates(
    prog: Seq<InstructionView>,
    width1: nat,
    register_renaming1: bool,
    memory_renaming1: bool,
    width2: nat,
    register_renaming2: bool,
    memory_renaming2: bool,
    k: nat,
    i: int,
)
    requires
        k > 0,
        register_renaming1 ==> register_renaming2,
        memory_renaming1 ==> memory_renaming2,
        forall|j: int|
            done(prog, width1, register_renaming1, memory_renaming1, (k - 1) as nat, j)
                ==> #[trigger] done(prog, width2, register_renaming2, memory_renaming2, (k - 1) as nat, j),
        ent(prog, width1, register_renaming1, memory_renaming1, k - 2) <= ent(
            prog,
            width2,
            register_renaming2,
            memory_renaming2,
            k - 2,
        ),
        done(prog, width1, register_renaming1, memory_renaming1, k, i),
    ensures
        done(prog, width2, register_renaming2, memory_renaming2, k, i),
{
    let k1 = (k - 1) as nat;
    if !done(prog, width1, register_renaming1, memory_renaming1, k1, i) {
        assert forall|j: int|
            0 <= j < i && hazard(
                prog[i],
                #[trigger] prog[j],
                memory_renaming2,
                register_renaming2,
            ) implies done(prog, width2, register_renaming2, memory_renaming2, k1, j) by {
            lemma_hazard_monotone(
                prog[i],
                prog[j],
                register_renaming1,
                memory_renaming1,
                register_renaming2,
                memory_renaming2,
            );
        }
        assert(0 <= i < ent(prog, width1, register_renaming1, memory_renaming1, k - 2));
    } else {
        assert(done(prog, width2, register_renaming2, memory_renaming2, k1, i));
    }
}

proof fn lemma_entered_dominates(
    prog: Seq<InstructionView>,
    width1: nat,
    register_renaming1: bool,
    memory_renaming1: bool,
    width2: nat,
    register_renaming2: bool,
    memory_renaming2: bool,
    k: nat,
)
    requires
        distinct_keys(prog),
        no_shortcuts(prog),
        width1 <= width2,
        forall|j: int|
            done(prog, width1, register_renaming1, memory_renaming1, k, j)
                ==> #[trigger] done(prog, width2, register_renaming2, memory_renaming2, k, j),
    ensures
        ent(prog, width1, register_renaming1, memory_renaming1, (k + 1) as int) <= ent(
            prog,
            width2,
            register_renaming2,
            memory_renaming2,
            (k + 1) as int,
        ),
{
    lemma_window_refills(prog, width1, register_renaming1, memory_renaming1, k);
    lemma_window_refills(prog, width2, register_renaming2, memory_renaming2, k);
    lemma_executed_count(prog, width1, register_renaming1, memory_renaming1, k);
    lemma_executed_count(prog, width2, register_renaming2, memory_renaming2, k);
    lemma_select_monotone(
        executed_by(prog, width1, register_renaming1, memory_renaming1, k),
        executed_by(prog, width2, register_renaming2, memory_renaming2, k),
        prog.len(),
    );
}

proof fn lemma_dominates(
    prog: Seq<InstructionView>,
    width1: nat,
    register_renaming1: bool,
    memory_renaming1: bool,
    width2: nat,
    register_renaming2: bool,
    memory_renaming2: bool,
    k: nat,
)
    requires
        distinct_keys(prog),
        no_shortcuts(prog),
        width1 <= width2,
        register_renaming1 ==> register_renaming2,
        memory_renaming1 ==> memory_renaming2,
    ensures
        forall|i: int|
            done(prog, width1, register_renaming1, memory_renaming1, k, i) ==> #[trigger] done(
                prog,
                width2,
                register_renaming2,
                memory_renaming2,
                k,
                i,
            ),
        ent(prog, width1, register_renaming1, memory_renaming1, k as int) <= ent(
            prog,
            width2,
            register_renaming2,
            memory_renaming2,
            k as int,
        ),
    decreases k,
{
    if k > 0 {
        let k1 = (k - 1) as nat;
        lemma_dominates(
            prog,
            width1,
            register_renaming1,
            memory_renaming1,
            width2,
            register_renaming2,
            memory_renaming2,
            k1,
        );
        if k >= 2 {
            lemma_dominates(
                prog,
                width1,
                register_renaming1,
                memory_renaming1,
                width2,
                register_renaming2,
                memory_renaming2,
                (k - 2) as nat,
            );
        }
        lemma_entered_dominates(
            prog,
            width1,
            register_renaming1,
            memory_renaming1,
            width2,
            register_renaming2,
            memory_renaming2,
            k1,
        );
        assert forall|i: int|
            done(prog, width1, register_renaming1, memory_renaming1, k, i) implies #[trigger] done(
            prog,
            width2,
            register_renaming2,
            memory_renaming2,
            k,
            i,
        ) by {
            lemma_done_dominates(
                prog,
                width1,
                register_renaming1,
                memory_renaming1,
                width2,
                register_renaming2,
                memory_renaming2,
                k,
                i,
            );
        }
    }
}

/// Fewer hazards and a wider window never cost cycles: on a trace whose keys
/// are distinct and that carries no shortcuts yet, a run with renaming
/// switched on wherever another run has it, and with a window at least as
/// wide, has finished after every number of cycles after which the other
/// has finished.
pub proof fn lemma_fewer_hazards_finish_sooner(
    prog: Seq<InstructionView>,
    width1: nat,
    register_renaming1: bool,
    memory_renaming1: bool,
    width2: nat,
    register_renaming2: bool,
    memory_renaming2: bool,
    k: nat,
)
    requires
        distinct_keys(prog),
        no_shortcuts(prog),
        width1 <= width2,
        register_renaming1 ==> register_renaming2,
        memory_renaming1 ==> memory_renaming2,
    ensures
        finished(prog, width1, register_renaming1, memory_renaming1, k) ==> finished(
            prog,
            width2,
            register_renaming2,
            memory_renaming2,
            k,
        ),
{
    lemma_dominates(
        prog,
        width1,
        register_renaming1,
        memory_renaming1,
        width2,
        register_renaming2,
        memory_renaming2,
        k,
    );
    lemma_executed_count(prog, width1, register_renaming1, memory_renaming1, k);
    lemma_executed_count(prog, width2, register_renaming2, memory_renaming2, k);
    lemma_select_monotone(
        executed_by(prog, width1, register_renaming1, memory_renaming1, k),
        executed_by(prog, width2, register_renaming2, memory_renaming2, k),
        prog.len(),
    );
    lemma_run_invariants(prog, width2, register_renaming2, memory_renaming2, k);
}


/// Fewer hazards and a wider window never cost cycles: on a trace whose keys
/// are distinct and that carries no shortcuts yet, the simulation with
/// renaming switched on wherever another has it, and with a window at least
/// as wide, takes at most as many cycles.
pub proof fn lemma_fewer_hazards_take_fewer_cycles(
    prog: Seq<InstructionView>,
    width1: nat,
    register_renaming1: bool,
    memory_renaming1: bool,
    cycles1: nat,
    width2: nat,
    register_renaming2: bool,
    memory_renaming2: bool,
    cycles2: nat,
)
    requires
        distinct_keys(prog),
        no_shortcuts(prog),
        width1 <= width2,
        register_renaming1 ==> register_renaming2,
        memory_renaming1 ==> memory_renaming2,
        takes_cycles(prog, width1, register_renaming1, memory_renaming1, cycles1),
        takes_cycles(prog, width2, register_renaming2, memory_renaming2, cycles2),
    ensures
        cycles2 <= cycles1,
{
    lemma_fewer_hazards_finish_sooner(
        prog,
        width1,
        register_renaming1,
        memory_renaming1,
        width2,
        register_renaming2,
        memory_renaming2,
        cycles1,
    );
}

} // verus!
