//! The experiment run on each trace: a profile of its memory instructions and
//! a simulation on every combination of window width and renaming.
use vstd::prelude::*;
use vstd::string::*;

use crate::models::{instr_views, Instruction, InstructionView};
use crate::simulate::{finished, simulate_list};
use crate::text::{lemma_split_on_pieces, split_char, split_on, str_equals, views};

verus! {

/// How many instructions of `s` satisfy `f`.
pub open spec fn count_where(s: Seq<InstructionView>, f: spec_fn(InstructionView) -> bool) -> nat
    decreases s.len(),
{
    if s.len() == 0 {
        0
    } else {
        count_where(s.drop_last(), f) + if f(s.last()) {
            1nat
        } else {
            0nat
        }
    }
}

pub open spec fn is_store(x: InstructionView) -> bool {
    x.mem_store
}

pub open spec fn is_load(x: InstructionView) -> bool {
    x.mem_load
}

/// A memory instruction whose address the trace never logged.
pub open spec fn lacks_address(x: InstructionView) -> bool {
    (x.mem_load || x.mem_store) && x.mem_addr is None
}

/// The profile of a trace: how many instructions, stores, loads, and memory
/// instructions without a logged address it has.
#[derive(Debug, Clone, Copy, PartialEq, Eq, Structural)]
pub struct Profile {
    pub instructions: usize,
    pub stores: usize,
    pub loads: usize,
    pub no_addr: usize,
}

/// Profiles the instructions of a trace.
pub fn profile_list(inst_list: &Vec<Instruction>) -> (r: Profile)
    ensures
        r.instructions == inst_list@.len(),
        r.stores == count_where(instr_views(inst_list@), |x: InstructionView| is_store(x)),
        r.loads == count_where(instr_views(inst_list@), |x: InstructionView| is_load(x)),
        r.no_addr == count_where(instr_views(inst_list@), |x: InstructionView| lacks_address(x)),
{
    let ghost v = instr_views(inst_list@);
    let mut stores: usize = 0;
    let mut loads: usize = 0;
    let mut no_addr: usize = 0;
    let mut i: usize = 0;
    while i < inst_list.len()
        invariant
            i <= inst_list@.len(),
            v == instr_views(inst_list@),
            stores == count_where(v.take(i as int), |x: InstructionView| is_store(x)),
            loads == count_where(v.take(i as int), |x: InstructionView| is_load(x)),
            no_addr == count_where(v.take(i as int), |x: InstructionView| lacks_address(x)),
            stores <= i,
            loads <= i,
            no_addr <= i,
        decreases inst_list.len() - i,
    {
        assert(v.take(i + 1).drop_last() =~= v.take(i as int));
        assert(v.take(i + 1).last() == inst_list@[i as int]@);
        let x = &inst_list[i];
        if x.mem_store {
            stores += 1;
        }
        if x.mem_load {
            loads += 1;
        }
        if (x.mem_load || x.mem_store) && x.mem_addr.is_none() {
            no_addr += 1;
        }
        i += 1;
    }
    assert(v.take(i as int) =~= v);
    Profile { instructions: inst_list.len(), stores, loads, no_addr }
}

proof fn lemma_count_is_filter(
    v: Seq<InstructionView>,
    f: spec_fn(InstructionView) -> bool,
    g: spec_fn(InstructionView) -> bool,
)
    requires
        forall|x: InstructionView| #[trigger] f(x) == g(x),
    ensures
        count_where(v, f) == v.filter(g).len(),
    decreases v.len(),
{
    reveal(Seq::filter);
    if v.len() > 0 {
        lemma_count_is_filter(v.drop_last(), f, g);
    }
}

/// The profile counts the instructions by their own flags: the stores are
/// the instructions that store, the loads those that load, and those without
/// an address the loads and stores whose address was never logged.
pub proof fn lemma_profile_counts(v: Seq<InstructionView>)
    ensures
        count_where(v, |x: InstructionView| is_store(x)) == v.filter(
            |x: InstructionView| x.mem_store,
        ).len(),
        count_where(v, |x: InstructionView| is_load(x)) == v.filter(
            |x: InstructionView| x.mem_load,
        ).len(),
        count_where(v, |x: InstructionView| lacks_address(x)) == v.filter(
            |x: InstructionView| (x.mem_load || x.mem_store) && x.mem_addr is None,
        ).len(),
{
    lemma_count_is_filter(
        v,
        |x: InstructionView| is_store(x),
        |x: InstructionView| x.mem_store,
    );
    lemma_count_is_filter(v, |x: InstructionView| is_load(x), |x: InstructionView| x.mem_load);
    lemma_count_is_filter(
        v,
        |x: InstructionView| lacks_address(x),
        |x: InstructionView| (x.mem_load || x.mem_store) && x.mem_addr is None,
    );
}

/// One simulation of the experiment and its outcome.
#[derive(Debug, Clone, Copy, PartialEq, Eq, Structural)]
pub struct SimRow {
    pub width: usize,
    pub register_renaming: bool,
    pub memory_renaming: bool,
    pub instructions: usize,
    pub cycles: usize,
}

/// The window width of the `t`-th simulation: 1, 2, 4, ... 64, four
/// simulations each.
pub open spec fn grid_width(t: int) -> int {
    if t < 4 {
        1
    } else if t < 8 {
        2
    } else if t < 12 {
        4
    } else if t < 16 {
        8
    } else if t < 20 {
        16
    } else if t < 24 {
        32
    } else {
        64
    }
}

/// Memory renaming of the `t`-th simulation: on for the first two of each
/// width, off for the last two.
pub open spec fn grid_memory_renaming(t: int) -> bool {
    t % 4 < 2
}

/// Register renaming of the `t`-th simulation: alternately on and off.
pub open spec fn grid_register_renaming(t: int) -> bool {
    t % 2 == 0
}

/// `k` is the number of cycles that the simulation of `prog` takes.
pub open spec fn takes_cycles(
    prog: Seq<InstructionView>,
    width: nat,
    register_renaming: bool,
    memory_renaming: bool,
    k: nat,
) -> bool {
    &&& finished(prog, width, register_renaming, memory_renaming, k)
    &&& forall|j: nat| j < k ==> !finished(prog, width, register_renaming, memory_renaming, j)
}

/// Runs the simulation of the trace on every window width from 1 to 64 (in
/// powers of two), for each with memory renaming on and then off, and for
/// each of those with register renaming on and then off.
pub fn run_grid(inst_list: &Vec<Instruction>) -> (r: Vec<SimRow>)
    requires
        inst_list.len() <= usize::MAX / 3,
    ensures
        r@.len() == 28,
        forall|t: int|
            0 <= t < 28 ==> {
                let row = #[trigger] r@[t];
                &&& row.width == grid_width(t)
                &&& row.memory_renaming == grid_memory_renaming(t)
                &&& row.register_renaming == grid_register_renaming(t)
                &&& row.instructions == inst_list@.len()
                &&& takes_cycles(
                    instr_views(inst_list@),
                    row.width as nat,
                    row.register_renaming,
                    row.memory_renaming,
                    row.cycles as nat,
                )
            },
{
    let mut rows: Vec<SimRow> = Vec::new();
    let mut w: usize = 1;
    let mut wi: usize = 0;
    while wi < 7
        invariant
            inst_list.len() <= usize::MAX / 3,
            wi <= 7,
            rows@.len() == 4 * wi,
            w as int == grid_width(4 * wi as int) || wi == 7,
            1 <= w <= 128,
            forall|t: int|
                0 <= t < rows@.len() ==> {
                    let row = #[trigger] rows@[t];
                    &&& row.width == grid_width(t)
                    &&& row.memory_renaming == grid_memory_renaming(t)
                    &&& row.register_renaming == grid_register_renaming(t)
                    &&& row.instructions == inst_list@.len()
                    &&& takes_cycles(
                        instr_views(inst_list@),
                        row.width as nat,
                        row.register_renaming,
                        row.memory_renaming,
                        row.cycles as nat,
                    )
                },
        decreases 7 - wi,
    {
        let mut mi: usize = 0;
        while mi < 2
            invariant
                inst_list.len() <= usize::MAX / 3,
                wi < 7,
                mi <= 2,
                rows@.len() == 4 * wi + 2 * mi,
                w as int == grid_width(4 * wi as int),
                1 <= w <= 64,
                forall|t: int|
                    0 <= t < rows@.len() ==> {
                        let row = #[trigger] rows@[t];
                        &&& row.width == grid_width(t)
                        &&& row.memory_renaming == grid_memory_renaming(t)
                        &&& row.register_renaming == grid_register_renaming(t)
                        &&& row.instructions == inst_list@.len()
                        &&& takes_cycles(
                            instr_views(inst_list@),
                            row.width as nat,
                            row.register_renaming,
                            row.memory_renaming,
                            row.cycles as nat,
                        )
                    },
            decreases 2 - mi,
        {
            let m = mi == 0;
            let mut ri: usize = 0;
            while ri < 2
                invariant
                    inst_list.len() <= usize::MAX / 3,
                    wi < 7,
                    mi < 2,
                    m == (mi == 0),
                    ri <= 2,
                    rows@.len() == 4 * wi + 2 * mi + ri,
                    w as int == grid_width(4 * wi as int),
                    1 <= w <= 64,
                    forall|t: int|
                        0 <= t < rows@.len() ==> {
                            let row = #[trigger] rows@[t];
                            &&& row.width == grid_width(t)
                            &&& row.memory_renaming == grid_memory_renaming(t)
                            &&& row.register_renaming == grid_register_renaming(t)
                            &&& row.instructions == inst_list@.len()
                            &&& takes_cycles(
                                instr_views(inst_list@),
                                row.width as nat,
                                row.register_renaming,
                                row.memory_renaming,
                                row.cycles as nat,
                            )
                        },
                decreases 2 - ri,
            {
                let r = ri == 0;
                let (i, c) = simulate_list(inst_list, &w, r, m);
                let ghost t = rows@.len() as int;
                assert(grid_width(t) == grid_width(4 * wi as int));
                rows.push(
                    SimRow {
                        width: w,
                        register_renaming: r,
                        memory_renaming: m,
                        instructions: i,
                        cycles: c,
                    },
                );
                ri += 1;
            }
            mi += 1;
        }
        wi += 1;
        w = w * 2;
    }
    rows
}

/// The components of a path, split on `/`.
pub fn path_components(path: &str) -> (r: Vec<String>)
    ensures
        views(r@) == split_on(path@, '/'),
{
    split_char(path, '/')
}

/// The directory under which the results of every trace go.
pub open spec fn results_root() -> Seq<char> {
    "/Volumes/KINGSTON/Coursework/modern_limits_of_ilp_18742/sim_results/exp6/"@
}

/// The trace file that the experiment runs on.
pub open spec fn trace_file_name() -> Seq<char> {
    "gcc_trace.log"@
}

/// Where the profile and the simulation results of the trace whose path has
/// the components `parts` go, or `None` when component 7 is not the trace
/// file the experiment runs on.
pub open spec fn result_paths_of(parts: Seq<Seq<char>>) -> Option<(Seq<char>, Seq<char>)> {
    if parts[7] == trace_file_name() {
        let dir = results_root() + parts[6] + "/"@ + parts[7];
        Some((dir + "/profile.csv"@, dir + "/sim.csv"@))
    } else {
        None
    }
}

/// The profile and simulation result paths for a trace path with the
/// components `parts` (see `result_paths_of`).
pub fn result_paths(parts: &Vec<String>) -> (r: Option<(String, String)>)
    requires
        parts@.len() >= 8,
    ensures
        match result_paths_of(views(parts@)) {
            Some(p) => r matches Some(x) && x.0@ == p.0 && x.1@ == p.1,
            None => r is None,
        },
{
    let ghost pv = views(parts@);
    if !str_equals(parts[7].as_str(), "gcc_trace.log") {
        return None;
    }
    let mut dir = "/Volumes/KINGSTON/Coursework/modern_limits_of_ilp_18742/sim_results/exp6/".to_owned();
    dir.append(parts[6].as_str());
    dir.append("/");
    dir.append(parts[7].as_str());
    let mut profile = dir.clone();
    profile.append("/profile.csv");
    let mut sim = dir;
    sim.append("/sim.csv");
    Some((profile, sim))
}

/// `s` holds no `c`.
pub open spec fn lacks(s: Seq<char>, c: char) -> bool {
    forall|k: int| 0 <= k < s.len() ==> s[k] != c
}

proof fn lemma_joined_differ(
    root: Seq<char>,
    a1: Seq<char>,
    b1: Seq<char>,
    a2: Seq<char>,
    b2: Seq<char>,
    tail: Seq<char>,
)
    requires
        lacks(a1, '/'),
        lacks(b1, '/'),
        lacks(a2, '/'),
        lacks(b2, '/'),
        tail.len() > 0,
        tail[0] == '/',
        a1 != a2 || b1 != b2,
    ensures
        root + a1 + "/"@ + b1 + tail != root + a2 + "/"@ + b2 + tail,
{
    reveal_strlit("/");
    assert("/"@.len() == 1 && "/"@[0] == '/');
    let s1 = root + a1 + "/"@ + b1 + tail;
    let s2 = root + a2 + "/"@ + b2 + tail;
    let r = root.len() as int;
    if s1 == s2 {
        if a1.len() < a2.len() {
            assert(s1[r + a1.len()] == '/');
            assert(s2[r + a1.len()] == a2[a1.len() as int]);
        } else if a2.len() < a1.len() {
            assert(s2[r + a2.len()] == '/');
            assert(s1[r + a2.len()] == a1[a2.len() as int]);
        } else if a1 != a2 {
            assert(!(a1 =~= a2));
            let k = choose|k: int| 0 <= k < a1.len() && a1[k] != a2[k];
            assert(s1[r + k] == a1[k]);
            assert(s2[r + k] == a2[k]);
        } else {
            let q = r + a1.len() + 1;
            if b1.len() < b2.len() {
                assert(s1[q + b1.len()] == '/');
                assert(s2[q + b1.len()] == b2[b1.len() as int]);
            } else if b2.len() < b1.len() {
                assert(s2[q + b2.len()] == '/');
                assert(s1[q + b2.len()] == b1[b2.len() as int]);
            } else {
                assert(!(b1 =~= b2));
                let k = choose|k: int| 0 <= k < b1.len() && b1[k] != b2[k];
                assert(s1[q + k] == b1[k]);
                assert(s2[q + k] == b2[k]);
            }
        }
    }
}

/// Every trace gets result files of its own: the result paths of two trace
/// paths whose suite directories (component 6) or file names (component 7)
/// differ are different, for the profile and for the simulation results.
pub proof fn lemma_result_paths_distinct(path1: Seq<char>, path2: Seq<char>)
    requires
        split_on(path1, '/').len() >= 8,
        split_on(path2, '/').len() >= 8,
        result_paths_of(split_on(path1, '/')) is Some,
        result_paths_of(split_on(path2, '/')) is Some,
        split_on(path1, '/')[6] != split_on(path2, '/')[6] || split_on(path1, '/')[7] != split_on(
            path2,
            '/',
        )[7],
    ensures
        (result_paths_of(split_on(path1, '/'))->0).0 != (result_paths_of(split_on(path2, '/'))->0).0,
        (result_paths_of(split_on(path1, '/'))->0).1 != (result_paths_of(split_on(path2, '/'))->0).1,
{
    let p1 = split_on(path1, '/');
    let p2 = split_on(path2, '/');
    lemma_split_on_pieces(path1, '/');
    lemma_split_on_pieces(path2, '/');
    assert(lacks(p1[6], '/') && lacks(p1[7], '/'));
    assert(lacks(p2[6], '/') && lacks(p2[7], '/'));
    reveal_strlit("/profile.csv");
    reveal_strlit("/sim.csv");
    assert("/profile.csv"@.len() > 0 && "/profile.csv"@[0] == '/');
    assert("/sim.csv"@.len() > 0 && "/sim.csv"@[0] == '/');
    lemma_joined_differ(results_root(), p1[6], p1[7], p2[6], p2[7], "/profile.csv"@);
    lemma_joined_differ(results_root(), p1[6], p1[7], p2[6], p2[7], "/sim.csv"@);
}

} // verus!
