use sim_code::experiment::{path_components, profile_list, result_paths, run_grid, Profile};
use sim_code::models::Instruction;
use sim_code::simulate::simulate_list;

fn inst(key: i32, store: bool, load: bool, addr: Option<&str>, write: &[&str], read: &[&str]) -> Instruction {
    Instruction {
        reg_read_dep: read.iter().map(|s| s.to_string()).collect(),
        reg_write_dep: write.iter().map(|s| s.to_string()).collect(),
        mem_store: store,
        mem_load: load,
        mem_addr: addr.map(|s| s.to_string()),
        key,
        shortcut_dep: -1,
    }
}

#[test]
fn profile_counts_memory_instructions() {
    let list = vec![
        inst(0, true, false, Some("0x1"), &[], &["a0"]),
        inst(1, true, false, None, &[], &["a0"]),
        inst(2, false, true, None, &["a1"], &[]),
        inst(3, false, false, None, &["a2"], &[]),
        inst(4, false, true, Some("0x2"), &["a3"], &[]),
    ];
    assert_eq!(profile_list(&list), Profile { instructions: 5, stores: 2, loads: 2, no_addr: 2 });
    assert_eq!(profile_list(&vec![]), Profile { instructions: 0, stores: 0, loads: 0, no_addr: 0 });
}

#[test]
fn grid_covers_every_width_and_renaming() {
    let list = vec![
        inst(0, false, false, None, &["a0"], &["a1"]),
        inst(1, false, false, None, &["a1"], &["a0"]),
        inst(2, true, false, None, &[], &["a1"]),
        inst(3, false, true, None, &["a2"], &[]),
    ];
    let rows = run_grid(&list);
    assert_eq!(rows.len(), 28);
    let mut t = 0;
    for w in [1usize, 2, 4, 8, 16, 32, 64] {
        for m in [true, false] {
            for r in [true, false] {
                let row = rows[t];
                assert_eq!((row.width, row.memory_renaming, row.register_renaming), (w, m, r));
                assert_eq!(row.instructions, 4);
                assert_eq!(row.cycles, simulate_list(&list, &w, r, m).1);
                t += 1;
            }
        }
    }
}

#[test]
fn result_paths_follow_the_trace_directory() {
    let parts = path_components("/Volumes/KINGSTON/Coursework/modern_limits_of_ilp_18742/sim_traces/SPEC06/gcc_trace.log");
    assert_eq!(parts.len(), 8);
    let (profile, sim) = result_paths(&parts).unwrap();
    assert_eq!(
        profile,
        "/Volumes/KINGSTON/Coursework/modern_limits_of_ilp_18742/sim_results/exp6/SPEC06/gcc_trace.log/profile.csv"
    );
    assert_eq!(
        sim,
        "/Volumes/KINGSTON/Coursework/modern_limits_of_ilp_18742/sim_results/exp6/SPEC06/gcc_trace.log/sim.csv"
    );
    let other = path_components("/Volumes/KINGSTON/Coursework/modern_limits_of_ilp_18742/sim_traces/SPEC17/mcf.log");
    assert_eq!(result_paths(&other), None);
}
