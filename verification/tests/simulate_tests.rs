use sim_code::models::Instruction;
use sim_code::simulate::{check_dependencies, execute_stage, simulate_list};

fn strs(v: &[&str]) -> Vec<String> {
    v.iter().map(|s| s.to_string()).collect()
}

fn inst(key: i32, read: &[&str], write: &[&str]) -> Instruction {
    Instruction {
        reg_read_dep: strs(read),
        reg_write_dep: strs(write),
        mem_store: false,
        mem_load: false,
        mem_addr: None,
        key,
        shortcut_dep: -1,
    }
}

fn mem(key: i32, store: bool, addr: Option<&str>) -> Instruction {
    Instruction {
        reg_read_dep: vec![],
        reg_write_dep: vec![],
        mem_store: store,
        mem_load: !store,
        mem_addr: addr.map(|s| s.to_string()),
        key,
        shortcut_dep: -1,
    }
}

#[test]
fn oldest_instruction_is_never_blocked() {
    assert_eq!(check_dependencies(&inst(0, &["a0"], &["a0"]), &[], false, false), (true, -1));
}

#[test]
fn read_after_write_blocks_even_with_renaming() {
    let prev = vec![inst(0, &[], &["a0"])];
    assert_eq!(check_dependencies(&inst(1, &["a0"], &["a1"]), &prev, true, true), (false, 0));
}

#[test]
fn register_renaming_removes_war_and_waw() {
    let prev = vec![inst(0, &["a1"], &["a2"])];
    let war = inst(1, &[], &["a1"]);
    let waw = inst(2, &[], &["a2"]);
    assert_eq!(check_dependencies(&war, &prev, false, false), (false, 0));
    assert_eq!(check_dependencies(&war, &prev, false, true), (true, -1));
    assert_eq!(check_dependencies(&waw, &prev, false, false), (false, 0));
    assert_eq!(check_dependencies(&waw, &prev, false, true), (true, -1));
}

#[test]
fn latest_blocker_is_reported() {
    let prev = vec![inst(3, &[], &["a0"]), inst(4, &[], &["t0"]), inst(5, &[], &["a0"]), inst(6, &[], &[])];
    assert_eq!(check_dependencies(&inst(7, &["a0"], &[]), &prev, true, true), (false, 5));
}

#[test]
fn shortcut_blocks_on_the_recorded_key() {
    let mut later = inst(9, &[], &[]);
    later.shortcut_dep = 2;
    let prev = vec![inst(2, &[], &[]), inst(3, &[], &[])];
    assert_eq!(check_dependencies(&later, &prev, true, true), (false, 2));
    let other = vec![inst(3, &[], &[])];
    assert_eq!(check_dependencies(&later, &other, true, true), (true, -1));
}

#[test]
fn memory_hazards_and_memory_renaming() {
    let store_a = mem(0, true, Some("0x10"));
    let store_none = mem(1, true, None);
    let load_a = mem(2, false, Some("0x10"));
    let load_b = mem(3, false, Some("0x20"));
    let load_none = mem(4, false, None);
    // a store waits on any earlier load or store, renaming or not
    assert_eq!(check_dependencies(&mem(5, true, None), &[load_b.clone()], true, true), (false, 3));
    // without memory renaming a load waits on any earlier store
    assert_eq!(check_dependencies(&load_b, &[store_a.clone()], false, true), (false, 0));
    // with memory renaming only on a store to the same logged address,
    // or on any store while either address is not logged
    assert_eq!(check_dependencies(&load_a, &[store_a.clone()], true, true), (false, 0));
    assert_eq!(check_dependencies(&load_b, &[store_a.clone()], true, true), (true, -1));
    assert_eq!(check_dependencies(&load_a, &[store_none.clone()], true, true), (false, 1));
    assert_eq!(check_dependencies(&load_none, &[store_a.clone()], true, true), (false, 0));
    // loads never wait on loads
    assert_eq!(check_dependencies(&load_a, &[load_b.clone()], false, true), (true, -1));
}

#[test]
fn unlogged_store_stalls_a_load_under_memory_renaming() {
    let list = vec![mem(0, true, None), mem(1, false, Some("0x20"))];
    assert_eq!(simulate_list(&list, &2, false, true), (2, 4));
    let logged = vec![mem(0, true, Some("0x10")), mem(1, false, Some("0x20"))];
    assert_eq!(simulate_list(&logged, &2, false, true), (2, 3));
}

#[test]
fn execute_stage_keeps_blocked_instructions_with_their_blocker() {
    let now = vec![inst(0, &[], &["a0"]), inst(1, &["a0"], &["a1"]), inst(2, &["t0"], &["t1"]), inst(3, &["a1"], &[])];
    let kept = execute_stage(&now, true, true);
    assert_eq!(kept.len(), 2);
    assert_eq!((kept[0].key, kept[0].shortcut_dep), (1, 0));
    assert_eq!((kept[1].key, kept[1].shortcut_dep), (3, 1));
}

#[test]
fn empty_trace_takes_no_cycles() {
    assert_eq!(simulate_list(&vec![], &4, true, true), (0, 0));
}

#[test]
fn one_instruction_takes_three_cycles() {
    assert_eq!(simulate_list(&vec![inst(0, &[], &["a0"])], &1, false, false), (1, 3));
}

#[test]
fn independent_instructions_execute_together() {
    let list = vec![inst(0, &[], &["a0"]), inst(1, &[], &["a1"])];
    assert_eq!(simulate_list(&list, &4, true, true), (2, 3));
}

#[test]
fn dependent_instruction_waits_a_cycle() {
    let list = vec![inst(0, &[], &["a0"]), inst(1, &["a0"], &["a1"])];
    assert_eq!(simulate_list(&list, &4, true, true), (2, 4));
}

#[test]
fn width_one_runs_one_instruction_at_a_time() {
    let list = vec![inst(0, &[], &["a0"]), inst(1, &[], &["a1"])];
    assert_eq!(simulate_list(&list, &1, true, true), (2, 6));
}

#[test]
fn width_one_takes_three_cycles_per_instruction() {
    let list: Vec<Instruction> = (0..7).map(|i| inst(i, &[], &["a0"])).collect();
    assert_eq!(simulate_list(&list, &1, false, false), (7, 21));
}

#[test]
fn renaming_shortens_a_war_chain() {
    let list = vec![inst(0, &["a1"], &["a0"]), inst(1, &[], &["a1"]), inst(2, &[], &["a0"])];
    let (_, without) = simulate_list(&list, &8, false, false);
    let (_, with) = simulate_list(&list, &8, true, false);
    assert_eq!(without, 4);
    assert_eq!(with, 3);
}

#[test]
fn cycles_respect_the_throughput_bound() {
    let list: Vec<Instruction> = (0..20).map(|i| inst(i, &[], &[])).collect();
    for w in [1usize, 2, 3, 4, 8, 64] {
        let (n, c) = simulate_list(&list, &w, true, true);
        assert_eq!(n, 20);
        assert!(n <= (c - 2) * w, "width {} cycles {}", w, c);
        assert!(n <= w * (c / 3), "width {} cycles {}", w, c);
        assert!(c <= 3 * n);
    }
}

#[test]
fn fewer_hazards_and_wider_windows_never_cost_cycles() {
    let trace = vec![
        inst(0, &["a0"], &["a1"]),
        mem(1, true, Some("0x10")),
        inst(2, &["a1"], &["a0"]),
        mem(3, false, Some("0x20")),
        inst(4, &["a2"], &["a1"]),
        mem(5, false, None),
        inst(6, &["a1", "a0"], &["a2"]),
        mem(7, true, Some("0x20")),
        inst(8, &["a3"], &["a0"]),
    ];
    let cycles = |w: usize, rr: bool, mr: bool| simulate_list(&trace, &w, rr, mr).1;
    for w in 1..=8usize {
        for rr in [false, true] {
            for mr in [false, true] {
                let c = cycles(w, rr, mr);
                assert!(cycles(w + 1, rr, mr) <= c);
                assert!(cycles(w, true, mr) <= c);
                assert!(cycles(w, rr, true) <= c);
            }
        }
    }
}
