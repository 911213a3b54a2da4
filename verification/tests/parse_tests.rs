use sim_code::models::InstructionRaw;
use sim_code::parse::{parse_lines, TraceError, TraceParser};

fn lines(v: &[&str]) -> Vec<String> {
    v.iter().map(|s| s.to_string()).collect()
}

fn strs(v: &[&str]) -> Vec<String> {
    v.iter().map(|s| s.to_string()).collect()
}

fn check(raw: &InstructionRaw, inst: &str, args: &[&str], addr: Option<&str>) {
    assert_eq!(raw.inst, inst);
    assert_eq!(raw.arguments, strs(args));
    assert_eq!(raw.mem_addr.as_deref(), addr);
}

#[test]
fn parses_mapped_and_traced_instructions() {
    let trace = lines(&[
        "0x00010094ffffffff (0x00450513) addi a0,a1,4",
        "",
        "0x00010098 (0x00a13423) sd.x a0,8(sp)",
        "some other line",
        "Trace 0 0 core/0000000000010094/end",
        "Trace 0 0 core/0000000000010098/end",
        "MEM_OP: store 0x7ff0",
        "Trace 0 0 core/0000000000010094/end",
    ]);
    let out = parse_lines(&trace).unwrap();
    assert_eq!(out.len(), 3);
    check(&out[0], "addi", &["a0", "a1", "4"], None);
    check(&out[1], "sd", &["a0", "8(sp)"], Some("0x7ff0"));
    check(&out[2], "addi", &["a0", "a1", "4"], None);
}

#[test]
fn later_mapping_of_a_pc_wins() {
    let trace = lines(&[
        "0x00010094 x addi a0,a1,4",
        "0x00010094 x mv a2,a3",
        "Trace 0 0 c/0000000000010094/e",
    ]);
    let out = parse_lines(&trace).unwrap();
    assert_eq!(out.len(), 1);
    check(&out[0], "mv", &["a2", "a3"], None);
}

#[test]
fn mapping_without_arguments_has_none() {
    let trace = lines(&["0x00010094 x ret", "Trace 0 0 c/0000000000010094/e"]);
    let out = parse_lines(&trace).unwrap();
    check(&out[0], "ret", &[], None);
}

#[test]
fn memory_op_sets_the_last_instruction_address() {
    let trace = lines(&[
        "0x00010094 x ld a0,0(sp)",
        "Trace 0 0 c/0000000000010094/e",
        "MEM_OP: load 0x10",
        "MEM_OP: load 0x20",
    ]);
    let out = parse_lines(&trace).unwrap();
    check(&out[0], "ld", &["a0", "0(sp)"], Some("0x20"));
}

#[test]
fn reading_stops_after_eleven_instructions() {
    let mut v = vec!["0x00010094 x nop".to_string()];
    for _ in 0..20 {
        v.push("Trace 0 0 c/0000000000010094/e".to_string());
    }
    // a line that would fail is never read
    v.push("Trace 0 0 c/0000000000099999/e".to_string());
    let out = parse_lines(&v).unwrap();
    assert_eq!(out.len(), 11);
}

#[test]
fn empty_trace_gives_no_instructions() {
    assert_eq!(parse_lines(&Vec::new()).unwrap().len(), 0);
}

#[test]
fn errors_name_the_failing_line_kind() {
    let cases: Vec<(Vec<&str>, TraceError)> = vec![
        (vec!["0x0001 x addi a0,a1,4"], TraceError::BadProgramCounter),
        (vec!["0x0001009é x addi a0,a1,4"], TraceError::BadProgramCounter),
        (vec!["0x00010094 x"], TraceError::MissingOpcode),
        (vec!["Trace 0"], TraceError::ShortTraceLine),
        (vec!["Trace 0 0"], TraceError::MissingTraceField),
        (vec!["Trace 0 0 nopath"], TraceError::MissingTracePc),
        (vec!["Trace 0 0 c/short/e"], TraceError::BadTracePc),
        (vec!["Trace 0 0 c/0000000000010094/e"], TraceError::UnmappedPc),
        (vec!["MEM_OP: store 0x10"], TraceError::MemOpBeforeInstruction),
        (
            vec!["0x00010094 x nop", "Trace 0 0 c/0000000000010094/e", "MEM_OP: store"],
            TraceError::ShortMemOp,
        ),
    ];
    for (trace, err) in cases {
        assert_eq!(parse_lines(&lines(&trace)).unwrap_err(), err, "{:?}", trace);
    }
}

#[test]
fn parser_takes_one_line_at_a_time() {
    let mut p = TraceParser::new();
    assert!(!p.is_full());
    assert_eq!(p.feed_line("0x00010094 x nop"), Ok(()));
    for _ in 0..11 {
        assert!(!p.is_full());
        assert_eq!(p.feed_line("Trace 0 0 c/0000000000010094/e"), Ok(()));
    }
    assert!(p.is_full());
    assert_eq!(p.feed_line("Trace 0 0 c/0000000000099999/e"), Err(TraceError::UnmappedPc));
    assert_eq!(p.into_instructions().len(), 11);
}

#[test]
fn skipped_lines_change_nothing() {
    let base = lines(&["0x00010094 x addi a0,a1,4", "Trace 0 0 c/0000000000010094/e"]);
    let padded = lines(&[
        "",
        "0x00010094 x addi a0,a1,4",
        "core 0: something",
        "   ",
        "Trace 0 0 c/0000000000010094/e",
        "trace lower case",
    ]);
    let a = parse_lines(&base).unwrap();
    let b = parse_lines(&padded).unwrap();
    assert_eq!(a.len(), b.len());
    for (x, y) in a.iter().zip(b.iter()) {
        assert_eq!((&x.inst, &x.arguments, &x.mem_addr), (&y.inst, &y.arguments, &y.mem_addr));
    }
}
