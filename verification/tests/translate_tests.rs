use sim_code::models::{Instruction, InstructionRaw};
use sim_code::translate::{classify, parse_offset, translate_list, OpClass, TranslateErrorKind};

fn strs(v: &[&str]) -> Vec<String> {
    v.iter().map(|s| s.to_string()).collect()
}

fn raw(inst: &str, args: &[&str], addr: Option<&str>) -> InstructionRaw {
    InstructionRaw { inst: inst.to_string(), arguments: strs(args), mem_addr: addr.map(|s| s.to_string()) }
}

fn deps(x: &Instruction) -> (Vec<String>, Vec<String>, bool, bool) {
    (x.reg_read_dep.clone(), x.reg_write_dep.clone(), x.mem_store, x.mem_load)
}

#[test]
fn parse_offset_takes_the_base_register() {
    assert_eq!(parse_offset("8(sp)"), Some("sp".to_string()));
    assert_eq!(parse_offset("-16(s0)"), Some("s0".to_string()));
    assert_eq!(parse_offset("(a0)))"), Some("a0".to_string()));
    assert_eq!(parse_offset("0(x)y)"), Some("x)y".to_string()));
    assert_eq!(parse_offset("4(sp"), Some("sp".to_string()));
    assert_eq!(parse_offset("()"), Some(String::new()));
    assert_eq!(parse_offset("sp"), None);
}

#[test]
fn classify_knows_each_shape() {
    assert_eq!(classify("jal"), Some(OpClass::Jal));
    assert_eq!(classify("auipc"), Some(OpClass::Auipc));
    assert_eq!(classify("fmv"), Some(OpClass::RegImm));
    assert_eq!(classify("flw"), Some(OpClass::Load));
    assert_eq!(classify("jalr"), Some(OpClass::Jalr));
    assert_eq!(classify("fsw"), Some(OpClass::Store));
    assert_eq!(classify("fsub"), Some(OpClass::RegReg));
    assert_eq!(classify("bgez"), Some(OpClass::BranchOne));
    assert_eq!(classify("bgt"), Some(OpClass::BranchTwo));
    assert_eq!(classify("fsflags"), Some(OpClass::WriteOnly));
    assert_eq!(classify("j"), Some(OpClass::Jump));
    assert_eq!(classify("amomaxu"), Some(OpClass::Atomic));
    assert_eq!(classify("nop"), Some(OpClass::NoDeps));
    assert_eq!(classify("vadd"), None);
    assert_eq!(classify(""), None);
}

#[test]
fn translation_records_dependencies_keys_and_addresses() {
    let list = vec![
        raw("jal", &["ra", "x"], None),
        raw("addi", &["a0", "a1", "4"], None),
        raw("ld", &["a2", "8(sp)"], Some("0x10")),
        raw("sd", &["a2", "16(s0)"], Some("0x20")),
        raw("add", &["a3", "a0", "a2"], None),
        raw("jalr", &["ra", "t0"], None),
        raw("bne", &["a0", "a1", "x"], None),
        raw("beqz", &["a0", "x"], None),
        raw("lui", &["a5", "1"], None),
        raw("j", &["x"], None),
        raw("amoadd", &["a0", "a1", "(a2)"], None),
        raw("ret", &[], None),
        raw("auipc", &["gp", "2"], None),
    ];
    let out = translate_list(list).unwrap();
    assert_eq!(out.len(), 13);
    for (i, x) in out.iter().enumerate() {
        assert_eq!(x.key, i as i32);
        assert_eq!(x.shortcut_dep, -1);
    }
    let r = |v: &[&str]| strs(v);
    assert_eq!(deps(&out[0]), (r(&["pc"]), r(&["ra", "pc"]), false, false));
    assert_eq!(deps(&out[1]), (r(&["a1"]), r(&["a0"]), false, false));
    assert_eq!(deps(&out[2]), (r(&["sp"]), r(&["a2"]), false, true));
    assert_eq!(out[2].mem_addr.as_deref(), Some("0x10"));
    assert_eq!(deps(&out[3]), (r(&["a2", "s0"]), r(&[]), true, false));
    assert_eq!(out[3].mem_addr.as_deref(), Some("0x20"));
    assert_eq!(deps(&out[4]), (r(&["a0", "a2"]), r(&["a3"]), false, false));
    assert_eq!(deps(&out[5]), (r(&["t0", "pc"]), r(&["ra", "pc"]), false, false));
    assert_eq!(deps(&out[6]), (r(&["a0", "a1"]), r(&["pc"]), false, false));
    assert_eq!(deps(&out[7]), (r(&["a0"]), r(&["pc"]), false, false));
    assert_eq!(deps(&out[8]), (r(&[]), r(&["a5"]), false, false));
    assert_eq!(deps(&out[9]), (r(&[]), r(&["pc"]), false, false));
    assert_eq!(deps(&out[10]), (r(&["a1", "a2"]), r(&["a0"]), true, false));
    assert_eq!(deps(&out[11]), (r(&[]), r(&[]), false, false));
    assert_eq!(deps(&out[12]), (r(&["pc"]), r(&["gp"]), false, false));
}

#[test]
fn translation_fails_on_the_first_bad_instruction() {
    let e = translate_list(vec![raw("nop", &[], None), raw("vadd", &["v0"], None), raw("frob", &[], None)])
        .unwrap_err();
    assert_eq!(e.index, 1);
    assert_eq!(e.inst, "vadd");
    assert_eq!(e.kind, TranslateErrorKind::UnknownInstruction);

    let e = translate_list(vec![raw("add", &["a0", "a1"], None)]).unwrap_err();
    assert_eq!((e.index, e.kind), (0, TranslateErrorKind::MissingArgument));

    let e = translate_list(vec![raw("amoswap", &["a0", "a1"], None)]).unwrap_err();
    assert_eq!(e.kind, TranslateErrorKind::MissingArgument);

    let e = translate_list(vec![raw("j", &[], None), raw("lw", &["a0", "sp"], None)]).unwrap_err();
    assert_eq!((e.index, e.kind), (1, TranslateErrorKind::MissingOffset));
}

#[test]
fn empty_list_translates_to_empty_list() {
    assert_eq!(translate_list(Vec::new()).unwrap().len(), 0);
}
