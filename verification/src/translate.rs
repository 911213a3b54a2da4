//! Turning raw trace instructions into instructions with the register and
//! memory dependencies that the simulator checks.
use vstd::prelude::*;
use vstd::string::*;

use crate::models::{
    clone_opt_string, instr_views, opt_view, raw_views, Instruction, InstructionRaw,
    InstructionView, RawView,
};
use crate::text::{str_equals, views};

verus! {

/// The shapes of instruction whose dependencies are known, by the
/// dependencies their arguments carry.
#[derive(Debug, Clone, Copy, PartialEq, Eq, Structural)]
pub enum OpClass {
    /// `jal rd, ...`: writes `rd` and the pc, reads the pc.
    Jal,
    /// `auipc rd, ...`: writes `rd`, reads the pc.
    Auipc,
    /// `op rd, rs, ...`: writes `rd`, reads `rs`.
    RegImm,
    /// `load rd, off(rs)`: writes `rd`, reads `rs`, loads from memory.
    Load,
    /// `jalr rd, rs`: writes `rd` and the pc, reads `rs` and the pc.
    Jalr,
    /// `store rs, off(rb)`: reads `rs` and `rb`, stores to memory.
    Store,
    /// `op rd, rs1, rs2`: writes `rd`, reads `rs1` and `rs2`.
    RegReg,
    /// `branch rs, ...`: reads `rs`, writes the pc.
    BranchOne,
    /// `branch rs1, rs2, ...`: reads `rs1` and `rs2`, writes the pc.
    BranchTwo,
    /// `op rd, ...`: writes `rd` only.
    WriteOnly,
    /// `j ...`: writes the pc only.
    Jump,
    /// `amo rd, rs, (rb)`: writes `rd`, reads `rs` and `rb`, stores to memory.
    Atomic,
    /// No register or memory dependency.
    NoDeps,
}

/// Why a raw instruction cannot be translated.
#[derive(Debug, Clone, Copy, PartialEq, Eq, Structural)]
pub enum TranslateErrorKind {
    /// The instruction code is not one whose dependencies are known.
    UnknownInstruction,
    /// The instruction has fewer arguments than its shape reads.
    MissingArgument,
    /// The memory operand has no `(` before its base register.
    MissingOffset,
}

/// The first instruction of a list that cannot be translated.
#[derive(Debug)]
pub struct TranslateError {
    /// Its position in the list.
    pub index: usize,
    /// Its instruction code.
    pub inst: String,
    pub kind: TranslateErrorKind,
}

pub open spec fn is_reg_imm_op(op: Seq<char>) -> bool {
    ||| op == "slti"@
    ||| op == "fabs"@
    ||| op == "addi"@
    ||| op == "mv"@
    ||| op == "andi"@
    ||| op == "slli"@
    ||| op == "srli"@
    ||| op == "neg"@
    ||| op == "addiw"@
    ||| op == "slliw"@
    ||| op == "xori"@
    ||| op == "sext"@
    ||| op == "sraiw"@
    ||| op == "srliw"@
    ||| op == "snez"@
    ||| op == "not"@
    ||| op == "ori"@
    ||| op == "srai"@
    ||| op == "negw"@
    ||| op == "seqz"@
    ||| op == "sgtz"@
    ||| op == "fcvt"@
    ||| op == "fmv"@
}

fn is_reg_imm_op_exec(op: &str) -> (r: bool)
    ensures
        r == is_reg_imm_op(op@),
{
    str_equals(op, "slti") || str_equals(op, "fabs") || str_equals(op, "addi") || str_equals(
        op,
        "mv",
    ) || str_equals(op, "andi") || str_equals(op, "slli") || str_equals(op, "srli")
        || str_equals(op, "neg") || str_equals(op, "addiw") || str_equals(op, "slliw")
        || str_equals(op, "xori") || str_equals(op, "sext") || str_equals(op, "sraiw")
        || str_equals(op, "srliw") || str_equals(op, "snez") || str_equals(op, "not")
        || str_equals(op, "ori") || str_equals(op, "srai") || str_equals(op, "negw")
        || str_equals(op, "seqz") || str_equals(op, "sgtz") || str_equals(op, "fcvt")
        || str_equals(op, "fmv")
}

pub open spec fn is_load_op(op: Seq<char>) -> bool {
    ||| op == "ld"@
    ||| op == "lw"@
    ||| op == "lbu"@
    ||| op == "lhu"@
    ||| op == "lwu"@
    ||| op == "lb"@
    ||| op == "fld"@
    ||| op == "lr"@
    ||| op == "lh"@
    ||| op == "flw"@
}

fn is_load_op_exec(op: &str) -> (r: bool)
    ensures
        r == is_load_op(op@),
{
    str_equals(op, "ld") || str_equals(op, "lw") || str_equals(op, "lbu") || str_equals(op, "lhu")
        || str_equals(op, "lwu") || str_equals(op, "lb") || str_equals(op, "fld") || str_equals(
        op,
        "lr",
    ) || str_equals(op, "lh") || str_equals(op, "flw")
}

pub open spec fn is_store_op(op: Seq<char>) -> bool {
    ||| op == "sd"@
    ||| op == "sw"@
    ||| op == "sb"@
    ||| op == "sh"@
    ||| op == "fsd"@
    ||| op == "fsw"@
}

fn is_store_op_exec(op: &str) -> (r: bool)
    ensures
        r == is_store_op(op@),
{
    str_equals(op, "sd") || str_equals(op, "sw") || str_equals(op, "sb") || str_equals(op, "sh")
        || str_equals(op, "fsd") || str_equals(op, "fsw")
}

pub open spec fn is_reg_reg_op(op: Seq<char>) -> bool {
    ||| op == "feq"@
    ||| op == "remw"@
    ||| op == "sra"@
    ||| op == "divw"@
    ||| op == "divuw"@
    ||| op == "rem"@
    ||| op == "srlw"@
    ||| op == "add"@
    ||| op == "mul"@
    ||| op == "sub"@
    ||| op == "and"@
    ||| op == "divu"@
    ||| op == "addw"@
    ||| op == "xor"@
    ||| op == "remu"@
    ||| op == "or"@
    ||| op == "sllw"@
    ||| op == "mulhu"@
    ||| op == "srl"@
    ||| op == "sltu"@
    ||| op == "subw"@
    ||| op == "remuw"@
    ||| op == "mulw"@
    ||| op == "div"@
    ||| op == "slt"@
    ||| op == "sll"@
    ||| op == "sraw"@
    ||| op == "fle"@
    ||| op == "fmul"@
    ||| op == "fdiv"@
    ||| op == "flt"@
    ||| op == "fadd"@
    ||| op == "fsub"@
}

fn is_reg_reg_op_exec(op: &str) -> (r: bool)
    ensures
        r == is_reg_reg_op(op@),
{
    str_equals(op, "feq") || str_equals(op, "remw") || str_equals(op, "sra") || str_equals(
        op,
        "divw",
    ) || str_equals(op, "divuw") || str_equals(op, "rem") || str_equals(op, "srlw")
        || str_equals(op, "add") || str_equals(op, "mul") || str_equals(op, "sub")
        || str_equals(op, "and") || str_equals(op, "divu") || str_equals(op, "addw")
        || str_equals(op, "xor") || str_equals(op, "remu") || str_equals(op, "or")
        || str_equals(op, "sllw") || str_equals(op, "mulhu") || str_equals(op, "srl")
        || str_equals(op, "sltu") || str_equals(op, "subw") || str_equals(op, "remuw")
        || str_equals(op, "mulw") || str_equals(op, "div") || str_equals(op, "slt")
        || str_equals(op, "sll") || str_equals(op, "sraw") || str_equals(op, "fle")
        || str_equals(op, "fmul") || str_equals(op, "fdiv") || str_equals(op, "flt")
        || str_equals(op, "fadd") || str_equals(op, "fsub")
}

pub open spec fn is_branch_one_op(op: Seq<char>) -> bool {
    ||| op == "bnez"@
    ||| op == "beqz"@
    ||| op == "jr"@
    ||| op == "blez"@
    ||| op == "bltz"@
    ||| op == "bgtz"@
    ||| op == "bgez"@
}

fn is_branch_one_op_exec(op: &str) -> (r: bool)
    ensures
        r == is_branch_one_op(op@),
{
    str_equals(op, "bnez") || str_equals(op, "beqz") || str_equals(op, "jr") || str_equals(
        op,
        "blez",
    ) || str_equals(op, "bltz") || str_equals(op, "bgtz") || str_equals(op, "bgez")
}

pub open spec fn is_branch_two_op(op: Seq<char>) -> bool {
    ||| op == "bleu"@
    ||| op == "bne"@
    ||| op == "bgtu"@
    ||| op == "beq"@
    ||| op == "ble"@
    ||| op == "bgt"@
}

fn is_branch_two_op_exec(op: &str) -> (r: bool)
    ensures
        r == is_branch_two_op(op@),
{
    str_equals(op, "bleu") || str_equals(op, "bne") || str_equals(op, "bgtu") || str_equals(
        op,
        "beq",
    ) || str_equals(op, "ble") || str_equals(op, "bgt")
}

pub open spec fn is_write_only_op(op: Seq<char>) -> bool {
    ||| op == "lui"@
    ||| op == "frrm"@
    ||| op == "frflags"@
    ||| op == "fsflags"@
}

fn is_write_only_op_exec(op: &str) -> (r: bool)
    ensures
        r == is_write_only_op(op@),
{
    str_equals(op, "lui") || str_equals(op, "frrm") || str_equals(op, "frflags") || str_equals(
        op,
        "fsflags",
    )
}

pub open spec fn is_atomic_op(op: Seq<char>) -> bool {
    ||| op == "amoswap"@
    ||| op == "sc"@
    ||| op == "amoadd"@
    ||| op == "amomaxu"@
}

fn is_atomic_op_exec(op: &str) -> (r: bool)
    ensures
        r == is_atomic_op(op@),
{
    str_equals(op, "amoswap") || str_equals(op, "sc") || str_equals(op, "amoadd") || str_equals(
        op,
        "amomaxu",
    )
}

pub open spec fn is_no_deps_op(op: Seq<char>) -> bool {
    ||| op == "ret"@
    ||| op == "ecall"@
    ||| op == "fence"@
    ||| op == "nop"@
}

fn is_no_deps_op_exec(op: &str) -> (r: bool)
    ensures
        r == is_no_deps_op(op@),
{
    str_equals(op, "ret") || str_equals(op, "ecall") || str_equals(op, "fence") || str_equals(
        op,
        "nop",
    )
}

/// The shape of the instruction code `op`, tried in a fixed order;
/// `None` for a code it does not know.
pub open spec fn op_class(op: Seq<char>) -> Option<OpClass> {
    if op == "jal"@ {
        Some(OpClass::Jal)
    } else if op == "auipc"@ {
        Some(OpClass::Auipc)
    } else if is_reg_imm_op(op) {
        Some(OpClass::RegImm)
    } else if is_load_op(op) {
        Some(OpClass::Load)
    } else if op == "jalr"@ {
        Some(OpClass::Jalr)
    } else if is_store_op(op) {
        Some(OpClass::Store)
    } else if is_reg_reg_op(op) {
        Some(OpClass::RegReg)
    } else if is_branch_one_op(op) {
        Some(OpClass::BranchOne)
    } else if is_branch_two_op(op) {
        Some(OpClass::BranchTwo)
    } else if is_write_only_op(op) {
        Some(OpClass::WriteOnly)
    } else if op == "j"@ {
        Some(OpClass::Jump)
    } else if is_atomic_op(op) {
        Some(OpClass::Atomic)
    } else if is_no_deps_op(op) {
        Some(OpClass::NoDeps)
    } else {
        None
    }
}

/// Classifies the instruction code `op`.
pub fn classify(op: &str) -> (r: Option<OpClass>)
    ensures
        r == op_class(op@),
{
    if str_equals(op, "jal") {
        Some(OpClass::Jal)
    } else if str_equals(op, "auipc") {
        Some(OpClass::Auipc)
    } else if is_reg_imm_op_exec(op) {
        Some(OpClass::RegImm)
    } else if is_load_op_exec(op) {
        Some(OpClass::Load)
    } else if str_equals(op, "jalr") {
        Some(OpClass::Jalr)
    } else if is_store_op_exec(op) {
        Some(OpClass::Store)
    } else if is_reg_reg_op_exec(op) {
        Some(OpClass::RegReg)
    } else if is_branch_one_op_exec(op) {
        Some(OpClass::BranchOne)
    } else if is_branch_two_op_exec(op) {
        Some(OpClass::BranchTwo)
    } else if is_write_only_op_exec(op) {
        Some(OpClass::WriteOnly)
    } else if str_equals(op, "j") {
        Some(OpClass::Jump)
    } else if is_atomic_op_exec(op) {
        Some(OpClass::Atomic)
    } else if is_no_deps_op_exec(op) {
        Some(OpClass::NoDeps)
    } else {
        None
    }
}

/// How many arguments an instruction of shape `c` reads.
pub open spec fn arguments_read(c: OpClass) -> nat {
    match c {
        OpClass::Jal => 1,
        OpClass::Auipc => 1,
        OpClass::RegImm => 2,
        OpClass::Load => 2,
        OpClass::Jalr => 2,
        OpClass::Store => 2,
        OpClass::RegReg => 3,
        OpClass::BranchOne => 1,
        OpClass::BranchTwo => 2,
        OpClass::WriteOnly => 1,
        OpClass::Jump => 0,
        OpClass::Atomic => 3,
        OpClass::NoDeps => 0,
    }
}

/// Which argument of shape `c` is a memory operand `offset(base)`, if any.
pub open spec fn memory_operand(c: OpClass) -> Option<int> {
    match c {
        OpClass::Load => Some(1),
        OpClass::Store => Some(1),
        OpClass::Atomic => Some(2),
        _ => None,
    }
}

/// `i` is the first position of `c` in `s`.
pub open spec fn is_first_index(s: Seq<char>, c: char, i: int) -> bool {
    &&& 0 <= i < s.len()
    &&& s[i] == c
    &&& forall|j: int| 0 <= j < i ==> s[j] != c
}

/// `s` without its trailing run of `c`.
pub open spec fn trim_end(s: Seq<char>, c: char) -> Seq<char>
    decreases s.len(),
{
    if s.len() > 0 && s.last() == c {
        trim_end(s.drop_last(), c)
    } else {
        s
    }
}

/// The base register of a memory operand `offset(base)`: what follows the
/// first `(`, without trailing `)`; `None` when there is no `(`.
pub open spec fn offset_register(s: Seq<char>) -> Option<Seq<char>> {
    if exists|i: int| is_first_index(s, '(', i) {
        let i = choose|i: int| is_first_index(s, '(', i);
        Some(trim_end(s.skip(i + 1), ')'))
    } else {
        None
    }
}

proof fn lemma_trim_end_closing(reg: Seq<char>, closing: Seq<char>)
    requires
        reg.len() == 0 || reg.last() != ')',
        forall|k: int| 0 <= k < closing.len() ==> closing[k] == ')',
    ensures
        trim_end(reg + closing, ')') == reg,
    decreases closing.len(),
{
    if closing.len() > 0 {
        assert((reg + closing).drop_last() =~= reg + closing.drop_last());
        lemma_trim_end_closing(reg, closing.drop_last());
    } else {
        assert(reg + closing =~= reg);
    }
}

/// An operand `offset(base)` names the register `base`, whatever the
/// offset (without `(`) and however many `)` close it; an operand with no
/// `(` names none.
pub proof fn lemma_offset_register_of(
    offset: Seq<char>,
    base: Seq<char>,
    closing: Seq<char>,
    plain: Seq<char>,
)
    requires
        forall|k: int| 0 <= k < offset.len() ==> offset[k] != '(',
        base.len() == 0 || base.last() != ')',
        forall|k: int| 0 <= k < closing.len() ==> closing[k] == ')',
        forall|k: int| 0 <= k < plain.len() ==> plain[k] != '(',
    ensures
        offset_register(offset + seq!['('] + base + closing) == Some(base),
        offset_register(plain) is None,
{
    let s = offset + seq!['('] + base + closing;
    let i = offset.len() as int;
    assert(is_first_index(s, '(', i));
    let c = choose|c: int| is_first_index(s, '(', c);
    assert(c == i) by {
        if c < i {
            assert(s[c] == offset[c]);
        } else if c > i {
            assert(s[i] == '(');
        }
    }
    assert(s.skip(i + 1) =~= base + closing);
    lemma_trim_end_closing(base, closing);
    assert forall|k: int| !is_first_index(plain, '(', k) by {}
}

/// The register of an offset-formatted operand such as `8(sp)`. An operand
/// with no `(` has no register: that is a fault, reported as `None` rather
/// than a panic.
pub fn parse_offset(input: &str) -> (r: Option<String>)
    ensures
        r matches Some(x) ==> offset_register(input@) == Some(x@),
        r is None ==> offset_register(input@) is None,
{
    let ghost s = input@;
    let n = input.unicode_len();
    let mut i: usize = 0;
    while i < n
        invariant
            n == s.len(),
            s == input@,
            i <= n,
            forall|j: int| 0 <= j < i ==> s[j] != '(',
        ensures
            i <= n,
            forall|j: int| 0 <= j < i ==> s[j] != '(',
            i < n ==> s[i as int] == '(',
        decreases n - i,
    {
        if input.get_char(i) == '(' {
            break;
        }
        i += 1;
    }
    if i == n {
        assert forall|k: int| !is_first_index(s, '(', k) by {}
        return None;
    }
    assert(is_first_index(s, '(', i as int));
    proof {
        let c = choose|k: int| is_first_index(s, '(', k);
        assert(c == i) by {
            if c < i {
                assert(s[c] != '(');
            } else if c > i {
                assert(s[i as int] != '(');
            }
        }
    }
    let mut j: usize = n;
    assert(s.skip(i + 1) =~= s.subrange(i + 1, n as int));
    while j > i + 1 && input.get_char(j - 1) == ')'
        invariant
            n == s.len(),
            s == input@,
            i < n,
            i + 1 <= j <= n,
            trim_end(s.skip(i + 1), ')') == trim_end(s.subrange(i + 1, j as int), ')'),
        decreases j,
    {
        assert(s.subrange(i + 1, j as int).drop_last() =~= s.subrange(i + 1, j - 1));
        j -= 1;
    }
    let out = input.substring_char(i + 1, j).to_owned();
    Some(out)
}

/// The register `pc`.
pub open spec fn pc_register() -> Seq<char> {
    "pc"@
}

fn pc() -> (r: String)
    ensures
        r@ == pc_register(),
{
    "pc".to_owned()
}

/// The registers read and written, and whether it stores or loads, of an
/// instruction of shape `c` with arguments `a` whose memory operand (if it
/// has one) names the register `base`.
pub open spec fn dependencies(c: OpClass, a: Seq<Seq<char>>, base: Seq<char>) -> (
    Seq<Seq<char>>,
    Seq<Seq<char>>,
    bool,
    bool,
) {
    match c {
        OpClass::Jal => (seq![pc_register()], seq![a[0], pc_register()], false, false),
        OpClass::Auipc => (seq![pc_register()], seq![a[0]], false, false),
        OpClass::RegImm => (seq![a[1]], seq![a[0]], false, false),
        OpClass::Load => (seq![base], seq![a[0]], false, true),
        OpClass::Jalr => (seq![a[1], pc_register()], seq![a[0], pc_register()], false, false),
        OpClass::Store => (seq![a[0], base], seq![], true, false),
        OpClass::RegReg => (seq![a[1], a[2]], seq![a[0]], false, false),
        OpClass::BranchOne => (seq![a[0]], seq![pc_register()], false, false),
        OpClass::BranchTwo => (seq![a[0], a[1]], seq![pc_register()], false, false),
        OpClass::WriteOnly => (seq![], seq![a[0]], false, false),
        OpClass::Jump => (seq![], seq![pc_register()], false, false),
        OpClass::Atomic => (seq![a[1], base], seq![a[0]], true, false),
        OpClass::NoDeps => (seq![], seq![], false, false),
    }
}

/// The instruction that `raw` at position `index` of its list becomes: its
/// dependencies, its memory address, the key `index` and no shortcut; or why
/// it has none.
pub open spec fn instruction_of(raw: RawView, index: int) -> Result<InstructionView, TranslateErrorKind> {
    match op_class(raw.inst) {
        None => Err(TranslateErrorKind::UnknownInstruction),
        Some(c) => if raw.arguments.len() < arguments_read(c) {
            Err(TranslateErrorKind::MissingArgument)
        } else {
            let base = match memory_operand(c) {
                Some(k) => offset_register(raw.arguments[k]),
                None => Some(seq![]),
            };
            match base {
                None => Err(TranslateErrorKind::MissingOffset),
                Some(b) => {
                    let d = dependencies(c, raw.arguments, b);
                    Ok(
                        InstructionView {
                            reg_read_dep: d.0,
                            reg_write_dep: d.1,
                            mem_store: d.2,
                            mem_load: d.3,
                            mem_addr: raw.mem_addr,
                            key: index as i32,
                            shortcut_dep: -1i32,
                        },
                    )
                },
            }
        },
    }
}

/// An instruction made from a raw one keeps the raw instruction's memory
/// address, gets its position as key and no shortcut, and is never both a
/// store and a load.
pub proof fn lemma_instruction_of_fields(raw: RawView, index: int)
    ensures
        instruction_of(raw, index) matches Ok(x) ==> {
            &&& x.key == index as i32
            &&& x.shortcut_dep == -1
            &&& x.mem_addr == raw.mem_addr
            &&& !(x.mem_store && x.mem_load)
        },
{
}

fn strings0() -> (r: Vec<String>)
    ensures
        views(r@) == Seq::<Seq<char>>::empty(),
{
    let r: Vec<String> = Vec::new();
    assert(views(r@) =~= Seq::<Seq<char>>::empty());
    r
}

fn strings1(a: String) -> (r: Vec<String>)
    ensures
        views(r@) == seq![a@],
{
    let mut r: Vec<String> = Vec::new();
    r.push(a);
    assert(views(r@) =~= seq![a@]);
    r
}

fn strings2(a: String, b: String) -> (r: Vec<String>)
    ensures
        views(r@) == seq![a@, b@],
{
    let mut r: Vec<String> = Vec::new();
    r.push(a);
    r.push(b);
    assert(views(r@) =~= seq![a@, b@]);
    r
}

/// Translates one raw instruction found at position `index` of its list.
pub fn translate_instruction(inst: &InstructionRaw, index: usize) -> (r: Result<
    Instruction,
    TranslateErrorKind,
>)
    ensures
        match r {
            Ok(x) => instruction_of(inst@, index as int) == Ok::<InstructionView, TranslateErrorKind>(x@),
            Err(e) => instruction_of(inst@, index as int) == Err::<InstructionView, TranslateErrorKind>(e),
        },
{
    let a = &inst.arguments;
    let ghost av = views(a@);
    let class = match classify(inst.inst.as_str()) {
        None => {
            return Err(TranslateErrorKind::UnknownInstruction);
        },
        Some(c) => c,
    };
    let needed: usize = match class {
        OpClass::Jal => 1,
        OpClass::Auipc => 1,
        OpClass::RegImm => 2,
        OpClass::Load => 2,
        OpClass::Jalr => 2,
        OpClass::Store => 2,
        OpClass::RegReg => 3,
        OpClass::BranchOne => 1,
        OpClass::BranchTwo => 2,
        OpClass::WriteOnly => 1,
        OpClass::Jump => 0,
        OpClass::Atomic => 3,
        OpClass::NoDeps => 0,
    };
    if a.len() < needed {
        return Err(TranslateErrorKind::MissingArgument);
    }
    let mut mem_store = false;
    let mut mem_load = false;
    let (reg_read_dep, reg_write_dep) = match class {
        OpClass::Jal => (strings1(pc()), strings2(a[0].clone(), pc())),
        OpClass::Auipc => (strings1(pc()), strings1(a[0].clone())),
        OpClass::RegImm => (strings1(a[1].clone()), strings1(a[0].clone())),
        OpClass::Load => {
            let reg = match parse_offset(a[1].as_str()) {
                Some(r) => r,
                None => {
                    return Err(TranslateErrorKind::MissingOffset);
                },
            };
            mem_load = true;
            (strings1(reg), strings1(a[0].clone()))
        },
        OpClass::Jalr => (strings2(a[1].clone(), pc()), strings2(a[0].clone(), pc())),
        OpClass::Store => {
            let reg = match parse_offset(a[1].as_str()) {
                Some(r) => r,
                None => {
                    return Err(TranslateErrorKind::MissingOffset);
                },
            };
            mem_store = true;
            (strings2(a[0].clone(), reg), strings0())
        },
        OpClass::RegReg => (strings2(a[1].clone(), a[2].clone()), strings1(a[0].clone())),
        OpClass::BranchOne => (strings1(a[0].clone()), strings1(pc())),
        OpClass::BranchTwo => (strings2(a[0].clone(), a[1].clone()), strings1(pc())),
        OpClass::WriteOnly => (strings0(), strings1(a[0].clone())),
        OpClass::Jump => (strings0(), strings1(pc())),
        OpClass::Atomic => {
            let reg = match parse_offset(a[2].as_str()) {
                Some(r) => r,
                None => {
                    return Err(TranslateErrorKind::MissingOffset);
                },
            };
            mem_store = true;
            (strings2(a[1].clone(), reg), strings1(a[0].clone()))
        },
        OpClass::NoDeps => (strings0(), strings0()),
    };
    Ok(
        Instruction {
            reg_read_dep,
            reg_write_dep,
            mem_store,
            mem_load,
            mem_addr: clone_opt_string(&inst.mem_addr),
            key: index as i32,
            shortcut_dep: -1,
        },
    )
}

/// Translates a list of raw instructions: the instruction at position `i`
/// gets key `i`. An instruction that cannot be translated (an unknown code,
/// a missing argument, a memory operand without `(`) is a fault: the first
/// one gives an error rather than a panic, and the program stops on it.
pub fn translate_list(raw_inst_list: Vec<InstructionRaw>) -> (r: Result<
    Vec<Instruction>,
    TranslateError,
>)
    ensures
        match r {
            Ok(v) => {
                &&& v@.len() == raw_inst_list@.len()
                &&& forall|i: int|
                    0 <= i < v@.len() ==> instruction_of(raw_inst_list@[i]@, i) == Ok::<
                        InstructionView,
                        TranslateErrorKind,
                    >(#[trigger] v@[i]@)
            },
            Err(e) => {
                &&& e.index < raw_inst_list@.len()
                &&& e.inst@ == raw_inst_list@[e.index as int].inst@
                &&& instruction_of(raw_inst_list@[e.index as int]@, e.index as int) == Err::<
                    InstructionView,
                    TranslateErrorKind,
                >(e.kind)
                &&& forall|i: int|
                    0 <= i < e.index ==> #[trigger] instruction_of(raw_inst_list@[i]@, i) is Ok
            },
        },
{
    let mut inst_list: Vec<Instruction> = Vec::new();
    let mut i: usize = 0;
    while i < raw_inst_list.len()
        invariant
            i <= raw_inst_list@.len(),
            inst_list@.len() == i,
            forall|k: int|
                0 <= k < i ==> instruction_of(raw_inst_list@[k]@, k) == Ok::<
                    InstructionView,
                    TranslateErrorKind,
                >(#[trigger] inst_list@[k]@),
        decreases raw_inst_list.len() - i,
    {
        match translate_instruction(&raw_inst_list[i], i) {
            Ok(x) => {
                inst_list.push(x);
            },
            Err(kind) => {
                assert forall|k: int| 0 <= k < i implies #[trigger] instruction_of(
                    raw_inst_list@[k]@,
                    k,
                ) is Ok by {
                    assert(instruction_of(raw_inst_list@[k]@, k) == Ok::<
                        InstructionView,
                        TranslateErrorKind,
                    >(inst_list@[k]@));
                }
                return Err(TranslateError { index: i, inst: raw_inst_list[i].inst.clone(), kind });
            },
        }
        i += 1;
    }
    Ok(inst_list)
}

} // verus!
