//! The translation table, code by code: what each instruction code of a
//! trace becomes, for every list of arguments.
use vstd::prelude::*;

use crate::models::{InstructionView, RawView};
use crate::translate::{instruction_of, offset_register, TranslateErrorKind};

verus! {

/// The codes of shape `op rd, rs, ...`: writes `rd` and reads `rs`.
pub open spec fn register_immediate_code(x: Seq<char>) -> bool {
    x == "slti"@
        || x == "fabs"@
        || x == "addi"@
        || x == "mv"@
        || x == "andi"@
        || x == "slli"@
        || x == "srli"@
        || x == "neg"@
        || x == "addiw"@
        || x == "slliw"@
        || x == "xori"@
        || x == "sext"@
        || x == "sraiw"@
        || x == "srliw"@
        || x == "snez"@
        || x == "not"@
        || x == "ori"@
        || x == "srai"@
        || x == "negw"@
        || x == "seqz"@
        || x == "sgtz"@
        || x == "fcvt"@
        || x == "fmv"@
}

/// The codes of shape `op rd, offset(rs)`: writes `rd`, reads `rs` and loads from memory.
pub open spec fn load_code(x: Seq<char>) -> bool {
    x == "ld"@
        || x == "lw"@
        || x == "lbu"@
        || x == "lhu"@
        || x == "lwu"@
        || x == "lb"@
        || x == "fld"@
        || x == "lr"@
        || x == "lh"@
        || x == "flw"@
}

/// The codes of shape `op rs, offset(rb)`: reads `rs` and `rb` and stores to memory.
pub open spec fn store_code(x: Seq<char>) -> bool {
    x == "sd"@
        || x == "sw"@
        || x == "sb"@
        || x == "sh"@
        || x == "fsd"@
        || x == "fsw"@
}

/// The codes of shape `op rd, rs1, rs2`: writes `rd`, reads `rs1` and `rs2`.
pub open spec fn three_register_code(x: Seq<char>) -> bool {
    x == "feq"@
        || x == "remw"@
        || x == "sra"@
        || x == "divw"@
        || x == "divuw"@
        || x == "rem"@
        || x == "srlw"@
        || x == "add"@
        || x == "mul"@
        || x == "sub"@
        || x == "and"@
        || x == "divu"@
        || x == "addw"@
        || x == "xor"@
        || x == "remu"@
        || x == "or"@
        || x == "sllw"@
        || x == "mulhu"@
        || x == "srl"@
        || x == "sltu"@
        || x == "subw"@
        || x == "remuw"@
        || x == "mulw"@
        || x == "div"@
        || x == "slt"@
        || x == "sll"@
        || x == "sraw"@
        || x == "fle"@
        || x == "fmul"@
        || x == "fdiv"@
        || x == "flt"@
        || x == "fadd"@
        || x == "fsub"@
}

/// The codes of shape `op rs, ...`: reads `rs` and writes the pc.
pub open spec fn one_register_branch_code(x: Seq<char>) -> bool {
    x == "bnez"@
        || x == "beqz"@
        || x == "jr"@
        || x == "blez"@
        || x == "bltz"@
        || x == "bgtz"@
        || x == "bgez"@
}

/// The codes of shape `op rs1, rs2, ...`: reads `rs1` and `rs2` and writes the pc.
pub open spec fn two_register_branch_code(x: Seq<char>) -> bool {
    x == "bleu"@
        || x == "bne"@
        || x == "bgtu"@
        || x == "beq"@
        || x == "ble"@
        || x == "bgt"@
}

/// The codes of shape `op rd, ...`: writes `rd` only.
pub open spec fn write_only_code(x: Seq<char>) -> bool {
    x == "lui"@
        || x == "frrm"@
        || x == "frflags"@
        || x == "fsflags"@
}

/// The codes of shape `op rd, rs, (rb)`: writes `rd`, reads `rs` and `rb` and stores to memory.
pub open spec fn atomic_code(x: Seq<char>) -> bool {
    x == "amoswap"@
        || x == "sc"@
        || x == "amoadd"@
        || x == "amomaxu"@
}

/// The codes of shape codes with no register or memory dependency.
pub open spec fn no_dependency_code(x: Seq<char>) -> bool {
    x == "ret"@
        || x == "ecall"@
        || x == "fence"@
        || x == "nop"@
}

/// The codes that the table lists.
pub open spec fn known_code(x: Seq<char>) -> bool {
    ||| x == "jal"@
    ||| x == "auipc"@
    ||| register_immediate_code(x)
    ||| load_code(x)
    ||| x == "jalr"@
    ||| store_code(x)
    ||| three_register_code(x)
    ||| one_register_branch_code(x)
    ||| two_register_branch_code(x)
    ||| write_only_code(x)
    ||| x == "j"@
    ||| atomic_code(x)
    ||| no_dependency_code(x)
}

/// What `raw` at position `index` becomes when its code reads its first
/// `needed` arguments, reads the registers `reads`, writes `writes`, and
/// stores or loads as given: a missing argument is an error.
pub open spec fn becomes(
    raw: RawView,
    index: int,
    needed: nat,
    reads: Seq<Seq<char>>,
    writes: Seq<Seq<char>>,
    store: bool,
    load: bool,
) -> Result<InstructionView, TranslateErrorKind> {
    if raw.arguments.len() < needed {
        Err(TranslateErrorKind::MissingArgument)
    } else {
        Ok(
            InstructionView {
                reg_read_dep: reads,
                reg_write_dep: writes,
                mem_store: store,
                mem_load: load,
                mem_addr: raw.mem_addr,
                key: index as i32,
                shortcut_dep: -1i32,
            },
        )
    }
}

/// Like `becomes`, for a code whose argument `operand` is a memory operand
/// `offset(base)` and which reads `base` as well: an operand without `(` is
/// an error.
pub open spec fn becomes_with_base(
    raw: RawView,
    index: int,
    needed: nat,
    operand: int,
    reads: Seq<Seq<char>>,
    writes: Seq<Seq<char>>,
    store: bool,
    load: bool,
) -> Result<InstructionView, TranslateErrorKind> {
    if raw.arguments.len() >= needed && offset_register(raw.arguments[operand]) is None {
        Err(TranslateErrorKind::MissingOffset)
    } else {
        becomes(
            raw,
            index,
            needed,
            reads.push(offset_register(raw.arguments[operand])->0),
            writes,
            store,
            load,
        )
    }
}

proof fn lemma_spelling(x: Seq<char>)
    ensures
        (x == "jal"@) == (x.len() == 3 && x[0] == 'j' && x[1] == 'a' && x[2] == 'l'),
        (x == "auipc"@) == (x.len() == 5 && x[0] == 'a' && x[1] == 'u' && x[2] == 'i' && x[3] == 'p' && x[4] == 'c'),
        (x == "slti"@) == (x.len() == 4 && x[0] == 's' && x[1] == 'l' && x[2] == 't' && x[3] == 'i'),
        (x == "fabs"@) == (x.len() == 4 && x[0] == 'f' && x[1] == 'a' && x[2] == 'b' && x[3] == 's'),
        (x == "addi"@) == (x.len() == 4 && x[0] == 'a' && x[1] == 'd' && x[2] == 'd' && x[3] == 'i'),
        (x == "mv"@) == (x.len() == 2 && x[0] == 'm' && x[1] == 'v'),
        (x == "andi"@) == (x.len() == 4 && x[0] == 'a' && x[1] == 'n' && x[2] == 'd' && x[3] == 'i'),
        (x == "slli"@) == (x.len() == 4 && x[0] == 's' && x[1] == 'l' && x[2] == 'l' && x[3] == 'i'),
        (x == "srli"@) == (x.len() == 4 && x[0] == 's' && x[1] == 'r' && x[2] == 'l' && x[3] == 'i'),
        (x == "neg"@) == (x.len() == 3 && x[0] == 'n' && x[1] == 'e' && x[2] == 'g'),
        (x == "addiw"@) == (x.len() == 5 && x[0] == 'a' && x[1] == 'd' && x[2] == 'd' && x[3] == 'i' && x[4] == 'w'),
        (x == "slliw"@) == (x.len() == 5 && x[0] == 's' && x[1] == 'l' && x[2] == 'l' && x[3] == 'i' && x[4] == 'w'),
        (x == "xori"@) == (x.len() == 4 && x[0] == 'x' && x[1] == 'o' && x[2] == 'r' && x[3] == 'i'),
        (x == "sext"@) == (x.len() == 4 && x[0] == 's' && x[1] == 'e' && x[2] == 'x' && x[3] == 't'),
        (x == "sraiw"@) == (x.len() == 5 && x[0] == 's' && x[1] == 'r' && x[2] == 'a' && x[3] == 'i' && x[4] == 'w'),
        (x == "srliw"@) == (x.len() == 5 && x[0] == 's' && x[1] == 'r' && x[2] == 'l' && x[3] == 'i' && x[4] == 'w'),
        (x == "snez"@) == (x.len() == 4 && x[0] == 's' && x[1] == 'n' && x[2] == 'e' && x[3] == 'z'),
        (x == "not"@) == (x.len() == 3 && x[0] == 'n' && x[1] == 'o' && x[2] == 't'),
        (x == "ori"@) == (x.len() == 3 && x[0] == 'o' && x[1] == 'r' && x[2] == 'i'),
        (x == "srai"@) == (x.len() == 4 && x[0] == 's' && x[1] == 'r' && x[2] == 'a' && x[3] == 'i'),
        (x == "negw"@) == (x.len() == 4 && x[0] == 'n' && x[1] == 'e' && x[2] == 'g' && x[3] == 'w'),
        (x == "seqz"@) == (x.len() == 4 && x[0] == 's' && x[1] == 'e' && x[2] == 'q' && x[3] == 'z'),
        (x == "sgtz"@) == (x.len() == 4 && x[0] == 's' && x[1] == 'g' && x[2] == 't' && x[3] == 'z'),
        (x == "fcvt"@) == (x.len() == 4 && x[0] == 'f' && x[1] == 'c' && x[2] == 'v' && x[3] == 't'),
        (x == "fmv"@) == (x.len() == 3 && x[0] == 'f' && x[1] == 'm' && x[2] == 'v'),
        (x == "ld"@) == (x.len() == 2 && x[0] == 'l' && x[1] == 'd'),
        (x == "lw"@) == (x.len() == 2 && x[0] == 'l' && x[1] == 'w'),
        (x == "lbu"@) == (x.len() == 3 && x[0] == 'l' && x[1] == 'b' && x[2] == 'u'),
        (x == "lhu"@) == (x.len() == 3 && x[0] == 'l' && x[1] == 'h' && x[2] == 'u'),
        (x == "lwu"@) == (x.len() == 3 && x[0] == 'l' && x[1] == 'w' && x[2] == 'u'),
        (x == "lb"@) == (x.len() == 2 && x[0] == 'l' && x[1] == 'b'),
        (x == "fld"@) == (x.len() == 3 && x[0] == 'f' && x[1] == 'l' && x[2] == 'd'),
        (x == "lr"@) == (x.len() == 2 && x[0] == 'l' && x[1] == 'r'),
        (x == "lh"@) == (x.len() == 2 && x[0] == 'l' && x[1] == 'h'),
        (x == "flw"@) == (x.len() == 3 && x[0] == 'f' && x[1] == 'l' && x[2] == 'w'),
        (x == "jalr"@) == (x.len() == 4 && x[0] == 'j' && x[1] == 'a' && x[2] == 'l' && x[3] == 'r'),
        (x == "sd"@) == (x.len() == 2 && x[0] == 's' && x[1] == 'd'),
        (x == "sw"@) == (x.len() == 2 && x[0] == 's' && x[1] == 'w'),
        (x == "sb"@) == (x.len() == 2 && x[0] == 's' && x[1] == 'b'),
        (x == "sh"@) == (x.len() == 2 && x[0] == 's' && x[1] == 'h'),
        (x == "fsd"@) == (x.len() == 3 && x[0] == 'f' && x[1] == 's' && x[2] == 'd'),
        (x == "fsw"@) == (x.len() == 3 && x[0] == 'f' && x[1] == 's' && x[2] == 'w'),
        (x == "feq"@) == (x.len() == 3 && x[0] == 'f' && x[1] == 'e' && x[2] == 'q'),
        (x == "remw"@) == (x.len() == 4 && x[0] == 'r' && x[1] == 'e' && x[2] == 'm' && x[3] == 'w'),
        (x == "sra"@) == (x.len() == 3 && x[0] == 's' && x[1] == 'r' && x[2] == 'a'),
        (x == "divw"@) == (x.len() == 4 && x[0] == 'd' && x[1] == 'i' && x[2] == 'v' && x[3] == 'w'),
        (x == "divuw"@) == (x.len() == 5 && x[0] == 'd' && x[1] == 'i' && x[2] == 'v' && x[3] == 'u' && x[4] == 'w'),
        (x == "rem"@) == (x.len() == 3 && x[0] == 'r' && x[1] == 'e' && x[2] == 'm'),
        (x == "srlw"@) == (x.len() == 4 && x[0] == 's' && x[1] == 'r' && x[2] == 'l' && x[3] == 'w'),
        (x == "add"@) == (x.len() == 3 && x[0] == 'a' && x[1] == 'd' && x[2] == 'd'),
        (x == "mul"@) == (x.len() == 3 && x[0] == 'm' && x[1] == 'u' && x[2] == 'l'),
        (x == "sub"@) == (x.len() == 3 && x[0] == 's' && x[1] == 'u' && x[2] == 'b'),
        (x == "and"@) == (x.len() == 3 && x[0] == 'a' && x[1] == 'n' && x[2] == 'd'),
        (x == "divu"@) == (x.len() == 4 && x[0] == 'd' && x[1] == 'i' && x[2] == 'v' && x[3] == 'u'),
        (x == "addw"@) == (x.len() == 4 && x[0] == 'a' && x[1] == 'd' && x[2] == 'd' && x[3] == 'w'),
        (x == "xor"@) == (x.len() == 3 && x[0] == 'x' && x[1] == 'o' && x[2] == 'r'),
        (x == "remu"@) == (x.len() == 4 && x[0] == 'r' && x[1] == 'e' && x[2] == 'm' && x[3] == 'u'),
        (x == "or"@) == (x.len() == 2 && x[0] == 'o' && x[1] == 'r'),
        (x == "sllw"@) == (x.len() == 4 && x[0] == 's' && x[1] == 'l' && x[2] == 'l' && x[3] == 'w'),
        (x == "mulhu"@) == (x.len() == 5 && x[0] == 'm' && x[1] == 'u' && x[2] == 'l' && x[3] == 'h' && x[4] == 'u'),
        (x == "srl"@) == (x.len() == 3 && x[0] == 's' && x[1] == 'r' && x[2] == 'l'),
        (x == "sltu"@) == (x.len() == 4 && x[0] == 's' && x[1] == 'l' && x[2] == 't' && x[3] == 'u'),
        (x == "subw"@) == (x.len() == 4 && x[0] == 's' && x[1] == 'u' && x[2] == 'b' && x[3] == 'w'),
        (x == "remuw"@) == (x.len() == 5 && x[0] == 'r' && x[1] == 'e' && x[2] == 'm' && x[3] == 'u' && x[4] == 'w'),
        (x == "mulw"@) == (x.len() == 4 && x[0] == 'm' && x[1] == 'u' && x[2] == 'l' && x[3] == 'w'),
        (x == "div"@) == (x.len() == 3 && x[0] == 'd' && x[1] == 'i' && x[2] == 'v'),
        (x == "slt"@) == (x.len() == 3 && x[0] == 's' && x[1] == 'l' && x[2] == 't'),
        (x == "sll"@) == (x.len() == 3 && x[0] == 's' && x[1] == 'l' && x[2] == 'l'),
        (x == "sraw"@) == (x.len() == 4 && x[0] == 's' && x[1] == 'r' && x[2] == 'a' && x[3] == 'w'),
        (x == "fle"@) == (x.len() == 3 && x[0] == 'f' && x[1] == 'l' && x[2] == 'e'),
        (x == "fmul"@) == (x.len() == 4 && x[0] == 'f' && x[1] == 'm' && x[2] == 'u' && x[3] == 'l'),
        (x == "fdiv"@) == (x.len() == 4 && x[0] == 'f' && x[1] == 'd' && x[2] == 'i' && x[3] == 'v'),
        (x == "flt"@) == (x.len() == 3 && x[0] == 'f' && x[1] == 'l' && x[2] == 't'),
        (x == "fadd"@) == (x.len() == 4 && x[0] == 'f' && x[1] == 'a' && x[2] == 'd' && x[3] == 'd'),
        (x == "fsub"@) == (x.len() == 4 && x[0] == 'f' && x[1] == 's' && x[2] == 'u' && x[3] == 'b'),
        (x == "bnez"@) == (x.len() == 4 && x[0] == 'b' && x[1] == 'n' && x[2] == 'e' && x[3] == 'z'),
        (x == "beqz"@) == (x.len() == 4 && x[0] == 'b' && x[1] == 'e' && x[2] == 'q' && x[3] == 'z'),
        (x == "jr"@) == (x.len() == 2 && x[0] == 'j' && x[1] == 'r'),
        (x == "blez"@) == (x.len() == 4 && x[0] == 'b' && x[1] == 'l' && x[2] == 'e' && x[3] == 'z'),
        (x == "bltz"@) == (x.len() == 4 && x[0] == 'b' && x[1] == 'l' && x[2] == 't' && x[3] == 'z'),
        (x == "bgtz"@) == (x.len() == 4 && x[0] == 'b' && x[1] == 'g' && x[2] == 't' && x[3] == 'z'),
        (x == "bgez"@) == (x.len() == 4 && x[0] == 'b' && x[1] == 'g' && x[2] == 'e' && x[3] == 'z'),
        (x == "bleu"@) == (x.len() == 4 && x[0] == 'b' && x[1] == 'l' && x[2] == 'e' && x[3] == 'u'),
        (x == "bne"@) == (x.len() == 3 && x[0] == 'b' && x[1] == 'n' && x[2] == 'e'),
        (x == "bgtu"@) == (x.len() == 4 && x[0] == 'b' && x[1] == 'g' && x[2] == 't' && x[3] == 'u'),
        (x == "beq"@) == (x.len() == 3 && x[0] == 'b' && x[1] == 'e' && x[2] == 'q'),
        (x == "ble"@) == (x.len() == 3 && x[0] == 'b' && x[1] == 'l' && x[2] == 'e'),
        (x == "bgt"@) == (x.len() == 3 && x[0] == 'b' && x[1] == 'g' && x[2] == 't'),
        (x == "lui"@) == (x.len() == 3 && x[0] == 'l' && x[1] == 'u' && x[2] == 'i'),
        (x == "frrm"@) == (x.len() == 4 && x[0] == 'f' && x[1] == 'r' && x[2] == 'r' && x[3] == 'm'),
        (x == "frflags"@) == (x.len() == 7 && x[0] == 'f' && x[1] == 'r' && x[2] == 'f' && x[3] == 'l' && x[4] == 'a' && x[5] == 'g' && x[6] == 's'),
        (x == "fsflags"@) == (x.len() == 7 && x[0] == 'f' && x[1] == 's' && x[2] == 'f' && x[3] == 'l' && x[4] == 'a' && x[5] == 'g' && x[6] == 's'),
        (x == "j"@) == (x.len() == 1 && x[0] == 'j'),
        (x == "amoswap"@) == (x.len() == 7 && x[0] == 'a' && x[1] == 'm' && x[2] == 'o' && x[3] == 's' && x[4] == 'w' && x[5] == 'a' && x[6] == 'p'),
        (x == "sc"@) == (x.len() == 2 && x[0] == 's' && x[1] == 'c'),
        (x == "amoadd"@) == (x.len() == 6 && x[0] == 'a' && x[1] == 'm' && x[2] == 'o' && x[3] == 'a' && x[4] == 'd' && x[5] == 'd'),
        (x == "amomaxu"@) == (x.len() == 7 && x[0] == 'a' && x[1] == 'm' && x[2] == 'o' && x[3] == 'm' && x[4] == 'a' && x[5] == 'x' && x[6] == 'u'),
        (x == "ret"@) == (x.len() == 3 && x[0] == 'r' && x[1] == 'e' && x[2] == 't'),
        (x == "ecall"@) == (x.len() == 5 && x[0] == 'e' && x[1] == 'c' && x[2] == 'a' && x[3] == 'l' && x[4] == 'l'),
        (x == "fence"@) == (x.len() == 5 && x[0] == 'f' && x[1] == 'e' && x[2] == 'n' && x[3] == 'c' && x[4] == 'e'),
        (x == "nop"@) == (x.len() == 3 && x[0] == 'n' && x[1] == 'o' && x[2] == 'p'),
{
    reveal_strlit("jal");
    assert("jal"@.len() == 3 && "jal"@[0] == 'j' && "jal"@[1] == 'a' && "jal"@[2] == 'l');
    if x.len() == 3 && x[0] == 'j' && x[1] == 'a' && x[2] == 'l' {
        assert(x =~= "jal"@);
    }
    reveal_strlit("auipc");
    assert("auipc"@.len() == 5 && "auipc"@[0] == 'a' && "auipc"@[1] == 'u' && "auipc"@[2] == 'i' && "auipc"@[3] == 'p' && "auipc"@[4] == 'c');
    if x.len() == 5 && x[0] == 'a' && x[1] == 'u' && x[2] == 'i' && x[3] == 'p' && x[4] == 'c' {
        assert(x =~= "auipc"@);
    }
    reveal_strlit("slti");
    assert("slti"@.len() == 4 && "slti"@[0] == 's' && "slti"@[1] == 'l' && "slti"@[2] == 't' && "slti"@[3] == 'i');
    if x.len() == 4 && x[0] == 's' && x[1] == 'l' && x[2] == 't' && x[3] == 'i' {
        assert(x =~= "slti"@);
    }
    reveal_strlit("fabs");
    assert("fabs"@.len() == 4 && "fabs"@[0] == 'f' && "fabs"@[1] == 'a' && "fabs"@[2] == 'b' && "fabs"@[3] == 's');
    if x.len() == 4 && x[0] == 'f' && x[1] == 'a' && x[2] == 'b' && x[3] == 's' {
        assert(x =~= "fabs"@);
    }
    reveal_strlit("addi");
    assert("addi"@.len() == 4 && "addi"@[0] == 'a' && "addi"@[1] == 'd' && "addi"@[2] == 'd' && "addi"@[3] == 'i');
    if x.len() == 4 && x[0] == 'a' && x[1] == 'd' && x[2] == 'd' && x[3] == 'i' {
        assert(x =~= "addi"@);
    }
    reveal_strlit("mv");
    assert("mv"@.len() == 2 && "mv"@[0] == 'm' && "mv"@[1] == 'v');
    if x.len() == 2 && x[0] == 'm' && x[1] == 'v' {
        assert(x =~= "mv"@);
    }
    reveal_strlit("andi");
    assert("andi"@.len() == 4 && "andi"@[0] == 'a' && "andi"@[1] == 'n' && "andi"@[2] == 'd' && "andi"@[3] == 'i');
    if x.len() == 4 && x[0] == 'a' && x[1] == 'n' && x[2] == 'd' && x[3] == 'i' {
        assert(x =~= "andi"@);
    }
    reveal_strlit("slli");
    assert("slli"@.len() == 4 && "slli"@[0] == 's' && "slli"@[1] == 'l' && "slli"@[2] == 'l' && "slli"@[3] == 'i');
    if x.len() == 4 && x[0] == 's' && x[1] == 'l' && x[2] == 'l' && x[3] == 'i' {
        assert(x =~= "slli"@);
    }
    reveal_strlit("srli");
    assert("srli"@.len() == 4 && "srli"@[0] == 's' && "srli"@[1] == 'r' && "srli"@[2] == 'l' && "srli"@[3] == 'i');
    if x.len() == 4 && x[0] == 's' && x[1] == 'r' && x[2] == 'l' && x[3] == 'i' {
        assert(x =~= "srli"@);
    }
    reveal_strlit("neg");
    assert("neg"@.len() == 3 && "neg"@[0] == 'n' && "neg"@[1] == 'e' && "neg"@[2] == 'g');
    if x.len() == 3 && x[0] == 'n' && x[1] == 'e' && x[2] == 'g' {
        assert(x =~= "neg"@);
    }
    reveal_strlit("addiw");
    assert("addiw"@.len() == 5 && "addiw"@[0] == 'a' && "addiw"@[1] == 'd' && "addiw"@[2] == 'd' && "addiw"@[3] == 'i' && "addiw"@[4] == 'w');
    if x.len() == 5 && x[0] == 'a' && x[1] == 'd' && x[2] == 'd' && x[3] == 'i' && x[4] == 'w' {
        assert(x =~= "addiw"@);
    }
    reveal_strlit("slliw");
    assert("slliw"@.len() == 5 && "slliw"@[0] == 's' && "slliw"@[1] == 'l' && "slliw"@[2] == 'l' && "slliw"@[3] == 'i' && "slliw"@[4] == 'w');
    if x.len() == 5 && x[0] == 's' && x[1] == 'l' && x[2] == 'l' && x[3] == 'i' && x[4] == 'w' {
        assert(x =~= "slliw"@);
    }
    reveal_strlit("xori");
    assert("xori"@.len() == 4 && "xori"@[0] == 'x' && "xori"@[1] == 'o' && "xori"@[2] == 'r' && "xori"@[3] == 'i');
    if x.len() == 4 && x[0] == 'x' && x[1] == 'o' && x[2] == 'r' && x[3] == 'i' {
        assert(x =~= "xori"@);
    }
    reveal_strlit("sext");
    assert("sext"@.len() == 4 && "sext"@[0] == 's' && "sext"@[1] == 'e' && "sext"@[2] == 'x' && "sext"@[3] == 't');
    if x.len() == 4 && x[0] == 's' && x[1] == 'e' && x[2] == 'x' && x[3] == 't' {
        assert(x =~= "sext"@);
    }
    reveal_strlit("sraiw");
    assert("sraiw"@.len() == 5 && "sraiw"@[0] == 's' && "sraiw"@[1] == 'r' && "sraiw"@[2] == 'a' && "sraiw"@[3] == 'i' && "sraiw"@[4] == 'w');
    if x.len() == 5 && x[0] == 's' && x[1] == 'r' && x[2] == 'a' && x[3] == 'i' && x[4] == 'w' {
        assert(x =~= "sraiw"@);
    }
    reveal_strlit("srliw");
    assert("srliw"@.len() == 5 && "srliw"@[0] == 's' && "srliw"@[1] == 'r' && "srliw"@[2] == 'l' && "srliw"@[3] == 'i' && "srliw"@[4] == 'w');
    if x.len() == 5 && x[0] == 's' && x[1] == 'r' && x[2] == 'l' && x[3] == 'i' && x[4] == 'w' {
        assert(x =~= "srliw"@);
    }
    reveal_strlit("snez");
    assert("snez"@.len() == 4 && "snez"@[0] == 's' && "snez"@[1] == 'n' && "snez"@[2] == 'e' && "snez"@[3] == 'z');
    if x.len() == 4 && x[0] == 's' && x[1] == 'n' && x[2] == 'e' && x[3] == 'z' {
        assert(x =~= "snez"@);
    }
    reveal_strlit("not");
    assert("not"@.len() == 3 && "not"@[0] == 'n' && "not"@[1] == 'o' && "not"@[2] == 't');
    if x.len() == 3 && x[0] == 'n' && x[1] == 'o' && x[2] == 't' {
        assert(x =~= "not"@);
    }
    reveal_strlit("ori");
    assert("ori"@.len() == 3 && "ori"@[0] == 'o' && "ori"@[1] == 'r' && "ori"@[2] == 'i');
    if x.len() == 3 && x[0] == 'o' && x[1] == 'r' && x[2] == 'i' {
        assert(x =~= "ori"@);
    }
    reveal_strlit("srai");
    assert("srai"@.len() == 4 && "srai"@[0] == 's' && "srai"@[1] == 'r' && "srai"@[2] == 'a' && "srai"@[3] == 'i');
    if x.len() == 4 && x[0] == 's' && x[1] == 'r' && x[2] == 'a' && x[3] == 'i' {
        assert(x =~= "srai"@);
    }
    reveal_strlit("negw");
    assert("negw"@.len() == 4 && "negw"@[0] == 'n' && "negw"@[1] == 'e' && "negw"@[2] == 'g' && "negw"@[3] == 'w');
    if x.len() == 4 && x[0] == 'n' && x[1] == 'e' && x[2] == 'g' && x[3] == 'w' {
        assert(x =~= "negw"@);
    }
    reveal_strlit("seqz");
    assert("seqz"@.len() == 4 && "seqz"@[0] == 's' && "seqz"@[1] == 'e' && "seqz"@[2] == 'q' && "seqz"@[3] == 'z');
    if x.len() == 4 && x[0] == 's' && x[1] == 'e' && x[2] == 'q' && x[3] == 'z' {
        assert(x =~= "seqz"@);
    }
    reveal_strlit("sgtz");
    assert("sgtz"@.len() == 4 && "sgtz"@[0] == 's' && "sgtz"@[1] == 'g' && "sgtz"@[2] == 't' && "sgtz"@[3] == 'z');
    if x.len() == 4 && x[0] == 's' && x[1] == 'g' && x[2] == 't' && x[3] == 'z' {
        assert(x =~= "sgtz"@);
    }
    reveal_strlit("fcvt");
    assert("fcvt"@.len() == 4 && "fcvt"@[0] == 'f' && "fcvt"@[1] == 'c' && "fcvt"@[2] == 'v' && "fcvt"@[3] == 't');
    if x.len() == 4 && x[0] == 'f' && x[1] == 'c' && x[2] == 'v' && x[3] == 't' {
        assert(x =~= "fcvt"@);
    }
    reveal_strlit("fmv");
    assert("fmv"@.len() == 3 && "fmv"@[0] == 'f' && "fmv"@[1] == 'm' && "fmv"@[2] == 'v');
    if x.len() == 3 && x[0] == 'f' && x[1] == 'm' && x[2] == 'v' {
        assert(x =~= "fmv"@);
    }
    reveal_strlit("ld");
    assert("ld"@.len() == 2 && "ld"@[0] == 'l' && "ld"@[1] == 'd');
    if x.len() == 2 && x[0] == 'l' && x[1] == 'd' {
        assert(x =~= "ld"@);
    }
    reveal_strlit("lw");
    assert("lw"@.len() == 2 && "lw"@[0] == 'l' && "lw"@[1] == 'w');
    if x.len() == 2 && x[0] == 'l' && x[1] == 'w' {
        assert(x =~= "lw"@);
    }
    reveal_strlit("lbu");
    assert("lbu"@.len() == 3 && "lbu"@[0] == 'l' && "lbu"@[1] == 'b' && "lbu"@[2] == 'u');
    if x.len() == 3 && x[0] == 'l' && x[1] == 'b' && x[2] == 'u' {
        assert(x =~= "lbu"@);
    }
    reveal_strlit("lhu");
    assert("lhu"@.len() == 3 && "lhu"@[0] == 'l' && "lhu"@[1] == 'h' && "lhu"@[2] == 'u');
    if x.len() == 3 && x[0] == 'l' && x[1] == 'h' && x[2] == 'u' {
        assert(x =~= "lhu"@);
    }
    reveal_strlit("lwu");
    assert("lwu"@.len() == 3 && "lwu"@[0] == 'l' && "lwu"@[1] == 'w' && "lwu"@[2] == 'u');
    if x.len() == 3 && x[0] == 'l' && x[1] == 'w' && x[2] == 'u' {
        assert(x =~= "lwu"@);
    }
    reveal_strlit("lb");
    assert("lb"@.len() == 2 && "lb"@[0] == 'l' && "lb"@[1] == 'b');
    if x.len() == 2 && x[0] == 'l' && x[1] == 'b' {
        assert(x =~= "lb"@);
    }
    reveal_strlit("fld");
    assert("fld"@.len() == 3 && "fld"@[0] == 'f' && "fld"@[1] == 'l' && "fld"@[2] == 'd');
    if x.len() == 3 && x[0] == 'f' && x[1] == 'l' && x[2] == 'd' {
        assert(x =~= "fld"@);
    }
    reveal_strlit("lr");
    assert("lr"@.len() == 2 && "lr"@[0] == 'l' && "lr"@[1] == 'r');
    if x.len() == 2 && x[0] == 'l' && x[1] == 'r' {
        assert(x =~= "lr"@);
    }
    reveal_strlit("lh");
    assert("lh"@.len() == 2 && "lh"@[0] == 'l' && "lh"@[1] == 'h');
    if x.len() == 2 && x[0] == 'l' && x[1] == 'h' {
        assert(x =~= "lh"@);
    }
    reveal_strlit("flw");
    assert("flw"@.len() == 3 && "flw"@[0] == 'f' && "flw"@[1] == 'l' && "flw"@[2] == 'w');
    if x.len() == 3 && x[0] == 'f' && x[1] == 'l' && x[2] == 'w' {
        assert(x =~= "flw"@);
    }
    reveal_strlit("jalr");
    assert("jalr"@.len() == 4 && "jalr"@[0] == 'j' && "jalr"@[1] == 'a' && "jalr"@[2] == 'l' && "jalr"@[3] == 'r');
    if x.len() == 4 && x[0] == 'j' && x[1] == 'a' && x[2] == 'l' && x[3] == 'r' {
        assert(x =~= "jalr"@);
    }
    reveal_strlit("sd");
    assert("sd"@.len() == 2 && "sd"@[0] == 's' && "sd"@[1] == 'd');
    if x.len() == 2 && x[0] == 's' && x[1] == 'd' {
        assert(x =~= "sd"@);
    }
    reveal_strlit("sw");
    assert("sw"@.len() == 2 && "sw"@[0] == 's' && "sw"@[1] == 'w');
    if x.len() == 2 && x[0] == 's' && x[1] == 'w' {
        assert(x =~= "sw"@);
    }
    reveal_strlit("sb");
    assert("sb"@.len() == 2 && "sb"@[0] == 's' && "sb"@[1] == 'b');
    if x.len() == 2 && x[0] == 's' && x[1] == 'b' {
        assert(x =~= "sb"@);
    }
    reveal_strlit("sh");
    assert("sh"@.len() == 2 && "sh"@[0] == 's' && "sh"@[1] == 'h');
    if x.len() == 2 && x[0] == 's' && x[1] == 'h' {
        assert(x =~= "sh"@);
    }
    reveal_strlit("fsd");
    assert("fsd"@.len() == 3 && "fsd"@[0] == 'f' && "fsd"@[1] == 's' && "fsd"@[2] == 'd');
    if x.len() == 3 && x[0] == 'f' && x[1] == 's' && x[2] == 'd' {
        assert(x =~= "fsd"@);
    }
    reveal_strlit("fsw");
    assert("fsw"@.len() == 3 && "fsw"@[0] == 'f' && "fsw"@[1] == 's' && "fsw"@[2] == 'w');
    if x.len() == 3 && x[0] == 'f' && x[1] == 's' && x[2] == 'w' {
        assert(x =~= "fsw"@);
    }
    reveal_strlit("feq");
    assert("feq"@.len() == 3 && "feq"@[0] == 'f' && "feq"@[1] == 'e' && "feq"@[2] == 'q');
    if x.len() == 3 && x[0] == 'f' && x[1] == 'e' && x[2] == 'q' {
        assert(x =~= "feq"@);
    }
    reveal_strlit("remw");
    assert("remw"@.len() == 4 && "remw"@[0] == 'r' && "remw"@[1] == 'e' && "remw"@[2] == 'm' && "remw"@[3] == 'w');
    if x.len() == 4 && x[0] == 'r' && x[1] == 'e' && x[2] == 'm' && x[3] == 'w' {
        assert(x =~= "remw"@);
    }
    reveal_strlit("sra");
    assert("sra"@.len() == 3 && "sra"@[0] == 's' && "sra"@[1] == 'r' && "sra"@[2] == 'a');
    if x.len() == 3 && x[0] == 's' && x[1] == 'r' && x[2] == 'a' {
        assert(x =~= "sra"@);
    }
    reveal_strlit("divw");
    assert("divw"@.len() == 4 && "divw"@[0] == 'd' && "divw"@[1] == 'i' && "divw"@[2] == 'v' && "divw"@[3] == 'w');
    if x.len() == 4 && x[0] == 'd' && x[1] == 'i' && x[2] == 'v' && x[3] == 'w' {
        assert(x =~= "divw"@);
    }
    reveal_strlit("divuw");
    assert("divuw"@.len() == 5 && "divuw"@[0] == 'd' && "divuw"@[1] == 'i' && "divuw"@[2] == 'v' && "divuw"@[3] == 'u' && "divuw"@[4] == 'w');
    if x.len() == 5 && x[0] == 'd' && x[1] == 'i' && x[2] == 'v' && x[3] == 'u' && x[4] == 'w' {
        assert(x =~= "divuw"@);
    }
    reveal_strlit("rem");
    assert("rem"@.len() == 3 && "rem"@[0] == 'r' && "rem"@[1] == 'e' && "rem"@[2] == 'm');
    if x.len() == 3 && x[0] == 'r' && x[1] == 'e' && x[2] == 'm' {
        assert(x =~= "rem"@);
    }
    reveal_strlit("srlw");
    assert("srlw"@.len() == 4 && "srlw"@[0] == 's' && "srlw"@[1] == 'r' && "srlw"@[2] == 'l' && "srlw"@[3] == 'w');
    if x.len() == 4 && x[0] == 's' && x[1] == 'r' && x[2] == 'l' && x[3] == 'w' {
        assert(x =~= "srlw"@);
    }
    reveal_strlit("add");
    assert("add"@.len() == 3 && "add"@[0] == 'a' && "add"@[1] == 'd' && "add"@[2] == 'd');
    if x.len() == 3 && x[0] == 'a' && x[1] == 'd' && x[2] == 'd' {
        assert(x =~= "add"@);
    }
    reveal_strlit("mul");
    assert("mul"@.len() == 3 && "mul"@[0] == 'm' && "mul"@[1] == 'u' && "mul"@[2] == 'l');
    if x.len() == 3 && x[0] == 'm' && x[1] == 'u' && x[2] == 'l' {
        assert(x =~= "mul"@);
    }
    reveal_strlit("sub");
    assert("sub"@.len() == 3 && "sub"@[0] == 's' && "sub"@[1] == 'u' && "sub"@[2] == 'b');
    if x.len() == 3 && x[0] == 's' && x[1] == 'u' && x[2] == 'b' {
        assert(x =~= "sub"@);
    }
    reveal_strlit("and");
    assert("and"@.len() == 3 && "and"@[0] == 'a' && "and"@[1] == 'n' && "and"@[2] == 'd');
    if x.len() == 3 && x[0] == 'a' && x[1] == 'n' && x[2] == 'd' {
        assert(x =~= "and"@);
    }
    reveal_strlit("divu");
    assert("divu"@.len() == 4 && "divu"@[0] == 'd' && "divu"@[1] == 'i' && "divu"@[2] == 'v' && "divu"@[3] == 'u');
    if x.len() == 4 && x[0] == 'd' && x[1] == 'i' && x[2] == 'v' && x[3] == 'u' {
        assert(x =~= "divu"@);
    }
    reveal_strlit("addw");
    assert("addw"@.len() == 4 && "addw"@[0] == 'a' && "addw"@[1] == 'd' && "addw"@[2] == 'd' && "addw"@[3] == 'w');
    if x.len() == 4 && x[0] == 'a' && x[1] == 'd' && x[2] == 'd' && x[3] == 'w' {
        assert(x =~= "addw"@);
    }
    reveal_strlit("xor");
    assert("xor"@.len() == 3 && "xor"@[0] == 'x' && "xor"@[1] == 'o' && "xor"@[2] == 'r');
    if x.len() == 3 && x[0] == 'x' && x[1] == 'o' && x[2] == 'r' {
        assert(x =~= "xor"@);
    }
    reveal_strlit("remu");
    assert("remu"@.len() == 4 && "remu"@[0] == 'r' && "remu"@[1] == 'e' && "remu"@[2] == 'm' && "remu"@[3] == 'u');
    if x.len() == 4 && x[0] == 'r' && x[1] == 'e' && x[2] == 'm' && x[3] == 'u' {
        assert(x =~= "remu"@);
    }
    reveal_strlit("or");
    assert("or"@.len() == 2 && "or"@[0] == 'o' && "or"@[1] == 'r');
    if x.len() == 2 && x[0] == 'o' && x[1] == 'r' {
        assert(x =~= "or"@);
    }
    reveal_strlit("sllw");
    assert("sllw"@.len() == 4 && "sllw"@[0] == 's' && "sllw"@[1] == 'l' && "sllw"@[2] == 'l' && "sllw"@[3] == 'w');
    if x.len() == 4 && x[0] == 's' && x[1] == 'l' && x[2] == 'l' && x[3] == 'w' {
        assert(x =~= "sllw"@);
    }
    reveal_strlit("mulhu");
    assert("mulhu"@.len() == 5 && "mulhu"@[0] == 'm' && "mulhu"@[1] == 'u' && "mulhu"@[2] == 'l' && "mulhu"@[3] == 'h' && "mulhu"@[4] == 'u');
    if x.len() == 5 && x[0] == 'm' && x[1] == 'u' && x[2] == 'l' && x[3] == 'h' && x[4] == 'u' {
        assert(x =~= "mulhu"@);
    }
    reveal_strlit("srl");
    assert("srl"@.len() == 3 && "srl"@[0] == 's' && "srl"@[1] == 'r' && "srl"@[2] == 'l');
    if x.len() == 3 && x[0] == 's' && x[1] == 'r' && x[2] == 'l' {
        assert(x =~= "srl"@);
    }
    reveal_strlit("sltu");
    assert("sltu"@.len() == 4 && "sltu"@[0] == 's' && "sltu"@[1] == 'l' && "sltu"@[2] == 't' && "sltu"@[3] == 'u');
    if x.len() == 4 && x[0] == 's' && x[1] == 'l' && x[2] == 't' && x[3] == 'u' {
        assert(x =~= "sltu"@);
    }
    reveal_strlit("subw");
    assert("subw"@.len() == 4 && "subw"@[0] == 's' && "subw"@[1] == 'u' && "subw"@[2] == 'b' && "subw"@[3] == 'w');
    if x.len() == 4 && x[0] == 's' && x[1] == 'u' && x[2] == 'b' && x[3] == 'w' {
        assert(x =~= "subw"@);
    }
    reveal_strlit("remuw");
    assert("remuw"@.len() == 5 && "remuw"@[0] == 'r' && "remuw"@[1] == 'e' && "remuw"@[2] == 'm' && "remuw"@[3] == 'u' && "remuw"@[4] == 'w');
    if x.len() == 5 && x[0] == 'r' && x[1] == 'e' && x[2] == 'm' && x[3] == 'u' && x[4] == 'w' {
        assert(x =~= "remuw"@);
    }
    reveal_strlit("mulw");
    assert("mulw"@.len() == 4 && "mulw"@[0] == 'm' && "mulw"@[1] == 'u' && "mulw"@[2] == 'l' && "mulw"@[3] == 'w');
    if x.len() == 4 && x[0] == 'm' && x[1] == 'u' && x[2] == 'l' && x[3] == 'w' {
        assert(x =~= "mulw"@);
    }
    reveal_strlit("div");
    assert("div"@.len() == 3 && "div"@[0] == 'd' && "div"@[1] == 'i' && "div"@[2] == 'v');
    if x.len() == 3 && x[0] == 'd' && x[1] == 'i' && x[2] == 'v' {
        assert(x =~= "div"@);
    }
    reveal_strlit("slt");
    assert("slt"@.len() == 3 && "slt"@[0] == 's' && "slt"@[1] == 'l' && "slt"@[2] == 't');
    if x.len() == 3 && x[0] == 's' && x[1] == 'l' && x[2] == 't' {
        assert(x =~= "slt"@);
    }
    reveal_strlit("sll");
    assert("sll"@.len() == 3 && "sll"@[0] == 's' && "sll"@[1] == 'l' && "sll"@[2] == 'l');
    if x.len() == 3 && x[0] == 's' && x[1] == 'l' && x[2] == 'l' {
        assert(x =~= "sll"@);
    }
    reveal_strlit("sraw");
    assert("sraw"@.len() == 4 && "sraw"@[0] == 's' && "sraw"@[1] == 'r' && "sraw"@[2] == 'a' && "sraw"@[3] == 'w');
    if x.len() == 4 && x[0] == 's' && x[1] == 'r' && x[2] == 'a' && x[3] == 'w' {
        assert(x =~= "sraw"@);
    }
    reveal_strlit("fle");
    assert("fle"@.len() == 3 && "fle"@[0] == 'f' && "fle"@[1] == 'l' && "fle"@[2] == 'e');
    if x.len() == 3 && x[0] == 'f' && x[1] == 'l' && x[2] == 'e' {
        assert(x =~= "fle"@);
    }
    reveal_strlit("fmul");
    assert("fmul"@.len() == 4 && "fmul"@[0] == 'f' && "fmul"@[1] == 'm' && "fmul"@[2] == 'u' && "fmul"@[3] == 'l');
    if x.len() == 4 && x[0] == 'f' && x[1] == 'm' && x[2] == 'u' && x[3] == 'l' {
        assert(x =~= "fmul"@);
    }
    reveal_strlit("fdiv");
    assert("fdiv"@.len() == 4 && "fdiv"@[0] == 'f' && "fdiv"@[1] == 'd' && "fdiv"@[2] == 'i' && "fdiv"@[3] == 'v');
    if x.len() == 4 && x[0] == 'f' && x[1] == 'd' && x[2] == 'i' && x[3] == 'v' {
        assert(x =~= "fdiv"@);
    }
    reveal_strlit("flt");
    assert("flt"@.len() == 3 && "flt"@[0] == 'f' && "flt"@[1] == 'l' && "flt"@[2] == 't');
    if x.len() == 3 && x[0] == 'f' && x[1] == 'l' && x[2] == 't' {
        assert(x =~= "flt"@);
    }
    reveal_strlit("fadd");
    assert("fadd"@.len() == 4 && "fadd"@[0] == 'f' && "fadd"@[1] == 'a' && "fadd"@[2] == 'd' && "fadd"@[3] == 'd');
    if x.len() == 4 && x[0] == 'f' && x[1] == 'a' && x[2] == 'd' && x[3] == 'd' {
        assert(x =~= "fadd"@);
    }
    reveal_strlit("fsub");
    assert("fsub"@.len() == 4 && "fsub"@[0] == 'f' && "fsub"@[1] == 's' && "fsub"@[2] == 'u' && "fsub"@[3] == 'b');
    if x.len() == 4 && x[0] == 'f' && x[1] == 's' && x[2] == 'u' && x[3] == 'b' {
        assert(x =~= "fsub"@);
    }
    reveal_strlit("bnez");
    assert("bnez"@.len() == 4 && "bnez"@[0] == 'b' && "bnez"@[1] == 'n' && "bnez"@[2] == 'e' && "bnez"@[3] == 'z');
    if x.len() == 4 && x[0] == 'b' && x[1] == 'n' && x[2] == 'e' && x[3] == 'z' {
        assert(x =~= "bnez"@);
    }
    reveal_strlit("beqz");
    assert("beqz"@.len() == 4 && "beqz"@[0] == 'b' && "beqz"@[1] == 'e' && "beqz"@[2] == 'q' && "beqz"@[3] == 'z');
    if x.len() == 4 && x[0] == 'b' && x[1] == 'e' && x[2] == 'q' && x[3] == 'z' {
        assert(x =~= "beqz"@);
    }
    reveal_strlit("jr");
    assert("jr"@.len() == 2 && "jr"@[0] == 'j' && "jr"@[1] == 'r');
    if x.len() == 2 && x[0] == 'j' && x[1] == 'r' {
        assert(x =~= "jr"@);
    }
    reveal_strlit("blez");
    assert("blez"@.len() == 4 && "blez"@[0] == 'b' && "blez"@[1] == 'l' && "blez"@[2] == 'e' && "blez"@[3] == 'z');
    if x.len() == 4 && x[0] == 'b' && x[1] == 'l' && x[2] == 'e' && x[3] == 'z' {
        assert(x =~= "blez"@);
    }
    reveal_strlit("bltz");
    assert("bltz"@.len() == 4 && "bltz"@[0] == 'b' && "bltz"@[1] == 'l' && "bltz"@[2] == 't' && "bltz"@[3] == 'z');
    if x.len() == 4 && x[0] == 'b' && x[1] == 'l' && x[2] == 't' && x[3] == 'z' {
        assert(x =~= "bltz"@);
    }
    reveal_strlit("bgtz");
    assert("bgtz"@.len() == 4 && "bgtz"@[0] == 'b' && "bgtz"@[1] == 'g' && "bgtz"@[2] == 't' && "bgtz"@[3] == 'z');
    if x.len() == 4 && x[0] == 'b' && x[1] == 'g' && x[2] == 't' && x[3] == 'z' {
        assert(x =~= "bgtz"@);
    }
    reveal_strlit("bgez");
    assert("bgez"@.len() == 4 && "bgez"@[0] == 'b' && "bgez"@[1] == 'g' && "bgez"@[2] == 'e' && "bgez"@[3] == 'z');
    if x.len() == 4 && x[0] == 'b' && x[1] == 'g' && x[2] == 'e' && x[3] == 'z' {
        assert(x =~= "bgez"@);
    }
    reveal_strlit("bleu");
    assert("bleu"@.len() == 4 && "bleu"@[0] == 'b' && "bleu"@[1] == 'l' && "bleu"@[2] == 'e' && "bleu"@[3] == 'u');
    if x.len() == 4 && x[0] == 'b' && x[1] == 'l' && x[2] == 'e' && x[3] == 'u' {
        assert(x =~= "bleu"@);
    }
    reveal_strlit("bne");
    assert("bne"@.len() == 3 && "bne"@[0] == 'b' && "bne"@[1] == 'n' && "bne"@[2] == 'e');
    if x.len() == 3 && x[0] == 'b' && x[1] == 'n' && x[2] == 'e' {
        assert(x =~= "bne"@);
    }
    reveal_strlit("bgtu");
    assert("bgtu"@.len() == 4 && "bgtu"@[0] == 'b' && "bgtu"@[1] == 'g' && "bgtu"@[2] == 't' && "bgtu"@[3] == 'u');
    if x.len() == 4 && x[0] == 'b' && x[1] == 'g' && x[2] == 't' && x[3] == 'u' {
        assert(x =~= "bgtu"@);
    }
    reveal_strlit("beq");
    assert("beq"@.len() == 3 && "beq"@[0] == 'b' && "beq"@[1] == 'e' && "beq"@[2] == 'q');
    if x.len() == 3 && x[0] == 'b' && x[1] == 'e' && x[2] == 'q' {
        assert(x =~= "beq"@);
    }
    reveal_strlit("ble");
    assert("ble"@.len() == 3 && "ble"@[0] == 'b' && "ble"@[1] == 'l' && "ble"@[2] == 'e');
    if x.len() == 3 && x[0] == 'b' && x[1] == 'l' && x[2] == 'e' {
        assert(x =~= "ble"@);
    }
    reveal_strlit("bgt");
    assert("bgt"@.len() == 3 && "bgt"@[0] == 'b' && "bgt"@[1] == 'g' && "bgt"@[2] == 't');
    if x.len() == 3 && x[0] == 'b' && x[1] == 'g' && x[2] == 't' {
        assert(x =~= "bgt"@);
    }
    reveal_strlit("lui");
    assert("lui"@.len() == 3 && "lui"@[0] == 'l' && "lui"@[1] == 'u' && "lui"@[2] == 'i');
    if x.len() == 3 && x[0] == 'l' && x[1] == 'u' && x[2] == 'i' {
        assert(x =~= "lui"@);
    }
    reveal_strlit("frrm");
    assert("frrm"@.len() == 4 && "frrm"@[0] == 'f' && "frrm"@[1] == 'r' && "frrm"@[2] == 'r' && "frrm"@[3] == 'm');
    if x.len() == 4 && x[0] == 'f' && x[1] == 'r' && x[2] == 'r' && x[3] == 'm' {
        assert(x =~= "frrm"@);
    }
    reveal_strlit("frflags");
    assert("frflags"@.len() == 7 && "frflags"@[0] == 'f' && "frflags"@[1] == 'r' && "frflags"@[2] == 'f' && "frflags"@[3] == 'l' && "frflags"@[4] == 'a' && "frflags"@[5] == 'g' && "frflags"@[6] == 's');
    if x.len() == 7 && x[0] == 'f' && x[1] == 'r' && x[2] == 'f' && x[3] == 'l' && x[4] == 'a' && x[5] == 'g' && x[6] == 's' {
        assert(x =~= "frflags"@);
    }
    reveal_strlit("fsflags");
    assert("fsflags"@.len() == 7 && "fsflags"@[0] == 'f' && "fsflags"@[1] == 's' && "fsflags"@[2] == 'f' && "fsflags"@[3] == 'l' && "fsflags"@[4] == 'a' && "fsflags"@[5] == 'g' && "fsflags"@[6] == 's');
    if x.len() == 7 && x[0] == 'f' && x[1] == 's' && x[2] == 'f' && x[3] == 'l' && x[4] == 'a' && x[5] == 'g' && x[6] == 's' {
        assert(x =~= "fsflags"@);
    }
    reveal_strlit("j");
    assert("j"@.len() == 1 && "j"@[0] == 'j');
    if x.len() == 1 && x[0] == 'j' {
        assert(x =~= "j"@);
    }
    reveal_strlit("amoswap");
    assert("amoswap"@.len() == 7 && "amoswap"@[0] == 'a' && "amoswap"@[1] == 'm' && "amoswap"@[2] == 'o' && "amoswap"@[3] == 's' && "amoswap"@[4] == 'w' && "amoswap"@[5] == 'a' && "amoswap"@[6] == 'p');
    if x.len() == 7 && x[0] == 'a' && x[1] == 'm' && x[2] == 'o' && x[3] == 's' && x[4] == 'w' && x[5] == 'a' && x[6] == 'p' {
        assert(x =~= "amoswap"@);
    }
    reveal_strlit("sc");
    assert("sc"@.len() == 2 && "sc"@[0] == 's' && "sc"@[1] == 'c');
    if x.len() == 2 && x[0] == 's' && x[1] == 'c' {
        assert(x =~= "sc"@);
    }
    reveal_strlit("amoadd");
    assert("amoadd"@.len() == 6 && "amoadd"@[0] == 'a' && "amoadd"@[1] == 'm' && "amoadd"@[2] == 'o' && "amoadd"@[3] == 'a' && "amoadd"@[4] == 'd' && "amoadd"@[5] == 'd');
    if x.len() == 6 && x[0] == 'a' && x[1] == 'm' && x[2] == 'o' && x[3] == 'a' && x[4] == 'd' && x[5] == 'd' {
        assert(x =~= "amoadd"@);
    }
    reveal_strlit("amomaxu");
    assert("amomaxu"@.len() == 7 && "amomaxu"@[0] == 'a' && "amomaxu"@[1] == 'm' && "amomaxu"@[2] == 'o' && "amomaxu"@[3] == 'm' && "amomaxu"@[4] == 'a' && "amomaxu"@[5] == 'x' && "amomaxu"@[6] == 'u');
    if x.len() == 7 && x[0] == 'a' && x[1] == 'm' && x[2] == 'o' && x[3] == 'm' && x[4] == 'a' && x[5] == 'x' && x[6] == 'u' {
        assert(x =~= "amomaxu"@);
    }
    reveal_strlit("ret");
    assert("ret"@.len() == 3 && "ret"@[0] == 'r' && "ret"@[1] == 'e' && "ret"@[2] == 't');
    if x.len() == 3 && x[0] == 'r' && x[1] == 'e' && x[2] == 't' {
        assert(x =~= "ret"@);
    }
    reveal_strlit("ecall");
    assert("ecall"@.len() == 5 && "ecall"@[0] == 'e' && "ecall"@[1] == 'c' && "ecall"@[2] == 'a' && "ecall"@[3] == 'l' && "ecall"@[4] == 'l');
    if x.len() == 5 && x[0] == 'e' && x[1] == 'c' && x[2] == 'a' && x[3] == 'l' && x[4] == 'l' {
        assert(x =~= "ecall"@);
    }
    reveal_strlit("fence");
    assert("fence"@.len() == 5 && "fence"@[0] == 'f' && "fence"@[1] == 'e' && "fence"@[2] == 'n' && "fence"@[3] == 'c' && "fence"@[4] == 'e');
    if x.len() == 5 && x[0] == 'f' && x[1] == 'e' && x[2] == 'n' && x[3] == 'c' && x[4] == 'e' {
        assert(x =~= "fence"@);
    }
    reveal_strlit("nop");
    assert("nop"@.len() == 3 && "nop"@[0] == 'n' && "nop"@[1] == 'o' && "nop"@[2] == 'p');
    if x.len() == 3 && x[0] == 'n' && x[1] == 'o' && x[2] == 'p' {
        assert(x =~= "nop"@);
    }
}

/// The translation table: an instruction's code alone decides which of its
/// arguments it reads and which registers it reads and writes, stores to or
/// loads from; an instruction with fewer arguments than its code reads, or
/// whose memory operand has no `(`, is refused, and so is a code the table
/// does not list.
pub proof fn lemma_translation_table(raw: RawView, index: int)
    ensures
        ({
            let a = raw.arguments;
            let pc = "pc"@;
            let r = instruction_of(raw, index);
            &&& raw.inst == "jal"@ ==> r == becomes(
                raw,
                index,
                1,
                seq![pc],
                seq![a[0], pc],
                false,
                false,
            )
            &&& raw.inst == "auipc"@ ==> r == becomes(raw, index, 1, seq![pc], seq![a[0]], false, false)
            &&& register_immediate_code(raw.inst) ==> r == becomes(
                raw,
                index,
                2,
                seq![a[1]],
                seq![a[0]],
                false,
                false,
            )
            &&& load_code(raw.inst) ==> r == becomes_with_base(
                raw,
                index,
                2,
                1,
                seq![],
                seq![a[0]],
                false,
                true,
            )
            &&& raw.inst == "jalr"@ ==> r == becomes(
                raw,
                index,
                2,
                seq![a[1], pc],
                seq![a[0], pc],
                false,
                false,
            )
            &&& store_code(raw.inst) ==> r == becomes_with_base(
                raw,
                index,
                2,
                1,
                seq![a[0]],
                seq![],
                true,
                false,
            )
            &&& three_register_code(raw.inst) ==> r == becomes(
                raw,
                index,
                3,
                seq![a[1], a[2]],
                seq![a[0]],
                false,
                false,
            )
            &&& one_register_branch_code(raw.inst) ==> r == becomes(
                raw,
                index,
                1,
                seq![a[0]],
                seq![pc],
                false,
                false,
            )
            &&& two_register_branch_code(raw.inst) ==> r == becomes(
                raw,
                index,
                2,
                seq![a[0], a[1]],
                seq![pc],
                false,
                false,
            )
            &&& write_only_code(raw.inst) ==> r == becomes(raw, index, 1, seq![], seq![a[0]], false, false)
            &&& raw.inst == "j"@ ==> r == becomes(raw, index, 0, seq![], seq![pc], false, false)
            &&& atomic_code(raw.inst) ==> r == becomes_with_base(
                raw,
                index,
                3,
                2,
                seq![a[1]],
                seq![a[0]],
                true,
                false,
            )
            &&& no_dependency_code(raw.inst) ==> r == becomes(raw, index, 0, seq![], seq![], false, false)
            &&& !known_code(raw.inst) ==> r == Err::<InstructionView, TranslateErrorKind>(
                TranslateErrorKind::UnknownInstruction,
            )
        }),
{
    lemma_spelling(raw.inst);
    reveal_strlit("pc");
    let a = raw.arguments;
    assert(seq![a[0]].push(offset_register(a[1])->0) =~= seq![a[0], offset_register(a[1])->0]);
    assert(seq![a[1]].push(offset_register(a[2])->0) =~= seq![a[1], offset_register(a[2])->0]);
    assert(Seq::<Seq<char>>::empty().push(offset_register(a[1])->0) =~= seq![offset_register(a[1])->0]);
}

} // verus!
