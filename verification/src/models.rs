//! The instruction records that flow from the trace reader through the
//! dependency step into the pipeline simulator, and their mathematical views.
use vstd::prelude::*;

use crate::text::views;

verus! {

/// The character view of an optional string.
pub open spec fn opt_view(o: Option<String>) -> Option<Seq<char>> {
    match o {
        Some(s) => Some(s@),
        None => None,
    }
}

/// Clones an optional string, keeping its characters.
pub fn clone_opt_string(o: &Option<String>) -> (r: Option<String>)
    ensures
        opt_view(r) == opt_view(*o),
{
    match o {
        Some(s) => Some(s.clone()),
        None => None,
    }
}

/// Clones a list of strings, keeping their characters.
pub fn clone_strings(v: &Vec<String>) -> (r: Vec<String>)
    ensures
        views(r@) == views(v@),
{
    let r = v.clone();
    assert(r@ =~= v@);
    r
}

/// An instruction as taken directly from the trace.
#[derive(Debug)]
pub struct InstructionRaw {
    /// The instruction code (its mnemonic, without any `.` suffix).
    pub inst: String,
    /// The instruction arguments.
    pub arguments: Vec<String>,
    /// For a memory instruction, the address it touched, once the trace logs it.
    pub mem_addr: Option<String>,
}

/// What an `InstructionRaw` holds, as plain sequences of characters.
pub struct RawView {
    pub inst: Seq<char>,
    pub arguments: Seq<Seq<char>>,
    pub mem_addr: Option<Seq<char>>,
}

impl View for InstructionRaw {
    type V = RawView;

    open spec fn view(&self) -> RawView {
        RawView { inst: self.inst@, arguments: views(self.arguments@), mem_addr: opt_view(self.mem_addr) }
    }
}

impl Clone for InstructionRaw {
    fn clone(&self) -> (r: Self)
        ensures
            r@ == self@,
    {
        InstructionRaw {
            inst: self.inst.clone(),
            arguments: clone_strings(&self.arguments),
            mem_addr: clone_opt_string(&self.mem_addr),
        }
    }
}

/// The views of a list of raw instructions.
pub open spec fn raw_views(v: Seq<InstructionRaw>) -> Seq<RawView> {
    v.map_values(|x: InstructionRaw| x@)
}

/// An instruction with the registers it reads and writes and the memory
/// access it makes.
#[derive(Debug)]
pub struct Instruction {
    pub reg_read_dep: Vec<String>,
    pub reg_write_dep: Vec<String>,
    pub mem_store: bool,
    pub mem_load: bool,
    pub mem_addr: Option<String>,
    /// The unique key of the instruction: its position in the trace.
    pub key: i32,
    /// The key of the instruction that last blocked this one, or -1.
    pub shortcut_dep: i32,
}

/// What an `Instruction` holds, as plain values.
pub struct InstructionView {
    pub reg_read_dep: Seq<Seq<char>>,
    pub reg_write_dep: Seq<Seq<char>>,
    pub mem_store: bool,
    pub mem_load: bool,
    pub mem_addr: Option<Seq<char>>,
    pub key: i32,
    pub shortcut_dep: i32,
}

impl View for Instruction {
    type V = InstructionView;

    open spec fn view(&self) -> InstructionView {
        InstructionView {
            reg_read_dep: views(self.reg_read_dep@),
            reg_write_dep: views(self.reg_write_dep@),
            mem_store: self.mem_store,
            mem_load: self.mem_load,
            mem_addr: opt_view(self.mem_addr),
            key: self.key,
            shortcut_dep: self.shortcut_dep,
        }
    }
}

impl Clone for Instruction {
    fn clone(&self) -> (r: Self)
        ensures
            r@ == self@,
    {
        Instruction {
            reg_read_dep: clone_strings(&self.reg_read_dep),
            reg_write_dep: clone_strings(&self.reg_write_dep),
            mem_store: self.mem_store,
            mem_load: self.mem_load,
            mem_addr: clone_opt_string(&self.mem_addr),
            key: self.key,
            shortcut_dep: self.shortcut_dep,
        }
    }
}

/// The views of a list of instructions.
pub open spec fn instr_views(v: Seq<Instruction>) -> Seq<InstructionView> {
    v.map_values(|x: Instruction| x@)
}

/// The instructions held by the three stages of the pipeline window.
#[derive(Debug)]
pub struct Window {
    pub fetch: Vec<Instruction>,
    pub decode: Vec<Instruction>,
    pub execute: Vec<Instruction>,
}

} // verus!
