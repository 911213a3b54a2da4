//! Reading an instruction trace. A trace is a sequence of lines of three
//! kinds: `0x<pc> <...> <code>[.<suffix>] [<args,...>]` maps a program counter to an
//! instruction, `Trace <...> <...> <.../<8 bytes><pc>/...>` executes the instruction
//! mapped to a program counter, and `MEM_OP: <...> <addr>` logs the address
//! of the last executed instruction's memory access. Other lines are ignored.
use vstd::prelude::*;
use vstd::string::*;

use crate::models::{clone_opt_string, raw_views, InstructionRaw, RawView};
use crate::text::{
    byte_prefix, byte_suffix, prefix_bytes, split_char, split_on, split_words, str_equals,
    suffix_bytes, views, words,
};

verus! {

/// Why a trace line cannot be read.
#[derive(Debug, Clone, Copy, PartialEq, Eq, Structural)]
pub enum TraceError {
    /// A `0x` line whose first word has no character boundary at byte 10
    /// (or is shorter than 10 bytes), so it holds no program counter.
    BadProgramCounter,
    /// A `0x` line with no instruction code (fewer than three words).
    MissingOpcode,
    /// A `Trace` line with fewer than three words.
    ShortTraceLine,
    /// A `Trace` line with exactly three words, so without its fourth word.
    MissingTraceField,
    /// A `Trace` line whose fourth word has no `/`.
    MissingTracePc,
    /// A `Trace` line whose program counter field has no character boundary
    /// at byte 8 (or is shorter than 8 bytes).
    BadTracePc,
    /// A `Trace` line for a program counter that no earlier line mapped.
    UnmappedPc,
    /// A `MEM_OP:` line before any instruction was executed.
    MemOpBeforeInstruction,
    /// A `MEM_OP:` line with fewer than three words.
    ShortMemOp,
}

/// What has been read of a trace so far: the executed instructions, in
/// order, and the instruction that each program counter maps to.
pub struct ParseState {
    pub instructions: Seq<RawView>,
    pub pc_table: Map<Seq<char>, RawView>,
}

/// The state before the first line.
pub open spec fn initial_parse_state() -> ParseState {
    ParseState { instructions: seq![], pc_table: Map::empty() }
}

/// Reading stops once more than ten instructions have been executed.
pub open spec fn parse_full(s: ParseState) -> bool {
    s.instructions.len() > 10
}

/// The word starts with `0x`.
pub open spec fn hex_prefixed(w: Seq<char>) -> bool {
    w.len() >= 2 && w[0] == '0' && w[1] == 'x'
}

/// The program counter of a mapping line: bytes 2 to 10 of its first word,
/// which starts with the two one-byte characters `0x`.
pub open spec fn mapped_pc(w: Seq<char>) -> Option<Seq<char>> {
    byte_prefix(w.skip(2), 8)
}

/// The program counter of a trace line: its pc field from byte 8 on.
pub open spec fn traced_pc(field: Seq<char>) -> Option<Seq<char>> {
    byte_suffix(field, 8)
}

/// The effect of one line on the state, or why the line cannot be read.
pub open spec fn parse_step(s: ParseState, line: Seq<char>) -> Result<ParseState, TraceError> {
    let w = words(line);
    if w.len() == 0 {
        Ok(s)
    } else if hex_prefixed(w[0]) {
        match mapped_pc(w[0]) {
            None => Err(TraceError::BadProgramCounter),
            Some(pc) => if w.len() <= 2 {
                Err(TraceError::MissingOpcode)
            } else {
                let raw = RawView {
                    inst: split_on(w[2], '.')[0],
                    arguments: if w.len() > 3 {
                        split_on(w[3], ',')
                    } else {
                        seq![]
                    },
                    mem_addr: None,
                };
                Ok(ParseState { instructions: s.instructions, pc_table: s.pc_table.insert(pc, raw) })
            },
        }
    } else if w[0] == "Trace"@ {
        if w.len() < 3 {
            Err(TraceError::ShortTraceLine)
        } else if w.len() == 3 {
            Err(TraceError::MissingTraceField)
        } else {
            let parts = split_on(w[3], '/');
            if parts.len() < 2 {
                Err(TraceError::MissingTracePc)
            } else {
                match traced_pc(parts[1]) {
                    None => Err(TraceError::BadTracePc),
                    Some(k) => if s.pc_table.dom().contains(k) {
                        Ok(
                            ParseState {
                                instructions: s.instructions.push(s.pc_table[k]),
                                pc_table: s.pc_table,
                            },
                        )
                    } else {
                        Err(TraceError::UnmappedPc)
                    },
                }
            }
        }
    } else if w[0] == "MEM_OP:"@ {
        if s.instructions.len() == 0 {
            Err(TraceError::MemOpBeforeInstruction)
        } else if w.len() < 3 {
            Err(TraceError::ShortMemOp)
        } else {
            let last = s.instructions.last();
            Ok(
                ParseState {
                    instructions: s.instructions.update(
                        s.instructions.len() - 1,
                        RawView { inst: last.inst, arguments: last.arguments, mem_addr: Some(w[2]) },
                    ),
                    pc_table: s.pc_table,
                },
            )
        }
    } else {
        Ok(s)
    }
}

/// The instruction that a mapping line whose words are `w` maps its
/// program counter to: the code before the first `.` of its third word, the
/// arguments of its fourth word split at `,`, and no address yet.
pub open spec fn mapped_instruction(w: Seq<Seq<char>>) -> RawView {
    RawView {
        inst: split_on(w[2], '.')[0],
        arguments: if w.len() > 3 {
            split_on(w[3], ',')
        } else {
            seq![]
        },
        mem_addr: None,
    }
}

proof fn lemma_keywords()
    ensures
        !hex_prefixed("Trace"@),
        !hex_prefixed("MEM_OP:"@),
        "Trace"@ != "MEM_OP:"@,
{
    reveal_strlit("Trace");
    reveal_strlit("MEM_OP:");
    assert("Trace"@.len() == 5 && "Trace"@[0] == 'T');
    assert("MEM_OP:"@.len() == 7 && "MEM_OP:"@[0] == 'M');
}

/// What each kind of line does to what has been read, when it can be read:
/// a mapping line changes no executed instruction and maps one program
/// counter; a `Trace` line executes one instruction that the table maps and
/// leaves the table as it was; a `MEM_OP:` line sets the address of the
/// last executed instruction to its third word and changes nothing else;
/// any other line changes nothing.
pub proof fn lemma_line_effects(s: ParseState, line: Seq<char>)
    ensures
        parse_step(s, line) matches Ok(t) ==> {
            let w = words(line);
            if w.len() > 0 && hex_prefixed(w[0]) {
                &&& t.instructions == s.instructions
                &&& exists|pc: Seq<char>|
                    t.pc_table == s.pc_table.insert(pc, mapped_instruction(w))
            } else if w.len() > 0 && w[0] == "Trace"@ {
                &&& t.pc_table == s.pc_table
                &&& exists|pc: Seq<char>|
                    s.pc_table.dom().contains(pc) && t.instructions == s.instructions.push(
                        s.pc_table[pc],
                    )
            } else if w.len() > 0 && w[0] == "MEM_OP:"@ {
                &&& t.pc_table == s.pc_table
                &&& s.instructions.len() > 0
                &&& t.instructions.len() == s.instructions.len()
                &&& forall|i: int|
                    0 <= i < s.instructions.len() - 1 ==> t.instructions[i] == s.instructions[i]
                &&& t.instructions.last() == (RawView {
                    mem_addr: Some(w[2]),
                    ..s.instructions.last()
                })
            } else {
                t == s
            }
        },
{
    lemma_keywords();
    let w = words(line);
    if let Ok(t) = parse_step(s, line) {
        if w.len() > 0 && hex_prefixed(w[0]) {
            let pc = mapped_pc(w[0])->0;
            assert(t.pc_table == s.pc_table.insert(pc, mapped_instruction(w)));
        } else if w.len() > 0 && w[0] == "Trace"@ {
            let pc = traced_pc(split_on(w[3], '/')[1])->0;
            assert(s.pc_table.dom().contains(pc));
        }
    }
}

/// A `Trace` line gives back what the mapping line for its program counter
/// wrote: right after a line maps a program counter, a trace line for that
/// program counter executes the instruction the mapping line describes.
pub proof fn lemma_trace_reads_mapping(s: ParseState, map_line: Seq<char>, trace_line: Seq<char>)
    requires
        parse_step(s, map_line) is Ok,
        words(map_line).len() > 0,
        hex_prefixed(words(map_line)[0]),
        words(trace_line).len() > 3,
        words(trace_line)[0] == "Trace"@,
        split_on(words(trace_line)[3], '/').len() >= 2,
        traced_pc(split_on(words(trace_line)[3], '/')[1]) == mapped_pc(words(map_line)[0]),
    ensures
        parse_step(parse_step(s, map_line)->Ok_0, trace_line) matches Ok(u) && u.instructions
            == s.instructions.push(mapped_instruction(words(map_line))),
{
    lemma_keywords();
}

/// Reads `lines` from state `s` until they run out or the state is full.
pub open spec fn parse_from(s: ParseState, lines: Seq<Seq<char>>) -> Result<Seq<RawView>, TraceError>
    decreases lines.len(),
{
    if lines.len() == 0 || parse_full(s) {
        Ok(s.instructions)
    } else {
        match parse_step(s, lines[0]) {
            Err(e) => Err(e),
            Ok(t) => parse_from(t, lines.drop_first()),
        }
    }
}

/// The executed instructions of a trace, or why it cannot be read.
pub open spec fn trace_instructions(lines: Seq<Seq<char>>) -> Result<Seq<RawView>, TraceError> {
    parse_from(initial_parse_state(), lines)
}

/// The program counter table of a list of entries, later entries shadowing
/// earlier ones.
pub open spec fn table_map(t: Seq<(String, InstructionRaw)>) -> Map<Seq<char>, RawView>
    decreases t.len(),
{
    if t.len() == 0 {
        Map::empty()
    } else {
        table_map(t.drop_last()).insert(t.last().0@, t.last().1@)
    }
}

/// A trace reader that takes one line at a time.
pub struct TraceParser {
    instructions: Vec<InstructionRaw>,
    pc_table: Vec<(String, InstructionRaw)>,
}

impl View for TraceParser {
    type V = ParseState;

    closed spec fn view(&self) -> ParseState {
        ParseState { instructions: raw_views(self.instructions@), pc_table: table_map(self.pc_table@) }
    }
}

impl TraceParser {
    /// A reader that has read nothing.
    pub fn new() -> (r: Self)
        ensures
            r@ == initial_parse_state(),
    {
        let r = TraceParser { instructions: Vec::new(), pc_table: Vec::new() };
        assert(r@.instructions =~= Seq::<RawView>::empty());
        r
    }

    /// Whether the reader has executed more than ten instructions and takes
    /// no more lines.
    pub fn is_full(&self) -> (r: bool)
        ensures
            r == parse_full(self@),
    {
        self.instructions.len() > 10
    }

    fn lookup(&self, key: &str) -> (r: Option<InstructionRaw>)
        ensures
            match r {
                Some(x) => self@.pc_table.dom().contains(key@) && self@.pc_table[key@] == x@,
                None => !self@.pc_table.dom().contains(key@),
            },
    {
        let ghost t = self.pc_table@;
        let mut j = self.pc_table.len();
        assert(t.take(j as int) =~= t);
        while j > 0
            invariant
                j <= t.len(),
                t == self.pc_table@,
                table_map(t).dom().contains(key@) == table_map(t.take(j as int)).dom().contains(
                    key@,
                ),
                table_map(t).dom().contains(key@) ==> table_map(t)[key@] == table_map(
                    t.take(j as int),
                )[key@],
            decreases j,
        {
            assert(t.take(j as int).drop_last() =~= t.take(j - 1));
            assert(t.take(j as int).last() == t[j - 1]);
            j -= 1;
            if str_equals(self.pc_table[j].0.as_str(), key) {
                return Some(self.pc_table[j].1.clone());
            }
        }
        None
    }

    /// Reads one line of a trace. A line that cannot be read (an unmapped
    /// program counter, a `MEM_OP:` line before any instruction, a line too
    /// short for its kind) is a fatal fault of the trace: it gives an error
    /// and leaves the reader as it was, rather than panicking; the program
    /// stops on that error.
    pub fn feed_line(&mut self, line: &str) -> (r: Result<(), TraceError>)
        ensures
            match parse_step(old(self)@, line@) {
                Ok(t) => r is Ok && final(self)@ == t,
                Err(e) => r == Err::<(), TraceError>(e) && final(self)@ == old(self)@,
            },
    {
        let w = split_words(line);
        let ghost wv = views(w@);
        if w.len() == 0 {
            return Ok(());
        }
        let w0 = w[0].as_str();
        let n0 = w0.unicode_len();
        if n0 >= 2 && w0.get_char(0) == '0' && w0.get_char(1) == 'x' {
            let rest = w0.substring_char(2, n0);
            assert(rest@ =~= wv[0].skip(2));
            let pc = match prefix_bytes(rest, 8) {
                Some(p) => p,
                None => {
                    return Err(TraceError::BadProgramCounter);
                },
            };
            if w.len() <= 2 {
                return Err(TraceError::MissingOpcode);
            }
            let inst_parts = split_char(w[2].as_str(), '.');
            let arguments = if w.len() > 3 {
                split_char(w[3].as_str(), ',')
            } else {
                let v: Vec<String> = Vec::new();
                assert(views(v@) =~= Seq::<Seq<char>>::empty());
                v
            };
            let raw = InstructionRaw { inst: inst_parts[0].clone(), arguments, mem_addr: None };
            let ghost before = self.pc_table@;
            self.pc_table.push((pc, raw));
            assert(self.pc_table@.drop_last() =~= before);
            Ok(())
        } else if str_equals(w0, "Trace") {
            if w.len() < 3 {
                return Err(TraceError::ShortTraceLine);
            }
            if w.len() == 3 {
                return Err(TraceError::MissingTraceField);
            }
            let parts = split_char(w[3].as_str(), '/');
            if parts.len() < 2 {
                return Err(TraceError::MissingTracePc);
            }
            let key = match suffix_bytes(parts[1].as_str(), 8) {
                Some(k) => k,
                None => {
                    return Err(TraceError::BadTracePc);
                },
            };
            match self.lookup(key.as_str()) {
                Some(inst) => {
                    let ghost before = raw_views(self.instructions@);
                    self.instructions.push(inst);
                    assert(raw_views(self.instructions@) =~= before.push(inst@));
                    Ok(())
                },
                None => Err(TraceError::UnmappedPc),
            }
        } else if str_equals(w0, "MEM_OP:") {
            if self.instructions.len() == 0 {
                return Err(TraceError::MemOpBeforeInstruction);
            }
            if w.len() < 3 {
                return Err(TraceError::ShortMemOp);
            }
            let ghost before = raw_views(self.instructions@);
            let mut recent = self.instructions.pop().unwrap();
            recent.mem_addr = Some(w[2].clone());
            self.instructions.push(recent);
            assert(raw_views(self.instructions@) =~= before.update(
                before.len() - 1,
                RawView {
                    inst: before.last().inst,
                    arguments: before.last().arguments,
                    mem_addr: Some(wv[2]),
                },
            ));
            Ok(())
        } else {
            Ok(())
        }
    }

    /// The instructions executed so far, in order.
    pub fn into_instructions(self) -> (r: Vec<InstructionRaw>)
        ensures
            raw_views(r@) == self@.instructions,
    {
        self.instructions
    }
}

/// Reads the lines of a trace until they run out or more than ten
/// instructions have been executed, and returns the executed instructions.
/// The first line that cannot be read gives its error instead of a panic.
pub fn parse_lines(lines: &Vec<String>) -> (r: Result<Vec<InstructionRaw>, TraceError>)
    ensures
        match trace_instructions(views(lines@)) {
            Ok(v) => r matches Ok(x) && raw_views(x@) == v,
            Err(e) => r == Err::<Vec<InstructionRaw>, TraceError>(e),
        },
        r matches Ok(x) ==> x@.len() <= 11,
{
    let ghost lv = views(lines@);
    proof {
        lemma_parse_reads_at_most_eleven(initial_parse_state(), lv);
    }
    let mut parser = TraceParser::new();
    let mut i: usize = 0;
    assert(lv.skip(0) =~= lv);
    while i < lines.len()
        invariant
            i <= lines@.len(),
            lv == views(lines@),
            trace_instructions(lv) == parse_from(parser@, lv.skip(i as int)),
        ensures
            trace_instructions(lv) == Ok::<Seq<RawView>, TraceError>(parser@.instructions),
        decreases lines.len() - i,
    {
        assert(lv.skip(i as int).drop_first() =~= lv.skip(i + 1));
        assert(lv.skip(i as int)[0] == lines@[i as int]@);
        if parser.is_full() {
            break;
        }
        let step = parser.feed_line(lines[i].as_str());
        if let Err(e) = step {
            return Err(e);
        }
        i += 1;
        proof {
            if i == lines.len() {
                assert(lv.skip(i as int) =~= Seq::<Seq<char>>::empty());
            }
        }
    }
    Ok(parser.into_instructions())
}

/// At most eleven instructions are read: reading stops as soon as more than
/// ten have been executed, and a line executes at most one.
pub proof fn lemma_parse_reads_at_most_eleven(s: ParseState, lines: Seq<Seq<char>>)
    requires
        s.instructions.len() <= 11,
    ensures
        parse_from(s, lines) matches Ok(v) ==> v.len() <= 11,
    decreases lines.len(),
{
    if lines.len() > 0 && !parse_full(s) {
        if let Ok(t) = parse_step(s, lines[0]) {
            lemma_parse_reads_at_most_eleven(t, lines.drop_first());
        }
    }
}

/// A line that the reader skips: blank, or with a first word that neither
/// starts with `0x` nor is `Trace` or `MEM_OP:`.
pub open spec fn skipped_line(line: Seq<char>) -> bool {
    let w = words(line);
    w.len() == 0 || (!hex_prefixed(w[0]) && w[0] != "Trace"@ && w[0] != "MEM_OP:"@)
}

/// Inserting a skipped line anywhere into the lines still to be read changes
/// nothing: the same instructions come out, or the same error.
pub proof fn lemma_skipped_line_changes_nothing(
    s: ParseState,
    lines: Seq<Seq<char>>,
    i: int,
    line: Seq<char>,
)
    requires
        0 <= i <= lines.len(),
        skipped_line(line),
    ensures
        parse_from(s, lines.insert(i, line)) == parse_from(s, lines),
    decreases i,
{
    let longer = lines.insert(i, line);
    assert(parse_step(s, line) == Ok::<ParseState, TraceError>(s));
    if i == 0 {
        assert(longer[0] == line);
        assert(longer.drop_first() =~= lines);
    } else {
        assert(longer[0] == lines[0]);
        assert(longer.drop_first() =~= lines.drop_first().insert(i - 1, line));
        if !parse_full(s) {
            if let Ok(t) = parse_step(s, lines[0]) {
                lemma_skipped_line_changes_nothing(t, lines.drop_first(), i - 1, line);
            }
        }
    }
}

/// Hence a whole trace reads the same with or without a skipped line.
pub proof fn lemma_trace_ignores_skipped_line(lines: Seq<Seq<char>>, i: int, line: Seq<char>)
    requires
        0 <= i <= lines.len(),
        skipped_line(line),
    ensures
        trace_instructions(lines.insert(i, line)) == trace_instructions(lines),
{
    lemma_skipped_line_changes_nothing(initial_parse_state(), lines, i, line);
}

} // verus!
