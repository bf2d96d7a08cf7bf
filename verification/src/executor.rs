//! The end-to-end pipeline: VM commands are translated to assembly, the
//! assembly is assembled to binary words, the words are loaded into the
//! CPU's instruction memory, and the CPU is clocked.

use crate::cpu::{cpu_loaded, cpu_run, rom_words, Cpu, CpuState};
use crate::parser::assembly::{
    cmd_encodable, encode_upto, lemma_encode_upto_wf, lines_ok, parse_lines_rec, resolve_spec,
    Assembler, CmdV,
};
use crate::text::{bin_seq, is_bin16};
use crate::vm::{asm_view, translate_upto, vm_cmd_ok, vm_cmds_view, Stack};
use vstd::prelude::*;

verus! {

/// Whether the stored VM commands can all be translated without a counter
/// overflowing.
pub open spec fn vm_ready(st: Stack) -> bool {
    &&& forall|i: int|
        0 <= i < st.commands@.len() ==> vm_cmd_ok(#[trigger] vm_cmds_view(st.commands@)[i])
    &&& st.counter_eq + st.commands@.len() <= 65535
    &&& st.counter_gt + st.commands@.len() <= 65535
    &&& st.counter_lt + st.commands@.len() <= 65535
}

/// The assembly lines the assembler will see: the buffered lines followed by
/// the translation of every stored command.
pub open spec fn translated_assembly(st: Stack) -> Seq<Seq<char>> {
    asm_view(st.assembly@) + translate_upto(
        vm_cmds_view(st.commands@),
        st.commands@.len() as int,
        st.counter_eq as int,
        st.counter_gt as int,
        st.counter_lt as int,
    ).0
}

/// The commands the assembler parses out of the translated assembly.
pub open spec fn pipeline_commands(e: Executor) -> Seq<CmdV> {
    parse_lines_rec(translated_assembly(e.stack))
}

/// The symbol table after both resolution passes over those commands.
pub open spec fn pipeline_table(e: Executor) -> Map<Seq<char>, u16> {
    resolve_spec(
        e.assembler.symbol_table@,
        pipeline_commands(e),
        e.assembler.next_variable_address as int,
    ).0
}

/// The binary words the assembler emits, with the halt sentinel appended.
pub open spec fn pipeline_binaries(e: Executor) -> Seq<Seq<char>> {
    encode_upto(pipeline_table(e), pipeline_commands(e), pipeline_commands(e).len() as int).push(
        bin_seq(0xFFFFu16),
    )
}

/// The CPU state after the program is loaded: the counter restaged at zero
/// and the words committed at the bottom of the instruction memory.
pub open spec fn pipeline_loaded(e: Executor) -> CpuState {
    cpu_loaded(CpuState { pc_in: 0u16, ..e.cpu@ }, rom_words(pipeline_binaries(e)))
}

/// Whether the whole pipeline goes through: the VM commands translate, the
/// translated assembly parses, the program and its variables fit the address
/// space, and every instruction encodes under the resolved table.
pub open spec fn pipeline_ready(e: Executor) -> bool {
    &&& e.cpu.wf()
    &&& e.assembler.wf()
    &&& vm_ready(e.stack)
    &&& lines_ok(translated_assembly(e.stack))
    &&& pipeline_commands(e).len() <= 32767
    &&& e.assembler.next_variable_address + pipeline_commands(e).len() <= 32768
    &&& forall|i: int|
        0 <= i < pipeline_commands(e).len() ==> cmd_encodable(
            pipeline_table(e),
            #[trigger] pipeline_commands(e)[i],
        )
}

pub struct Executor {
    pub cpu: Cpu,
    pub assembler: Assembler,
    pub stack: Stack,
}

impl Executor {
    pub fn new() -> (r: Self)
        ensures
            r.cpu.wf(),
            r.assembler.wf(),
            r.assembler.symbol_table@ == crate::parser::table::predefined_symbols(),
            r.assembler.next_variable_address == 16,
            r.assembler.commands@.len() == 0,
            r.assembler.binaries@.len() == 0,
            r.stack.commands@.len() == 0,
            r.stack.assembly@.len() == 0,
            r.stack.counter_eq == 0,
            r.stack.counter_gt == 0,
            r.stack.counter_lt == 0,
            r.cpu@ == (CpuState {
                a_in: 0u16,
                a_out: 0u16,
                d_in: 0u16,
                d_out: 0u16,
                pc_in: 0u16,
                pc_out: 0u16,
                data_in: Seq::new(32768, |i: int| 0u16),
                data_out: Seq::new(32768, |i: int| 0u16),
                rom_in: Seq::new(32768, |i: int| 0u16),
                rom_out: Seq::new(32768, |i: int| 0u16),
            }),
    {
        Executor { cpu: Cpu::new(), assembler: Assembler::new(), stack: Stack::new() }
    }

    /// Hands the VM commands to the translator.
    pub fn set_stack(&mut self, commands: Vec<String>)
        ensures
            final(self).stack.commands == commands,
            final(self).stack.assembly == old(self).stack.assembly,
            final(self).stack.counter_eq == old(self).stack.counter_eq,
            final(self).stack.counter_gt == old(self).stack.counter_gt,
            final(self).stack.counter_lt == old(self).stack.counter_lt,
            final(self).cpu == old(self).cpu,
            final(self).assembler == old(self).assembler,
    {
        self.stack.commands = commands;
    }

    /// Runs the whole translation pipeline and loads the program: the VM
    /// commands become assembly, the assembly becomes binary words, the
    /// program counter is restaged at zero and the words are committed into
    /// the instruction memory.
    pub fn assemble_all(&mut self)
        requires
            pipeline_ready(*old(self)),
        ensures
            final(self).cpu.wf(),
            final(self).assembler.wf(),
            asm_view(final(self).stack.assembly@) == translated_assembly(old(self).stack),
            final(self).assembler.symbol_table@ == pipeline_table(*old(self)),
            final(self).assembler.binaries@.map_values(|b: String| b@) == pipeline_binaries(*old(self)),
            final(self).cpu@ == pipeline_loaded(*old(self)),
            final(self).stack.commands == old(self).stack.commands,
    {
        let ghost e0 = *self;
        self.stack.translate_all();
        proof {
            assert(asm_view(self.stack.assembly@) == translated_assembly(e0.stack));
        }
        self.assembler.assemble_lines(&self.stack.assembly);
        self.cpu.reset_pc();
        proof {
            lemma_encode_upto_wf(
                pipeline_table(e0),
                pipeline_commands(e0),
                pipeline_commands(e0).len() as int,
            );
            crate::text::lemma_bin_seq_val(0xFFFFu16);
            let bins = self.assembler.binaries@.map_values(|b: String| b@);
            assert(bins == pipeline_binaries(e0));
            assert forall|i: int| 0 <= i < bins.len() implies crate::cpu::image_line_blank(
                #[trigger] bins[i],
            ) || is_bin16(bins[i]) by {
                if i < bins.len() - 1 {
                    assert(is_bin16(
                        encode_upto(
                            pipeline_table(e0),
                            pipeline_commands(e0),
                            pipeline_commands(e0).len() as int,
                        )[i],
                    ));
                }
            }
            crate::cpu::lemma_rom_words_len(bins);
        }
        self.cpu.load_lines(&self.assembler.binaries);
        proof {
            assert(self.cpu@ =~= pipeline_loaded(e0));
        }
    }

    /// Assembles, loads, and clocks the CPU for up to `cycles` cycles.
    pub fn run(&mut self, cycles: usize)
        requires
            pipeline_ready(*old(self)),
        ensures
            final(self).cpu.wf(),
            final(self).cpu@ == cpu_run(pipeline_loaded(*old(self)), cycles as nat),
    {
        self.assemble_all();
        self.cpu.run(cycles);
    }
}

} // verus!
