//! Gate-level sequential elements: a flip-flop, a register with a load gate,
//! a counter with prioritized reset / load / increment controls, and a
//! 32K-word memory. These model the Hack chips directly: every control input
//! only stages the next value, and `tick` commits it.

use crate::gates::mux16;
use vstd::prelude::*;

verus! {

/// A flip-flop: `set_input` stages a value, `tick` commits it.
#[derive(Clone, Copy)]
pub struct Dff {
    pub input: u16,
    pub output: u16,
}

impl Dff {
    pub fn new() -> (r: Self)
        ensures
            r.input == 0,
            r.output == 0,
    {
        Dff { input: 0x0000, output: 0x0000 }
    }

    pub fn set_input(&mut self, value: u16)
        ensures
            final(self).input == value,
            final(self).output == old(self).output,
    {
        self.input = value;
    }

    pub fn get_output(&self) -> (r: u16)
        ensures
            r == self.output,
    {
        self.output
    }

    pub fn tick(&mut self)
        ensures
            final(self).input == old(self).input,
            final(self).output == old(self).input,
    {
        self.output = self.input;
    }
}

/// A 16-bit register with a load gate: when `load` is clear, the write is
/// ignored and the register restages its current output.
#[derive(Clone, Copy)]
pub struct Register16 {
    pub dff: Dff,
}

/// What one `set_input` call stages.
pub open spec fn reg_next(r: Register16, input: u16, load: bool) -> Register16 {
    Register16 {
        dff: Dff {
            input: if load {
                input
            } else {
                r.dff.output
            },
            output: r.dff.output,
        },
    }
}

/// What one `tick` call commits.
pub open spec fn reg_commit(r: Register16) -> Register16 {
    Register16 { dff: Dff { input: r.dff.input, output: r.dff.input } }
}

impl Register16 {
    pub open spec fn staged(&self) -> u16 {
        self.dff.input
    }

    pub open spec fn value(&self) -> u16 {
        self.dff.output
    }

    pub fn new() -> (r: Self)
        ensures
            r.staged() == 0,
            r.value() == 0,
    {
        Register16 { dff: Dff::new() }
    }

    pub fn set_input(&mut self, input: u16, load: bool)
        ensures
            *final(self) == reg_next(*old(self), input, load),
    {
        let cur = self.dff.get_output();
        self.dff.set_input(mux16(input, cur, load));
    }

    pub fn get_output(&self) -> (r: u16)
        ensures
            r == self.value(),
    {
        self.dff.get_output()
    }

    pub fn tick(&mut self)
        ensures
            *final(self) == reg_commit(*old(self)),
    {
        self.dff.tick();
    }
}

/// A register that answers `set(v, true); tick()` with `v` and leaves its
/// value untouched when the write was not loaded: the load gate decides, the
/// clock only commits.
pub proof fn lemma_register_load_gate(r: Register16, v: u16)
    ensures
        reg_commit(reg_next(r, v, true)).value() == v,
        reg_commit(reg_next(r, v, false)).value() == r.value(),
{
}

/// A 16-bit counter under three prioritized controls: reset beats load beats
/// increment; with none asserted the staged value is left as it is.
#[derive(Clone, Copy)]
pub struct Counter16 {
    pub dff: Dff,
}

/// What one `set_input` call stages: the highest-priority asserted control
/// decides the next value.
pub open spec fn ctr_next(c: Counter16, input: u16, reset: bool, load: bool, inc: bool) -> Counter16 {
    Counter16 {
        dff: Dff {
            input: if reset {
                0u16
            } else if load {
                input
            } else if inc {
                ((c.dff.output + 1) % 0x10000) as u16
            } else {
                c.dff.input
            },
            output: c.dff.output,
        },
    }
}

/// What one `tick` call commits.
pub open spec fn ctr_commit(c: Counter16) -> Counter16 {
    Counter16 { dff: Dff { input: c.dff.input, output: c.dff.input } }
}

impl Counter16 {
    pub open spec fn staged(&self) -> u16 {
        self.dff.input
    }

    pub open spec fn value(&self) -> u16 {
        self.dff.output
    }

    pub fn new() -> (r: Self)
        ensures
            r.staged() == 0,
            r.value() == 0,
    {
        Counter16 { dff: Dff::new() }
    }

    pub fn set_input(&mut self, input: u16, reset: bool, load: bool, inc: bool)
        ensures
            *final(self) == ctr_next(*old(self), input, reset, load, inc),
    {
        if reset {
            self.dff.set_input(0x0);
        } else if load {
            self.dff.set_input(input);
        } else if inc {
            let next = crate::gates::inc16(self.dff.get_output());
            self.dff.set_input(next);
        }
    }

    pub fn get_output(&self) -> (r: u16)
        ensures
            r == self.value(),
    {
        self.dff.get_output()
    }

    pub fn tick(&mut self)
        ensures
            *final(self) == ctr_commit(*old(self)),
    {
        self.dff.tick();
    }
}

/// The control priority of the counter: with reset, load and increment all
/// asserted at once, reset wins; with load and increment asserted, load wins;
/// increment alone counts up; with nothing asserted the staged value stays.
pub proof fn lemma_counter_priority(c: Counter16, v: u16)
    ensures
        ctr_next(c, v, true, true, true).staged() == 0,
        ctr_next(c, v, false, true, true).staged() == v,
        ctr_next(c, v, false, false, true).staged() == (c.value() + 1) % 0x10000,
        ctr_next(c, v, false, false, false).staged() == c.staged(),
{
}

/// A 32K-word memory: one load-gated register per address, all committed by
/// one `tick`.
pub struct Ram32K {
    pub registers: Vec<Register16>,
}

impl Ram32K {
    pub open spec fn wf(&self) -> bool {
        self.registers.len() == 32768
    }

    /// The staged word of every cell.
    pub open spec fn staged(&self) -> Seq<u16> {
        self.registers@.map_values(|r: Register16| r.staged())
    }

    /// The committed word of every cell.
    pub open spec fn committed(&self) -> Seq<u16> {
        self.registers@.map_values(|r: Register16| r.value())
    }

    pub fn new() -> (r: Self)
        ensures
            r.wf(),
            r.staged() == Seq::new(32768, |i: int| 0u16),
            r.committed() == Seq::new(32768, |i: int| 0u16),
    {
        let mut registers: Vec<Register16> = Vec::new();
        for i in 0..32768
            invariant
                registers.len() == i,
                forall|j: int|
                    0 <= j < i ==> (#[trigger] registers@[j]).staged() == 0 && registers@[j].value()
                        == 0,
        {
            registers.push(Register16::new());
        }
        let r = Ram32K { registers };
        proof {
            assert(r.staged() =~= Seq::new(32768, |i: int| 0u16));
            assert(r.committed() =~= Seq::new(32768, |i: int| 0u16));
        }
        r
    }

    pub fn get(&self, address: usize) -> (r: u16)
        requires
            self.wf(),
            address < 32768,
        ensures
            r == self.committed()[address as int],
    {
        self.registers[address].get_output()
    }

    pub fn set(&mut self, address: usize, value: u16)
        requires
            old(self).wf(),
            address < 32768,
        ensures
            final(self).wf(),
            final(self).staged() == old(self).staged().update(address as int, value),
            final(self).committed() == old(self).committed(),
    {
        let out = self.registers[address].get_output();
        self.registers[address] = Register16 { dff: Dff { input: value, output: out } };
        proof {
            assert(self.staged() =~= old(self).staged().update(address as int, value));
            assert(self.committed() =~= old(self).committed());
        }
    }

    pub fn tick(&mut self)
        requires
            old(self).wf(),
        ensures
            final(self).wf(),
            final(self).staged() == old(self).staged(),
            final(self).committed() == old(self).staged(),
    {
        let ghost init = self.registers@;
        let n = self.registers.len();
        for i in 0..n
            invariant
                self.registers.len() == n,
                init.len() == n,
                forall|j: int| i <= j < n ==> #[trigger] self.registers@[j] == init[j],
                forall|j: int|
                    0 <= j < i ==> (#[trigger] self.registers@[j]).staged() == init[j].staged()
                        && self.registers@[j].value() == init[j].staged(),
        {
            let cell = self.registers[i];
            self.registers[i] = Register16 {
                dff: Dff { input: cell.dff.input, output: cell.dff.input },
            };
        }
        proof {
            assert(self.staged() =~= old(self).staged());
            assert(self.committed() =~= old(self).staged());
        }
    }
}

} // verus!
