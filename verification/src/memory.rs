//! Clocked storage elements with two-stage commit: a flip-flop, a 16-bit
//! register, a counter, a 16K data memory and a 32K instruction memory. A
//! write only stages a value; it becomes observable at the next `tick`.

use vstd::prelude::*;

verus! {

/// A flip-flop: `set_input` stages a value, `tick` commits it, `get_output`
/// reads the last committed value.
#[derive(Clone, Copy)]
pub struct Dff {
    pub input: u16,
    pub output: u16,
}

impl Dff {
    pub fn new() -> (r: Self)
        ensures
            r.input == 0,
            r.output == 0,
    {
        Dff { input: 0x0000, output: 0x0000 }
    }

    pub fn set_input(&mut self, value: u16)
        ensures
            final(self).input == value,
            final(self).output == old(self).output,
    {
        self.input = value;
    }

    pub fn get_output(&self) -> (r: u16)
        ensures
            r == self.output,
    {
        self.output
    }

    pub fn tick(&mut self)
        ensures
            final(self).input == old(self).input,
            final(self).output == old(self).input,
    {
        self.output = self.input;
    }
}

/// A 16-bit register built on a flip-flop.
#[derive(Clone, Copy)]
pub struct Register16 {
    pub dff: Dff,
}

impl Register16 {
    /// The staged value, which the next `tick` commits.
    pub open spec fn staged(&self) -> u16 {
        self.dff.input
    }

    /// The committed value, which `get` observes.
    pub open spec fn value(&self) -> u16 {
        self.dff.output
    }

    pub fn new() -> (r: Self)
        ensures
            r.staged() == 0,
            r.value() == 0,
    {
        Register16 { dff: Dff::new() }
    }

    pub fn set(&mut self, input: u16)
        ensures
            final(self).staged() == input,
            final(self).value() == old(self).value(),
    {
        self.dff.set_input(input);
    }

    pub fn get(&self) -> (r: u16)
        ensures
            r == self.value(),
    {
        self.dff.get_output()
    }

    pub fn tick(&mut self)
        ensures
            final(self).staged() == old(self).staged(),
            final(self).value() == old(self).staged(),
    {
        self.dff.tick();
    }
}

/// A 16-bit counter: a register with explicit set, reset and increment
/// controls, each of which stages the next value.
#[derive(Clone, Copy)]
pub struct Counter16 {
    pub reg: Register16,
}

impl Counter16 {
    pub open spec fn staged(&self) -> u16 {
        self.reg.staged()
    }

    pub open spec fn value(&self) -> u16 {
        self.reg.value()
    }

    pub fn new() -> (r: Self)
        ensures
            r.staged() == 0,
            r.value() == 0,
    {
        Counter16 { reg: Register16::new() }
    }

    pub fn set(&mut self, input: u16)
        ensures
            final(self).staged() == input,
            final(self).value() == old(self).value(),
    {
        self.reg.set(input);
    }

    pub fn reset(&mut self)
        ensures
            final(self).staged() == 0,
            final(self).value() == old(self).value(),
    {
        self.reg.set(0x0);
    }

    pub fn inc(&mut self)
        ensures
            final(self).staged() == (old(self).value() + 1) % 0x10000,
            final(self).value() == old(self).value(),
    {
        let next = self.reg.get().wrapping_add(1);
        self.reg.set(next);
    }

    pub fn get(&self) -> (r: u16)
        ensures
            r == self.value(),
    {
        self.reg.get()
    }

    pub fn tick(&mut self)
        ensures
            final(self).staged() == old(self).staged(),
            final(self).value() == old(self).staged(),
    {
        self.reg.tick();
    }
}

/// A 16K-word data memory: one register per address, all committed by one
/// `tick`.
pub struct Ram16K {
    pub registers: Vec<Register16>,
}

impl Ram16K {
    pub open spec fn wf(&self) -> bool {
        self.registers.len() == 16384
    }

    /// The staged word of every cell.
    pub open spec fn staged(&self) -> Seq<u16> {
        self.registers@.map_values(|r: Register16| r.staged())
    }

    /// The committed word of every cell.
    pub open spec fn committed(&self) -> Seq<u16> {
        self.registers@.map_values(|r: Register16| r.value())
    }

    pub fn new() -> (r: Self)
        ensures
            r.wf(),
            r.staged() == Seq::new(16384, |i: int| 0u16),
            r.committed() == Seq::new(16384, |i: int| 0u16),
    {
        let mut registers: Vec<Register16> = Vec::new();
        for i in 0..16384
            invariant
                registers.len() == i,
                forall|j: int|
                    0 <= j < i ==> (#[trigger] registers@[j]).staged() == 0 && registers@[j].value()
                        == 0,
        {
            registers.push(Register16::new());
        }
        let r = Ram16K { registers };
        proof {
            assert(r.staged() =~= Seq::new(16384, |i: int| 0u16));
            assert(r.committed() =~= Seq::new(16384, |i: int| 0u16));
        }
        r
    }

    pub fn get(&self, address: usize) -> (r: u16)
        requires
            self.wf(),
            address < 16384,
        ensures
            r == self.committed()[address as int],
    {
        self.registers[address].get()
    }

    pub fn set(&mut self, address: usize, value: u16)
        requires
            old(self).wf(),
            address < 16384,
        ensures
            final(self).wf(),
            final(self).staged() == old(self).staged().update(address as int, value),
            final(self).committed() == old(self).committed(),
    {
        let out = self.registers[address].get();
        self.registers[address] = Register16 { dff: Dff { input: value, output: out } };
        proof {
            assert(self.staged() =~= old(self).staged().update(address as int, value));
            assert(self.committed() =~= old(self).committed());
        }
    }

    pub fn tick(&mut self)
        requires
            old(self).wf(),
        ensures
            final(self).wf(),
            final(self).staged() == old(self).staged(),
            final(self).committed() == old(self).staged(),
    {
        let ghost init = self.registers@;
        let n = self.registers.len();
        for i in 0..n
            invariant
                self.registers.len() == n,
                init.len() == n,
                forall|j: int| i <= j < n ==> #[trigger] self.registers@[j] == init[j],
                forall|j: int|
                    0 <= j < i ==> (#[trigger] self.registers@[j]).staged() == init[j].staged()
                        && self.registers@[j].value() == init[j].staged(),
        {
            let cell = self.registers[i];
            self.registers[i] = Register16 {
                dff: Dff { input: cell.dff.input, output: cell.dff.input },
            };
        }
        proof {
            assert(self.staged() =~= old(self).staged());
            assert(self.committed() =~= old(self).staged());
        }
    }
}

/// A 32K-word instruction memory, loaded by staging words and committing them
/// with `tick`; at run time only `get` is used.
pub struct Rom32K {
    pub registers: Vec<Register16>,
}

impl Rom32K {
    pub open spec fn wf(&self) -> bool {
        self.registers.len() == 32768
    }

    pub open spec fn staged(&self) -> Seq<u16> {
        self.registers@.map_values(|r: Register16| r.staged())
    }

    pub open spec fn committed(&self) -> Seq<u16> {
        self.registers@.map_values(|r: Register16| r.value())
    }

    pub fn new() -> (r: Self)
        ensures
            r.wf(),
            r.staged() == Seq::new(32768, |i: int| 0u16),
            r.committed() == Seq::new(32768, |i: int| 0u16),
    {
        let mut registers: Vec<Register16> = Vec::new();
        for i in 0..32768
            invariant
                registers.len() == i,
                forall|j: int|
                    0 <= j < i ==> (#[trigger] registers@[j]).staged() == 0 && registers@[j].value()
                        == 0,
        {
            registers.push(Register16::new());
        }
        let r = Rom32K { registers };
        proof {
            assert(r.staged() =~= Seq::new(32768, |i: int| 0u16));
            assert(r.committed() =~= Seq::new(32768, |i: int| 0u16));
        }
        r
    }

    pub fn set(&mut self, address: usize, value: u16)
        requires
            old(self).wf(),
            address < 32768,
        ensures
            final(self).wf(),
            final(self).staged() == old(self).staged().update(address as int, value),
            final(self).committed() == old(self).committed(),
    {
        let out = self.registers[address].get();
        self.registers[address] = Register16 { dff: Dff { input: value, output: out } };
        proof {
            assert(self.staged() =~= old(self).staged().update(address as int, value));
            assert(self.committed() =~= old(self).committed());
        }
    }

    pub fn get(&self, address: usize) -> (r: u16)
        requires
            self.wf(),
            address < 32768,
        ensures
            r == self.committed()[address as int],
    {
        self.registers[address].get()
    }

    pub fn tick(&mut self)
        requires
            old(self).wf(),
        ensures
            final(self).wf(),
            final(self).staged() == old(self).staged(),
            final(self).committed() == old(self).staged(),
    {
        let ghost init = self.registers@;
        let n = self.registers.len();
        for i in 0..n
            invariant
                self.registers.len() == n,
                init.len() == n,
                forall|j: int| i <= j < n ==> #[trigger] self.registers@[j] == init[j],
                forall|j: int|
                    0 <= j < i ==> (#[trigger] self.registers@[j]).staged() == init[j].staged()
                        && self.registers@[j].value() == init[j].staged(),
        {
            let cell = self.registers[i];
            self.registers[i] = Register16 {
                dff: Dff { input: cell.dff.input, output: cell.dff.input },
            };
        }
        proof {
            assert(self.staged() =~= old(self).staged());
            assert(self.committed() =~= old(self).staged());
        }
    }
}

} // verus!
