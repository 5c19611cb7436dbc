//! A tiny CPU: sixteen registers, a call stack, and a four-operation
//! instruction set (halt, return, add-with-carry, call).
//!
//! The fetch/decode/execute loop terminates: between calls the program
//! counter only moves forward, a call stores the return address above the
//! current stack level, and a return restores exactly what was stored — a
//! lexicographic measure over the stack levels captures this.

use vstd::prelude::*;

verus! {

/// A bound larger than any program counter value a step can produce (the
/// counter is checked against the memory size, and stored return addresses
/// are sixteen-bit).
pub const LEVEL_BOUND: usize = 70000;

/// The CPU: registers, program counter, memory, and the call stack.
pub struct Cpu {
    /// R15 doubles as the carry flag.
    pub registers: [u8; 16],
    /// Memory address of the next instruction.
    pub program_counter: usize,
    pub memory: [u8; 4096],
    /// Stored return addresses.
    pub stack: [u16; 16],
    pub stack_pointer: usize,
}

/// The termination measure of one stack level: how much forward progress
/// the level still has before it.  Levels below the stack pointer hold their
/// stored return address; the current level runs the program counter; levels
/// above are spent.
pub open spec fn level_measure(cpu: Cpu, i: int) -> int {
    if i < cpu.stack_pointer {
        LEVEL_BOUND - cpu.stack@[i]
    } else if i == cpu.stack_pointer {
        LEVEL_BOUND - cpu.program_counter
    } else {
        0
    }
}

/// The big-endian opcode at the program counter.
pub open spec fn fetched(cpu: Cpu) -> int
    recommends
        cpu.program_counter + 1 < 4096,
{
    cpu.memory@[cpu.program_counter as int] * 256 + cpu.memory@[cpu.program_counter + 1]
}

/// Whether the CPU implements the opcode: halt, return, add-with-carry, or
/// call.
pub open spec fn known_opcode(op: int) -> bool {
    ||| op == 0
    ||| op == 0xEE
    ||| (op / 4096 == 8 && op % 16 == 4)
    ||| op / 4096 == 2
}

/// Whether the fetch/decode/execute loop stops in this state: the counter
/// leaves no room for an opcode, the opcode is halt or one the CPU does not
/// implement, a return finds the stack empty, or a call finds it full.
pub open spec fn cpu_stops(cpu: Cpu) -> bool {
    ||| cpu.program_counter >= 4095
    ||| fetched(cpu) == 0
    ||| !known_opcode(fetched(cpu))
    ||| (fetched(cpu) == 0xEE && cpu.stack_pointer == 0)
    ||| (fetched(cpu) / 4096 == 2 && cpu.stack_pointer >= 16)
}

/// One fetch/decode/execute step, from a state where the loop goes on: the
/// counter advances past the opcode, and the operation it names is applied —
/// a return pops the stored address, an add updates the register and the
/// carry flag, a call stores the advanced counter and jumps.
pub open spec fn cpu_step(pre: Cpu, post: Cpu) -> bool {
    let op = fetched(pre);
    let x = op / 256 % 16;
    let y = op / 16 % 16;
    let pc2 = pre.program_counter + 2;
    &&& !cpu_stops(pre)
    &&& post.memory@ == pre.memory@
    &&& if op == 0xEE {
        &&& post.registers@ == pre.registers@
        &&& post.stack@ == pre.stack@
        &&& post.stack_pointer == pre.stack_pointer - 1
        &&& post.program_counter == pre.stack@[pre.stack_pointer - 1]
    } else if op / 4096 == 8 {
        let a = pre.registers@[x];
        let b = pre.registers@[y];
        let carry: u8 = if a + b > 255 {
            1u8
        } else {
            0u8
        };
        &&& post.registers@ == pre.registers@.update(x, ((a + b) % 256) as u8).update(15, carry)
        &&& post.stack@ == pre.stack@
        &&& post.stack_pointer == pre.stack_pointer
        &&& post.program_counter == pc2
    } else {
        &&& post.registers@ == pre.registers@
        &&& post.stack@ == pre.stack@.update(pre.stack_pointer as int, pc2 as u16)
        &&& post.stack_pointer == pre.stack_pointer + 1
        &&& post.program_counter == op % 4096
    }
}

/// Reached from `pre` in exactly `n` steps.
pub open spec fn cpu_reaches(pre: Cpu, post: Cpu, n: nat) -> bool
    decreases n,
{
    if n == 0 {
        post == pre
    } else {
        exists|mid: Cpu| #[trigger] cpu_step(pre, mid) && cpu_reaches(mid, post, (n - 1) as nat)
    }
}

/// A reachable state followed by one more step is reachable.
proof fn lemma_reaches_snoc(a: Cpu, b: Cpu, c: Cpu, n: nat)
    requires
        cpu_reaches(a, b, n),
        cpu_step(b, c),
    ensures
        cpu_reaches(a, c, n + 1),
    decreases n,
{
    if n == 0 {
        assert(cpu_step(a, c));
        assert(cpu_reaches(c, c, 0));
    } else {
        let mid = choose|mid: Cpu|
            #[trigger] cpu_step(a, mid) && cpu_reaches(mid, b, (n - 1) as nat);
        lemma_reaches_snoc(mid, b, c, (n - 1) as nat);
        assert(cpu_step(a, mid) && cpu_reaches(mid, c, n));
    }
}

/// How the state the caller sees relates to the state in which the loop
/// noticed it must stop: the counter had already advanced past the fetched
/// opcode, except when the counter itself left no room for one.
pub open spec fn cpu_stopped_state(head: Cpu, fin: Cpu) -> bool {
    &&& fin.registers@ == head.registers@
    &&& fin.memory@ == head.memory@
    &&& fin.stack@ == head.stack@
    &&& fin.stack_pointer == head.stack_pointer
    &&& fin.program_counter == if head.program_counter >= 4095 {
        head.program_counter as int
    } else {
        head.program_counter + 2
    }
}

impl Cpu {
    /// Reads the sixteen-bit big-endian opcode at the program counter.
    pub fn read_opcode(&self) -> (op: u16)
        requires
            self.program_counter + 1 < 4096,
        ensures
            op == self.memory@[self.program_counter as int] * 256 + self.memory@[
                self.program_counter + 1
            ],
    {
        let high_byte = self.memory[self.program_counter] as u16;
        let low_byte = self.memory[self.program_counter + 1] as u16;
        let op = (high_byte << 8) | low_byte;
        proof {
            let h = high_byte;
            let l = low_byte;
            assert(h < 256 && l < 256);
            assert((h << 8) | l == h * 256 + l) by (bit_vector)
                requires
                    h < 256 && l < 256,
            ;
        }
        op
    }

    /// Adds register `y` into register `x` modulo 256, recording in R15
    /// whether the sum overflowed.
    pub fn add_xy(&mut self, x: u8, y: u8)
        requires
            x < 16,
            y < 16,
        ensures
            ({
                let a = old(self).registers@[x as int];
                let b = old(self).registers@[y as int];
                let carry: u8 = if a + b > 255 {
                    1u8
                } else {
                    0u8
                };
                final(self).registers@ == old(self).registers@.update(
                    x as int,
                    ((a + b) % 256) as u8,
                ).update(15, carry)
            }),
            final(self).program_counter == old(self).program_counter,
            final(self).memory@ == old(self).memory@,
            final(self).stack@ == old(self).stack@,
            final(self).stack_pointer == old(self).stack_pointer,
    {
        let a = self.registers[x as usize];
        let b = self.registers[y as usize];

        let sum: u16 = a as u16 + b as u16;
        let v: u8 = (sum % 256) as u8;

        self.registers[x as usize] = v;

        if sum > 255 {
            self.registers[0xF] = 1;
        } else {
            self.registers[0xF] = 0;
        }
    }

    /// Calls the routine at `addr`: stores the current program counter on
    /// the stack and jumps.  A full stack cannot take another return
    /// address, so it is excluded here.
    pub fn call(&mut self, addr: u16)
        requires
            old(self).stack_pointer < 16,
            old(self).program_counter <= u16::MAX,
        ensures
            final(self).stack@ == old(self).stack@.update(
                old(self).stack_pointer as int,
                old(self).program_counter as u16,
            ),
            final(self).stack_pointer == old(self).stack_pointer + 1,
            final(self).program_counter == addr,
            final(self).registers@ == old(self).registers@,
            final(self).memory@ == old(self).memory@,
    {
        self.stack[self.stack_pointer] = self.program_counter as u16;
        self.stack_pointer = self.stack_pointer + 1;
        self.program_counter = addr as usize;
    }

    /// Returns from a routine: pops the stored address back into the
    /// program counter.  An empty stack has nothing to pop, so it is
    /// excluded here.
    pub fn ret(&mut self)
        requires
            1 <= old(self).stack_pointer <= 16,
        ensures
            final(self).stack_pointer == old(self).stack_pointer - 1,
            final(self).program_counter == old(self).stack@[old(self).stack_pointer - 1],
            final(self).registers@ == old(self).registers@,
            final(self).memory@ == old(self).memory@,
            final(self).stack@ == old(self).stack@,
    {
        self.stack_pointer = self.stack_pointer - 1;
        let addr = self.stack[self.stack_pointer];
        self.program_counter = addr as usize;
    }

    /// The fetch/decode/execute loop: repeatedly fetches the big-endian
    /// opcode at the counter, advances the counter past it, and applies the
    /// operation — exactly the [`cpu_step`] relation.  It returns in, and
    /// only in, a [`cpu_stops`] state: on the halt opcode, and wherever
    /// execution cannot continue — an opcode this CPU does not implement, a
    /// counter outside memory, a call on a full stack, or a return on an
    /// empty one.  Memory is never written, and the stack pointer stays in
    /// bounds.
    pub fn run(&mut self)
        requires
            old(self).stack_pointer <= 16,
        ensures
            final(self).stack_pointer <= 16,
            final(self).memory@ == old(self).memory@,
            exists|head: Cpu, n: nat|
                {
                    &&& #[trigger] cpu_reaches(*old(self), head, n)
                    &&& cpu_stops(head)
                    &&& cpu_stopped_state(head, *final(self))
                },
    {
        let ghost mut steps: nat = 0;
        loop
            invariant
                self.stack_pointer <= 16,
                self.memory@ == old(self).memory@,
                cpu_reaches(*old(self), *self, steps),
            decreases
                level_measure(*self, 0),
                level_measure(*self, 1),
                level_measure(*self, 2),
                level_measure(*self, 3),
                level_measure(*self, 4),
                level_measure(*self, 5),
                level_measure(*self, 6),
                level_measure(*self, 7),
                level_measure(*self, 8),
                level_measure(*self, 9),
                level_measure(*self, 10),
                level_measure(*self, 11),
                level_measure(*self, 12),
                level_measure(*self, 13),
                level_measure(*self, 14),
                level_measure(*self, 15),
                level_measure(*self, 16),
        {
            let ghost head = *self;
            if self.program_counter >= 4095 {
                // No room for an opcode at the counter.
                proof {
                    assert(cpu_stops(head));
                    assert(cpu_stopped_state(head, *self));
                }
                return ;
            }
            let opcode = self.read_opcode();

            // Every instruction is two bytes.
            self.program_counter = self.program_counter + 2;

            // Decode the four nibbles.
            let c = ((opcode & 0xF000) >> 12) as u8;
            let x = ((opcode & 0x0F00) >> 8) as u8;
            let y = ((opcode & 0x00F0) >> 4) as u8;
            let d = (opcode & 0x000F) as u8;

            let nnn = opcode & 0x0FFF;

            proof {
                let op = opcode;
                // The bitwise decode agrees with the arithmetic one the
                // step relation is written in.
                assert(((op & 0xF000) >> 12) < 16 && ((op & 0x0F00) >> 8) < 16 && ((op & 0x00F0)
                    >> 4) < 16 && (op & 0x000F) < 16 && ((op & 0xF000) >> 12) == op / 4096 && ((op
                    & 0x0F00) >> 8) == (op / 256) % 16 && ((op & 0x00F0) >> 4) == (op / 16) % 16
                    && (op & 0x000F) == op % 16 && (op & 0x0FFF) == op % 4096) by (bit_vector);
                assert((((op & 0xF000) >> 12 == 0 && (op & 0x0F00) >> 8 == 0 && (op & 0x00F0) >> 4
                    == 0 && (op & 0x000F) == 0) <==> op == 0) && (((op & 0xF000) >> 12 == 0 && (op
                    & 0x0F00) >> 8 == 0 && (op & 0x00F0) >> 4 == 0xE && (op & 0x000F) == 0xE)
                    <==> op == 0xEE)) by (bit_vector);
                assert(fetched(head) == op);
            }

            match (c, x, y, d) {
                (0, 0, 0, 0) => {
                    // Halt.
                    proof {
                        assert(fetched(head) == 0);
                        assert(cpu_stops(head));
                        assert(cpu_stopped_state(head, *self));
                    }
                    return ;
                },
                (0, 0, 0xE, 0xE) => {
                    if self.stack_pointer == 0 {
                        // Return with an empty stack: nothing to pop.
                        proof {
                            assert(fetched(head) == 0xEE);
                            assert(cpu_stops(head));
                            assert(cpu_stopped_state(head, *self));
                        }
                        return ;
                    }
                    self.ret();
                    proof {
                        assert(fetched(head) == 0xEE);
                        assert(cpu_step(head, *self));
                        lemma_reaches_snoc(*old(self), head, *self, steps);
                        steps = steps + 1;
                    }
                },
                (0x8, _, _, 0x4) => {
                    self.add_xy(x, y);
                    proof {
                        assert(fetched(head) / 4096 == 8 && fetched(head) % 16 == 4);
                        assert(cpu_step(head, *self));
                        lemma_reaches_snoc(*old(self), head, *self, steps);
                        steps = steps + 1;
                    }
                },
                (0x2, _, _, _) => {
                    if self.stack_pointer >= 16 {
                        // Call with a full stack: no room for the return
                        // address.
                        proof {
                            assert(fetched(head) / 4096 == 2);
                            assert(cpu_stops(head));
                            assert(cpu_stopped_state(head, *self));
                        }
                        return ;
                    }
                    self.call(nnn);
                    proof {
                        assert(fetched(head) / 4096 == 2);
                        assert(cpu_step(head, *self));
                        lemma_reaches_snoc(*old(self), head, *self, steps);
                        steps = steps + 1;
                    }
                },
                _ => {
                    // An opcode this CPU does not implement.
                    proof {
                        assert(!known_opcode(fetched(head)));
                        assert(cpu_stops(head));
                        assert(cpu_stopped_state(head, *self));
                    }
                    return ;
                },
            }
        }
    }
}

} // verus!
