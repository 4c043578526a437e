//! A small register machine: 4096 bytes of memory, 16 registers of 32 bits,
//! register 0 doubling as the instruction pointer.
//!
//! Instructions are 4 bytes: an opcode and three operand bytes.  The
//! semantics of one step is given by [`step_spec`], and a whole run by the
//! iterate [`run_state`]; the executable machine is proved to follow them
//! exactly.  Output instructions append to a byte sink instead of printing,
//! so a caller decides where the bytes go.

use vstd::prelude::*;

verus! {

/// Bytes of machine memory.
pub const MEMORY_SIZE: usize = 4096;

/// Number of registers; register 0 is the instruction pointer.
pub const NREGS: usize = 16;

/// The errors an instruction can raise.
#[derive(Clone, Copy, PartialEq, Eq, Structural, Debug)]
pub enum MachineError {
    /// A register index beyond the register file was given to `set_reg`.
    TooBigSize,
    /// An operand named a register the machine does not have.
    BadRegisterName,
    /// Reserved for rejected characters; no instruction raises it.
    InvalidChar,
}

/// Little-endian byte `k` (0 is least significant) of a 32-bit word.
pub open spec fn le_byte(v: u32, k: int) -> u8 {
    if k == 0 {
        ((v as int) % 0x100) as u8
    } else if k == 1 {
        (((v as int) / 0x100) % 0x100) as u8
    } else if k == 2 {
        (((v as int) / 0x10000) % 0x100) as u8
    } else {
        (((v as int) / 0x1000000) % 0x100) as u8
    }
}

/// The 32-bit word read from four little-endian bytes.
pub open spec fn le_word(b0: u8, b1: u8, b2: u8, b3: u8) -> u32 {
    (b0 + 0x100 * (b1 as int) + 0x10000 * (b2 as int) + 0x1000000 * (b3 as int)) as u32
}

/// A 16-bit little-endian immediate, sign-extended to 32 bits.
pub open spec fn sext16(l: u8, h: u8) -> u32 {
    if h < 0x80 {
        ((l as int) + 0x100 * (h as int)) as u32
    } else {
        ((l as int) + 0x100 * (h as int) + 0xFFFF0000) as u32
    }
}

/// 32-bit subtraction, wrapping modulo 2^32.
pub open spec fn wrap_sub(a: u32, b: u32) -> u32 {
    if a >= b {
        ((a as int) - (b as int)) as u32
    } else {
        ((a as int) - (b as int) + 0x1_0000_0000) as u32
    }
}

/// The bytes printed for one machine byte shown as a character: its UTF-8
/// encoding, one byte below 0x80 and two from 0x80 up.
pub open spec fn utf8_of_byte(x: u8) -> Seq<u8> {
    if x < 0x80 {
        seq![x]
    } else {
        seq![(0xC0 + (x as int) / 0x40) as u8, (0x80 + (x as int) % 0x40) as u8]
    }
}

/// The decimal digits of `n`, most significant first, as ASCII bytes.
pub open spec fn decimal_digits(n: nat) -> Seq<u8>
    decreases n,
{
    if n < 10 {
        seq![(0x30 + n) as u8]
    } else {
        decimal_digits(n / 10) + seq![(0x30 + n % 10) as u8]
    }
}

/// What one instruction leaves behind: memory, registers, the bytes it
/// printed, and whether the run goes on (`Ok(false)`), exits (`Ok(true)`)
/// or fails.
pub ghost struct StepOutcome {
    pub mem: Seq<u8>,
    pub reg: Seq<u32>,
    pub out: Seq<u8>,
    pub res: Result<bool, MachineError>,
}

/// The value register `r` holds once the instruction pointer has been
/// advanced past the current instruction.
pub open spec fn reg_after_ip(reg: Seq<u32>, ip: int, r: int) -> int {
    if r == 0 {
        ip + 1
    } else {
        reg[r] as int
    }
}

/// The instruction at the instruction pointer decodes and executes without
/// a machine fault: it lies whole in memory, its opcode is known, and the
/// registers it reads unconditionally, or the addresses it dereferences,
/// are in range.  `step_on` is callable exactly in these states.
pub open spec fn instr_ok(mem: Seq<u8>, reg: Seq<u32>) -> bool {
    let ip = reg[0] as int;
    let op = mem[ip];
    let op1 = mem[ip + 1] as int;
    let op2 = mem[ip + 2] as int;
    let op3 = mem[ip + 3] as int;
    &&& ip + 3 < 4096
    &&& 1 <= op <= 8
    &&& (op == 1 ==> op3 < 16)
    &&& (op == 2 && op1 < 16 && op2 < 16 ==> reg_after_ip(reg, ip, op1) + 3 < 4096)
    &&& (op == 3 && op1 < 16 && op2 < 16 ==> reg_after_ip(reg, ip, op2) + 3 < 4096)
    &&& (op == 6 ==> op1 < 16)
    &&& (op == 8 ==> op1 < 16)
}

/// The semantics of one instruction, from a state where [`instr_ok`]
/// holds: the instruction pointer moves past the instruction, then the
/// opcode acts.  Outside [`instr_ok`] the value is left unconstrained;
/// every caller requires [`instr_ok`].
pub open spec fn step_spec(mem: Seq<u8>, reg: Seq<u32>) -> StepOutcome {
    let ip = reg[0] as int;
    let reg1 = reg.update(0, (ip + 1) as u32);
    let op = mem[ip];
    let op1 = mem[ip + 1] as int;
    let op2 = mem[ip + 2] as int;
    let op3 = mem[ip + 3] as int;
    if op == 1 {
        // moveif: copy op2 into op1 when op3 is nonzero
        if reg1[op3] == 0 {
            StepOutcome { mem, reg: reg1, out: Seq::empty(), res: Ok(false) }
        } else if op1 < 16 && op2 < 16 {
            StepOutcome {
                mem,
                reg: reg1.update(op1, reg1[op2]),
                out: Seq::empty(),
                res: Ok(false),
            }
        } else {
            StepOutcome {
                mem,
                reg: reg1,
                out: Seq::empty(),
                res: Err(MachineError::BadRegisterName),
            }
        }
    } else if op == 2 {
        // store: the word in op2 goes to the address in op1
        if op1 < 16 && op2 < 16 {
            let adr = reg1[op1] as int;
            let v = reg1[op2];
            StepOutcome {
                mem: mem.update(adr, le_byte(v, 0)).update(adr + 1, le_byte(v, 1)).update(
                    adr + 2,
                    le_byte(v, 2),
                ).update(adr + 3, le_byte(v, 3)),
                reg: reg1,
                out: Seq::empty(),
                res: Ok(false),
            }
        } else {
            StepOutcome {
                mem,
                reg: reg1,
                out: Seq::empty(),
                res: Err(MachineError::BadRegisterName),
            }
        }
    } else if op == 3 {
        // load: the word at the address in op2 goes to op1
        if op1 < 16 && op2 < 16 {
            let adr = reg1[op2] as int;
            let v = le_word(mem[adr], mem[adr + 1], mem[adr + 2], mem[adr + 3]);
            StepOutcome { mem, reg: reg1.update(op1, v), out: Seq::empty(), res: Ok(false) }
        } else {
            StepOutcome {
                mem,
                reg: reg1,
                out: Seq::empty(),
                res: Err(MachineError::BadRegisterName),
            }
        }
    } else if op == 4 {
        // loadimm: a sign-extended 16-bit immediate goes to op1
        if op1 < 16 {
            StepOutcome {
                mem,
                reg: reg1.update(op1, sext16(mem[ip + 2], mem[ip + 3])),
                out: Seq::empty(),
                res: Ok(false),
            }
        } else {
            StepOutcome {
                mem,
                reg: reg1,
                out: Seq::empty(),
                res: Err(MachineError::BadRegisterName),
            }
        }
    } else if op == 5 {
        // sub: op2 minus op3, wrapping, goes to op1
        if op1 < 16 && op2 < 16 && op3 < 16 {
            StepOutcome {
                mem,
                reg: reg1.update(op1, wrap_sub(reg1[op2], reg1[op3])),
                out: Seq::empty(),
                res: Ok(false),
            }
        } else {
            StepOutcome {
                mem,
                reg: reg1,
                out: Seq::empty(),
                res: Err(MachineError::BadRegisterName),
            }
        }
    } else if op == 6 {
        // out: the low byte of op1, shown as a character
        StepOutcome {
            mem,
            reg: reg1,
            out: utf8_of_byte(((reg1[op1] as int) % 0x100) as u8),
            res: Ok(false),
        }
    } else if op == 7 {
        // exit
        StepOutcome { mem, reg: reg1, out: Seq::empty(), res: Ok(true) }
    } else if op == 8 {
        // out number: op1 in decimal
        StepOutcome { mem, reg: reg1, out: decimal_digits(reg1[op1] as nat), res: Ok(false) }
    } else {
        arbitrary()
    }
}

/// The state of a run after `k` instructions: memory, registers, all the
/// bytes printed so far, and whether the run has stopped — and how.  Once
/// stopped, the state no longer moves.
pub ghost struct ExecState {
    pub mem: Seq<u8>,
    pub reg: Seq<u32>,
    pub out: Seq<u8>,
    pub halted: Option<Result<(), MachineError>>,
}

pub open spec fn run_state(mem0: Seq<u8>, reg0: Seq<u32>, k: nat) -> ExecState
    decreases k,
{
    if k == 0 {
        ExecState { mem: mem0, reg: reg0, out: Seq::empty(), halted: None }
    } else {
        let prev = run_state(mem0, reg0, (k - 1) as nat);
        if prev.halted is Some {
            prev
        } else {
            let s = step_spec(prev.mem, prev.reg);
            ExecState {
                mem: s.mem,
                reg: s.reg,
                out: prev.out + s.out,
                halted: match s.res {
                    Ok(true) => Some(Ok(())),
                    Ok(false) => None,
                    Err(e) => Some(Err(e)),
                },
            }
        }
    }
}

/// Every state the run passes through while still running decodes safely:
/// the machine never faults.
pub open spec fn run_safe(mem0: Seq<u8>, reg0: Seq<u32>) -> bool {
    forall|k: nat|
        (#[trigger] run_state(mem0, reg0, k)).halted is None ==> instr_ok(
            run_state(mem0, reg0, k).mem,
            run_state(mem0, reg0, k).reg,
        )
}

/// The run eventually stops, by an exit instruction or an error.
pub open spec fn run_halts(mem0: Seq<u8>, reg0: Seq<u32>) -> bool {
    exists|k: nat| (#[trigger] run_state(mem0, reg0, k)).halted is Some
}

/// Once stopped, a run stays exactly where it stopped.
pub proof fn lemma_halt_stable(mem0: Seq<u8>, reg0: Seq<u32>, j: nat, k: nat)
    requires
        j <= k,
        run_state(mem0, reg0, j).halted is Some,
    ensures
        run_state(mem0, reg0, k) == run_state(mem0, reg0, j),
    decreases k,
{
    if k > j {
        lemma_halt_stable(mem0, reg0, j, (k - 1) as nat);
    }
}

/// The machine in its reset state holds the loaded program at the start of
/// memory, zeros elsewhere, and zeroed registers.
pub struct Machine {
    mem: Vec<u8>,
    reg: Vec<u32>,
}

impl Machine {
    /// The machine's memory, as a mathematical sequence.
    pub closed spec fn mem_spec(&self) -> Seq<u8> {
        self.mem@
    }

    /// The machine's registers, as a mathematical sequence.
    pub closed spec fn regs_spec(&self) -> Seq<u32> {
        self.reg@
    }

    /// Well-formed: full memory and a full register file.
    pub open spec fn wf(&self) -> bool {
        self.mem_spec().len() == 4096 && self.regs_spec().len() == 16
    }

    /// Create a new machine in its reset state.  `memory` is copied to the
    /// beginning of the machine memory; the rest, and every register, is
    /// zero.  A program larger than the machine memory is a caller error.
    pub fn new(memory: &[u8]) -> (m: Machine)
        requires
            memory@.len() <= 4096,
        ensures
            m.wf(),
            forall|i: int| 0 <= i < memory@.len() ==> m.mem_spec()[i] == memory@[i],
            forall|i: int| memory@.len() <= i < 4096 ==> m.mem_spec()[i] == 0u8,
            forall|i: int| 0 <= i < 16 ==> m.regs_spec()[i] == 0u32,
    {
        let mut mem: Vec<u8> = Vec::new();
        let mut i: usize = 0;
        while i < MEMORY_SIZE
            invariant
                i <= 4096,
                mem@.len() == i,
                forall|j: int| 0 <= j < i ==> mem@[j] == 0u8,
            decreases 4096 - i,
        {
            mem.push(0);
            i = i + 1;
        }
        let mut i: usize = 0;
        while i < memory.len()
            invariant
                memory@.len() <= 4096,
                i <= memory@.len(),
                mem@.len() == 4096,
                forall|j: int| 0 <= j < i ==> mem@[j] == memory@[j],
                forall|j: int| i <= j < 4096 ==> mem@[j] == 0u8,
            decreases memory@.len() - i,
        {
            mem.set(i, memory[i]);
            i = i + 1;
        }
        let mut reg: Vec<u32> = Vec::new();
        let mut i: usize = 0;
        while i < NREGS
            invariant
                i <= 16,
                reg@.len() == i,
                forall|j: int| 0 <= j < i ==> reg@[j] == 0u32,
            decreases 16 - i,
        {
            reg.push(0);
            i = i + 1;
        }
        Machine { mem, reg }
    }

    /// Reference onto the machine's current set of registers.
    pub fn regs(&self) -> (r: &[u32])
        ensures
            r@ == self.regs_spec(),
    {
        self.reg.as_slice()
    }

    /// Reference onto the machine's current memory.
    pub fn memory(&self) -> (r: &[u8])
        ensures
            r@ == self.mem_spec(),
    {
        self.mem.as_slice()
    }

    /// Set a register to the given value.  Register indices above the
    /// register file are rejected with `TooBigSize`; the boundary index
    /// itself is a caller error.
    pub fn set_reg(&mut self, reg: usize, value: u32) -> (r: Result<(), MachineError>)
        requires
            old(self).wf(),
            reg != 16,
        ensures
            final(self).wf(),
            final(self).mem_spec() == old(self).mem_spec(),
            reg < 16 ==> r == Ok::<(), MachineError>(()) && final(self).regs_spec() == old(self).regs_spec().update(reg as int, value),
            reg > 16 ==> r == Err::<(), MachineError>(MachineError::TooBigSize) && final(self).regs_spec() == old(self).regs_spec(),
    {
        if reg > NREGS {
            return Err(MachineError::TooBigSize);
        }
        self.reg.set(reg, value);
        Ok(())
    }

    /// Copy register `reg2` into register `reg1`, but only when register
    /// `reg3` holds a nonzero value; a no-op otherwise.  The condition
    /// register is read unconditionally, so it must exist; the other two
    /// are checked and rejected with `BadRegisterName`.
    pub fn moveif(&mut self, reg1: usize, reg2: usize, reg3: usize) -> (r: Result<
        bool,
        MachineError,
    >)
        requires
            old(self).wf(),
            reg3 < 16,
        ensures
            final(self).wf(),
            final(self).mem_spec() == old(self).mem_spec(),
            ({
                let regs = old(self).regs_spec();
                if regs[reg3 as int] == 0 {
                    r == Ok::<bool, MachineError>(false) && final(self).regs_spec() == regs
                } else if reg1 < 16 && reg2 < 16 {
                    r == Ok::<bool, MachineError>(false) && final(self).regs_spec() == regs.update(
                        reg1 as int,
                        regs[reg2 as int],
                    )
                } else {
                    r == Err::<bool, MachineError>(MachineError::BadRegisterName) && final(self).regs_spec() == regs
                }
            }),
    {
        let cond = self.reg[reg3];
        if cond != 0 {
            if reg1 < 16 && reg2 < 16 {
                let v = self.reg[reg2];
                self.set_reg(reg1, v).unwrap();
                Ok(false)
            } else {
                Err(MachineError::BadRegisterName)
            }
        } else {
            Ok(false)
        }
    }

    /// Store the word in register `reg2` at the address held in register
    /// `reg1`, little endian.  Bad register names are rejected; a store
    /// reaching past the end of memory is a caller error.
    pub fn store(&mut self, reg1: usize, reg2: usize) -> (r: Result<bool, MachineError>)
        requires
            old(self).wf(),
            reg1 < 16 && reg2 < 16 ==> old(self).regs_spec()[reg1 as int] + 3 < 4096,
        ensures
            final(self).wf(),
            final(self).regs_spec() == old(self).regs_spec(),
            ({
                let regs = old(self).regs_spec();
                let mem = old(self).mem_spec();
                if reg1 < 16 && reg2 < 16 {
                    let adr = regs[reg1 as int] as int;
                    let v = regs[reg2 as int];
                    r == Ok::<bool, MachineError>(false) && final(self).mem_spec() == mem.update(
                        adr,
                        le_byte(v, 0),
                    ).update(adr + 1, le_byte(v, 1)).update(adr + 2, le_byte(v, 2)).update(
                        adr + 3,
                        le_byte(v, 3),
                    )
                } else {
                    r == Err::<bool, MachineError>(MachineError::BadRegisterName) && final(self).mem_spec() == mem
                }
            }),
    {
        if reg1 < 16 && reg2 < 16 {
            let value = self.reg[reg2];
            let adr = self.reg[reg1] as usize;
            self.mem.set(adr, (value % 0x100) as u8);
            self.mem.set(adr + 1, ((value / 0x100) % 0x100) as u8);
            self.mem.set(adr + 2, ((value / 0x10000) % 0x100) as u8);
            self.mem.set(adr + 3, ((value / 0x1000000) % 0x100) as u8);
            Ok(false)
        } else {
            Err(MachineError::BadRegisterName)
        }
    }

    /// Load into register `reg1` the little-endian word at the address
    /// held in register `reg2`.  Bad register names are rejected; a load
    /// reaching past the end of memory is a caller error.
    pub fn load(&mut self, reg1: usize, reg2: usize) -> (r: Result<bool, MachineError>)
        requires
            old(self).wf(),
            reg1 < 16 && reg2 < 16 ==> old(self).regs_spec()[reg2 as int] + 3 < 4096,
        ensures
            final(self).wf(),
            final(self).mem_spec() == old(self).mem_spec(),
            ({
                let regs = old(self).regs_spec();
                let mem = old(self).mem_spec();
                if reg1 < 16 && reg2 < 16 {
                    let adr = regs[reg2 as int] as int;
                    r == Ok::<bool, MachineError>(false) && final(self).regs_spec() == regs.update(
                        reg1 as int,
                        le_word(mem[adr], mem[adr + 1], mem[adr + 2], mem[adr + 3]),
                    )
                } else {
                    r == Err::<bool, MachineError>(MachineError::BadRegisterName) && final(self).regs_spec() == regs
                }
            }),
    {
        if reg1 < 16 && reg2 < 16 {
            let adr = self.reg[reg2] as usize;
            let b0 = self.mem[adr];
            let b1 = self.mem[adr + 1];
            let b2 = self.mem[adr + 2];
            let b3 = self.mem[adr + 3];
            let value: u32 = (b0 as u32) + 0x100 * (b1 as u32) + 0x10000 * (b2 as u32) + 0x1000000
                * (b3 as u32);
            self.set_reg(reg1, value).unwrap();
            Ok(false)
        } else {
            Err(MachineError::BadRegisterName)
        }
    }

    /// Load a 16-bit little-endian immediate, sign-extended, into register
    /// `reg1`.  A bad register name is rejected.
    pub fn loadimm(&mut self, reg1: usize, l: u8, h: u8) -> (r: Result<bool, MachineError>)
        requires
            old(self).wf(),
        ensures
            final(self).wf(),
            final(self).mem_spec() == old(self).mem_spec(),
            ({
                let regs = old(self).regs_spec();
                if reg1 < 16 {
                    r == Ok::<bool, MachineError>(false) && final(self).regs_spec() == regs.update(
                        reg1 as int,
                        sext16(l, h),
                    )
                } else {
                    r == Err::<bool, MachineError>(MachineError::BadRegisterName) && final(self).regs_spec() == regs
                }
            }),
    {
        if reg1 < 16 {
            let low: u32 = (l as u32) + 0x100 * (h as u32);
            let value: u32 = if h >= 0x80 {
                low + 0xFFFF0000
            } else {
                low
            };
            self.set_reg(reg1, value).unwrap();
            Ok(false)
        } else {
            Err(MachineError::BadRegisterName)
        }
    }

    /// Subtract register `op2` from register `op1`, wrapping modulo 2^32,
    /// into register `dest`.  Bad register names are rejected.
    pub fn sub(&mut self, dest: usize, op1: usize, op2: usize) -> (r: Result<bool, MachineError>)
        requires
            old(self).wf(),
        ensures
            final(self).wf(),
            final(self).mem_spec() == old(self).mem_spec(),
            ({
                let regs = old(self).regs_spec();
                if dest < 16 && op1 < 16 && op2 < 16 {
                    r == Ok::<bool, MachineError>(false) && final(self).regs_spec() == regs.update(
                        dest as int,
                        wrap_sub(regs[op1 as int], regs[op2 as int]),
                    )
                } else {
                    r == Err::<bool, MachineError>(MachineError::BadRegisterName) && final(self).regs_spec() == regs
                }
            }),
    {
        if op1 < 16 && op2 < 16 && dest < 16 {
            let a = self.reg[op1];
            let b = self.reg[op2];
            let result = a.wrapping_sub(b);
            proof {
                assert(result == wrap_sub(a, b));
            }
            self.set_reg(dest, result).unwrap();
            Ok(false)
        } else {
            Err(MachineError::BadRegisterName)
        }
    }

    /// Execute the next instruction: decode at the instruction pointer
    /// (register 0), advance the pointer past the instruction, execute.
    /// Output instructions append to `fd`.  Returns `Ok(true)` when the
    /// program exits, `Ok(false)` when it continues, and an error when the
    /// instruction raises one.  Callable exactly in states where the
    /// instruction decodes and executes without a machine fault.
    pub fn step_on(&mut self, fd: &mut Vec<u8>) -> (r: Result<bool, MachineError>)
        requires
            old(self).wf(),
            instr_ok(old(self).mem_spec(), old(self).regs_spec()),
        ensures
            final(self).wf(),
            ({
                let s = step_spec(old(self).mem_spec(), old(self).regs_spec());
                &&& final(self).mem_spec() == s.mem
                &&& final(self).regs_spec() == s.reg
                &&& final(fd)@ == old(fd)@ + s.out
                &&& r == s.res
            }),
    {
        let ip = self.reg[0];
        let ipz = ip as usize;
        self.set_reg(0, ip + 1).unwrap();
        let op = self.mem[ipz];
        let op1 = self.mem[ipz + 1];
        let op2 = self.mem[ipz + 2];
        let op3 = self.mem[ipz + 3];
        proof {
            assert(old(fd)@ + Seq::<u8>::empty() =~= old(fd)@);
        }
        if op == 1 {
            self.moveif(op1 as usize, op2 as usize, op3 as usize)
        } else if op == 2 {
            self.store(op1 as usize, op2 as usize)
        } else if op == 3 {
            self.load(op1 as usize, op2 as usize)
        } else if op == 4 {
            self.loadimm(op1 as usize, op2, op3)
        } else if op == 5 {
            self.sub(op1 as usize, op2 as usize, op3 as usize)
        } else if op == 6 {
            let content = self.reg[op1 as usize];
            write_char_byte(fd, (content % 0x100) as u8);
            Ok(false)
        } else if op == 7 {
            Ok(true)
        } else {
            let content = self.reg[op1 as usize];
            write_decimal(fd, content);
            Ok(false)
        }
    }

    /// Run until the program exits or an instruction raises an error,
    /// appending any output to `fd`.  Callable when the run never faults
    /// and eventually stops; the result, the final state and the output
    /// are exactly those of the stopped iterate.
    pub fn run_on(&mut self, fd: &mut Vec<u8>) -> (r: Result<(), MachineError>)
        requires
            old(self).wf(),
            run_safe(old(self).mem_spec(), old(self).regs_spec()),
            run_halts(old(self).mem_spec(), old(self).regs_spec()),
        ensures
            final(self).wf(),
            exists|k: nat|
                {
                    let s = #[trigger] run_state(old(self).mem_spec(), old(self).regs_spec(), k);
                    &&& s.halted == Some(r)
                    &&& final(self).mem_spec() == s.mem
                    &&& final(self).regs_spec() == s.reg
                    &&& final(fd)@ == old(fd)@ + s.out
                },
    {
        let ghost mem0 = self.mem_spec();
        let ghost reg0 = self.regs_spec();
        let ghost out0 = fd@;
        let ghost n: nat = choose|k: nat| (#[trigger] run_state(mem0, reg0, k)).halted is Some;
        let ghost mut i: nat = 0;
        proof {
            assert(run_state(mem0, reg0, 0).halted is None);
            if n <= 0 {
                assert(run_state(mem0, reg0, n).halted is Some);
            }
        }
        loop
            invariant
                self.wf(),
                i < n,
                mem0 == old(self).mem_spec(),
                reg0 == old(self).regs_spec(),
                out0 == old(fd)@,
                run_safe(mem0, reg0),
                run_state(mem0, reg0, n).halted is Some,
                run_state(mem0, reg0, i).halted is None,
                run_state(mem0, reg0, i).mem == self.mem_spec(),
                run_state(mem0, reg0, i).reg == self.regs_spec(),
                fd@ == out0 + run_state(mem0, reg0, i).out,
            decreases n - i,
        {
            proof {
                assert(run_state(mem0, reg0, i).halted is None);
                assert(instr_ok(self.mem_spec(), self.regs_spec()));
            }
            let ghost pre_out = run_state(mem0, reg0, i).out;
            let res = self.step_on(fd);
            proof {
                let s = step_spec(run_state(mem0, reg0, i).mem, run_state(mem0, reg0, i).reg);
                assert(run_state(mem0, reg0, i + 1) == ExecState {
                    mem: s.mem,
                    reg: s.reg,
                    out: pre_out + s.out,
                    halted: match s.res {
                        Ok(true) => Some(Ok::<(), MachineError>(())),
                        Ok(false) => None,
                        Err(e) => Some(Err(e)),
                    },
                });
                vstd::seq_lib::lemma_concat_associative(out0, pre_out, s.out);
                i = i + 1;
            }
            match res {
                Ok(true) => {
                    proof {
                        assert(mem0 == old(self).mem_spec());
                        assert(reg0 == old(self).regs_spec());
                        let s = run_state(old(self).mem_spec(), old(self).regs_spec(), i);
                        assert(s.halted == Some(Ok::<(), MachineError>(())));
                        assert(self.mem_spec() == s.mem);
                        assert(self.regs_spec() == s.reg);
                        assert(fd@ == old(fd)@ + s.out);
                    }
                    return Ok(());
                },
                Err(e) => {
                    proof {
                        assert(mem0 == old(self).mem_spec());
                        assert(reg0 == old(self).regs_spec());
                        let s = run_state(old(self).mem_spec(), old(self).regs_spec(), i);
                        assert(s.halted == Some(Err::<(), MachineError>(e)));
                        assert(self.mem_spec() == s.mem);
                        assert(self.regs_spec() == s.reg);
                        assert(fd@ == old(fd)@ + s.out);
                    }
                    return Err(e);
                },
                Ok(false) => {
                    proof {
                        assert(run_state(mem0, reg0, i).halted is None);
                        if i >= n {
                            lemma_halt_stable(mem0, reg0, n, i);
                        }
                    }
                },
            }
        }
    }
}

/// Append the UTF-8 encoding of the character whose code is `x`.
fn write_char_byte(fd: &mut Vec<u8>, x: u8)
    ensures
        final(fd)@ == old(fd)@ + utf8_of_byte(x),
{
    if x < 0x80 {
        fd.push(x);
        proof {
            assert(fd@ =~= old(fd)@ + utf8_of_byte(x));
        }
    } else {
        fd.push(0xC0 + x / 0x40);
        fd.push(0x80 + x % 0x40);
        proof {
            assert(fd@ =~= old(fd)@ + utf8_of_byte(x));
        }
    }
}

/// Append the decimal digits of `n`, most significant first.
fn write_decimal(fd: &mut Vec<u8>, n: u32)
    ensures
        final(fd)@ == old(fd)@ + decimal_digits(n as nat),
    decreases n,
{
    if n < 10 {
        fd.push(0x30 + n as u8);
        proof {
            assert(fd@ =~= old(fd)@ + decimal_digits(n as nat));
        }
    } else {
        write_decimal(fd, n / 10);
        fd.push(0x30 + (n % 10) as u8);
        proof {
            assert(fd@ =~= old(fd)@ + decimal_digits(n as nat));
        }
    }
}

} // verus!
