use vstd::prelude::*;

use crate::errors::BytecodeError;
use crate::errors::InterpretationError;
use crate::instruction::Instruction;
use crate::instruction::spec_decode;
use crate::value::CMP_EQ;
use crate::value::CMP_GT;
use crate::value::CMP_LT;
use crate::value::FALSE_BITS;
use crate::value::TRUE_BITS;
use crate::value::Value;
use crate::value::abs;
use crate::value::add_bits;
use crate::value::cmp_bits;
use crate::value::div_bits;
use crate::value::is_zero;
use crate::value::mul_bits;
use crate::value::negate;
use crate::value::spec_abs;
use crate::value::spec_is_zero;
use crate::value::spec_negate;
use crate::value::sub_bits;
use crate::value::value_add;
use crate::value::value_cmp;
use crate::value::value_div;
use crate::value::value_mul;
use crate::value::value_sub;

verus! {

/// The virtual machine: a read-only instruction stream, a read-only
/// constant pool, a growable array of variable slots, an operand stack, a
/// program counter and a running flag. `output` records every value the
/// program prints, in order; the driver renders them to the console.
#[derive(Debug)]
pub struct VM {
    stack: Vec<Value>,
    program: Vec<u8>,
    consts: Vec<Value>,
    slots: Vec<Value>,
    output: Vec<Value>,
    pc: usize,
    running: bool,
}

/// Mathematical image of the whole machine state.
pub ghost struct VmV {
    pub stack: Seq<Value>,
    pub program: Seq<u8>,
    pub consts: Seq<Value>,
    pub slots: Seq<Value>,
    pub output: Seq<Value>,
    pub pc: nat,
    pub running: bool,
}

impl View for VM {
    type V = VmV;

    closed spec fn view(&self) -> VmV {
        VmV {
            stack: self.stack@,
            program: self.program@,
            consts: self.consts@,
            slots: self.slots@,
            output: self.output@,
            pc: self.pc as nat,
            running: self.running,
        }
    }
}

/// Index of the first `0xff` byte of `bytes`, or `bytes.len()` where
/// there is none. The loader cuts the image there: everything up to and
/// including that byte is the instruction stream, everything after it is
/// the serialized constant pool.
pub open spec fn spec_first_ff(bytes: Seq<u8>) -> int
    decreases bytes.len(),
{
    if bytes.len() == 0 {
        0
    } else if bytes[0] == 0xff {
        0
    } else {
        1 + spec_first_ff(bytes.drop_first())
    }
}

pub proof fn lemma_first_ff_props(bytes: Seq<u8>)
    ensures
        0 <= spec_first_ff(bytes) <= bytes.len(),
        forall|j: int| 0 <= j < spec_first_ff(bytes) ==> bytes[j] != 0xff,
        spec_first_ff(bytes) < bytes.len() ==> bytes[spec_first_ff(bytes)] == 0xff,
    decreases bytes.len(),
{
    if bytes.len() == 0 {
    } else if bytes[0] == 0xff {
    } else {
        lemma_first_ff_props(bytes.drop_first());
        assert forall|j: int| 0 <= j < spec_first_ff(bytes) implies bytes[j] != 0xff by {
            if j > 0 {
                assert(bytes.drop_first()[j - 1] != 0xff);
            }
        }
    }
}

/// The instruction stream the loader recovers from a raw image: the bytes
/// up to and including the first `0xff`, or, where the image holds no
/// `0xff` at all, the whole image with a `0xff` terminator appended.
pub open spec fn spec_program_part(bytes: Seq<u8>) -> Seq<u8> {
    if spec_first_ff(bytes) < bytes.len() {
        bytes.take(spec_first_ff(bytes) + 1)
    } else {
        bytes + seq![0xffu8]
    }
}

/// The constant-pool bytes the loader recovers from a raw image: whatever
/// follows the first `0xff`.
pub open spec fn spec_consts_part(bytes: Seq<u8>) -> Seq<u8> {
    if spec_first_ff(bytes) < bytes.len() {
        bytes.skip(spec_first_ff(bytes) + 1)
    } else {
        Seq::empty()
    }
}

/// A double read from eight little-endian bytes, as its bit pattern.
pub open spec fn spec_u64le(s: Seq<u8>) -> u64
    recommends
        s.len() == 8,
{
    (s[0] as u64) | ((s[1] as u64) << 8) | ((s[2] as u64) << 16) | ((s[3] as u64) << 24) | (
    (s[4] as u64) << 32) | ((s[5] as u64) << 40) | ((s[6] as u64) << 48) | ((s[7] as u64) << 56)
}

/// How the constant pool deserializes from position `i` on: a sequence of
/// `(type tag, byte length, value bytes)` records. A record cut short is
/// `UnexpectedEof`; a value whose length is not the width of a double is
/// `IncorrectRep`.
pub open spec fn spec_parse_consts(bytes: Seq<u8>, i: nat) -> Result<Seq<Value>, BytecodeError>
    decreases bytes.len() - i,
{
    if i >= bytes.len() {
        Ok(Seq::empty())
    } else if i + 1 >= bytes.len() {
        Err(BytecodeError::UnexpectedEof)
    } else {
        let size = bytes[i as int + 1] as nat;
        if i + 2 + size > bytes.len() {
            Err(BytecodeError::UnexpectedEof)
        } else if size != 8 {
            Err(BytecodeError::IncorrectRep)
        } else {
            let v = spec_u64le(bytes.subrange(i as int + 2, i as int + 10));
            match spec_parse_consts(bytes, i + 10) {
                Ok(rest) => Ok(seq![v] + rest),
                Err(e) => Err(e),
            }
        }
    }
}

/// What loading a raw bytecode image yields: the split instruction
/// stream, the deserialized pool, and otherwise empty machine state.
pub open spec fn spec_load(bytes: Seq<u8>) -> Result<VmV, BytecodeError> {
    match spec_parse_consts(spec_consts_part(bytes), 0) {
        Ok(cs) => Ok(
            VmV {
                stack: Seq::empty(),
                program: spec_program_part(bytes),
                consts: cs,
                slots: Seq::empty(),
                output: Seq::empty(),
                pc: 0,
                running: false,
            },
        ),
        Err(e) => Err(e),
    }
}

/// The byte at `pc + off`, or `UnexpectedEndError` past the end of the
/// instruction stream.
pub open spec fn spec_get_byte(m: VmV, off: nat) -> Result<u8, InterpretationError> {
    if m.pc + off < m.program.len() {
        Ok(m.program[(m.pc + off) as int])
    } else {
        Err(InterpretationError::UnexpectedEndError)
    }
}

/// The two-byte little-endian operand after the opcode at `pc`.
pub open spec fn spec_operand16(m: VmV) -> Result<u16, InterpretationError> {
    match (spec_get_byte(m, 1), spec_get_byte(m, 2)) {
        (Ok(b1), Ok(b2)) => Ok((b1 as u16) | ((b2 as u16) << 8)),
        (Err(e), _) => Err(e),
        (_, Err(e)) => Err(e),
    }
}

/// The four-byte little-endian operand after the opcode at `pc`.
pub open spec fn spec_operand32(m: VmV) -> Result<u32, InterpretationError> {
    match (spec_get_byte(m, 1), spec_get_byte(m, 2), spec_get_byte(m, 3), spec_get_byte(m, 4)) {
        (Ok(b1), Ok(b2), Ok(b3), Ok(b4)) => Ok(
            (b1 as u32) | ((b2 as u32) << 8) | ((b3 as u32) << 16) | ((b4 as u32) << 24),
        ),
        (Err(e), _, _, _) => Err(e),
        (_, Err(e), _, _) => Err(e),
        (_, _, Err(e), _) => Err(e),
        (_, _, _, Err(e)) => Err(e),
    }
}

/// Popping one value: the machine with the top removed and that top, or
/// `EmptyStackError` with the machine unchanged.
pub open spec fn spec_pop1(m: VmV) -> Result<(VmV, Value), (VmV, InterpretationError)> {
    if m.stack.len() == 0 {
        Err((m, InterpretationError::EmptyStackError))
    } else {
        Ok((VmV { stack: m.stack.drop_last(), ..m }, m.stack.last()))
    }
}

/// Popping two values `a` (the top) then `b` (under it), as the binary
/// instructions do. Where only one value is there, it is consumed before
/// the failure surfaces.
pub open spec fn spec_pop2(m: VmV) -> Result<(VmV, Value, Value), (VmV, InterpretationError)> {
    match spec_pop1(m) {
        Err(fe) => Err(fe),
        Ok((m1, a)) => match spec_pop1(m1) {
            Err(fe) => Err(fe),
            Ok((m2, b)) => Ok((m2, a, b)),
        },
    }
}

/// The double the comparison instructions push for a verdict.
pub open spec fn spec_bool_bits(cond: bool) -> Value {
    if cond {
        TRUE_BITS
    } else {
        FALSE_BITS
    }
}

/// Outcome of one fetch-decode-execute cycle: the next machine state, or
/// the state at the failure together with the error.
pub ghost enum StepOut {
    Next(VmV),
    Fail(VmV, InterpretationError),
}

/// One fetch-decode-execute cycle of the machine, exactly as `§run_one_instr`
/// performs it: fetch the opcode byte at `pc`, decode it, execute it, and
/// advance `pc` by the instruction's encoded width unless the instruction
/// redirects it.
pub open spec fn spec_step(m: VmV) -> StepOut {
    match spec_get_byte(m, 0) {
        Err(e) => StepOut::Fail(m, e),
        Ok(op) => match spec_decode(op) {
            Err(e) => StepOut::Fail(m, e),
            Ok(inst) => match inst {
                Instruction::Nop => StepOut::Next(VmV { pc: m.pc + 1, ..m }),
                Instruction::Push => match spec_operand16(m) {
                    Err(e) => StepOut::Fail(m, e),
                    Ok(idx) => if idx as int >= m.consts.len() {
                        StepOut::Fail(m, InterpretationError::BadConstsIndexError)
                    } else {
                        StepOut::Next(
                            VmV { stack: m.stack.push(m.consts[idx as int]), pc: m.pc + 3, ..m },
                        )
                    },
                },
                Instruction::Add => match spec_pop2(m) {
                    Err((m2, e)) => StepOut::Fail(m2, e),
                    Ok((m2, a, b)) => StepOut::Next(
                        VmV { stack: m2.stack.push(add_bits(b, a)), pc: m.pc + 1, ..m2 },
                    ),
                },
                Instruction::Sub => match spec_pop2(m) {
                    Err((m2, e)) => StepOut::Fail(m2, e),
                    Ok((m2, a, b)) => StepOut::Next(
                        VmV { stack: m2.stack.push(sub_bits(b, a)), pc: m.pc + 1, ..m2 },
                    ),
                },
                Instruction::Mul => match spec_pop2(m) {
                    Err((m2, e)) => StepOut::Fail(m2, e),
                    Ok((m2, a, b)) => StepOut::Next(
                        VmV { stack: m2.stack.push(mul_bits(b, a)), pc: m.pc + 1, ..m2 },
                    ),
                },
                Instruction::Div => match spec_pop2(m) {
                    Err((m2, e)) => StepOut::Fail(m2, e),
                    Ok((m2, a, b)) => if spec_is_zero(a) {
                        StepOut::Fail(m2, InterpretationError::ZeroDivisionError)
                    } else {
                        StepOut::Next(
                            VmV { stack: m2.stack.push(div_bits(b, a)), pc: m.pc + 1, ..m2 },
                        )
                    },
                },
                Instruction::Neg => match spec_pop1(m) {
                    Err((m2, e)) => StepOut::Fail(m2, e),
                    Ok((m2, a)) => StepOut::Next(
                        VmV { stack: m2.stack.push(spec_negate(a)), pc: m.pc + 1, ..m2 },
                    ),
                },
                Instruction::Eq => match spec_pop2(m) {
                    Err((m2, e)) => StepOut::Fail(m2, e),
                    Ok((m2, a, b)) => StepOut::Next(
                        VmV {
                            stack: m2.stack.push(spec_bool_bits(cmp_bits(b, a) == Some(CMP_EQ))),
                            pc: m.pc + 1,
                            ..m2
                        },
                    ),
                },
                Instruction::Neq => match spec_pop2(m) {
                    Err((m2, e)) => StepOut::Fail(m2, e),
                    Ok((m2, a, b)) => StepOut::Next(
                        VmV {
                            stack: m2.stack.push(spec_bool_bits(cmp_bits(b, a) != Some(CMP_EQ))),
                            pc: m.pc + 1,
                            ..m2
                        },
                    ),
                },
                Instruction::Gr => match spec_pop2(m) {
                    Err((m2, e)) => StepOut::Fail(m2, e),
                    Ok((m2, a, b)) => StepOut::Next(
                        VmV {
                            stack: m2.stack.push(spec_bool_bits(cmp_bits(b, a) == Some(CMP_GT))),
                            pc: m.pc + 1,
                            ..m2
                        },
                    ),
                },
                Instruction::Ls => match spec_pop2(m) {
                    Err((m2, e)) => StepOut::Fail(m2, e),
                    Ok((m2, a, b)) => StepOut::Next(
                        VmV {
                            stack: m2.stack.push(spec_bool_bits(cmp_bits(b, a) == Some(CMP_LT))),
                            pc: m.pc + 1,
                            ..m2
                        },
                    ),
                },
                Instruction::Ge => match spec_pop2(m) {
                    Err((m2, e)) => StepOut::Fail(m2, e),
                    Ok((m2, a, b)) => StepOut::Next(
                        VmV {
                            stack: m2.stack.push(
                                spec_bool_bits(
                                    cmp_bits(b, a) == Some(CMP_GT) || cmp_bits(b, a) == Some(
                                        CMP_EQ,
                                    ),
                                ),
                            ),
                            pc: m.pc + 1,
                            ..m2
                        },
                    ),
                },
                Instruction::Le => match spec_pop2(m) {
                    Err((m2, e)) => StepOut::Fail(m2, e),
                    Ok((m2, a, b)) => StepOut::Next(
                        VmV {
                            stack: m2.stack.push(
                                spec_bool_bits(
                                    cmp_bits(b, a) == Some(CMP_LT) || cmp_bits(b, a) == Some(
                                        CMP_EQ,
                                    ),
                                ),
                            ),
                            pc: m.pc + 1,
                            ..m2
                        },
                    ),
                },
                Instruction::Jmp => match spec_operand16(m) {
                    Err(e) => StepOut::Fail(m, e),
                    Ok(off) => if m.pc + off as nat > usize::MAX as nat {
                        StepOut::Fail(m, InterpretationError::UnexpectedEndError)
                    } else {
                        StepOut::Next(VmV { pc: m.pc + off as nat, ..m })
                    },
                },
                Instruction::Jf => match spec_operand16(m) {
                    Err(e) => StepOut::Fail(m, e),
                    Ok(off) => match spec_pop1(m) {
                        Err((m2, e)) => StepOut::Fail(m2, e),
                        Ok((m2, a)) => if spec_is_zero(a) {
                            if m2.pc + off as nat > usize::MAX as nat {
                                StepOut::Fail(m2, InterpretationError::UnexpectedEndError)
                            } else {
                                StepOut::Next(VmV { pc: m2.pc + off as nat, ..m2 })
                            }
                        } else {
                            StepOut::Next(VmV { pc: m2.pc + 3, ..m2 })
                        },
                    },
                },
                Instruction::Jback => match spec_operand16(m) {
                    Err(e) => StepOut::Fail(m, e),
                    Ok(off) => if off as nat > m.pc {
                        StepOut::Fail(m, InterpretationError::InvalidJump)
                    } else {
                        StepOut::Next(VmV { pc: (m.pc - off as nat) as nat, ..m })
                    },
                },
                Instruction::Bin => match spec_operand16(m) {
                    Err(e) => StepOut::Fail(m, e),
                    Ok(id) => if id == 0 {
                        match spec_pop1(m) {
                            Err((m2, e)) => StepOut::Fail(m2, e),
                            Ok((m2, arg)) => StepOut::Next(
                                VmV { output: m2.output.push(arg), pc: m2.pc + 3, ..m2 },
                            ),
                        }
                    } else if id == 1 {
                        match spec_pop1(m) {
                            Err((m2, e)) => StepOut::Fail(m2, e),
                            Ok((m2, arg)) => StepOut::Next(
                                VmV { stack: m2.stack.push(spec_abs(arg)), pc: m2.pc + 3, ..m2 },
                            ),
                        }
                    } else {
                        StepOut::Fail(m, InterpretationError::UnknownBuiltin)
                    },
                },
                Instruction::Liv => match spec_operand32(m) {
                    Err(e) => StepOut::Fail(m, e),
                    Ok(idx) => match spec_pop1(m) {
                        Err((m2, e)) => StepOut::Fail(m2, e),
                        Ok((m2, v)) => if idx as int == m2.slots.len() {
                            StepOut::Next(VmV { slots: m2.slots.push(v), pc: m2.pc + 5, ..m2 })
                        } else if (idx as int) < m2.slots.len() {
                            StepOut::Next(
                                VmV { slots: m2.slots.update(idx as int, v), pc: m2.pc + 5, ..m2 },
                            )
                        } else {
                            StepOut::Fail(m2, InterpretationError::InvalidSlotIndex)
                        },
                    },
                },
                Instruction::Lfv => match spec_operand32(m) {
                    Err(e) => StepOut::Fail(m, e),
                    Ok(idx) => if (idx as int) < m.slots.len() {
                        StepOut::Next(
                            VmV { stack: m.stack.push(m.slots[idx as int]), pc: m.pc + 5, ..m },
                        )
                    } else {
                        StepOut::Fail(m, InterpretationError::InvalidSlotIndex)
                    },
                },
                Instruction::Dbg => match spec_pop1(m) {
                    Err((m2, e)) => StepOut::Fail(m2, e),
                    Ok((m2, a)) => StepOut::Next(
                        VmV { output: m2.output.push(a), pc: m2.pc + 1, ..m2 },
                    ),
                },
                Instruction::Hlt => StepOut::Next(VmV { running: false, ..m }),
            },
        },
    }
}

impl VM {
    /// Loads a raw bytecode image: cuts the instruction stream at the
    /// first `0xff` byte and deserializes what follows it as the constant
    /// pool. A short or ill-shaped pool record refuses the whole image.
    pub fn new(bytecode: Vec<u8>) -> (r: Result<VM, BytecodeError>)
        ensures
            match spec_load(bytecode@) {
                Ok(m) => r matches Ok(vm) && vm@ == m,
                Err(e) => r matches Err(e2) && e2 == e,
            },
    {
        let n = bytecode.len();
        let mut k: usize = 0;
        while k < n && bytecode[k] != 0xff
            invariant
                k <= n,
                n == bytecode@.len(),
                forall|j: int| 0 <= j < k ==> bytecode@[j] != 0xff,
            decreases n - k,
        {
            k = k + 1;
        }
        proof {
            lemma_first_ff_props(bytecode@);
            let f = spec_first_ff(bytecode@);
            assert(k as int == f) by {
                if (k as int) < f {
                    assert(bytecode@[k as int] != 0xff);
                }
                if f < k as int {
                    assert(bytecode@[f] != 0xff);
                }
            }
        }
        let mut program: Vec<u8> = Vec::new();
        let mut i: usize = 0;
        while i < k
            invariant
                i <= k,
                k <= n,
                n == bytecode@.len(),
                program@ == bytecode@.subrange(0, i as int),
            decreases k - i,
        {
            program.push(bytecode[i]);
            i = i + 1;
        }
        if k < n {
            program.push(bytecode[k]);
            proof {
                assert(program@ =~= bytecode@.take(k as int + 1));
            }
        } else {
            program.push(0xff);
            proof {
                assert(program@ =~= bytecode@ + seq![0xffu8]);
            }
        }
        let start: usize = if k < n {
            k + 1
        } else {
            n
        };
        let mut consts_bytes: Vec<u8> = Vec::new();
        let mut j: usize = start;
        while j < n
            invariant
                start <= j <= n,
                n == bytecode@.len(),
                consts_bytes@ == bytecode@.subrange(start as int, j as int),
            decreases n - j,
        {
            consts_bytes.push(bytecode[j]);
            j = j + 1;
        }
        proof {
            assert(consts_bytes@ =~= spec_consts_part(bytecode@));
        }
        let consts = match Self::parse_const_table(&consts_bytes) {
            Ok(cs) => cs,
            Err(e) => {
                return Err(e);
            },
        };
        let vm = VM {
            stack: Vec::new(),
            program,
            consts,
            slots: Vec::new(),
            output: Vec::new(),
            pc: 0,
            running: false,
        };
        proof {
            assert(vm@ == spec_load(bytecode@)->Ok_0);
        }
        Ok(vm)
    }

    /// Deserializes the constant pool bytes into the flat table of
    /// doubles, record by record.
    fn parse_const_table(bytes: &Vec<u8>) -> (r: Result<Vec<Value>, BytecodeError>)
        ensures
            match spec_parse_consts(bytes@, 0) {
                Ok(cs) => r matches Ok(v) && v@ == cs,
                Err(e) => r matches Err(e2) && e2 == e,
            },
    {
        let len = bytes.len();
        let mut consts: Vec<Value> = Vec::new();
        let mut i: usize = 0;
        while i < len
            invariant
                i <= len,
                len == bytes@.len(),
                spec_parse_consts(bytes@, 0) == (match spec_parse_consts(bytes@, i as nat) {
                    Ok(rest) => Ok::<Seq<Value>, BytecodeError>(consts@ + rest),
                    Err(e) => Err(e),
                }),
            decreases len - i,
        {
            if i + 1 >= len {
                return Err(BytecodeError::UnexpectedEof);
            }
            let size = bytes[i + 1];
            if size as usize > len - (i + 2) {
                return Err(BytecodeError::UnexpectedEof);
            }
            if size != 8 {
                return Err(BytecodeError::IncorrectRep);
            }
            let v = Self::u64_from_le(bytes, i + 2);
            let ghost old_consts = consts@;
            consts.push(v);
            proof {
                match spec_parse_consts(bytes@, i as nat + 10) {
                    Ok(rest) => {
                        assert(old_consts + (seq![v] + rest) =~= (old_consts.push(v)) + rest);
                    },
                    Err(e) => {},
                }
                assert(seq![v] + spec_parse_consts(bytes@, i as nat + 10)->Ok_0 == seq![v]
                    + spec_parse_consts(bytes@, i as nat + 10)->Ok_0);
            }
            i = i + 10;
        }
        proof {
            assert(consts@ + Seq::<Value>::empty() =~= consts@);
        }
        Ok(consts)
    }

    /// Reads the eight little-endian bytes at `start` as a double's bit
    /// pattern.
    fn u64_from_le(bytes: &Vec<u8>, start: usize) -> (r: u64)
        requires
            start + 8 <= bytes@.len(),
        ensures
            r == spec_u64le(bytes@.subrange(start as int, start as int + 8)),
    {
        proof {
            vstd::std_specs::vec::axiom_spec_len(bytes);
        }
        let r = (bytes[start] as u64) | ((bytes[start + 1] as u64) << 8) | ((bytes[start + 2] as u64)
            << 16) | ((bytes[start + 3] as u64) << 24) | ((bytes[start + 4] as u64) << 32) | ((
        bytes[start + 5] as u64) << 40) | ((bytes[start + 6] as u64) << 48) | ((bytes[start
            + 7] as u64) << 56);
        proof {
            let s = bytes@.subrange(start as int, start as int + 8);
            assert(s[0] == bytes@[start as int]);
            assert(s[1] == bytes@[start as int + 1]);
            assert(s[2] == bytes@[start as int + 2]);
            assert(s[3] == bytes@[start as int + 3]);
            assert(s[4] == bytes@[start as int + 4]);
            assert(s[5] == bytes@[start as int + 5]);
            assert(s[6] == bytes@[start as int + 6]);
            assert(s[7] == bytes@[start as int + 7]);
        }
        r
    }

    /// Replaces the loaded instruction stream wholesale.
    pub fn load_program(&mut self, program: Vec<u8>)
        ensures
            final(self)@ == (VmV { program: program@, ..old(self)@ }),
    {
        self.program = program;
    }

    /// The values the program has printed so far, in print order.
    pub fn output(&self) -> (r: &Vec<Value>)
        ensures
            r@ == self@.output,
    {
        &self.output
    }

    /// Runs the fetch-decode-execute loop until the halt instruction
    /// clears the running flag or an instruction fails. The result and
    /// the final machine state are exactly what iterating `spec_step`
    /// from the started state yields.
    /// Starts the fetch-decode-execute loop: sets the running flag. The
    /// driver then calls `run_one_instr` until `is_running` turns false or
    /// an instruction fails; a checked loop cannot stand here, since an
    /// ill-formed image can jump backward forever.
    pub fn start(&mut self)
        ensures
            final(self)@ == (VmV { running: true, ..old(self)@ }),
    {
        self.running = true;
    }

    /// Whether the machine is between `start` and the halt instruction.
    pub fn is_running(&self) -> (r: bool)
        ensures
            r == self@.running,
    {
        self.running
    }

    /// One fetch-decode-execute cycle; see `spec_step` for the exact
    /// transition.
    pub fn run_one_instr(&mut self) -> (r: Result<(), InterpretationError>)
        ensures
            match spec_step(old(self)@) {
                StepOut::Next(m) => r matches Ok(()) && final(self)@ == m,
                StepOut::Fail(m, e) => r matches Err(e2) && e2 == e && final(self)@ == m,
            },
    {
        proof {
            vstd::std_specs::vec::axiom_spec_len(&self.program);
        }
        let op = self.get_byte(0)?;
        let inst = Instruction::try_from(op)?;
        match inst {
            Instruction::Nop => {
                self.pc = self.pc + 1;
            },
            Instruction::Push => {
                let index = self.next_2_bytes()?;
                let val = self.get_const(index as usize)?;
                self.stack.push(val);
                self.pc = self.pc + 3;
            },
            Instruction::Add => {
                let a = self.pop_stack()?;
                let b = self.pop_stack()?;
                self.stack.push(value_add(b, a));
                self.pc = self.pc + 1;
            },
            Instruction::Sub => {
                let a = self.pop_stack()?;
                let b = self.pop_stack()?;
                self.stack.push(value_sub(b, a));
                self.pc = self.pc + 1;
            },
            Instruction::Mul => {
                let a = self.pop_stack()?;
                let b = self.pop_stack()?;
                self.stack.push(value_mul(b, a));
                self.pc = self.pc + 1;
            },
            Instruction::Div => {
                let a = self.pop_stack()?;
                let b = self.pop_stack()?;
                if is_zero(a) {
                    return Err(InterpretationError::ZeroDivisionError);
                }
                self.stack.push(value_div(b, a));
                self.pc = self.pc + 1;
            },
            Instruction::Neg => {
                let a = self.pop_stack()?;
                let nv = negate(a);
                self.stack.push(nv);
                self.pc = self.pc + 1;
            },
            Instruction::Eq => {
                let a = self.pop_stack()?;
                let b = self.pop_stack()?;
                let verdict = value_cmp(b, a) == Some(CMP_EQ);
                self.stack.push(Self::bool_bits(verdict));
                self.pc = self.pc + 1;
            },
            Instruction::Neq => {
                let a = self.pop_stack()?;
                let b = self.pop_stack()?;
                let verdict = value_cmp(b, a) != Some(CMP_EQ);
                self.stack.push(Self::bool_bits(verdict));
                self.pc = self.pc + 1;
            },
            Instruction::Gr => {
                let a = self.pop_stack()?;
                let b = self.pop_stack()?;
                let verdict = value_cmp(b, a) == Some(CMP_GT);
                self.stack.push(Self::bool_bits(verdict));
                self.pc = self.pc + 1;
            },
            Instruction::Ls => {
                let a = self.pop_stack()?;
                let b = self.pop_stack()?;
                let verdict = value_cmp(b, a) == Some(CMP_LT);
                self.stack.push(Self::bool_bits(verdict));
                self.pc = self.pc + 1;
            },
            Instruction::Ge => {
                let a = self.pop_stack()?;
                let b = self.pop_stack()?;
                let c = value_cmp(b, a);
                let verdict = c == Some(CMP_GT) || c == Some(CMP_EQ);
                self.stack.push(Self::bool_bits(verdict));
                self.pc = self.pc + 1;
            },
            Instruction::Le => {
                let a = self.pop_stack()?;
                let b = self.pop_stack()?;
                let c = value_cmp(b, a);
                let verdict = c == Some(CMP_LT) || c == Some(CMP_EQ);
                self.stack.push(Self::bool_bits(verdict));
                self.pc = self.pc + 1;
            },
            Instruction::Jmp => {
                let offset = self.next_2_bytes()?;
                match self.pc.checked_add(offset as usize) {
                    Some(npc) => {
                        self.pc = npc;
                    },
                    None => {
                        return Err(InterpretationError::UnexpectedEndError);
                    },
                }
            },
            Instruction::Jf => {
                let offset = self.next_2_bytes()?;
                let a = self.pop_stack()?;
                if is_zero(a) {
                    match self.pc.checked_add(offset as usize) {
                        Some(npc) => {
                            self.pc = npc;
                        },
                        None => {
                            return Err(InterpretationError::UnexpectedEndError);
                        },
                    }
                } else {
                    self.pc = self.pc + 3;
                }
            },
            Instruction::Jback => {
                let offset = self.next_2_bytes()?;
                if offset as usize > self.pc {
                    return Err(InterpretationError::InvalidJump);
                }
                self.pc = self.pc - offset as usize;
            },
            Instruction::Bin => {
                let func_number = self.next_2_bytes()?;
                if func_number == 0 {
                    let arg = self.pop_stack()?;
                    self.output.push(arg);
                } else if func_number == 1 {
                    let arg = self.pop_stack()?;
                    let av = abs(arg);
                    self.stack.push(av);
                } else {
                    return Err(InterpretationError::UnknownBuiltin);
                }
                self.pc = self.pc + 3;
            },
            Instruction::Liv => {
                let idx = self.next_4_bytes()?;
                let v = self.pop_stack()?;
                if idx as usize == self.slots.len() {
                    self.slots.push(v);
                } else if (idx as usize) < self.slots.len() {
                    self.slots[idx as usize] = v;
                } else {
                    return Err(InterpretationError::InvalidSlotIndex);
                }
                self.pc = self.pc + 5;
            },
            Instruction::Lfv => {
                let idx = self.next_4_bytes()?;
                if (idx as usize) < self.slots.len() {
                    let v = self.slots[idx as usize];
                    self.stack.push(v);
                    self.pc = self.pc + 5;
                } else {
                    return Err(InterpretationError::InvalidSlotIndex);
                }
            },
            Instruction::Dbg => {
                let a = self.pop_stack()?;
                self.output.push(a);
                self.pc = self.pc + 1;
            },
            Instruction::Hlt => {
                self.running = false;
            },
        }
        Ok(())
    }

    /// The double the comparison instructions push for a verdict.
    fn bool_bits(cond: bool) -> (r: Value)
        ensures
            r == spec_bool_bits(cond),
    {
        if cond {
            TRUE_BITS
        } else {
            FALSE_BITS
        }
    }

    fn get_byte(&self, offset: usize) -> (r: Result<u8, InterpretationError>)
        ensures
            r == spec_get_byte(self@, offset as nat),
    {
        proof {
            vstd::std_specs::vec::axiom_spec_len(&self.program);
        }
        match self.pc.checked_add(offset) {
            Some(at) => {
                if at < self.program.len() {
                    Ok(self.program[at])
                } else {
                    Err(InterpretationError::UnexpectedEndError)
                }
            },
            None => Err(InterpretationError::UnexpectedEndError),
        }
    }

    fn next_2_bytes(&self) -> (r: Result<u16, InterpretationError>)
        ensures
            r == spec_operand16(self@),
    {
        let b1 = self.get_byte(1)?;
        let b2 = self.get_byte(2)?;
        Ok((b1 as u16) | ((b2 as u16) << 8))
    }

    fn next_4_bytes(&self) -> (r: Result<u32, InterpretationError>)
        ensures
            r == spec_operand32(self@),
    {
        let b1 = self.get_byte(1)?;
        let b2 = self.get_byte(2)?;
        let b3 = self.get_byte(3)?;
        let b4 = self.get_byte(4)?;
        Ok((b1 as u32) | ((b2 as u32) << 8) | ((b3 as u32) << 16) | ((b4 as u32) << 24))
    }

    fn get_const(&self, index: usize) -> (r: Result<Value, InterpretationError>)
        ensures
            index < self@.consts.len() ==> (r matches Ok(v) && v == self@.consts[index as int]),
            index >= self@.consts.len() ==> (r matches Err(e) && e
                == InterpretationError::BadConstsIndexError),
    {
        if index < self.consts.len() {
            Ok(self.consts[index])
        } else {
            Err(InterpretationError::BadConstsIndexError)
        }
    }

    fn pop_stack(&mut self) -> (r: Result<Value, InterpretationError>)
        ensures
            match spec_pop1(old(self)@) {
                Ok((m2, v)) => r matches Ok(rv) && rv == v && final(self)@ == m2,
                Err((m2, e)) => r matches Err(e2) && e2 == e && final(self)@ == m2,
            },
    {
        match self.stack.pop() {
            Some(v) => Ok(v),
            None => Err(InterpretationError::EmptyStackError),
        }
    }
}

} // verus!
