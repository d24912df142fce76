//! The dispatch loop.
//!
//! [`spec_step`] is the small-step specification of the instruction set:
//! one transition per opcode over a mathematical machine state.  The
//! executable [`step`] is proved to perform exactly one such transition,
//! and [`run_evm`] iterates it, so the value it returns is the value the
//! specification machine halts with.

use crate::instructions::{decode_opcode, opcode_ordinal, spec_decode, spec_is_dup, spec_is_push,
    spec_is_swap, Opcode};
use crate::memory::{spec_extended_words, spec_mem_read, spec_mem_write, VmMemory,
    MEMORY_CAPACITY};
use crate::rom::{spec_code_byte, spec_is_jumpdest, VmRom, MAX_CODESIZE};
use crate::stack::{VmStack, STACK_LEN};
use crate::u256::{be_bytes_as_nat, lemma_from_nat_as_nat, lemma_limb_extract,
    lemma_pow2_limb_values, spec_add, spec_and, spec_byte, spec_eq, spec_gt, spec_iszero,
    spec_mul, spec_not, spec_or, spec_shl, spec_signextend, spec_sub, spec_xor, u256_as_nat,
    u256_from_nat, U256};
use vstd::arithmetic::div_mod::{lemma_mod_mod, lemma_small_mod};
use vstd::arithmetic::power2::pow2;
use vstd::prelude::*;

verus! {

/// Why an execution faulted.  Every fault ends the execution.
#[derive(Copy, Clone, Debug, PartialEq, Eq, Structural)]
pub enum VmError {
    /// A jump target outside the code or not marked in the JUMPDEST bitmap.
    InvalidJumpDest,
    /// An operation needed more operands than the stack holds.
    StackUnderflow,
    /// A push would grow the stack beyond its 1024 slots.
    StackOverflow,
    /// A memory access beyond the pre-allocated capacity.
    MemoryCapacityExceeded,
}

/// The state of the specification machine: a program counter, the operand
/// stack (top last), and the linear memory with its logical word count.
pub struct VmState {
    pub pc: nat,
    pub stack: Seq<U256>,
    pub mem: Seq<u8>,
    pub mem_words: nat,
}

/// What one instruction does: continue in a new state, halt with the
/// value popped off the top of the stack, or fault.
pub enum Transition {
    Next(VmState),
    Halt(U256),
    Fault(VmError),
}

/// The value a PUSH with `n` immediate bytes at `pc` pushes: the `n` bytes
/// after the opcode, read big-endian, missing bytes read as zero.
pub open spec fn spec_push_value(bc: Seq<u8>, pc: nat, n: nat) -> U256 {
    u256_from_nat(be_bytes_as_nat(Seq::new(n, |k: int| spec_code_byte(bc, pc + 1 + k))))
}

/// The result the machine reports when it halts in state `s`: the top of
/// the stack, popped; an empty stack is an underflow.
pub open spec fn spec_halt(s: VmState) -> Transition {
    if s.stack.len() < 1 {
        Transition::Fault(VmError::StackUnderflow)
    } else {
        Transition::Halt(s.stack.last())
    }
}

/// A binary operation: pop two operands, push one result, step over the
/// opcode byte.
pub open spec fn spec_binop(s: VmState, r: U256) -> VmState {
    VmState {
        pc: s.pc + 1,
        stack: s.stack.drop_last().drop_last().push(r),
        ..s
    }
}

/// A unary operation: replace the top operand, step over the opcode byte.
pub open spec fn spec_unop(s: VmState, r: U256) -> VmState {
    VmState { pc: s.pc + 1, stack: s.stack.drop_last().push(r), ..s }
}

/// A push of `r` and a step of `adv` bytes.
pub open spec fn spec_push(s: VmState, r: U256, adv: nat) -> VmState {
    VmState { pc: s.pc + adv, stack: s.stack.push(r), ..s }
}

/// One step of the specification machine on the bytecode `bc`.
///
/// The opcode byte is the image byte at `pc` (zero, hence STOP, past the
/// end of the code).  Operand checks come in the order the operations
/// perform them: stack depth first, then any bounds on the operand values.
pub open spec fn spec_step(bc: Seq<u8>, s: VmState) -> Transition {
    let t = spec_decode(spec_code_byte(bc, s.pc as int));
    let len = s.stack.len();
    if spec_is_push(t) {
        let n = (opcode_ordinal(t) - 24) as nat;
        if len >= STACK_LEN {
            Transition::Fault(VmError::StackOverflow)
        } else {
            Transition::Next(spec_push(s, spec_push_value(bc, s.pc, n), n + 1))
        }
    } else if spec_is_dup(t) {
        let n = (opcode_ordinal(t) - 57) as nat;
        if len < n + 1 {
            Transition::Fault(VmError::StackUnderflow)
        } else if len >= STACK_LEN {
            Transition::Fault(VmError::StackOverflow)
        } else {
            Transition::Next(spec_push(s, s.stack[len - 1 - n], 1))
        }
    } else if spec_is_swap(t) {
        let n = (opcode_ordinal(t) - 73) as nat;
        if len < n + 2 {
            Transition::Fault(VmError::StackUnderflow)
        } else {
            Transition::Next(
                VmState {
                    pc: s.pc + 1,
                    stack: s.stack.update(len - 1, s.stack[len - 2 - n]).update(
                        len - 2 - n,
                        s.stack.last(),
                    ),
                    ..s
                },
            )
        }
    } else {
        // the PUSH, DUP and SWAP families were handled above; only the
        // singleton opcodes remain
        match t {
            Opcode::STOP => spec_halt(s),
            Opcode::RETURN => spec_halt(s),
            Opcode::INVALID => spec_halt(s),
            Opcode::GAS => spec_halt(s),
            Opcode::JUMPDEST => Transition::Next(VmState { pc: s.pc + 1, ..s }),
            Opcode::POP => if len < 1 {
                Transition::Fault(VmError::StackUnderflow)
            } else {
                Transition::Next(VmState { pc: s.pc + 1, stack: s.stack.drop_last(), ..s })
            },
            Opcode::ADD => if len < 2 {
                Transition::Fault(VmError::StackUnderflow)
            } else {
                Transition::Next(spec_binop(s, spec_add(s.stack.last(), s.stack[len - 2])))
            },
            Opcode::MUL => if len < 2 {
                Transition::Fault(VmError::StackUnderflow)
            } else {
                Transition::Next(spec_binop(s, spec_mul(s.stack.last(), s.stack[len - 2])))
            },
            Opcode::SUB => if len < 2 {
                Transition::Fault(VmError::StackUnderflow)
            } else {
                Transition::Next(spec_binop(s, spec_sub(s.stack.last(), s.stack[len - 2])))
            },
            Opcode::SIGNEXTEND => if len < 2 {
                Transition::Fault(VmError::StackUnderflow)
            } else {
                Transition::Next(
                    spec_binop(
                        s,
                        u256_from_nat(
                            spec_signextend(
                                u256_as_nat(s.stack.last()),
                                u256_as_nat(s.stack[len - 2]),
                            ),
                        ),
                    ),
                )
            },
            Opcode::GT => if len < 2 {
                Transition::Fault(VmError::StackUnderflow)
            } else {
                Transition::Next(spec_binop(s, spec_gt(s.stack.last(), s.stack[len - 2])))
            },
            Opcode::EQ => if len < 2 {
                Transition::Fault(VmError::StackUnderflow)
            } else {
                Transition::Next(spec_binop(s, spec_eq(s.stack.last(), s.stack[len - 2])))
            },
            Opcode::ISZERO => if len < 1 {
                Transition::Fault(VmError::StackUnderflow)
            } else {
                Transition::Next(spec_unop(s, spec_iszero(s.stack.last())))
            },
            Opcode::AND => if len < 2 {
                Transition::Fault(VmError::StackUnderflow)
            } else {
                Transition::Next(spec_binop(s, spec_and(s.stack.last(), s.stack[len - 2])))
            },
            Opcode::OR => if len < 2 {
                Transition::Fault(VmError::StackUnderflow)
            } else {
                Transition::Next(spec_binop(s, spec_or(s.stack.last(), s.stack[len - 2])))
            },
            Opcode::XOR => if len < 2 {
                Transition::Fault(VmError::StackUnderflow)
            } else {
                Transition::Next(spec_binop(s, spec_xor(s.stack.last(), s.stack[len - 2])))
            },
            Opcode::NOT => if len < 1 {
                Transition::Fault(VmError::StackUnderflow)
            } else {
                Transition::Next(spec_unop(s, spec_not(s.stack.last())))
            },
            Opcode::BYTE => if len < 2 {
                Transition::Fault(VmError::StackUnderflow)
            } else {
                Transition::Next(spec_binop(s, spec_byte(s.stack.last(), s.stack[len - 2])))
            },
            Opcode::SHL => if len < 2 {
                Transition::Fault(VmError::StackUnderflow)
            } else {
                Transition::Next(spec_binop(s, spec_shl(s.stack.last(), s.stack[len - 2])))
            },
            Opcode::CODESIZE => if len >= STACK_LEN {
                Transition::Fault(VmError::StackOverflow)
            } else {
                Transition::Next(spec_push(s, u256_from_nat(bc.len()), 1))
            },
            Opcode::PC => if len >= STACK_LEN {
                Transition::Fault(VmError::StackOverflow)
            } else {
                Transition::Next(spec_push(s, u256_from_nat(s.pc), 1))
            },
            Opcode::MSIZE => if len >= STACK_LEN {
                Transition::Fault(VmError::StackOverflow)
            } else {
                Transition::Next(spec_push(s, u256_from_nat(s.mem_words * 32), 1))
            },
            Opcode::MLOAD => if len < 1 {
                Transition::Fault(VmError::StackUnderflow)
            } else {
                let off = u256_as_nat(s.stack.last());
                if off + 32 > MEMORY_CAPACITY {
                    Transition::Fault(VmError::MemoryCapacityExceeded)
                } else {
                    Transition::Next(
                        VmState {
                            pc: s.pc + 1,
                            stack: s.stack.drop_last().push(spec_mem_read(s.mem, off as int)),
                            mem: s.mem,
                            mem_words: spec_extended_words(s.mem_words, off, 32),
                        },
                    )
                }
            },
            Opcode::MSTORE => if len < 2 {
                Transition::Fault(VmError::StackUnderflow)
            } else {
                let off = u256_as_nat(s.stack.last());
                let value = s.stack[len - 2];
                if off + 32 > MEMORY_CAPACITY {
                    Transition::Fault(VmError::MemoryCapacityExceeded)
                } else {
                    Transition::Next(
                        VmState {
                            pc: s.pc + 1,
                            stack: s.stack.drop_last().drop_last(),
                            mem: spec_mem_write(s.mem, off as int, value),
                            mem_words: spec_extended_words(s.mem_words, off, 32),
                        },
                    )
                }
            },
            Opcode::MSTORE8 => if len < 2 {
                Transition::Fault(VmError::StackUnderflow)
            } else {
                let off = u256_as_nat(s.stack.last());
                let value = s.stack[len - 2];
                if off + 1 > MEMORY_CAPACITY {
                    Transition::Fault(VmError::MemoryCapacityExceeded)
                } else {
                    Transition::Next(
                        VmState {
                            pc: s.pc + 1,
                            stack: s.stack.drop_last().drop_last(),
                            mem: s.mem.update(off as int, (u256_as_nat(value) % 256) as u8),
                            mem_words: spec_extended_words(s.mem_words, off, 1),
                        },
                    )
                }
            },
            Opcode::JUMP => if len < 1 {
                Transition::Fault(VmError::StackUnderflow)
            } else {
                let addr = u256_as_nat(s.stack.last());
                if addr < MAX_CODESIZE && spec_is_jumpdest(bc, addr as int) {
                    Transition::Next(VmState { pc: addr, stack: s.stack.drop_last(), ..s })
                } else {
                    Transition::Fault(VmError::InvalidJumpDest)
                }
            },
            Opcode::JUMPI => if len < 2 {
                Transition::Fault(VmError::StackUnderflow)
            } else {
                let addr = u256_as_nat(s.stack.last());
                let cond = s.stack[len - 2];
                if u256_as_nat(cond) == 0 {
                    Transition::Next(
                        VmState {
                            pc: s.pc + 1,
                            stack: s.stack.drop_last().drop_last(),
                            ..s
                        },
                    )
                } else if addr < MAX_CODESIZE && spec_is_jumpdest(bc, addr as int) {
                    Transition::Next(
                        VmState { pc: addr, stack: s.stack.drop_last().drop_last(), ..s },
                    )
                } else {
                    Transition::Fault(VmError::InvalidJumpDest)
                }
            },
            _ => spec_halt(s),
        }
    }
}

/// The machine after `n` steps from `s0`: still running in some state,
/// halted with a value, or faulted.
pub enum Outcome {
    Running(VmState),
    Halted(U256),
    Faulted(VmError),
}

/// Iterates [`spec_step`] `n` times from `s0`; a halt or fault is final.
pub open spec fn spec_steps(bc: Seq<u8>, s0: VmState, n: nat) -> Outcome
    decreases n,
{
    if n == 0 {
        Outcome::Running(s0)
    } else {
        match spec_steps(bc, s0, (n - 1) as nat) {
            Outcome::Running(s) => match spec_step(bc, s) {
                Transition::Next(s2) => Outcome::Running(s2),
                Transition::Halt(v) => Outcome::Halted(v),
                Transition::Fault(e) => Outcome::Faulted(e),
            },
            Outcome::Halted(v) => Outcome::Halted(v),
            Outcome::Faulted(e) => Outcome::Faulted(e),
        }
    }
}

/// The running machine: a program counter and the operand stack; the ROM
/// and the memory are passed to each step.
pub struct Vm {
    pub pc: usize,
    pub stack: VmStack,
}

/// The specification state that an executable machine and its memory
/// stand for.
pub open spec fn vm_as_state(vm: &Vm, memory: &VmMemory) -> VmState {
    VmState {
        pc: vm.pc as nat,
        stack: vm.stack@,
        mem: memory.contents(),
        mem_words: memory.words(),
    }
}

/// What one executable step reported.
#[derive(Copy, Clone)]
pub enum StepResult {
    /// The machine continues.
    Continue,
    /// The machine halted; the value is the result of the execution.
    Halted(U256),
    /// The machine faulted.
    Faulted(VmError),
}

/// The fresh machine: program counter zero, empty stack.
pub fn vm_new() -> (r: Vm)
    ensures
        r.pc == 0,
        r.stack@.len() == 0,
{
    Vm { pc: 0, stack: VmStack::new() }
}

/// Executes one instruction: exactly the transition that [`spec_step`]
/// prescribes for the current state.
pub fn step(vm: &mut Vm, rom: &VmRom, memory: &mut VmMemory) -> (r: StepResult)
    requires
        rom.initialized(),
        old(memory).wf(),
        old(vm).stack@.len() <= STACK_LEN,
    ensures
        final(memory).wf(),
        final(vm).stack@.len() <= STACK_LEN,
        match spec_step(rom.bytecode_view(), vm_as_state(old(vm), old(memory))) {
            Transition::Next(s2) => r == StepResult::Continue && vm_as_state(final(vm), final(memory))
                == s2,
            Transition::Halt(v) => r == StepResult::Halted(v) && *final(memory) == *old(memory),
            Transition::Fault(e) => r == StepResult::Faulted(e) && *final(memory) == *old(memory),
        },
{
    let ghost bc = rom.bytecode_view();
    let ghost pre = vm_as_state(old(vm), old(memory));
    let pc = vm.pc;
    if pc >= MAX_CODESIZE {
        // past the image: the fetched byte is zero, which is STOP
        proof {
            reveal(spec_decode);
            assert(spec_code_byte(bc, pc as int) == 0);
            assert(spec_decode(0) == Opcode::STOP);
        }
        if vm.stack.len() < 1 {
            return StepResult::Faulted(VmError::StackUnderflow);
        }
        return StepResult::Halted(vm.stack.peek());
    }
    let b = rom.code_byte(pc);
    proof {
        assert(b == spec_code_byte(bc, pc as int));
    }
    let op = decode_opcode(b);
    match op {
        Opcode::PUSH1 | Opcode::PUSH2 | Opcode::PUSH3 | Opcode::PUSH4 | Opcode::PUSH5
            | Opcode::PUSH6 | Opcode::PUSH7 | Opcode::PUSH8 | Opcode::PUSH9 | Opcode::PUSH10
            | Opcode::PUSH11 | Opcode::PUSH12 | Opcode::PUSH13 | Opcode::PUSH14 | Opcode::PUSH15
            | Opcode::PUSH16 | Opcode::PUSH17 | Opcode::PUSH18 | Opcode::PUSH19 | Opcode::PUSH20
            | Opcode::PUSH21 | Opcode::PUSH22 | Opcode::PUSH23 | Opcode::PUSH24 | Opcode::PUSH25
            | Opcode::PUSH26 | Opcode::PUSH27 | Opcode::PUSH28 | Opcode::PUSH29 | Opcode::PUSH30
            | Opcode::PUSH31 | Opcode::PUSH32 => {
            if vm.stack.len() >= STACK_LEN {
                return StepResult::Faulted(VmError::StackOverflow);
            }
            let n = op.push_index() + 1;
            let mut window: Vec<u8> = Vec::new();
            let mut k: usize = 0;
            while k < n
                invariant
                    k <= n <= 32,
                    pc < MAX_CODESIZE,
                    rom.initialized(),
                    bc == rom.bytecode_view(),
                    window@.len() == k,
                    forall|t: int| 0 <= t < k ==> window@[t] == spec_code_byte(bc, pc + 1 + t),
                decreases n - k,
            {
                let p = pc + 1 + k;
                let byte = if p < MAX_CODESIZE {
                    rom.code_byte(p)
                } else {
                    0
                };
                proof {
                    if p >= MAX_CODESIZE {
                        assert(spec_code_byte(bc, p as int) == 0);
                    }
                }
                window.push(byte);
                k = k + 1;
            }
            let value = crate::u256::u256_from_be_bytes(window.as_slice());
            proof {
                assert(window@ =~= Seq::new(n as nat, |t: int| spec_code_byte(bc, pc + 1 + t)));
                lemma_from_nat_as_nat(value);
                assert(value == spec_push_value(bc, pc as nat, n as nat));
            }
            vm.stack.push(value);
            vm.pc = pc + 1 + n;
            StepResult::Continue
        },
        Opcode::DUP1 | Opcode::DUP2 | Opcode::DUP3 | Opcode::DUP4 | Opcode::DUP5 | Opcode::DUP6
            | Opcode::DUP7 | Opcode::DUP8 | Opcode::DUP9 | Opcode::DUP10 | Opcode::DUP11
            | Opcode::DUP12 | Opcode::DUP13 | Opcode::DUP14 | Opcode::DUP15 | Opcode::DUP16 => {
            let n = op.dup_index();
            if vm.stack.len() < n + 1 {
                return StepResult::Faulted(VmError::StackUnderflow);
            }
            if vm.stack.len() >= STACK_LEN {
                return StepResult::Faulted(VmError::StackOverflow);
            }
            let value = vm.stack.peekn(n);
            vm.stack.push(value);
            vm.pc = pc + 1;
            StepResult::Continue
        },
        Opcode::SWAP1 | Opcode::SWAP2 | Opcode::SWAP3 | Opcode::SWAP4 | Opcode::SWAP5
            | Opcode::SWAP6 | Opcode::SWAP7 | Opcode::SWAP8 | Opcode::SWAP9 | Opcode::SWAP10
            | Opcode::SWAP11 | Opcode::SWAP12 | Opcode::SWAP13 | Opcode::SWAP14 | Opcode::SWAP15
            | Opcode::SWAP16 => {
            let k = op.swap_index() + 1;
            if vm.stack.len() < k + 1 {
                return StepResult::Faulted(VmError::StackUnderflow);
            }
            let top = vm.stack.peek();
            let prev = vm.stack.set(k, top);
            let _ = vm.stack.set(0, prev);
            vm.pc = pc + 1;
            proof {
                let len = pre.stack.len();
                let n = (opcode_ordinal(spec_decode(b)) - 73) as nat;
                assert(vm.stack@ =~= pre.stack.update(len - 1, pre.stack[len - 2 - n]).update(
                    len - 2 - n,
                    pre.stack.last(),
                ));
            }
            StepResult::Continue
        },
        Opcode::STOP | Opcode::RETURN | Opcode::INVALID | Opcode::GAS => {
            if vm.stack.len() < 1 {
                return StepResult::Faulted(VmError::StackUnderflow);
            }
            StepResult::Halted(vm.stack.peek())
        },
        Opcode::JUMPDEST => {
            vm.pc = pc + 1;
            StepResult::Continue
        },
        Opcode::POP => {
            if vm.stack.len() < 1 {
                return StepResult::Faulted(VmError::StackUnderflow);
            }
            let _ = vm.stack.pop();
            vm.pc = pc + 1;
            StepResult::Continue
        },
        Opcode::ADD => {
            if vm.stack.len() < 2 {
                return StepResult::Faulted(VmError::StackUnderflow);
            }
            let x = vm.stack.pop();
            let y = vm.stack.pop();
            vm.stack.push(crate::u256::add_u256(x, y));
            vm.pc = pc + 1;
            StepResult::Continue
        },
        Opcode::MUL => {
            if vm.stack.len() < 2 {
                return StepResult::Faulted(VmError::StackUnderflow);
            }
            let x = vm.stack.pop();
            let y = vm.stack.pop();
            vm.stack.push(crate::u256::mul_u256(x, y));
            vm.pc = pc + 1;
            StepResult::Continue
        },
        Opcode::SUB => {
            if vm.stack.len() < 2 {
                return StepResult::Faulted(VmError::StackUnderflow);
            }
            let x = vm.stack.pop();
            let y = vm.stack.pop();
            vm.stack.push(crate::u256::sub_u256(x, y));
            vm.pc = pc + 1;
            StepResult::Continue
        },
        Opcode::SIGNEXTEND => {
            if vm.stack.len() < 2 {
                return StepResult::Faulted(VmError::StackUnderflow);
            }
            let x = vm.stack.pop();
            let y = vm.stack.pop();
            vm.stack.push(crate::u256::signextend_u256(x, y));
            vm.pc = pc + 1;
            StepResult::Continue
        },
        Opcode::GT => {
            if vm.stack.len() < 2 {
                return StepResult::Faulted(VmError::StackUnderflow);
            }
            let x = vm.stack.pop();
            let y = vm.stack.pop();
            let g = crate::u256::gt_u256(x, y);
            let r = U256::from_u64(if g {
                1
            } else {
                0
            });
            proof {
                assert(r == spec_gt(x, y));
            }
            vm.stack.push(r);
            vm.pc = pc + 1;
            StepResult::Continue
        },
        Opcode::EQ => {
            if vm.stack.len() < 2 {
                return StepResult::Faulted(VmError::StackUnderflow);
            }
            let x = vm.stack.pop();
            let y = vm.stack.pop();
            vm.stack.push(crate::u256::eq_u256(x, y));
            vm.pc = pc + 1;
            StepResult::Continue
        },
        Opcode::ISZERO => {
            if vm.stack.len() < 1 {
                return StepResult::Faulted(VmError::StackUnderflow);
            }
            let x = vm.stack.pop();
            vm.stack.push(crate::u256::iszero_u256(x));
            vm.pc = pc + 1;
            StepResult::Continue
        },
        Opcode::AND => {
            if vm.stack.len() < 2 {
                return StepResult::Faulted(VmError::StackUnderflow);
            }
            let x = vm.stack.pop();
            let y = vm.stack.pop();
            vm.stack.push(crate::u256::and_u256(x, y));
            vm.pc = pc + 1;
            StepResult::Continue
        },
        Opcode::OR => {
            if vm.stack.len() < 2 {
                return StepResult::Faulted(VmError::StackUnderflow);
            }
            let x = vm.stack.pop();
            let y = vm.stack.pop();
            vm.stack.push(crate::u256::or_u256(x, y));
            vm.pc = pc + 1;
            StepResult::Continue
        },
        Opcode::XOR => {
            if vm.stack.len() < 2 {
                return StepResult::Faulted(VmError::StackUnderflow);
            }
            let x = vm.stack.pop();
            let y = vm.stack.pop();
            vm.stack.push(crate::u256::xor_u256(x, y));
            vm.pc = pc + 1;
            StepResult::Continue
        },
        Opcode::NOT => {
            if vm.stack.len() < 1 {
                return StepResult::Faulted(VmError::StackUnderflow);
            }
            let x = vm.stack.pop();
            vm.stack.push(crate::u256::not_u256(x));
            vm.pc = pc + 1;
            StepResult::Continue
        },
        Opcode::BYTE => {
            if vm.stack.len() < 2 {
                return StepResult::Faulted(VmError::StackUnderflow);
            }
            let x = vm.stack.pop();
            let y = vm.stack.pop();
            vm.stack.push(crate::u256::byte_u256(x, y));
            vm.pc = pc + 1;
            StepResult::Continue
        },
        Opcode::SHL => {
            if vm.stack.len() < 2 {
                return StepResult::Faulted(VmError::StackUnderflow);
            }
            let x = vm.stack.pop();
            let y = vm.stack.pop();
            vm.stack.push(crate::u256::shl_u256(x, y));
            vm.pc = pc + 1;
            StepResult::Continue
        },
        Opcode::CODESIZE => {
            if vm.stack.len() >= STACK_LEN {
                return StepResult::Faulted(VmError::StackOverflow);
            }
            let r = U256::from_u64(rom.code_size() as u64);
            vm.stack.push(r);
            vm.pc = pc + 1;
            StepResult::Continue
        },
        Opcode::PC => {
            if vm.stack.len() >= STACK_LEN {
                return StepResult::Faulted(VmError::StackOverflow);
            }
            let r = U256::from_u64(pc as u64);
            vm.stack.push(r);
            vm.pc = pc + 1;
            StepResult::Continue
        },
        Opcode::MSIZE => {
            if vm.stack.len() >= STACK_LEN {
                return StepResult::Faulted(VmError::StackOverflow);
            }
            let r = U256::from_u64(memory.size() as u64);
            vm.stack.push(r);
            vm.pc = pc + 1;
            StepResult::Continue
        },
        Opcode::MLOAD => {
            if vm.stack.len() < 1 {
                return StepResult::Faulted(VmError::StackUnderflow);
            }
            let x = vm.stack.pop();
            if !crate::u256::is_ltpow2_u256(x, (MEMORY_CAPACITY - 31) as u64) {
                return StepResult::Faulted(VmError::MemoryCapacityExceeded);
            }
            proof {
                lemma_limb_extract(x);
                lemma_pow2_limb_values();
                lemma_small_mod(u256_as_nat(x), pow2(64));
            }
            let off = x.low_u64() as usize;
            let v = memory.read(off);
            vm.stack.push(v);
            vm.pc = pc + 1;
            StepResult::Continue
        },
        Opcode::MSTORE => {
            if vm.stack.len() < 2 {
                return StepResult::Faulted(VmError::StackUnderflow);
            }
            let x = vm.stack.pop();
            let y = vm.stack.pop();
            if !crate::u256::is_ltpow2_u256(x, (MEMORY_CAPACITY - 31) as u64) {
                return StepResult::Faulted(VmError::MemoryCapacityExceeded);
            }
            proof {
                lemma_limb_extract(x);
                lemma_pow2_limb_values();
                lemma_small_mod(u256_as_nat(x), pow2(64));
            }
            let off = x.low_u64() as usize;
            memory.write(off, y);
            vm.pc = pc + 1;
            StepResult::Continue
        },
        Opcode::MSTORE8 => {
            if vm.stack.len() < 2 {
                return StepResult::Faulted(VmError::StackUnderflow);
            }
            let x = vm.stack.pop();
            let y = vm.stack.pop();
            if !crate::u256::is_ltpow2_u256(x, MEMORY_CAPACITY as u64) {
                return StepResult::Faulted(VmError::MemoryCapacityExceeded);
            }
            proof {
                lemma_limb_extract(x);
                lemma_limb_extract(y);
                lemma_pow2_limb_values();
                lemma_small_mod(u256_as_nat(x), pow2(64));
                vstd::arithmetic::power2::lemma2_to64_rest();
                vstd::arithmetic::power2::lemma_pow2_adds(8, 56);
                lemma_mod_mod(u256_as_nat(y) as int, 256, pow2(56) as int);
            }
            let off = x.low_u64() as usize;
            let byte = (y.low_u64() % 256) as u8;
            memory.write_byte(off, byte);
            vm.pc = pc + 1;
            StepResult::Continue
        },
        Opcode::JUMP => {
            if vm.stack.len() < 1 {
                return StepResult::Faulted(VmError::StackUnderflow);
            }
            let x = vm.stack.pop();
            let in_bounds = crate::u256::is_ltpow2_u256(x, MAX_CODESIZE as u64);
            proof {
                if in_bounds {
                    lemma_limb_extract(x);
                    lemma_pow2_limb_values();
                    lemma_small_mod(u256_as_nat(x), pow2(64));
                }
            }
            let low = x.low_u64();
            if in_bounds && rom.is_jumpdest(low) {
                vm.pc = low as usize;
                StepResult::Continue
            } else {
                StepResult::Faulted(VmError::InvalidJumpDest)
            }
        },
        Opcode::JUMPI => {
            if vm.stack.len() < 2 {
                return StepResult::Faulted(VmError::StackUnderflow);
            }
            let x = vm.stack.pop();
            let cond = vm.stack.pop();
            if crate::u256::is_zero_u256(cond) {
                vm.pc = pc + 1;
                StepResult::Continue
            } else {
                let in_bounds = crate::u256::is_ltpow2_u256(x, MAX_CODESIZE as u64);
                proof {
                    if in_bounds {
                        lemma_limb_extract(x);
                        lemma_pow2_limb_values();
                        lemma_small_mod(u256_as_nat(x), pow2(64));
                    }
                }
                let low = x.low_u64();
                if in_bounds && rom.is_jumpdest(low) {
                    vm.pc = low as usize;
                    StepResult::Continue
                } else {
                    StepResult::Faulted(VmError::InvalidJumpDest)
                }
            }
        },
    }
}

/// Runs the machine from program counter zero for at most `max_steps`
/// instructions.
///
/// A `Halted` value is exactly the value with which the specification
/// machine, started on this ROM's bytecode and this memory, halts within
/// `max_steps` steps; a `Faulted` error is the fault it reaches; and
/// `Continue` says the machine is still running after `max_steps` steps.
pub fn run_evm(rom: &VmRom, memory: &mut VmMemory, max_steps: u64) -> (r: StepResult)
    requires
        rom.initialized(),
        old(memory).wf(),
    ensures
        final(memory).wf(),
        ({
            let s0 = VmState {
                pc: 0,
                stack: Seq::empty(),
                mem: old(memory).contents(),
                mem_words: old(memory).words(),
            };
            match r {
                StepResult::Halted(v) => exists|n: nat|
                    n <= max_steps && spec_steps(rom.bytecode_view(), s0, n) == Outcome::Halted(v),
                StepResult::Faulted(e) => exists|n: nat|
                    n <= max_steps && spec_steps(rom.bytecode_view(), s0, n) == Outcome::Faulted(
                        e,
                    ),
                StepResult::Continue => spec_steps(rom.bytecode_view(), s0, max_steps as nat)
                    is Running,
            }
        }),
{
    let ghost bc = rom.bytecode_view();
    let ghost s0 = VmState {
        pc: 0,
        stack: Seq::empty(),
        mem: old(memory).contents(),
        mem_words: old(memory).words(),
    };
    let mut vm = vm_new();
    let mut i: u64 = 0;
    proof {
        assert(vm.stack@ =~= Seq::<U256>::empty());
        assert(spec_steps(bc, s0, 0) == Outcome::Running(vm_as_state(&vm, memory)));
    }
    while i < max_steps
        invariant
            rom.initialized(),
            bc == rom.bytecode_view(),
            s0 == (VmState {
                pc: 0,
                stack: Seq::empty(),
                mem: old(memory).contents(),
                mem_words: old(memory).words(),
            }),
            memory.wf(),
            vm.stack@.len() <= STACK_LEN,
            i <= max_steps,
            spec_steps(bc, s0, i as nat) == Outcome::Running(vm_as_state(&vm, memory)),
        decreases max_steps - i,
    {
        let ghost pre = vm_as_state(&vm, memory);
        let res = step(&mut vm, rom, memory);
        proof {
            assert(spec_steps(bc, s0, (i + 1) as nat) == (match spec_step(bc, pre) {
                Transition::Next(s2) => Outcome::Running(s2),
                Transition::Halt(v) => Outcome::Halted(v),
                Transition::Fault(e) => Outcome::Faulted(e),
            }));
        }
        match res {
            StepResult::Continue => {
            },
            StepResult::Halted(v) => {
                proof {
                    assert(spec_steps(bc, s0, (i + 1) as nat) == Outcome::Halted(v));
                }
                return StepResult::Halted(v);
            },
            StepResult::Faulted(e) => {
                proof {
                    assert(spec_steps(bc, s0, (i + 1) as nat) == Outcome::Faulted(e));
                }
                return StepResult::Faulted(e);
            },
        }
        i = i + 1;
    }
    StepResult::Continue
}

} // verus!
