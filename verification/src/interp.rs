//! The stack-machine interpreter: a stack of values, a program, and an
//! instruction pointer, executed one instruction at a time against a byte
//! output sink. Each step either runs on, or halts with a terminal status:
//! normal exit, a machine-detected error, or a program-requested panic.
//! A pop from an empty stack halts at once; values popped earlier in the
//! same step stay discarded.

use crate::data::Data;
use crate::instruction::{Instruction, OpCode, Operands};
use crate::program::Program;
use crate::text::{is_scalar_value, push_bytes};
use vstd::prelude::*;
use vstd::utf8::encode_scalar;

verus! {

/// What one step produced.
#[derive(Debug, Clone, Copy, Eq, PartialEq)]
pub enum StepResult {
    Running,
    Error(RuntimeError),
    Panic(&'static str),
    Exit,
}

/// A machine-detected fault; each halts execution at once.
#[derive(Debug, Clone, Copy, Eq, PartialEq, Structural)]
pub enum RuntimeError {
    IncompatibleType,
    NotEnoughArgs,
    InvalidValue,
    Other,
}

/// How a run ended.
#[derive(Debug, Clone, Copy, Eq, PartialEq, Structural)]
pub enum ExitStatus {
    Success,
    Error(RuntimeError),
    Panic,
}

/// The machine: a value stack, the loaded program, and the index of the next
/// instruction.
#[derive(Debug, Clone)]
pub struct Interpreter {
    pub stack: Vec<Data>,
    pub program: Program,
    pub ip: usize,
}

/// The mathematical machine state: the stack, the instruction pointer, and
/// everything written to the output so far.
pub struct VmState {
    pub stack: Seq<Data>,
    pub ip: nat,
    pub out: Seq<u8>,
}

/// What one step does: the step's result, the stack and instruction pointer
/// after it, and the bytes it wrote.
pub struct StepEffect {
    pub result: StepResult,
    pub stack: Seq<Data>,
    pub ip: nat,
    pub out: Seq<u8>,
}

/// A step that halts with `e`, leaving `stack` as it stands and writing
/// nothing.
pub open spec fn halt_with(e: RuntimeError, stack: Seq<Data>, ip: nat) -> StepEffect {
    StepEffect { result: StepResult::Error(e), stack, ip, out: Seq::empty() }
}

/// Whether two values are of the same variant, so that arithmetic between
/// them is defined.
pub open spec fn same_variant(a: Data, b: Data) -> bool {
    match (a, b) {
        (Data::Int(_), Data::Int(_)) => true,
        (Data::Float(_), Data::Float(_)) => true,
        _ => false,
    }
}

/// What a binary arithmetic step does once both operands are popped: a halt
/// with `IncompatibleType` across variants, a halt with `InvalidValue` when
/// the decimal result is out of range, and a push of the result
/// otherwise. `rest` is the stack under the two popped operands.
pub open spec fn arith_effect(res: Option<Data>, a: Data, b: Data, rest: Seq<Data>, ip: nat) -> StepEffect {
    if !same_variant(a, b) {
        halt_with(RuntimeError::IncompatibleType, rest, ip)
    } else {
        match res {
            Some(x) => StepEffect {
                result: StepResult::Running,
                stack: rest.push(x),
                ip: ip + 1,
                out: Seq::empty(),
            },
            None => halt_with(RuntimeError::InvalidValue, rest, ip),
        }
    }
}

/// The transition of one step from `(stack, ip)` under `prog`: a fetch past
/// the end exits; otherwise the instruction at `ip` is dispatched as the
/// per-step algorithm of the machine prescribes.
pub open spec fn step_spec(prog: Seq<Instruction>, stack: Seq<Data>, ip: nat) -> StepEffect {
    if ip >= prog.len() {
        StepEffect { result: StepResult::Exit, stack, ip, out: Seq::empty() }
    } else {
        let instr = prog[ip as int];
        let len = stack.len();
        match instr.op_code {
            OpCode::PushInt | OpCode::PushFloat => match instr.operands {
                Operands::One(d) => StepEffect {
                    result: StepResult::Running,
                    stack: stack.push(d),
                    ip: ip + 1,
                    out: Seq::empty(),
                },
                Operands::Zero => StepEffect {
                    result: StepResult::Running,
                    stack,
                    ip: ip + 1,
                    out: Seq::empty(),
                },
            },
            OpCode::Print => if len == 0 {
                halt_with(RuntimeError::NotEnoughArgs, stack, ip)
            } else {
                StepEffect {
                    result: StepResult::Running,
                    stack: stack.drop_last(),
                    ip: ip + 1,
                    out: stack.last().text_spec(),
                }
            },
            OpCode::PrintChar => if len == 0 {
                halt_with(RuntimeError::NotEnoughArgs, stack, ip)
            } else {
                let rest = stack.drop_last();
                match stack.last() {
                    Data::Int(i) => if 0 <= i <= 0x10FFFF && is_scalar_value(i as u32) {
                        StepEffect {
                            result: StepResult::Running,
                            stack: rest,
                            ip: ip + 1,
                            out: encode_scalar(i as u32),
                        }
                    } else {
                        halt_with(RuntimeError::InvalidValue, rest, ip)
                    },
                    Data::Float(_) => halt_with(RuntimeError::IncompatibleType, rest, ip),
                }
            },
            OpCode::Add | OpCode::Sub | OpCode::Mul => if len == 0 {
                halt_with(RuntimeError::NotEnoughArgs, stack, ip)
            } else if len == 1 {
                halt_with(RuntimeError::NotEnoughArgs, stack.drop_last(), ip)
            } else {
                let a = stack.last();
                let b = stack.drop_last().last();
                let rest = stack.drop_last().drop_last();
                let res = match instr.op_code {
                    OpCode::Add => Data::add_spec(a, b),
                    OpCode::Sub => Data::sub_spec(b, a),
                    _ => Data::mul_spec(a, b),
                };
                arith_effect(res, a, b, rest, ip)
            },
            OpCode::Eq | OpCode::Gr | OpCode::Less => if len == 0 {
                halt_with(RuntimeError::NotEnoughArgs, stack, ip)
            } else if len == 1 {
                halt_with(RuntimeError::NotEnoughArgs, stack.drop_last(), ip)
            } else {
                let a = stack.last();
                let b = stack.drop_last().last();
                let rest = stack.drop_last().drop_last();
                let cond = match instr.op_code {
                    OpCode::Eq => b.num28() == a.num28(),
                    OpCode::Gr => b.num28() > a.num28(),
                    _ => b.num28() < a.num28(),
                };
                StepEffect {
                    result: StepResult::Running,
                    stack: rest.push(
                        Data::Int(
                            if cond {
                                1
                            } else {
                                0
                            },
                        ),
                    ),
                    ip: ip + 1,
                    out: Seq::empty(),
                }
            },
            OpCode::Not => if len == 0 {
                halt_with(RuntimeError::NotEnoughArgs, stack, ip)
            } else {
                StepEffect {
                    result: StepResult::Running,
                    stack: stack.push(
                        Data::Int(
                            if stack.last().num28() == 0 {
                                1
                            } else {
                                0
                            },
                        ),
                    ),
                    ip: ip + 1,
                    out: Seq::empty(),
                }
            },
            OpCode::Dup => if len == 0 {
                halt_with(RuntimeError::NotEnoughArgs, stack, ip)
            } else {
                StepEffect {
                    result: StepResult::Running,
                    stack: stack.push(stack.last()),
                    ip: ip + 1,
                    out: Seq::empty(),
                }
            },
            OpCode::Jump => match instr.operands {
                Operands::One(Data::Int(t)) => StepEffect {
                    result: StepResult::Running,
                    stack,
                    ip: (t as usize) as nat,
                    out: Seq::empty(),
                },
                _ => halt_with(RuntimeError::InvalidValue, stack, ip),
            },
            OpCode::CJump => if len == 0 {
                halt_with(RuntimeError::NotEnoughArgs, stack, ip)
            } else {
                match stack.last() {
                    Data::Int(c) => if c > 0 {
                        match instr.operands {
                            Operands::One(Data::Int(t)) => StepEffect {
                                result: StepResult::Running,
                                stack,
                                ip: (t as usize) as nat,
                                out: Seq::empty(),
                            },
                            _ => halt_with(RuntimeError::InvalidValue, stack, ip),
                        }
                    } else {
                        StepEffect {
                            result: StepResult::Running,
                            stack,
                            ip: ip + 1,
                            out: Seq::empty(),
                        }
                    },
                    Data::Float(_) => halt_with(RuntimeError::InvalidValue, stack, ip),
                }
            },
            OpCode::Panic => StepEffect {
                result: StepResult::Panic("Panic from code"),
                stack,
                ip,
                out: Seq::empty(),
            },
            OpCode::Exit => StepEffect { result: StepResult::Exit, stack, ip, out: Seq::empty() },
            OpCode::Nop => StepEffect {
                result: StepResult::Running,
                stack,
                ip: ip + 1,
                out: Seq::empty(),
            },
        }
    }
}

/// The machine state after `k` steps from `s` under `prog`, together with
/// the last step's result: `Running` while no step has halted, and the
/// terminal result — with the state frozen where it halted — afterwards.
pub open spec fn multi_step(prog: Seq<Instruction>, s: VmState, k: nat) -> (VmState, StepResult)
    decreases k,
{
    if k == 0 {
        (s, StepResult::Running)
    } else {
        let (s1, r1) = multi_step(prog, s, (k - 1) as nat);
        if r1 != StepResult::Running {
            (s1, r1)
        } else {
            let eff = step_spec(prog, s1.stack, s1.ip);
            (VmState { stack: eff.stack, ip: eff.ip, out: s1.out + eff.out }, eff.result)
        }
    }
}

/// What a finished run guarantees, witnessed by its step count `k`: after
/// `k` steps from `s0` the machine halted with a terminal result matching
/// `status`, leaving exactly this stack, instruction pointer and output —
/// with the panic diagnostic appended when the program panicked.
pub open spec fn run_post(
    prog: Seq<Instruction>,
    s0: VmState,
    stack1: Seq<Data>,
    ip1: nat,
    out1: Seq<u8>,
    status: ExitStatus,
    k: nat,
) -> bool {
    let (s1, r1) = multi_step(prog, s0, k);
    &&& s1.stack == stack1
    &&& s1.ip == ip1
    &&& match r1 {
        StepResult::Exit => status == ExitStatus::Success && out1 == s1.out,
        StepResult::Error(e) => status == ExitStatus::Error(e) && out1 == s1.out,
        StepResult::Panic(m) => status == ExitStatus::Panic && out1 == s1.out + panic_text(m@),
        StepResult::Running => false,
    }
}

impl Interpreter {
    /// The machine invariant: the loaded program and every stacked value are
    /// well formed.
    pub open spec fn wf(self) -> bool {
        &&& self.program.wf()
        &&& forall|i: int| 0 <= i < self.stack@.len() ==> (#[trigger] self.stack@[i]).wf()
    }

    /// A fresh machine: empty stack, empty program, instruction pointer at
    /// zero.
    pub fn new() -> (r: Interpreter)
        ensures
            r.stack@ == Seq::<Data>::empty(),
            r.program.ops@ == Seq::<Instruction>::empty(),
            r.ip == 0,
            r.wf(),
    {
        Interpreter { stack: Vec::new(), program: Program::new(), ip: 0 }
    }

    /// Replace the loaded program wholesale; stack and instruction pointer
    /// stay as they are.
    pub fn load_program(&mut self, program: Program)
        ensures
            final(self).program == program,
            final(self).stack@ == old(self).stack@,
            final(self).ip == old(self).ip,
    {
        self.program = program;
    }

    /// Set the instruction pointer.
    pub fn goto(&mut self, ip: usize)
        ensures
            final(self).ip == ip,
            final(self).stack@ == old(self).stack@,
            final(self).program == old(self).program,
    {
        self.ip = ip;
    }

    /// The value stack, bottom first.
    pub fn stack(&self) -> (r: &Vec<Data>)
        ensures
            r@ == self.stack@,
    {
        &self.stack
    }

    /// Execute one instruction: fetch at the instruction pointer, dispatch,
    /// and either advance or halt, exactly as `step_spec` prescribes —
    /// including which bytes the step writes to `output`.
    pub fn step(&mut self, output: &mut Vec<u8>) -> (r: StepResult)
        requires
            old(self).wf(),
        ensures
            ({
                let eff = step_spec(old(self).program.ops@, old(self).stack@, old(self).ip as nat);
                &&& r == eff.result
                &&& final(self).stack@ == eff.stack
                &&& final(self).ip as nat == eff.ip
                &&& final(self).program == old(self).program
                &&& final(output)@ == old(output)@ + eff.out
                &&& final(self).wf()
            }),
    {
        let ghost stack0 = self.stack@;
        let plen: usize = self.program.ops.len();
        if self.ip >= plen {
            assert(output@ =~= output@ + Seq::<u8>::empty());
            return StepResult::Exit;
        }
        let instr: Instruction = self.program.ops[self.ip];
        assert(instr.wf());
        match instr.op_code {
            OpCode::PushInt | OpCode::PushFloat => {
                if let Operands::One(d) = instr.operands {
                    self.stack.push(d);
                }
                self.ip = self.ip + 1;
                assert(output@ =~= output@ + Seq::<u8>::empty());
                StepResult::Running
            },
            OpCode::Print => {
                let top = match self.stack.pop() {
                    Some(a) => a,
                    None => {
                        assert(output@ =~= output@ + Seq::<u8>::empty());
                        return StepResult::Error(RuntimeError::NotEnoughArgs);
                    },
                };
                assert(top.wf());
                let mut text = top.to_text();
                output.append(&mut text);
                self.ip = self.ip + 1;
                assert(self.stack@ =~= stack0.drop_last());
                StepResult::Running
            },
            OpCode::PrintChar => {
                let top = match self.stack.pop() {
                    Some(a) => a,
                    None => {
                        assert(output@ =~= output@ + Seq::<u8>::empty());
                        return StepResult::Error(RuntimeError::NotEnoughArgs);
                    },
                };
                assert(self.stack@ =~= stack0.drop_last());
                let iv: i64 = match top {
                    Data::Int(i) => i,
                    Data::Float(_) => {
                        assert(output@ =~= output@ + Seq::<u8>::empty());
                        return StepResult::Error(RuntimeError::IncompatibleType);
                    },
                };
                if iv >= 0 && iv <= 0x10FFFF {
                    let v: u32 = iv as u32;
                    if v < 0xD800 || v >= 0xE000 {
                        let mut text = crate::text::fmt_scalar(v);
                        output.append(&mut text);
                        self.ip = self.ip + 1;
                        StepResult::Running
                    } else {
                        assert(output@ =~= output@ + Seq::<u8>::empty());
                        StepResult::Error(RuntimeError::InvalidValue)
                    }
                } else {
                    assert(output@ =~= output@ + Seq::<u8>::empty());
                    StepResult::Error(RuntimeError::InvalidValue)
                }
            },
            OpCode::Add | OpCode::Sub | OpCode::Mul => {
                assert(output@ =~= output@ + Seq::<u8>::empty());
                let a = match self.stack.pop() {
                    Some(a) => a,
                    None => {
                        return StepResult::Error(RuntimeError::NotEnoughArgs);
                    },
                };
                let b = match self.stack.pop() {
                    Some(a) => a,
                    None => {
                        assert(self.stack@ =~= stack0.drop_last());
                        return StepResult::Error(RuntimeError::NotEnoughArgs);
                    },
                };
                assert(a.wf() && b.wf());
                assert(self.stack@ =~= stack0.drop_last().drop_last());
                let res = match instr.op_code {
                    OpCode::Add => a.add(&b),
                    OpCode::Sub => b.sub(&a),
                    _ => a.mul(&b),
                };
                match res {
                    Some(x) => {
                        self.stack.push(x);
                        self.ip = self.ip + 1;
                        StepResult::Running
                    },
                    None => {
                        let same = match (&a, &b) {
                            (Data::Int(_), Data::Int(_)) => true,
                            (Data::Float(_), Data::Float(_)) => true,
                            _ => false,
                        };
                        if same {
                            StepResult::Error(RuntimeError::InvalidValue)
                        } else {
                            StepResult::Error(RuntimeError::IncompatibleType)
                        }
                    },
                }
            },
            OpCode::Eq | OpCode::Gr | OpCode::Less => {
                assert(output@ =~= output@ + Seq::<u8>::empty());
                let a = match self.stack.pop() {
                    Some(a) => a,
                    None => {
                        return StepResult::Error(RuntimeError::NotEnoughArgs);
                    },
                };
                let b = match self.stack.pop() {
                    Some(a) => a,
                    None => {
                        assert(self.stack@ =~= stack0.drop_last());
                        return StepResult::Error(RuntimeError::NotEnoughArgs);
                    },
                };
                assert(a.wf() && b.wf());
                assert(self.stack@ =~= stack0.drop_last().drop_last());
                let cond = match instr.op_code {
                    OpCode::Eq => b == a,
                    OpCode::Gr => b > a,
                    _ => b < a,
                };
                self.stack.push(
                    Data::Int(
                        if cond {
                            1
                        } else {
                            0
                        },
                    ),
                );
                self.ip = self.ip + 1;
                StepResult::Running
            },
            OpCode::Not => {
                assert(output@ =~= output@ + Seq::<u8>::empty());
                if self.stack.len() == 0 {
                    return StepResult::Error(RuntimeError::NotEnoughArgs);
                }
                let top = self.stack[self.stack.len() - 1];
                assert(top.wf());
                let zero = match top {
                    Data::Int(a) => {
                        proof {
                            crate::data::lemma_scale_order(a as int, 0);
                        }
                        a == 0
                    },
                    Data::Float(d) => d.is_zero(),
                };
                self.stack.push(
                    Data::Int(
                        if zero {
                            1
                        } else {
                            0
                        },
                    ),
                );
                self.ip = self.ip + 1;
                StepResult::Running
            },
            OpCode::Dup => {
                assert(output@ =~= output@ + Seq::<u8>::empty());
                if self.stack.len() == 0 {
                    return StepResult::Error(RuntimeError::NotEnoughArgs);
                }
                let top = self.stack[self.stack.len() - 1];
                self.stack.push(top);
                self.ip = self.ip + 1;
                StepResult::Running
            },
            OpCode::Jump => {
                assert(output@ =~= output@ + Seq::<u8>::empty());
                if let Operands::One(Data::Int(t)) = instr.operands {
                    self.ip = #[verifier::truncate] (t as usize);
                    StepResult::Running
                } else {
                    StepResult::Error(RuntimeError::InvalidValue)
                }
            },
            OpCode::CJump => {
                assert(output@ =~= output@ + Seq::<u8>::empty());
                if self.stack.len() == 0 {
                    return StepResult::Error(RuntimeError::NotEnoughArgs);
                }
                match self.stack[self.stack.len() - 1] {
                    Data::Int(c) => {
                        if c > 0 {
                            if let Operands::One(Data::Int(t)) = instr.operands {
                                self.ip = #[verifier::truncate] (t as usize);
                                StepResult::Running
                            } else {
                                StepResult::Error(RuntimeError::InvalidValue)
                            }
                        } else {
                            self.ip = self.ip + 1;
                            StepResult::Running
                        }
                    },
                    Data::Float(_) => StepResult::Error(RuntimeError::InvalidValue),
                }
            },
            OpCode::Panic => {
                assert(output@ =~= output@ + Seq::<u8>::empty());
                StepResult::Panic("Panic from code")
            },
            OpCode::Exit => {
                assert(output@ =~= output@ + Seq::<u8>::empty());
                StepResult::Exit
            },
            OpCode::Nop => {
                assert(output@ =~= output@ + Seq::<u8>::empty());
                self.ip = self.ip + 1;
                StepResult::Running
            },
        }
    }

    /// Step repeatedly until a terminal result, and report how the run
    /// ended. On a panic the diagnostic is written to the output. The loop
    /// is bounded by a fuel of `u64::MAX` steps so that it provably makes
    /// progress; a program still running after that many steps — which no
    /// feasible execution reaches — stops with `Error(Other)`.
    pub fn run(&mut self, output: &mut Vec<u8>) -> (r: ExitStatus)
        requires
            old(self).wf(),
        ensures
            final(self).program == old(self).program,
            final(self).wf(),
            ({
                let s0 = VmState {
                    stack: old(self).stack@,
                    ip: old(self).ip as nat,
                    out: old(output)@,
                };
                ||| exists|k: nat|
                    run_post(
                        old(self).program.ops@,
                        s0,
                        final(self).stack@,
                        final(self).ip as nat,
                        final(output)@,
                        r,
                        k,
                    )
                ||| ({
                    let (s1, r1) = multi_step(old(self).program.ops@, s0, u64::MAX as nat);
                    &&& r1 == StepResult::Running
                    &&& r == ExitStatus::Error(RuntimeError::Other)
                    &&& s1.stack == final(self).stack@
                    &&& s1.ip == final(self).ip as nat
                    &&& final(output)@ == s1.out
                })
            }),
    {
        let ghost program0 = self.program;
        let ghost prog = self.program.ops@;
        let ghost s0 = VmState { stack: self.stack@, ip: self.ip as nat, out: output@ };
        let ghost mut k: nat = 0;
        let mut fuel: u64 = u64::MAX;
        while fuel > 0
            invariant
                self.wf(),
                self.program == program0,
                program0 == old(self).program,
                prog == program0.ops@,
                s0 == (VmState {
                    stack: old(self).stack@,
                    ip: old(self).ip as nat,
                    out: old(output)@,
                }),
                k + fuel == u64::MAX as nat,
                multi_step(prog, s0, k) == (
                    VmState { stack: self.stack@, ip: self.ip as nat, out: output@ },
                    StepResult::Running,
                ),
            decreases fuel,
        {
            let ghost prev = VmState { stack: self.stack@, ip: self.ip as nat, out: output@ };
            let sr = self.step(output);
            fuel = fuel - 1;
            proof {
                k = k + 1;
                let eff = step_spec(prog, prev.stack, prev.ip);
                assert(prev.out + eff.out =~= output@);
                assert(multi_step(prog, s0, k) == (
                    VmState { stack: self.stack@, ip: self.ip as nat, out: output@ },
                    sr,
                ));
            }
            match sr {
                StepResult::Running => {},
                StepResult::Error(e) => {
                    proof {
                        assert(run_post(
                            prog,
                            s0,
                            self.stack@,
                            self.ip as nat,
                            output@,
                            ExitStatus::Error(e),
                            k,
                        ));
                    }
                    return ExitStatus::Error(e);
                },
                StepResult::Panic(m) => {
                    self.panic(output, m);
                    proof {
                        assert(run_post(
                            prog,
                            s0,
                            self.stack@,
                            self.ip as nat,
                            output@,
                            ExitStatus::Panic,
                            k,
                        ));
                    }
                    return ExitStatus::Panic;
                },
                StepResult::Exit => {
                    proof {
                        assert(run_post(
                            prog,
                            s0,
                            self.stack@,
                            self.ip as nat,
                            output@,
                            ExitStatus::Success,
                            k,
                        ));
                    }
                    return ExitStatus::Success;
                },
            }
        }
        ExitStatus::Error(RuntimeError::Other)
    }

    /// Write the panic diagnostic for `error` to the output.
    pub fn panic(&mut self, output: &mut Vec<u8>, error: &str)
        ensures
            *final(self) == *old(self),
            final(output)@ == old(output)@ + panic_text(error@),
    {
        let ghost pre = output@;
        push_bytes(output, "Oops...\n".as_bytes());
        push_bytes(output, "Error occurs: ".as_bytes());
        push_bytes(output, error.as_bytes());
        push_bytes(output, "\n".as_bytes());
        assert(output@ =~= pre + panic_text(error@));
    }
}

impl Default for Interpreter {
    /// A fresh machine, as `new` builds it.
    fn default() -> (r: Interpreter)
        ensures
            r.stack@ == Seq::<Data>::empty(),
            r.program.ops@ == Seq::<Instruction>::empty(),
            r.ip == 0,
            r.wf(),
    {
        Interpreter::new()
    }
}

/// Type homogeneity: a binary arithmetic instruction applied to one integer
/// and one decimal — in either order — halts with `IncompatibleType`, and
/// the stack keeps only what lay beneath the two popped operands.
pub proof fn lemma_arith_type_error(prog: Seq<Instruction>, stack: Seq<Data>, ip: nat)
    requires
        ip < prog.len(),
        prog[ip as int].op_code == OpCode::Add || prog[ip as int].op_code == OpCode::Sub || prog[
            ip as int
        ].op_code == OpCode::Mul,
        stack.len() >= 2,
        !same_variant(stack.last(), stack.drop_last().last()),
    ensures
        ({
            let eff = step_spec(prog, stack, ip);
            &&& eff.result == StepResult::Error(RuntimeError::IncompatibleType)
            &&& eff.stack == stack.drop_last().drop_last()
            &&& eff.out == Seq::<u8>::empty()
            &&& eff.ip == ip
        }),
{
}

/// Arity underflow discards partial pops: a binary instruction finding
/// exactly one operand on the stack consumes it and still halts with
/// `NotEnoughArgs`, leaving the stack empty — strictly smaller, not
/// restored.
pub proof fn lemma_arity_underflow(prog: Seq<Instruction>, stack: Seq<Data>, ip: nat)
    requires
        ip < prog.len(),
        ({
            let op = prog[ip as int].op_code;
            op == OpCode::Add || op == OpCode::Sub || op == OpCode::Mul || op == OpCode::Eq || op
                == OpCode::Gr || op == OpCode::Less
        }),
        stack.len() == 1,
    ensures
        ({
            let eff = step_spec(prog, stack, ip);
            &&& eff.result == StepResult::Error(RuntimeError::NotEnoughArgs)
            &&& eff.stack == Seq::<Data>::empty()
            &&& eff.stack.len() < stack.len()
        }),
{
    assert(stack.drop_last() =~= Seq::<Data>::empty());
}

/// Peek semantics: `Dup`, `Not` and `CJump` never remove the inspected top
/// element — every value on the stack, the top included, is still in place
/// afterwards; only a push on top of it may occur.
pub proof fn lemma_peek_keeps_top(prog: Seq<Instruction>, stack: Seq<Data>, ip: nat)
    requires
        ip < prog.len(),
        ({
            let op = prog[ip as int].op_code;
            op == OpCode::Dup || op == OpCode::Not || op == OpCode::CJump
        }),
        stack.len() >= 1,
    ensures
        ({
            let eff = step_spec(prog, stack, ip);
            &&& eff.stack.len() >= stack.len()
            &&& forall|i: int| 0 <= i < stack.len() ==> eff.stack[i] == stack[i]
        }),
{
}

/// The diagnostic a panic writes: two lines, the second naming the error.
pub open spec fn panic_text(error: Seq<char>) -> Seq<u8> {
    vstd::utf8::encode_utf8("Oops...\n"@) + vstd::utf8::encode_utf8("Error occurs: "@)
        + vstd::utf8::encode_utf8(error) + vstd::utf8::encode_utf8("\n"@)
}

} // verus!
