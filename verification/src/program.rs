//! The program container and its binary codec. Encoding is instruction at a
//! time with no header: the opcode's wire byte, then its payload — eight
//! little-endian bytes of the integer operand of a push or branch, sixteen
//! payload bytes of a decimal push, nothing otherwise. Decoding scans left to
//! right and fails on an unknown opcode byte or a truncated payload; nothing
//! partial is ever returned.

use crate::data::Data;
use crate::dec::{dec_unwire, dec_wire, Dec};
use crate::instruction::{byte_opcode, opcode_byte, Instruction, OpCode, Operands};
use crate::wire::{le_bytes, le_val, pow256};
use vstd::prelude::*;
use vstd::std_specs::cmp::PartialEqSpec;

verus! {

/// How many payload bytes follow an opcode's wire byte.
pub open spec fn payload_len(op: OpCode) -> nat {
    match op {
        OpCode::PushInt | OpCode::Jump | OpCode::CJump => 8,
        OpCode::PushFloat => 16,
        _ => 0,
    }
}

/// The wire bytes of one instruction: the opcode byte, then the payload of
/// the operand. An operand whose variant does not match its opcode
/// contributes no payload.
pub open spec fn encode_instr(i: Instruction) -> Seq<u8> {
    seq![opcode_byte(i.op_code)] + match i.op_code {
        OpCode::PushInt | OpCode::Jump | OpCode::CJump => match i.operands {
            Operands::One(Data::Int(v)) => le_bytes(v as u64 as nat, 8),
            _ => Seq::empty(),
        },
        OpCode::PushFloat => match i.operands {
            Operands::One(Data::Float(d)) => dec_wire(d),
            _ => Seq::empty(),
        },
        _ => Seq::empty(),
    }
}

/// The wire bytes of an instruction sequence.
pub open spec fn encode_ops(ops: Seq<Instruction>) -> Seq<u8>
    decreases ops.len(),
{
    if ops.len() == 0 {
        Seq::empty()
    } else {
        encode_instr(ops[0]) + encode_ops(ops.drop_first())
    }
}

/// The instruction an opcode and its payload bytes denote. `payload` holds
/// exactly `payload_len(op)` bytes.
pub open spec fn decode_instr(op: OpCode, payload: Seq<u8>) -> Instruction {
    match op {
        OpCode::PushInt | OpCode::Jump | OpCode::CJump => Instruction {
            op_code: op,
            operands: Operands::One(Data::Int(le_val(payload) as u64 as i64)),
        },
        OpCode::PushFloat => Instruction {
            op_code: op,
            operands: Operands::One(Data::Float(dec_unwire(payload))),
        },
        _ => Instruction { op_code: op, operands: Operands::Zero },
    }
}

/// What decoding a byte string returns: the instruction sequence, or the
/// diagnostic of the first fault — an unknown opcode byte, or a payload cut
/// short by the end of the stream.
pub open spec fn decode_bytes(b: Seq<u8>) -> Result<Seq<Instruction>, Seq<char>>
    decreases b.len(),
{
    if b.len() == 0 {
        Ok(Seq::empty())
    } else {
        match byte_opcode(b[0]) {
            None => Err("Unknown opcode in bytecode"@),
            Some(op) => {
                let n = payload_len(op);
                if b.len() < 1 + n {
                    Err("Can't read constant from bytecode"@)
                } else {
                    let instr = decode_instr(op, b.subrange(1, 1 + n as int));
                    match decode_bytes(b.skip(1 + n as int)) {
                        Ok(rest) => Ok(seq![instr] + rest),
                        Err(m) => Err(m),
                    }
                }
            },
        }
    }
}

/// An ordered sequence of instructions; insertion order is execution order.
#[derive(Debug, Clone)]
pub struct Program {
    pub ops: Vec<Instruction>,
}

impl Program {
    /// Every instruction obeys the operand invariant.
    pub open spec fn wf(self) -> bool {
        forall|i: int| 0 <= i < self.ops@.len() ==> (#[trigger] self.ops@[i]).wf()
    }

    /// The empty program.
    pub fn new() -> (r: Program)
        ensures
            r.ops@ == Seq::<Instruction>::empty(),
            r.wf(),
    {
        Program { ops: Vec::new() }
    }

    /// Decide whether every instruction obeys the operand invariant.
    pub fn check_wf(&self) -> (r: bool)
        ensures
            r == self.wf(),
    {
        let len: usize = self.ops.len();
        let mut i: usize = 0;
        while i < len
            invariant
                i <= len,
                len == self.ops@.len(),
                forall|j: int| 0 <= j < i ==> (#[trigger] self.ops@[j]).wf(),
            decreases len - i,
        {
            if !self.ops[i].check_wf() {
                return false;
            }
            i = i + 1;
        }
        true
    }

    /// The instruction at `index`, or `None` past the end.
    pub fn get(&self, index: usize) -> (r: Option<&Instruction>)
        ensures
            index < self.ops@.len() ==> r == Some(&self.ops@[index as int]),
            index >= self.ops@.len() ==> r is None,
    {
        if index < self.ops.len() {
            Some(&self.ops[index])
        } else {
            None
        }
    }

    /// Encode this program to its wire bytes.
    pub fn to_bytes(&self) -> (r: Vec<u8>)
        requires
            self.wf(),
        ensures
            r@ == encode_ops(self.ops@),
    {
        let mut bytes: Vec<u8> = Vec::new();
        let len: usize = self.ops.len();
        let mut i: usize = 0;
        while i < len
            invariant
                i <= len,
                len == self.ops@.len(),
                self.wf(),
                bytes@ == encode_ops(self.ops@.take(i as int)),
            decreases len - i,
        {
            let ghost pre = bytes@;
            let instr = &self.ops[i];
            bytes.push(instr.op_code.as_byte());
            match instr.op_code {
                OpCode::PushInt | OpCode::Jump | OpCode::CJump => {
                    if let Operands::One(Data::Int(v)) = instr.operands {
                        let u: u64 = #[verifier::truncate] (v as u64);
                        crate::wire::push_le_bytes(&mut bytes, u as u128, 8);
                    }
                },
                OpCode::PushFloat => {
                    if let Operands::One(Data::Float(d)) = instr.operands {
                        d.to_wire(&mut bytes);
                    }
                },
                _ => {},
            }
            proof {
                lemma_encode_ops_snoc(self.ops@, i as int);
                assert(bytes@ =~= pre + encode_instr(self.ops@[i as int]));
            }
            i = i + 1;
        }
        assert(self.ops@.take(len as int) =~= self.ops@);
        bytes
    }

    /// Decode a program from wire bytes; all or nothing.
    pub fn from_bytes(bytes: &Vec<u8>) -> (r: Result<Program, &'static str>)
        ensures
            match decode_bytes(bytes@) {
                Ok(s) => r matches Ok(p) && p.ops@ == s && p.wf(),
                Err(m) => r matches Err(e) && e@ == m,
            },
    {
        let mut ops: Vec<Instruction> = Vec::new();
        let len: usize = bytes.len();
        let mut i: usize = 0;
        proof {
            assert(bytes@.skip(0) =~= bytes@);
            match decode_bytes(bytes@) {
                Ok(rest) => {
                    assert(Seq::<Instruction>::empty() + rest =~= rest);
                },
                Err(_) => {},
            }
        }
        while i < len
            invariant
                i <= len,
                len == bytes@.len(),
                forall|j: int| 0 <= j < ops@.len() ==> (#[trigger] ops@[j]).wf(),
                decode_bytes(bytes@) == match decode_bytes(bytes@.skip(i as int)) {
                    Ok(rest) => Ok::<Seq<Instruction>, Seq<char>>(ops@ + rest),
                    Err(m) => Err::<Seq<Instruction>, Seq<char>>(m),
                },
            decreases len - i,
        {
            let ghost suffix = bytes@.skip(i as int);
            assert(suffix[0] == bytes@[i as int]);
            let op = match OpCode::from_byte(bytes[i]) {
                Some(op) => op,
                None => {
                    return Err("Unknown opcode in bytecode");
                },
            };
            let n: usize = match op {
                OpCode::PushInt | OpCode::Jump | OpCode::CJump => 8,
                OpCode::PushFloat => 16,
                _ => 0,
            };
            if len - i < 1 + n {
                assert(suffix.len() < 1 + payload_len(op));
                return Err("Can't read constant from bytecode");
            }
            assert(suffix.subrange(1, 1 + payload_len(op) as int) =~= bytes@.subrange(
                i + 1,
                i + 1 + payload_len(op),
            ));
            let instr: Instruction = match op {
                OpCode::PushInt | OpCode::Jump | OpCode::CJump => {
                    let raw: u128 = crate::wire::read_le_bytes(bytes, i + 1, 8);
                    proof {
                        crate::wire::lemma_le_val_bound(bytes@.subrange(i + 1, i + 9));
                        assert(pow256(8) == 0x1_0000_0000_0000_0000) by {
                            reveal_with_fuel(pow256, 9);
                        }
                    }
                    let v: i64 = #[verifier::truncate] ((raw as u64) as i64);
                    Instruction { op_code: op, operands: Operands::One(Data::Int(v)) }
                },
                OpCode::PushFloat => {
                    let d = Dec::from_wire(bytes, i + 1);
                    Instruction { op_code: op, operands: Operands::One(Data::Float(d)) }
                },
                _ => Instruction { op_code: op, operands: Operands::Zero },
            };
            assert(instr == decode_instr(op, suffix.subrange(1, 1 + payload_len(op) as int)));
            let ghost pre = ops@;
            ops.push(instr);
            proof {
                assert(bytes@.skip(i + 1 + payload_len(op)) =~= suffix.skip(
                    1 + payload_len(op) as int,
                ));
                match decode_bytes(bytes@.skip(i + 1 + payload_len(op))) {
                    Ok(rest) => {
                        assert(ops@ + rest =~= pre + (seq![instr] + rest));
                    },
                    Err(_) => {},
                }
            }
            i = i + 1 + n;
        }
        assert(bytes@.skip(len as int) =~= Seq::<u8>::empty());
        assert(ops@ + Seq::<Instruction>::empty() =~= ops@);
        Ok(Program { ops })
    }
}

/// Encoding one more instruction appends its bytes.
pub proof fn lemma_encode_ops_snoc(ops: Seq<Instruction>, i: int)
    requires
        0 <= i < ops.len(),
    ensures
        encode_ops(ops.take(i + 1)) == encode_ops(ops.take(i)) + encode_instr(ops[i]),
    decreases i,
{
    if i == 0 {
        let t1 = ops.take(1);
        assert(t1.len() == 1 && t1[0] == ops[0]);
        assert(t1.drop_first() =~= Seq::<Instruction>::empty());
        assert(encode_ops(t1) == encode_instr(ops[0]) + encode_ops(Seq::<Instruction>::empty()));
        assert(ops.take(0).len() == 0);
        assert(encode_instr(ops[0]) + Seq::<u8>::empty() =~= encode_instr(ops[0]));
        assert(Seq::<u8>::empty() + encode_instr(ops[0]) =~= encode_instr(ops[0]));
    } else {
        lemma_encode_ops_snoc(ops.drop_first(), i - 1);
        assert(ops.take(i + 1).drop_first() =~= ops.drop_first().take(i));
        assert(ops.take(i).drop_first() =~= ops.drop_first().take(i - 1));
        assert(ops.take(i + 1)[0] == ops[0] && ops.take(i)[0] == ops[0]);
        assert(ops.drop_first()[i - 1] == ops[i]);
        assert(encode_ops(ops.take(i + 1)) == encode_instr(ops[0]) + encode_ops(
            ops.drop_first().take(i),
        ));
        assert(encode_instr(ops[0]) + (encode_ops(ops.drop_first().take(i - 1)) + encode_instr(
            ops[i],
        )) =~= (encode_instr(ops[0]) + encode_ops(ops.drop_first().take(i - 1))) + encode_instr(
            ops[i],
        ));
    }
}

/// Round trip: decoding the encoding of a sequence of well-formed
/// instructions yields exactly that sequence back, instruction for
/// instruction.
pub proof fn lemma_codec_round_trip(ops: Seq<Instruction>)
    requires
        forall|i: int| 0 <= i < ops.len() ==> (#[trigger] ops[i]).wf(),
    ensures
        decode_bytes(encode_ops(ops)) == Ok::<Seq<Instruction>, Seq<char>>(ops),
    decreases ops.len(),
{
    if ops.len() == 0 {
        assert(ops =~= Seq::<Instruction>::empty());
    } else {
        let head = ops[0];
        let tail = ops.drop_first();
        let op = head.op_code;
        let n = payload_len(op);
        let hb = encode_instr(head);
        let tb = encode_ops(tail);
        let b = encode_ops(ops);
        assert(b == hb + tb);
        crate::instruction::lemma_opcode_byte_round_trip();
        assert(hb.len() == 1 + n) by {
            match op {
                OpCode::PushInt | OpCode::Jump | OpCode::CJump => {
                    if let Operands::One(Data::Int(v)) = head.operands {
                        assert(pow256(8) == 0x1_0000_0000_0000_0000) by {
                            reveal_with_fuel(pow256, 9);
                        }
                        let uv: u64 = #[verifier::truncate] (v as u64);
                        crate::wire::lemma_le_round_trip(uv as nat, 8);
                    }
                },
                OpCode::PushFloat => {
                    if let Operands::One(Data::Float(d)) = head.operands {
                        crate::dec::lemma_dec_wire_round_trip(d);
                    }
                },
                _ => {},
            }
        }
        assert(b[0] == opcode_byte(op));
        assert(byte_opcode(b[0]) == Some(op));
        assert(b.len() >= 1 + n);
        let payload = b.subrange(1, 1 + n as int);
        assert(payload =~= hb.subrange(1, 1 + n as int));
        assert(decode_instr(op, payload) == head) by {
            match op {
                OpCode::PushInt | OpCode::Jump | OpCode::CJump => {
                    if let Operands::One(Data::Int(v)) = head.operands {
                        assert(pow256(8) == 0x1_0000_0000_0000_0000) by {
                            reveal_with_fuel(pow256, 9);
                        }
                        let uv: u64 = #[verifier::truncate] (v as u64);
                        assert(payload =~= le_bytes(uv as nat, 8));
                        crate::wire::lemma_le_round_trip(uv as nat, 8);
                        assert(le_val(payload) == uv as nat);
                        assert(((v as u64) as i64) == v) by (bit_vector);
                    }
                },
                OpCode::PushFloat => {
                    if let Operands::One(Data::Float(d)) = head.operands {
                        assert(payload =~= dec_wire(d));
                        crate::dec::lemma_dec_wire_round_trip(d);
                    }
                },
                _ => {},
            }
        }
        assert(forall|i: int| 0 <= i < tail.len() ==> (#[trigger] tail[i]).wf()) by {
            assert(forall|i: int|
                0 <= i < tail.len() ==> tail[i] == ops[i + 1] && (#[trigger] ops[i + 1]).wf());
        }
        lemma_codec_round_trip(tail);
        assert(b.skip(1 + n as int) =~= tb);
        assert(decode_bytes(b) == Ok::<Seq<Instruction>, Seq<char>>(seq![head] + tail));
        assert(seq![head] + tail =~= ops);
    }
}

impl PartialEq for Program {
    /// Programs are equal when they hold equal instructions in the same
    /// order.
    fn eq(&self, other: &Program) -> (r: bool) {
        let len: usize = self.ops.len();
        if len != other.ops.len() {
            return false;
        }
        let mut i: usize = 0;
        while i < len
            invariant
                i <= len,
                len == self.ops@.len(),
                len == other.ops@.len(),
                forall|j: int|
                    0 <= j < i ==> (#[trigger] self.ops@[j]).eq_spec_instr(other.ops@[j]),
            decreases len - i,
        {
            if !(self.ops[i] == other.ops[i]) {
                return false;
            }
            i = i + 1;
        }
        true
    }
}

impl vstd::std_specs::cmp::PartialEqSpecImpl for Program {
    open spec fn obeys_eq_spec() -> bool {
        true
    }

    open spec fn eq_spec(&self, other: &Program) -> bool {
        self.ops@.len() == other.ops@.len() && forall|i: int|
            0 <= i < self.ops@.len() ==> (#[trigger] self.ops@[i]).eq_spec_instr(other.ops@[i])
    }
}

impl Eq for Program {

}

impl Default for Program {
    /// The empty program.
    fn default() -> (r: Program)
        ensures
            r.ops@ == Seq::<Instruction>::empty(),
    {
        Program::new()
    }
}

} // verus!
