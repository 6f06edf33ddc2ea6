//! The assembler: line-oriented mnemonic source, one instruction per line,
//! tokens split on whitespace. Each mnemonic has a fixed arity; a line fails
//! with a diagnostic on an unknown mnemonic, a wrong number of operand
//! tokens, or a malformed literal, and assembly of a source is all or
//! nothing — the first failing line aborts it, with its line number.

use crate::data::Data;
use crate::dec::{dec_parse_of, Dec};
use crate::instruction::{Instruction, OpCode, Operands};
use crate::program::Program;
use crate::text::chars_of;
use vstd::prelude::*;

verus! {

/// Whether `c` has Unicode's White_Space property, the separator class of
/// the token grammar.
pub open spec fn is_space(c: char) -> bool {
    let v = c as u32;
    ||| v == 0x20
    ||| (0x09 <= v && v <= 0x0D)
    ||| v == 0x85
    ||| v == 0xA0
    ||| v == 0x1680
    ||| (0x2000 <= v && v <= 0x200A)
    ||| v == 0x2028
    ||| v == 0x2029
    ||| v == 0x202F
    ||| v == 0x205F
    ||| v == 0x3000
}

/// Decide `is_space`.
pub fn check_space(c: char) -> (r: bool)
    ensures
        r == is_space(c),
{
    let v = c as u32;
    v == 0x20 || (0x09 <= v && v <= 0x0D) || v == 0x85 || v == 0xA0 || v == 0x1680 || (0x2000 <= v
        && v <= 0x200A) || v == 0x2028 || v == 0x2029 || v == 0x202F || v == 0x205F || v == 0x3000
}

/// The longest whitespace-free prefix of `s`.
pub open spec fn take_word(s: Seq<char>) -> Seq<char>
    decreases s.len(),
{
    if s.len() == 0 || is_space(s[0]) {
        Seq::empty()
    } else {
        seq![s[0]] + take_word(s.drop_first())
    }
}

/// A word is never longer than the text it is taken from.
pub proof fn lemma_take_word_len(s: Seq<char>)
    ensures
        take_word(s).len() <= s.len(),
    decreases s.len(),
{
    if s.len() > 0 && !is_space(s[0]) {
        lemma_take_word_len(s.drop_first());
    }
}

/// The whitespace-separated tokens of `s`, in order.
pub open spec fn tokens_of(s: Seq<char>) -> Seq<Seq<char>>
    decreases s.len(),
    via tokens_of_dec
{
    if s.len() == 0 {
        Seq::empty()
    } else if is_space(s[0]) {
        tokens_of(s.drop_first())
    } else {
        let w = take_word(s);
        seq![w] + tokens_of(s.skip(w.len() as int))
    }
}

#[via_fn]
proof fn tokens_of_dec(s: Seq<char>) {
    if s.len() > 0 && !is_space(s[0]) {
        lemma_take_word_len(s);
    }
}

/// A word taken after `j` whitespace-free characters is those characters and
/// the word taken from the rest.
pub proof fn lemma_take_word_split(s: Seq<char>, j: int)
    requires
        0 <= j <= s.len(),
        forall|i: int| 0 <= i < j ==> !is_space(#[trigger] s[i]),
    ensures
        take_word(s) == s.take(j) + take_word(s.skip(j)),
    decreases j,
{
    if j == 0 {
        assert(s.take(0) =~= Seq::<char>::empty());
        assert(s.skip(0) =~= s);
        assert(s.take(0) + take_word(s) =~= take_word(s));
    } else {
        assert(!is_space(s[0]));
        lemma_take_word_split(s.drop_first(), j - 1);
        assert(s.drop_first().take(j - 1) =~= s.take(j).drop_first());
        assert(s.drop_first().skip(j - 1) =~= s.skip(j));
        assert(seq![s[0]] + (s.take(j).drop_first() + take_word(s.skip(j))) =~= s.take(j)
            + take_word(s.skip(j)));
    }
}

/// Tokenize the suffix of `chars` that starts at `i`.
fn tokenize_from(chars: &Vec<char>, i: usize) -> (r: Vec<Vec<char>>)
    requires
        i <= chars@.len(),
    ensures
        r@.len() == tokens_of(chars@.skip(i as int)).len(),
        forall|t: int|
            0 <= t < r@.len() ==> (#[trigger] r@[t])@ == tokens_of(chars@.skip(i as int))[t],
    decreases chars@.len() - i,
{
    let len: usize = chars.len();
    if i == len {
        assert(chars@.skip(i as int) =~= Seq::<char>::empty());
        return Vec::new();
    }
    let ghost suffix = chars@.skip(i as int);
    assert(suffix[0] == chars@[i as int]);
    if check_space(chars[i]) {
        let r = tokenize_from(chars, i + 1);
        assert(suffix.drop_first() =~= chars@.skip(i + 1));
        r
    } else {
        let mut j: usize = i;
        let mut w: Vec<char> = Vec::new();
        while j < len && !check_space(chars[j])
            invariant
                i <= j <= len,
                len == chars@.len(),
                w@ == chars@.subrange(i as int, j as int),
                forall|m: int| i <= m < j ==> !is_space(#[trigger] chars@[m]),
            decreases len - j,
        {
            w.push(chars[j]);
            assert(w@ =~= chars@.subrange(i as int, j + 1));
            j = j + 1;
        }
        proof {
            lemma_take_word_split(suffix, j - i);
            assert(forall|m: int|
                0 <= m < j - i ==> suffix[m] == chars@[i + m] && !is_space(#[trigger] chars@[i
                    + m]));
            assert(suffix.take(j - i) =~= chars@.subrange(i as int, j as int));
            assert(suffix.skip(j - i) =~= chars@.skip(j as int));
            if j < len {
                assert(chars@.skip(j as int)[0] == chars@[j as int]);
                assert(take_word(chars@.skip(j as int)) =~= Seq::<char>::empty());
            } else {
                assert(chars@.skip(j as int) =~= Seq::<char>::empty());
            }
            assert(take_word(suffix) =~= w@);
        }
        let mut rest = tokenize_from(chars, j);
        let ghost resttoks = tokens_of(chars@.skip(j as int));
        let mut r: Vec<Vec<char>> = Vec::new();
        r.push(w);
        r.append(&mut rest);
        proof {
            let toks = tokens_of(suffix);
            assert(toks == seq![take_word(suffix)] + resttoks);
            assert(r@.len() == toks.len());
            assert(forall|t: int| 0 <= t < r@.len() ==> (#[trigger] r@[t])@ == toks[t]);
        }
        r
    }
}

/// Whether every character of `s` is an ASCII decimal digit.
pub open spec fn all_digits(s: Seq<char>) -> bool {
    forall|i: int| 0 <= i < s.len() ==> '0' <= #[trigger] s[i] <= '9'
}

/// The number the digit string `s` spells, most significant digit first.
pub open spec fn digits_val(s: Seq<char>) -> nat
    decreases s.len(),
{
    if s.len() == 0 {
        0
    } else {
        (digits_val(s.drop_last()) * 10 + (s.last() as int - 48)) as nat
    }
}

/// The integer a literal spells: an optional sign, then at least one digit,
/// nothing else, and a value in `i64`'s range — exactly what `i64`'s
/// `FromStr` accepts.
pub open spec fn int_lit_spec(s: Seq<char>) -> Option<i64> {
    let neg = s.len() > 0 && s[0] == '-';
    let digits = if s.len() > 0 && (s[0] == '+' || s[0] == '-') {
        s.drop_first()
    } else {
        s
    };
    if digits.len() == 0 || !all_digits(digits) {
        None
    } else {
        let v = digits_val(digits);
        if neg {
            if v <= 0x8000_0000_0000_0000 {
                Some((-(v as int)) as i64)
            } else {
                None
            }
        } else {
            if v <= 0x7FFF_FFFF_FFFF_FFFF {
                Some(v as i64)
            } else {
                None
            }
        }
    }
}

/// Parse a base-10 signed integer literal, as `i64`'s `FromStr` reads it.
pub fn parse_int_lit(tok: &Vec<char>) -> (r: Option<i64>)
    ensures
        r == int_lit_spec(tok@),
{
    let len: usize = tok.len();
    let mut start: usize = 0;
    let mut neg: bool = false;
    if len > 0 && (tok[0] == '+' || tok[0] == '-') {
        start = 1;
        neg = tok[0] == '-';
    }
    let ghost digits = tok@.skip(start as int);
    proof {
        if start == 0 {
            assert(digits =~= tok@);
        } else {
            assert(digits =~= tok@.drop_first());
        }
    }
    if start == len {
        assert(digits.len() == 0);
        return None;
    }
    let mut acc: u128 = 0;
    let mut over: bool = false;
    let mut j: usize = start;
    assert(digits =~= tok@.subrange(start as int, start as int) + tok@.skip(start as int));
    while j < len
        invariant
            start <= j <= len,
            len == tok@.len(),
            digits == tok@.skip(start as int),
            digits == (if tok@.len() > 0 && (tok@[0] == '+' || tok@[0] == '-') {
                tok@.drop_first()
            } else {
                tok@
            }),
            neg == (tok@.len() > 0 && tok@[0] == '-'),
            forall|m: int| start <= m < j ==> '0' <= #[trigger] tok@[m] <= '9',
            !over ==> acc == digits_val(digits.take(j - start)),
            !over ==> acc <= 0x8000_0000_0000_0000,
            over ==> digits_val(digits.take(j - start)) > 0x8000_0000_0000_0000,
        decreases len - j,
    {
        let c = tok[j];
        if !(c >= '0' && c <= '9') {
            assert(digits[j - start] == tok@[j as int]);
            assert(!all_digits(digits));
            return None;
        }
        let d: u32 = (c as u32) - 48;
        assert(d <= 9);
        let ghost pre = digits.take(j - start);
        assert(digits.take(j - start + 1).drop_last() =~= pre);
        assert(digits.take(j - start + 1).last() == tok@[j as int]);
        if !over {
            let next: u128 = acc * 10 + (d as u128);
            if next > 0x8000_0000_0000_0000 {
                over = true;
            } else {
                acc = next;
            }
        }
        j = j + 1;
    }
    if over {
        assert(digits.take(len - start) =~= digits);
        return None;
    }
    assert(digits.take(len - start) =~= digits);
    assert(all_digits(digits)) by {
        assert(forall|i: int|
            0 <= i < digits.len() ==> digits[i] == tok@[start + i] && '0' <= #[trigger] tok@[start
                + i] <= '9');
    }
    if neg {
        let m: i128 = -(acc as i128);
        Some(m as i64)
    } else {
        if acc > 0x7FFF_FFFF_FFFF_FFFF {
            None
        } else {
            Some(acc as i64)
        }
    }
}

/// The text of `s` up to its first line feed, or all of it.
pub open spec fn take_line(s: Seq<char>) -> Seq<char>
    decreases s.len(),
{
    if s.len() == 0 || s[0] == '\n' {
        Seq::empty()
    } else {
        seq![s[0]] + take_line(s.drop_first())
    }
}

/// A line is never longer than the text it is taken from.
pub proof fn lemma_take_line_len(s: Seq<char>)
    ensures
        take_line(s).len() <= s.len(),
    decreases s.len(),
{
    if s.len() > 0 && s[0] != '\n' {
        lemma_take_line_len(s.drop_first());
    }
}

/// Strip one trailing carriage return, as `str::lines` does.
pub open spec fn strip_cr(l: Seq<char>) -> Seq<char> {
    if l.len() > 0 && l.last() == '\r' {
        l.drop_last()
    } else {
        l
    }
}

/// The lines of `s`: split at each line feed, a trailing carriage return
/// stripped from each piece, and no final empty line — as `str::lines`
/// yields them.
pub open spec fn lines_of(s: Seq<char>) -> Seq<Seq<char>>
    decreases s.len(),
    via lines_of_dec
{
    if s.len() == 0 {
        Seq::empty()
    } else {
        let l = take_line(s);
        let rest = if l.len() < s.len() {
            s.skip(l.len() + 1 as int)
        } else {
            s.skip(l.len() as int)
        };
        seq![strip_cr(l)] + lines_of(rest)
    }
}

#[via_fn]
proof fn lines_of_dec(s: Seq<char>) {
    if s.len() > 0 {
        lemma_take_line_len(s);
    }
}

/// A text never splits into more lines than it has characters, so a line
/// counter that starts within range cannot overflow.
pub proof fn lemma_lines_of_len(s: Seq<char>)
    ensures
        lines_of(s).len() <= s.len(),
    decreases s.len(),
{
    if s.len() > 0 {
        lemma_take_line_len(s);
        let l = take_line(s);
        let rest = if l.len() < s.len() {
            s.skip(l.len() + 1 as int)
        } else {
            s.skip(l.len() as int)
        };
        lemma_lines_of_len(rest);
    }
}

/// A line taken after `j` characters free of line feeds is those characters
/// and the line taken from the rest.
pub proof fn lemma_take_line_split(s: Seq<char>, j: int)
    requires
        0 <= j <= s.len(),
        forall|i: int| 0 <= i < j ==> #[trigger] s[i] != '\n',
    ensures
        take_line(s) == s.take(j) + take_line(s.skip(j)),
    decreases j,
{
    if j == 0 {
        assert(s.take(0) =~= Seq::<char>::empty());
        assert(s.skip(0) =~= s);
        assert(s.take(0) + take_line(s) =~= take_line(s));
    } else {
        assert(s[0] != '\n');
        lemma_take_line_split(s.drop_first(), j - 1);
        assert(s.drop_first().take(j - 1) =~= s.take(j).drop_first());
        assert(s.drop_first().skip(j - 1) =~= s.skip(j));
        assert(seq![s[0]] + (s.take(j).drop_first() + take_line(s.skip(j))) =~= s.take(j)
            + take_line(s.skip(j)));
    }
}

/// Split the suffix of `chars` that starts at `i` into lines.
fn lines_from(chars: &Vec<char>, i: usize) -> (r: Vec<Vec<char>>)
    requires
        i <= chars@.len(),
    ensures
        r@.len() == lines_of(chars@.skip(i as int)).len(),
        forall|t: int|
            0 <= t < r@.len() ==> (#[trigger] r@[t])@ == lines_of(chars@.skip(i as int))[t],
    decreases chars@.len() - i,
{
    let len: usize = chars.len();
    if i == len {
        assert(chars@.skip(i as int) =~= Seq::<char>::empty());
        return Vec::new();
    }
    let ghost suffix = chars@.skip(i as int);
    let mut j: usize = i;
    let mut l: Vec<char> = Vec::new();
    while j < len && chars[j] != '\n'
        invariant
            i <= j <= len,
            len == chars@.len(),
            l@ == chars@.subrange(i as int, j as int),
            forall|m: int| i <= m < j ==> #[trigger] chars@[m] != '\n',
        decreases len - j,
    {
        l.push(chars[j]);
        assert(l@ =~= chars@.subrange(i as int, j + 1));
        j = j + 1;
    }
    proof {
        lemma_take_line_split(suffix, j - i);
        assert(forall|m: int|
            0 <= m < j - i ==> suffix[m] == chars@[i + m] && #[trigger] chars@[i + m] != '\n');
        assert(suffix.take(j - i) =~= chars@.subrange(i as int, j as int));
        assert(suffix.skip(j - i) =~= chars@.skip(j as int));
        if j < len {
            assert(chars@.skip(j as int)[0] == chars@[j as int]);
            assert(take_line(chars@.skip(j as int)) =~= Seq::<char>::empty());
        } else {
            assert(chars@.skip(j as int) =~= Seq::<char>::empty());
        }
        assert(take_line(suffix) =~= l@);
    }
    let next: usize = if j < len {
        j + 1
    } else {
        j
    };
    if l.len() > 0 && l[l.len() - 1] == '\r' {
        l.pop();
    }
    assert(l@ == strip_cr(take_line(suffix)));
    let mut rest = lines_from(chars, next);
    proof {
        if j < len {
            assert(suffix.skip(take_line(suffix).len() + 1 as int) =~= chars@.skip(next as int));
        } else {
            assert(suffix.skip(take_line(suffix).len() as int) =~= chars@.skip(next as int));
        }
    }
    let mut r: Vec<Vec<char>> = Vec::new();
    r.push(l);
    r.append(&mut rest);
    proof {
        let ls = lines_of(suffix);
        assert(r@.len() == ls.len());
        assert(forall|t: int| 0 <= t < r@.len() ==> (#[trigger] r@[t])@ == ls[t]);
    }
    r
}

/// The whitespace-separated tokens of a line.
pub fn tokenize(line: &str) -> (r: Vec<Vec<char>>)
    ensures
        r@.len() == tokens_of(line@).len(),
        forall|t: int| 0 <= t < r@.len() ==> (#[trigger] r@[t])@ == tokens_of(line@)[t],
{
    let chars = chars_of(line);
    let r = tokenize_from(&chars, 0);
    assert(chars@.skip(0) =~= line@);
    r
}

/// The views of a sequence of character vectors.
pub open spec fn views_of(vs: Seq<Vec<char>>) -> Seq<Seq<char>> {
    Seq::new(vs.len(), |i: int| vs[i]@)
}

/// Whether `tok` spells exactly the text `pat`.
fn tok_is(tok: &Vec<char>, pat: &str) -> (r: bool)
    ensures
        r == (tok@ == pat@),
{
    let p = chars_of(pat);
    let len: usize = tok.len();
    if len != p.len() {
        return false;
    }
    let mut i: usize = 0;
    while i < len
        invariant
            i <= len,
            len == tok@.len(),
            len == p@.len(),
            p@ == pat@,
            forall|m: int| 0 <= m < i ==> tok@[m] == p@[m],
        decreases len - i,
    {
        if tok[i] != p[i] {
            return false;
        }
        i = i + 1;
    }
    assert(tok@ =~= pat@);
    true
}

/// What a line of a zero-arity mnemonic assembles to: the bare instruction,
/// or the too-many-arguments diagnostic.
pub open spec fn bare_line_spec(ts: Seq<Seq<char>>, op: OpCode, too_many: Seq<char>) -> Result<
    Instruction,
    Seq<char>,
> {
    if ts.len() > 1 {
        Err(too_many)
    } else {
        Ok(Instruction { op_code: op, operands: Operands::Zero })
    }
}

/// What a line of a mnemonic taking one integer literal assembles to: the
/// instruction with the integer operand, or the matching diagnostic.
pub open spec fn int_line_spec(
    ts: Seq<Seq<char>>,
    op: OpCode,
    too_many: Seq<char>,
    not_enough: Seq<char>,
) -> Result<Instruction, Seq<char>> {
    if ts.len() > 2 {
        Err(too_many)
    } else if ts.len() < 2 {
        Err(not_enough)
    } else {
        match int_lit_spec(ts[1]) {
            Some(n) => Ok(Instruction { op_code: op, operands: Operands::One(Data::Int(n)) }),
            None => Err("Can't read Int const"@),
        }
    }
}

/// What a token list assembles to: dispatch on the mnemonic, check the
/// arity, and parse the literal where one is due.
pub open spec fn parse_tokens_spec(ts: Seq<Seq<char>>) -> Result<Instruction, Seq<char>> {
    if ts.len() == 0 {
        Err("Unknown instruction"@)
    } else {
        let m = ts[0];
        if m == "pushi"@ {
            int_line_spec(
                ts,
                OpCode::PushInt,
                "Too many arguments for PushI instruction"@,
                "Not enough arguments for PushI instruction"@,
            )
        } else if m == "pushf"@ {
            if ts.len() > 2 {
                Err("Too many arguments for PushF instruction"@)
            } else if ts.len() < 2 {
                Err("Not enough arguments for PushF instruction"@)
            } else {
                match dec_parse_of(ts[1]) {
                    Some(d) => Ok(
                        Instruction {
                            op_code: OpCode::PushFloat,
                            operands: Operands::One(Data::Float(d)),
                        },
                    ),
                    None => Err("Can't read Float const"@),
                }
            }
        } else if m == "jump"@ {
            int_line_spec(
                ts,
                OpCode::Jump,
                "Too many arguments for Jump instruction"@,
                "Not enough arguments for Jump instruction"@,
            )
        } else if m == "cjump"@ {
            int_line_spec(
                ts,
                OpCode::CJump,
                "Too many arguments for CJump instruction"@,
                "Not enough arguments for CJump instruction"@,
            )
        } else if m == "add"@ {
            bare_line_spec(ts, OpCode::Add, "Too many arguments for Add instruction"@)
        } else if m == "sub"@ {
            bare_line_spec(ts, OpCode::Sub, "Too many arguments for Sub instruction"@)
        } else if m == "mul"@ {
            bare_line_spec(ts, OpCode::Mul, "Too many arguments for Mul instruction"@)
        } else if m == "dup"@ {
            bare_line_spec(ts, OpCode::Dup, "Too many arguments for Dup instruction"@)
        } else if m == "print"@ {
            bare_line_spec(ts, OpCode::Print, "Too many arguments for Print instruction"@)
        } else if m == "printch"@ {
            bare_line_spec(ts, OpCode::PrintChar, "Too many arguments for PrintChar instruction"@)
        } else if m == "eq"@ {
            bare_line_spec(ts, OpCode::Eq, "Too many arguments for Eq instruction"@)
        } else if m == "gr"@ {
            bare_line_spec(ts, OpCode::Gr, "Too many arguments for Gr instruction"@)
        } else if m == "less"@ {
            bare_line_spec(ts, OpCode::Less, "Too many arguments for Less instruction"@)
        } else if m == "not"@ {
            bare_line_spec(ts, OpCode::Not, "Too many arguments for Not instruction"@)
        } else if m == "panic"@ {
            bare_line_spec(ts, OpCode::Panic, "Too many arguments for Panic instruction"@)
        } else if m == "exit"@ {
            bare_line_spec(ts, OpCode::Exit, "Too many arguments for Exit instruction"@)
        } else if m == "nop"@ {
            bare_line_spec(ts, OpCode::Nop, "Too many arguments for NOP instruction"@)
        } else {
            Err("Unknown instruction"@)
        }
    }
}

/// What one source line assembles to.
pub open spec fn parse_line_spec(line: Seq<char>) -> Result<Instruction, Seq<char>> {
    parse_tokens_spec(tokens_of(line))
}

/// Assemble a token list.
fn parse_tokens(toks: &Vec<Vec<char>>) -> (r: Result<Instruction, &'static str>)
    ensures
        match parse_tokens_spec(views_of(toks@)) {
            Ok(i) => r matches Ok(x) && x == i && i.wf(),
            Err(m) => r matches Err(e) && e@ == m,
        },
{
    let ghost ts = views_of(toks@);
    let n: usize = toks.len();
    if n == 0 {
        return Err("Unknown instruction");
    }
    assert(ts[0] == toks@[0]@);
    let m = &toks[0];
    if tok_is(m, "pushi") {
        if n > 2 {
            Err("Too many arguments for PushI instruction")
        } else if n < 2 {
            Err("Not enough arguments for PushI instruction")
        } else {
            assert(ts[1] == toks@[1]@);
            match parse_int_lit(&toks[1]) {
                Some(v) => Ok(Instruction::pushi(v)),
                None => Err("Can't read Int const"),
            }
        }
    } else if tok_is(m, "pushf") {
        if n > 2 {
            Err("Too many arguments for PushF instruction")
        } else if n < 2 {
            Err("Not enough arguments for PushF instruction")
        } else {
            assert(ts[1] == toks@[1]@);
            match Dec::parse_chars(&toks[1]) {
                Some(d) => Ok(Instruction::pushf(d)),
                None => Err("Can't read Float const"),
            }
        }
    } else if tok_is(m, "jump") {
        if n > 2 {
            Err("Too many arguments for Jump instruction")
        } else if n < 2 {
            Err("Not enough arguments for Jump instruction")
        } else {
            assert(ts[1] == toks@[1]@);
            match parse_int_lit(&toks[1]) {
                Some(v) => Ok(Instruction::jump(v)),
                None => Err("Can't read Int const"),
            }
        }
    } else if tok_is(m, "cjump") {
        if n > 2 {
            Err("Too many arguments for CJump instruction")
        } else if n < 2 {
            Err("Not enough arguments for CJump instruction")
        } else {
            assert(ts[1] == toks@[1]@);
            match parse_int_lit(&toks[1]) {
                Some(v) => Ok(Instruction::cjump(v)),
                None => Err("Can't read Int const"),
            }
        }
    } else if tok_is(m, "add") {
        if n > 1 {
            Err("Too many arguments for Add instruction")
        } else {
            Ok(Instruction::add())
        }
    } else if tok_is(m, "sub") {
        if n > 1 {
            Err("Too many arguments for Sub instruction")
        } else {
            Ok(Instruction::sub())
        }
    } else if tok_is(m, "mul") {
        if n > 1 {
            Err("Too many arguments for Mul instruction")
        } else {
            Ok(Instruction::mul())
        }
    } else if tok_is(m, "dup") {
        if n > 1 {
            Err("Too many arguments for Dup instruction")
        } else {
            Ok(Instruction::dup())
        }
    } else if tok_is(m, "print") {
        if n > 1 {
            Err("Too many arguments for Print instruction")
        } else {
            Ok(Instruction::print())
        }
    } else if tok_is(m, "printch") {
        if n > 1 {
            Err("Too many arguments for PrintChar instruction")
        } else {
            Ok(Instruction::printch())
        }
    } else if tok_is(m, "eq") {
        if n > 1 {
            Err("Too many arguments for Eq instruction")
        } else {
            Ok(Instruction::eq())
        }
    } else if tok_is(m, "gr") {
        if n > 1 {
            Err("Too many arguments for Gr instruction")
        } else {
            Ok(Instruction::gr())
        }
    } else if tok_is(m, "less") {
        if n > 1 {
            Err("Too many arguments for Less instruction")
        } else {
            Ok(Instruction::less())
        }
    } else if tok_is(m, "not") {
        if n > 1 {
            Err("Too many arguments for Not instruction")
        } else {
            Ok(Instruction::not())
        }
    } else if tok_is(m, "panic") {
        if n > 1 {
            Err("Too many arguments for Panic instruction")
        } else {
            Ok(Instruction::panic())
        }
    } else if tok_is(m, "exit") {
        if n > 1 {
            Err("Too many arguments for Exit instruction")
        } else {
            Ok(Instruction::exit())
        }
    } else if tok_is(m, "nop") {
        if n > 1 {
            Err("Too many arguments for NOP instruction")
        } else {
            Ok(Instruction::nop())
        }
    } else {
        Err("Unknown instruction")
    }
}

/// What the lines from index `idx` on assemble to: their instructions in
/// order, or the index and diagnostic of the first failing line.
pub open spec fn assemble_lines(ls: Seq<Seq<char>>, idx: int) -> Result<
    Seq<Instruction>,
    (int, Seq<char>),
>
    decreases ls.len(),
{
    if ls.len() == 0 {
        Ok(Seq::empty())
    } else {
        match parse_line_spec(ls[0]) {
            Ok(i) => match assemble_lines(ls.drop_first(), idx + 1) {
                Ok(rest) => Ok(seq![i] + rest),
                Err(e) => Err(e),
            },
            Err(m) => Err((idx, m)),
        }
    }
}

/// What a whole source assembles to: all or nothing.
pub open spec fn parse_source_spec(src: Seq<char>) -> Result<Seq<Instruction>, (int, Seq<char>)> {
    assemble_lines(lines_of(src), 0)
}

/// An assembly failure: the zero-based line it happened on, and its
/// diagnostic.
#[derive(Debug, Clone, Copy, PartialEq, Eq)]
pub struct AsmError {
    pub line: usize,
    pub message: &'static str,
}

/// The assembler: the source text and the number of lines parsed so far —
/// on failure, the index of the offending line.
pub struct Assembler {
    pub source: String,
    pub line: usize,
}

impl Assembler {
    /// An assembler over `source`, no line parsed yet.
    pub fn new(source: String) -> (r: Assembler)
        ensures
            r.source@ == source@,
            r.line == 0,
    {
        Assembler { source, line: 0 }
    }

    /// Assemble one source line.
    pub fn parse_line(&self, line: &str) -> (r: Result<Instruction, &'static str>)
        ensures
            match parse_line_spec(line@) {
                Ok(i) => r matches Ok(x) && x == i && i.wf(),
                Err(m) => r matches Err(e) && e@ == m,
            },
    {
        let toks = tokenize(line);
        assert(views_of(toks@) =~= tokens_of(line@));
        parse_tokens(&toks)
    }

    /// Assemble the whole source, line by line, all or nothing: the program
    /// of every line's instruction, or the first failure with its line
    /// number. `line` is left at the count of lines parsed — on failure, at
    /// the index of the line that failed.
    pub fn parse_source(&mut self) -> (r: Result<Program, AsmError>)
        requires
            old(self).line + lines_of(old(self).source@).len() <= usize::MAX,
        ensures
            final(self).source == old(self).source,
            ({
                let fline = final(self).line;
                match parse_source_spec(old(self).source@) {
                    Ok(s) => r matches Ok(p) && p.ops@ == s && p.wf() && fline as int == old(
                        self,
                    ).line + lines_of(old(self).source@).len(),
                    Err((i, m)) => r matches Err(e) && e.line as int == i && e.message@ == m
                        && fline as int == old(self).line + i,
                }
            }),
    {
        let chars = chars_of(self.source.as_str());
        let ls = lines_from(&chars, 0);
        proof {
            assert(chars@.skip(0) =~= chars@);
        }
        let ghost lines = lines_of(old(self).source@);
        assert(ls@.len() == lines.len());
        assert(forall|t: int| 0 <= t < ls@.len() ==> (#[trigger] ls@[t])@ == lines[t]);
        let mut ops: Vec<Instruction> = Vec::new();
        let n: usize = ls.len();
        let mut i: usize = 0;
        proof {
            assert(lines.skip(0) =~= lines);
            match assemble_lines(lines, 0) {
                Ok(rest) => {
                    assert(Seq::<Instruction>::empty() + rest =~= rest);
                },
                Err(_) => {},
            }
        }
        while i < n
            invariant
                i <= n,
                n == ls@.len(),
                n == lines.len(),
                forall|t: int| 0 <= t < ls@.len() ==> (#[trigger] ls@[t])@ == lines[t],
                forall|j: int| 0 <= j < ops@.len() ==> (#[trigger] ops@[j]).wf(),
                self.line as int == old(self).line + i,
                old(self).line + lines.len() <= usize::MAX,
                self.source == old(self).source,
                lines == lines_of(old(self).source@),
                assemble_lines(lines, 0) == match assemble_lines(lines.skip(i as int), i as int) {
                    Ok(rest) => Ok::<Seq<Instruction>, (int, Seq<char>)>(ops@ + rest),
                    Err(e) => Err::<Seq<Instruction>, (int, Seq<char>)>(e),
                },
            decreases n - i,
        {
            let ghost suffix = lines.skip(i as int);
            assert(suffix[0] == lines[i as int]);
            assert(ls@[i as int]@ == lines[i as int]);
            let toks = tokenize_from(&ls[i], 0);
            proof {
                assert(ls@[i as int]@.skip(0) =~= ls@[i as int]@);
                assert(views_of(toks@) =~= tokens_of(lines[i as int]));
            }
            let instr = match parse_tokens(&toks) {
                Ok(x) => x,
                Err(e) => {
                    return Err(AsmError { line: i, message: e });
                },
            };
            let ghost pre = ops@;
            ops.push(instr);
            proof {
                assert(suffix.drop_first() =~= lines.skip(i + 1));
                match assemble_lines(lines.skip(i + 1), i + 1) {
                    Ok(rest) => {
                        assert(ops@ + rest =~= pre + (seq![instr] + rest));
                    },
                    Err(_) => {},
                }
            }
            i = i + 1;
            self.line = self.line + 1;
        }
        assert(lines.skip(n as int) =~= Seq::<Seq<char>>::empty());
        assert(ops@ + Seq::<Instruction>::empty() =~= ops@);
        Ok(Program { ops })
    }
}

} // verus!
