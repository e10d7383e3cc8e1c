use vstd::prelude::*;
use crate::runtime::opcode::OpCode;
use crate::runtime::value::{JsonDatum, Value, ValueView};
use crate::text::{concat_str, decimal_int, decimal_nat, string_from_chars, chars_of};
use vstd::string::StringSliceAdditionalSpecFns;
use vstd::utf8::encode_utf8;

verus! {

/// The four little-endian bytes of `n` taken modulo 2^32.
pub open spec fn le32(n: nat) -> Seq<u8> {
    seq![
        (n % 0x100) as u8,
        ((n / 0x100) % 0x100) as u8,
        ((n / 0x1_0000) % 0x100) as u8,
        ((n / 0x100_0000) % 0x100) as u8,
    ]
}

/// An instruction with an operand: the opcode byte, the operand's length as a
/// 32-bit little-endian number (modulo 2^32), then the operand.
pub open spec fn framed(op: OpCode, payload: Seq<u8>) -> Seq<u8> {
    seq![op.code()] + le32(payload.len()) + payload
}

/// The ASCII bytes of ASCII text.
pub open spec fn ascii_bytes(s: Seq<char>) -> Seq<u8> {
    s.map_values(|c: char| c as u8)
}

/// A lowercase hexadecimal digit.
pub open spec fn hex_digit(d: nat) -> u8 {
    if d < 10 { (48 + d) as u8 } else { (87 + d) as u8 }
}

/// How serde_json writes one character inside a string: a quote and a
/// backslash behind a backslash; backspace, tab, line feed, form feed and
/// carriage return as `\b`, `\t`, `\n`, `\f`, `\r`; any other control
/// character below 0x20 as `\u00` and two lowercase hexadecimal digits; every
/// other character as its UTF-8 bytes.
pub open spec fn json_escaped_char(c: char) -> Seq<u8> {
    let n = c as nat;
    if c == '"' {
        seq![92u8, 34u8]
    } else if c == '\\' {
        seq![92u8, 92u8]
    } else if n == 8 {
        seq![92u8, 98u8]
    } else if n == 9 {
        seq![92u8, 116u8]
    } else if n == 10 {
        seq![92u8, 110u8]
    } else if n == 12 {
        seq![92u8, 102u8]
    } else if n == 13 {
        seq![92u8, 114u8]
    } else if n < 32 {
        seq![92u8, 117u8, 48u8, 48u8, hex_digit(n / 16), hex_digit(n % 16)]
    } else {
        encode_utf8(seq![c])
    }
}

/// The escaped bytes of the first `n` characters of `s`.
pub open spec fn json_escaped(s: Seq<char>, n: int) -> Seq<u8>
    decreases n,
{
    if n <= 0 || s.len() == 0 {
        Seq::empty()
    } else if n > s.len() {
        json_escaped(s, s.len() as int)
    } else {
        json_escaped(s, n - 1) + json_escaped_char(s[n - 1])
    }
}

/// The JSON text serde_json writes for a string: the string in quotes, each
/// character escaped as [`json_escaped_char`] states.
pub open spec fn json_string_text(s: Seq<char>) -> Seq<u8> {
    seq![34u8] + json_escaped(s, s.len() as int) + seq![34u8]
}

/// The JSON text of a runtime value, as serde_json writes the JSON value it converts to.
pub open spec fn json_text(v: ValueView) -> Seq<u8> {
    match v {
        ValueView::Integer(i) => ascii_bytes(decimal_int(i as int)),
        ValueView::Boolean(b) => if b { ascii_bytes("true"@) } else { ascii_bytes("false"@) },
        ValueView::Text(s) => json_string_text(s),
        ValueView::Null => ascii_bytes("null"@),
        ValueView::Json { text, .. } => encode_utf8(text),
    }
}

/// The path `components` joined with dots.
pub open spec fn dotted(components: Seq<Seq<char>>) -> Seq<char>
    decreases components.len(),
{
    if components.len() == 0 {
        Seq::empty()
    } else if components.len() == 1 {
        components[0]
    } else {
        dotted(components.drop_last()) + "."@ + components.last()
    }
}

/// Errors in assembling bytecode.
#[derive(Debug, Clone, PartialEq, Eq)]
pub enum AssemblyError {
    /// A jump operand was patched at a position with fewer than four bytes after it.
    InvalidJumpPosition(usize),
    /// A literal could not be serialised; the text is the serialiser's message.
    Serialization(String),
}

impl AssemblyError {
    /// The message this error is displayed with.
    pub fn message(&self) -> (m: String)
        ensures
            self matches AssemblyError::InvalidJumpPosition(p) ==> m@ == "Invalid jump position: "@ + decimal_nat(p as nat),
            self matches AssemblyError::Serialization(t) ==> m@ == "Failed to serialize value: "@ + t@,
    {
        match self {
            AssemblyError::InvalidJumpPosition(p) => crate::text::with_decimal_u64("Invalid jump position: ", *p as u64),
            AssemblyError::Serialization(t) => concat_str("Failed to serialize value: ", t.as_str()),
        }
    }
}

/// serde_json's serialisation of an integer: its decimal digits. Writing into a
/// `Vec` cannot fail, so the result is always `Ok`.
#[verifier::external_body]
fn json_integer_bytes(i: i64) -> (r: Result<Vec<u8>, serde_json::Error>)
    ensures
        r is Ok,
        r matches Ok(b) ==> b@ == ascii_bytes(decimal_int(i as int)),
{
    serde_json::to_vec(&serde_json::Value::from(i))
}

/// serde_json's serialisation of an unsigned number: its decimal digits.
/// Writing into a `Vec` cannot fail, so the result is always `Ok`.
#[verifier::external_body]
fn json_unsigned_bytes(n: u64) -> (r: Result<Vec<u8>, serde_json::Error>)
    ensures
        r is Ok,
        r matches Ok(b) ==> b@ == ascii_bytes(decimal_nat(n as nat)),
{
    serde_json::to_vec(&serde_json::Value::from(n))
}

/// serde_json's serialisation of a string: the string quoted and escaped.
/// Writing into a `Vec` cannot fail, so the result is always `Ok`.
#[verifier::external_body]
fn json_string_bytes(s: &str) -> (r: Result<Vec<u8>, serde_json::Error>)
    ensures
        r is Ok,
        r matches Ok(b) ==> b@ == json_string_text(s@),
{
    serde_json::to_vec(s)
}

/// The message of a serde_json error.
#[verifier::external_body]
fn json_error_text(e: &serde_json::Error) -> (r: String) {
    e.to_string()
}

fn ascii_vec(s: &str) -> (r: Vec<u8>)
    requires
        vstd::string::is_ascii(s),
    ensures
        r@ == ascii_bytes(s@),
{
    proof { vstd::string::is_ascii_spec_bytes(s); }
    let b = s.as_bytes();
    let mut r: Vec<u8> = Vec::new();
    let mut i: usize = 0;
    while i < b.len()
        invariant
            0 <= i <= b.len(),
            b@ == s.spec_bytes(),
            s.spec_bytes() =~= Seq::new(s@.len(), |k: int| s@.index(k) as u8),
            r@ == b@.take(i as int),
        decreases b.len() - i,
    {
        r.push(b[i]);
        i = i + 1;
        assert(b@.take(i as int) =~= b@.take((i - 1) as int).push(b@[i - 1]));
    }
    assert(b@.take(b.len() as int) =~= b@);
    assert(r@ =~= ascii_bytes(s@));
    r
}

/// Builds bytecode one instruction at a time.
pub struct BytecodeAssembler {
    bytecode: Vec<u8>,
}

impl BytecodeAssembler {
    /// The bytes assembled so far.
    pub closed spec fn code(&self) -> Seq<u8> {
        self.bytecode@
    }

    /// An assembler with no bytes.
    pub fn new() -> (r: Self)
        ensures
            r.code() == Seq::<u8>::empty(),
    {
        BytecodeAssembler { bytecode: Vec::new() }
    }

    /// An assembler with no bytes and room for `capacity` of them.
    pub fn with_capacity(capacity: usize) -> (r: Self)
        ensures
            r.code() == Seq::<u8>::empty(),
    {
        BytecodeAssembler { bytecode: Vec::with_capacity(capacity) }
    }

    /// The bytes assembled so far.
    pub fn bytecode(&self) -> (b: &[u8])
        ensures
            b@ == self.code(),
    {
        self.bytecode.as_slice()
    }

    /// The bytes assembled, giving up the assembler.
    pub fn into_bytecode(self) -> (b: Vec<u8>)
        ensures
            b@ == self.code(),
    {
        self.bytecode
    }

    /// The number of bytes assembled.
    pub fn len(&self) -> (n: usize)
        ensures
            n == self.code().len(),
    {
        self.bytecode.len()
    }

    /// Whether no byte has been assembled.
    pub fn is_empty(&self) -> (b: bool)
        ensures
            b == (self.code().len() == 0),
    {
        self.bytecode.len() == 0
    }

    fn push_byte(&mut self, b: u8)
        ensures
            final(self).code() == old(self).code().push(b),
    {
        self.bytecode.push(b);
    }

    fn push_bytes(&mut self, bytes: &[u8])
        ensures
            final(self).code() == old(self).code() + bytes@,
    {
        let ghost start = self.bytecode@;
        let mut i: usize = 0;
        while i < bytes.len()
            invariant
                0 <= i <= bytes.len(),
                self.bytecode@ == start + bytes@.take(i as int),
            decreases bytes.len() - i,
        {
            self.bytecode.push(bytes[i]);
            i = i + 1;
            assert(bytes@.take(i as int) =~= bytes@.take((i - 1) as int).push(bytes@[i - 1]));
        }
        assert(bytes@.take(bytes.len() as int) =~= bytes@);
    }

    fn push_le32(&mut self, n: usize)
        ensures
            final(self).code() == old(self).code() + le32(n as nat),
    {
        let x: u64 = n as u64;
        let m: u64 = x % 0x1_0000_0000;
        let ghost start = self.bytecode@;
        self.bytecode.push((m % 0x100) as u8);
        self.bytecode.push(((m / 0x100) % 0x100) as u8);
        self.bytecode.push(((m / 0x1_0000) % 0x100) as u8);
        self.bytecode.push(((m / 0x100_0000) % 0x100) as u8);
        assert(x % 0x100 == (x % 0x1_0000_0000) % 0x100
            && (x / 0x100) % 0x100 == ((x % 0x1_0000_0000) / 0x100) % 0x100
            && (x / 0x1_0000) % 0x100 == ((x % 0x1_0000_0000) / 0x1_0000) % 0x100
            && (x / 0x100_0000) % 0x100 == ((x % 0x1_0000_0000) / 0x100_0000) % 0x100) by (bit_vector);
        assert(self.bytecode@ =~= start + le32(n as nat));
    }

    /// Appends an opcode.
    pub fn opcode(&mut self, opcode: OpCode) -> (r: &mut Self)
        ensures
            r.code() == old(self).code().push(opcode.code()),
            *final(self) == *final(r),
    {
        let b = opcode.to_byte();
        self.push_byte(b);
        self
    }

    /// Appends an opcode followed by a length-prefixed operand.
    pub fn opcode_with_bytes(&mut self, opcode: OpCode, bytes: &[u8]) -> (r: &mut Self)
        ensures
            r.code() == old(self).code() + framed(opcode, bytes@),
            *final(self) == *final(r),
    {
        self.append_framed(opcode, bytes);
        self
    }

    fn append_framed(&mut self, opcode: OpCode, bytes: &[u8])
        ensures
            final(self).code() == old(self).code() + framed(opcode, bytes@),
    {
        let ghost start = self.bytecode@;
        let b = opcode.to_byte();
        self.push_byte(b);
        self.push_le32(bytes.len());
        self.push_bytes(bytes);
        assert(self.bytecode@ =~= start + framed(opcode, bytes@));
    }

    /// Appends an opcode followed by the length-prefixed UTF-8 bytes of `s`.
    pub fn opcode_with_string(&mut self, opcode: OpCode, s: &str) -> (r: &mut Self)
        ensures
            r.code() == old(self).code() + framed(opcode, encode_utf8(s@)),
            *final(self) == *final(r),
    {
        let bytes = s.as_bytes();
        self.append_framed(opcode, bytes);
        self
    }

    /// Appends an opcode followed by the length-prefixed JSON text of a document.
    pub fn opcode_with_json(&mut self, opcode: OpCode, value: &JsonDatum) -> (r: Result<&mut Self, AssemblyError>)
        ensures
            r matches Ok(a) && a.code() == old(self).code() + framed(opcode, encode_utf8(value.text@))
                && *final(self) == *final(a),
    {
        self.append_framed(opcode, value.text.as_str().as_bytes());
        Ok(self)
    }

    /// Appends an opcode followed by the length-prefixed JSON text of a runtime
    /// value. Serialising a runtime value into bytes always succeeds.
    pub fn opcode_with_value(&mut self, opcode: OpCode, value: &Value) -> (r: Result<&mut Self, AssemblyError>)
        ensures
            r matches Ok(a) && a.code() == old(self).code() + framed(opcode, json_text(value@))
                && *final(self) == *final(a),
    {
        let serialized = match value {
            Value::Integer(i) => json_integer_bytes(*i),
            Value::Boolean(b) => {
                proof { vstd::string::is_ascii_spec_bytes("true"); vstd::string::is_ascii_spec_bytes("false"); }
                if *b {
                    proof { reveal_strlit("true"); }
                    Ok(ascii_vec("true"))
                } else {
                    proof { reveal_strlit("false"); }
                    Ok(ascii_vec("false"))
                }
            },
            Value::String(s) => json_string_bytes(s.as_str()),
            Value::Null => {
                proof { reveal_strlit("null"); }
                Ok(ascii_vec("null"))
            },
            Value::Json(d) => Ok(slice_to_vec_bytes(d.text.as_str().as_bytes())),
        };
        match serialized {
            Ok(bytes) => {
                self.append_framed(opcode, bytes.as_slice());
                Ok(self)
            },
            Err(e) => {
                let b = opcode.to_byte();
                self.push_byte(b);
                Err(AssemblyError::Serialization(json_error_text(&e)))
            },
        }
    }

    /// Appends a `Push` of a JSON literal.
    pub fn push_literal(&mut self, value: &JsonDatum) -> (r: Result<&mut Self, AssemblyError>)
        ensures
            r matches Ok(a) && a.code() == old(self).code() + framed(OpCode::Push, encode_utf8(value.text@))
                && *final(self) == *final(a),
    {
        self.opcode_with_json(OpCode::Push, value)
    }

    /// Appends a `Push` of a runtime value's JSON text.
    pub fn push_runtime_value(&mut self, value: &Value) -> (r: Result<&mut Self, AssemblyError>)
        ensures
            r matches Ok(a) && a.code() == old(self).code() + framed(OpCode::Push, json_text(value@))
                && *final(self) == *final(a),
    {
        self.opcode_with_value(OpCode::Push, value)
    }

    /// Appends a `LoadVar` of `path`.
    pub fn load_var(&mut self, path: &str) -> (r: &mut Self)
        ensures
            r.code() == old(self).code() + framed(OpCode::LoadVar, encode_utf8(path@)),
            *final(self) == *final(r),
    {
        self.opcode_with_string(OpCode::LoadVar, path)
    }

    /// Appends a `LoadVar` of the path made by joining `path_components` with dots.
    pub fn load_var_path(&mut self, path_components: &[&str]) -> (r: &mut Self)
        ensures
            r.code() == old(self).code() + framed(
                OpCode::LoadVar,
                encode_utf8(dotted(path_components@.map_values(|c: &str| c@))),
            ),
            *final(self) == *final(r),
    {
        let path = join_with_dots(path_components);
        self.load_var(path.as_str())
    }

    fn open_jump(&mut self, opcode: OpCode) -> (pos: usize)
        ensures
            final(self).code() == old(self).code().push(opcode.code()) + seq![0u8, 0u8, 0u8, 0u8],
            pos == old(self).code().len() + 1,
    {
        let b = opcode.to_byte();
        self.push_byte(b);
        let pos = self.bytecode.len();
        let ghost mid = self.bytecode@;
        self.bytecode.push(0);
        self.bytecode.push(0);
        self.bytecode.push(0);
        self.bytecode.push(0);
        assert(self.bytecode@ =~= mid + seq![0u8, 0u8, 0u8, 0u8]);
        pos
    }

    /// Appends a `JumpIfFalse` with a zero offset, returning where its offset starts.
    pub fn jump_if_false(&mut self) -> (pos: usize)
        ensures
            final(self).code() == old(self).code().push(OpCode::JumpIfFalse.code()) + seq![0u8, 0u8, 0u8, 0u8],
            pos == old(self).code().len() + 1,
    {
        self.open_jump(OpCode::JumpIfFalse)
    }

    /// Appends a `Jump` with a zero offset, returning where its offset starts.
    pub fn jump(&mut self) -> (pos: usize)
        ensures
            final(self).code() == old(self).code().push(OpCode::Jump.code()) + seq![0u8, 0u8, 0u8, 0u8],
            pos == old(self).code().len() + 1,
    {
        self.open_jump(OpCode::Jump)
    }

    /// Sets the offset at `jump_pos` to the distance from the end of that offset to
    /// the end of the code, or reports an invalid position when fewer than four
    /// bytes follow `jump_pos`.
    pub fn patch_jump(&mut self, jump_pos: usize) -> (r: Result<&mut Self, AssemblyError>)
        requires
            jump_pos <= usize::MAX - 4,
        ensures
            jump_pos + 4 > old(self).code().len() ==> (r matches Err(e) && e == AssemblyError::InvalidJumpPosition(jump_pos)
                && final(self).code() == old(self).code()),
            jump_pos + 4 <= old(self).code().len() ==> (r matches Ok(a)
                && a.code() == old(self).code().take(jump_pos as int)
                    + le32((old(self).code().len() - jump_pos - 4) as nat)
                    + old(self).code().skip(jump_pos + 4)
                && *final(self) == *final(a)),
    {
        let len = self.bytecode.len();
        if jump_pos + 4 > len {
            return Err(AssemblyError::InvalidJumpPosition(jump_pos));
        }
        let ghost before = self.bytecode@;
        let offset: usize = len - jump_pos - 4;
        let mut patch = BytecodeAssembler::new();
        patch.push_le32(offset);
        let bytes = patch.into_bytecode();
        let mut i: usize = 0;
        while i < 4
            invariant
                0 <= i <= 4,
                jump_pos + 4 <= len,
                len == before.len(),
                bytes@ == le32(offset as nat),
                self.bytecode@.len() == len,
                forall|k: int| 0 <= k < len && !(jump_pos <= k < jump_pos + i) ==> self.bytecode@[k] == before[k],
                forall|k: int| jump_pos <= k < jump_pos + i ==> self.bytecode@[k] == bytes@[k - jump_pos],
            decreases 4 - i,
        {
            self.bytecode.set(jump_pos + i, bytes[i]);
            i = i + 1;
        }
        assert(self.bytecode@ =~= before.take(jump_pos as int) + le32(offset as nat) + before.skip(jump_pos + 4));
        Ok(self)
    }

    /// Appends a `Push` of the argument count as a JSON number, then a `Call`.
    pub fn call_function(&mut self, arg_count: usize) -> (r: Result<&mut Self, AssemblyError>)
        ensures
            r matches Ok(a) && a.code() == old(self).code() + framed(OpCode::Push, ascii_bytes(decimal_nat(arg_count as nat)))
                .push(OpCode::Call.code()) && *final(self) == *final(a),
    {
        match json_unsigned_bytes(arg_count as u64) {
            Ok(bytes) => {
                self.append_framed(OpCode::Push, bytes.as_slice());
                let b = OpCode::Call.to_byte();
                self.push_byte(b);
                Ok(self)
            },
            Err(e) => {
                let b = OpCode::Push.to_byte();
                self.push_byte(b);
                Err(AssemblyError::Serialization(json_error_text(&e)))
            },
        }
    }

    /// Appends `Add`.
    pub fn add(&mut self) -> (r: &mut Self)
        ensures r.code() == old(self).code().push(OpCode::Add.code()), *final(self) == *final(r),
    {
        self.opcode(OpCode::Add)
    }

    /// Appends `Subtract`.
    pub fn subtract(&mut self) -> (r: &mut Self)
        ensures r.code() == old(self).code().push(OpCode::Subtract.code()), *final(self) == *final(r),
    {
        self.opcode(OpCode::Subtract)
    }

    /// Appends `Multiply`.
    pub fn multiply(&mut self) -> (r: &mut Self)
        ensures r.code() == old(self).code().push(OpCode::Multiply.code()), *final(self) == *final(r),
    {
        self.opcode(OpCode::Multiply)
    }

    /// Appends `Divide`.
    pub fn divide(&mut self) -> (r: &mut Self)
        ensures r.code() == old(self).code().push(OpCode::Divide.code()), *final(self) == *final(r),
    {
        self.opcode(OpCode::Divide)
    }

    /// Appends `Modulo`.
    pub fn modulo(&mut self) -> (r: &mut Self)
        ensures r.code() == old(self).code().push(OpCode::Modulo.code()), *final(self) == *final(r),
    {
        self.opcode(OpCode::Modulo)
    }

    /// Appends `Equal`.
    pub fn equal(&mut self) -> (r: &mut Self)
        ensures r.code() == old(self).code().push(OpCode::Equal.code()), *final(self) == *final(r),
    {
        self.opcode(OpCode::Equal)
    }

    /// Appends `NotEqual`.
    pub fn not_equal(&mut self) -> (r: &mut Self)
        ensures r.code() == old(self).code().push(OpCode::NotEqual.code()), *final(self) == *final(r),
    {
        self.opcode(OpCode::NotEqual)
    }

    /// Appends `GreaterThan`.
    pub fn greater_than(&mut self) -> (r: &mut Self)
        ensures r.code() == old(self).code().push(OpCode::GreaterThan.code()), *final(self) == *final(r),
    {
        self.opcode(OpCode::GreaterThan)
    }

    /// Appends `GreaterEqual`.
    pub fn greater_equal(&mut self) -> (r: &mut Self)
        ensures r.code() == old(self).code().push(OpCode::GreaterEqual.code()), *final(self) == *final(r),
    {
        self.opcode(OpCode::GreaterEqual)
    }

    /// Appends `LessThan`.
    pub fn less_than(&mut self) -> (r: &mut Self)
        ensures r.code() == old(self).code().push(OpCode::LessThan.code()), *final(self) == *final(r),
    {
        self.opcode(OpCode::LessThan)
    }

    /// Appends `LessEqual`.
    pub fn less_equal(&mut self) -> (r: &mut Self)
        ensures r.code() == old(self).code().push(OpCode::LessEqual.code()), *final(self) == *final(r),
    {
        self.opcode(OpCode::LessEqual)
    }

    /// Appends `And`.
    pub fn and(&mut self) -> (r: &mut Self)
        ensures r.code() == old(self).code().push(OpCode::And.code()), *final(self) == *final(r),
    {
        self.opcode(OpCode::And)
    }

    /// Appends `Or`.
    pub fn or(&mut self) -> (r: &mut Self)
        ensures r.code() == old(self).code().push(OpCode::Or.code()), *final(self) == *final(r),
    {
        self.opcode(OpCode::Or)
    }

    /// Appends `Not`.
    pub fn not(&mut self) -> (r: &mut Self)
        ensures r.code() == old(self).code().push(OpCode::Not.code()), *final(self) == *final(r),
    {
        self.opcode(OpCode::Not)
    }

    /// Appends `Negate`.
    pub fn negate(&mut self) -> (r: &mut Self)
        ensures r.code() == old(self).code().push(OpCode::Negate.code()), *final(self) == *final(r),
    {
        self.opcode(OpCode::Negate)
    }

    /// Appends `LoadIndex`.
    pub fn load_index(&mut self) -> (r: &mut Self)
        ensures r.code() == old(self).code().push(OpCode::LoadIndex.code()), *final(self) == *final(r),
    {
        self.opcode(OpCode::LoadIndex)
    }

    /// Appends `Halt`.
    pub fn halt(&mut self) -> (r: &mut Self)
        ensures r.code() == old(self).code().push(OpCode::Halt.code()), *final(self) == *final(r),
    {
        self.opcode(OpCode::Halt)
    }
}

impl Default for BytecodeAssembler {
    fn default() -> (r: Self)
        ensures
            r.code() == Seq::<u8>::empty(),
    {
        BytecodeAssembler::new()
    }
}

fn slice_to_vec_bytes(b: &[u8]) -> (r: Vec<u8>)
    ensures
        r@ == b@,
{
    let mut r: Vec<u8> = Vec::new();
    let mut i: usize = 0;
    while i < b.len()
        invariant
            0 <= i <= b.len(),
            r@ == b@.take(i as int),
        decreases b.len() - i,
    {
        r.push(b[i]);
        i = i + 1;
        assert(b@.take(i as int) =~= b@.take((i - 1) as int).push(b@[i - 1]));
    }
    assert(b@.take(b.len() as int) =~= b@);
    r
}

/// The components joined with dots.
pub fn join_with_dots(components: &[&str]) -> (r: String)
    ensures
        r@ == dotted(components@.map_values(|c: &str| c@)),
{
    let ghost cs = components@.map_values(|c: &str| c@);
    let mut out: Vec<char> = Vec::new();
    let mut i: usize = 0;
    while i < components.len()
        invariant
            0 <= i <= components.len(),
            cs == components@.map_values(|c: &str| c@),
            out@ == dotted(cs.take(i as int)),
        decreases components.len() - i,
    {
        if i > 0 {
            crate::text::push_str_chars(&mut out, ".");
        }
        crate::text::push_str_chars(&mut out, components[i]);
        proof {
            let t = cs.take((i + 1) as int);
            assert(t.drop_last() =~= cs.take(i as int));
            assert(t.last() == components@[i as int]@);
            if i == 0 {
                assert(out@ =~= t[0]);
            }
        }
        i = i + 1;
    }
    assert(cs.take(components.len() as int) =~= cs);
    string_from_chars(out.as_slice())
}

} // verus!
