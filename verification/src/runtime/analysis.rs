use vstd::prelude::*;
use crate::runtime::interpreter::read_i32_le;
use crate::runtime::opcode::{decode_opcode, invalid_opcode_text, ErrorView, InterpreterError, OpCode};
use crate::runtime::semantics::imm_i32;
use crate::text::{decimal_int, push_decimal_i64, push_str_chars, string_from_chars};

verus! {

/// The sign written for an arithmetic opcode that follows a `Push`, if any.
pub open spec fn arith_sign(op: OpCode) -> Option<Seq<char>> {
    match op {
        OpCode::Add => Some("+"@),
        OpCode::Subtract => Some("-"@),
        OpCode::Multiply => Some("*"@),
        OpCode::Divide => Some("/"@),
        OpCode::Modulo => Some("%"@),
        _ => None,
    }
}

/// The lines describing a computational segment from `ip`: a `Push` followed by an
/// arithmetic opcode is one `Compute: <sign><value>` line, another `Push` is
/// `Compute: push <value>`, any other opcode is `Compute op: <name>`; bytes that
/// encode no opcode are skipped, and a `Push` cut short ends the description.
pub open spec fn describe_from(code: Seq<u8>, ip: int) -> Seq<Seq<char>>
    decreases code.len() - ip,
{
    if ip < 0 || ip >= code.len() {
        Seq::empty()
    } else {
        match OpCode::decode(code[ip]) {
            None => describe_from(code, ip + 1),
            Some(OpCode::Push) =>
                if ip + 5 > code.len() {
                    Seq::empty()
                } else {
                    let imm = decimal_int(imm_i32(code, ip + 1));
                    let after = ip + 5;
                    if after < code.len() {
                        match OpCode::decode(code[after]) {
                            Some(next) => match arith_sign(next) {
                                Some(sign) => seq!["Compute: "@ + sign + imm] + describe_from(code, after + 1),
                                None => seq!["Compute: push "@ + imm] + describe_from(code, after),
                            },
                            None => seq!["Compute: push "@ + imm] + describe_from(code, after),
                        }
                    } else {
                        seq!["Compute: push "@ + imm]
                    }
                },
            Some(op) => seq!["Compute op: "@ + op.name()] + describe_from(code, ip + 1),
        }
    }
}

fn sign_text(op: OpCode) -> (r: Option<&'static str>)
    ensures
        match arith_sign(op) {
            Some(s) => r matches Some(t) && t@ == s,
            None => r is None,
        },
{
    match op {
        OpCode::Add => Some("+"),
        OpCode::Subtract => Some("-"),
        OpCode::Multiply => Some("*"),
        OpCode::Divide => Some("/"),
        OpCode::Modulo => Some("%"),
        _ => None,
    }
}

fn line_with_value(prefix: &str, v: i64) -> (s: String)
    ensures
        s@ == prefix@ + decimal_int(v as int),
{
    let mut out: Vec<char> = Vec::new();
    push_str_chars(&mut out, prefix);
    push_decimal_i64(v, &mut out);
    string_from_chars(out.as_slice())
}

/// Describes a computational segment line by line, as [`describe_from`] does from its start.
pub fn describe_computational_segment(bytes: &[u8]) -> (lines: Vec<String>)
    ensures
        lines@.map_values(|l: String| l@) == describe_from(bytes@, 0),
{
    let mut lines: Vec<String> = Vec::new();
    let mut ip: usize = 0;
    let ghost goal = describe_from(bytes@, 0);
    while ip < bytes.len()
        invariant
            ip <= bytes.len(),
            goal == describe_from(bytes@, 0),
            goal == lines@.map_values(|l: String| l@) + describe_from(bytes@, ip as int),
        decreases bytes.len() - ip,
    {
        let ghost before = lines@.map_values(|l: String| l@);
        let ghost ip0 = ip as int;
        match OpCode::from_byte(bytes[ip]) {
            None => {
                ip = ip + 1;
            },
            Some(OpCode::Push) => {
                if bytes.len() - ip < 5 {
                    proof { assert(goal =~= lines@.map_values(|l: String| l@)); }
                    return lines;
                }
                let imm = read_i32_le(bytes, ip + 1);
                let after = ip + 5;
                if after < bytes.len() {
                    let mut handled = false;
                    match OpCode::from_byte(bytes[after]) {
                        Some(next) => {
                            match sign_text(next) {
                                Some(sign) => {
                                    let prefix = crate::text::concat_str("Compute: ", sign);
                                    let l = line_with_value(prefix.as_str(), imm);
                                    lines.push(l);
                                    ip = after + 1;
                                    handled = true;
                                },
                                None => {},
                            }
                        },
                        None => {},
                    }
                    if !handled {
                        let l = line_with_value("Compute: push ", imm);
                        lines.push(l);
                        ip = after;
                    }
                    proof {
                        assert(lines@.map_values(|l: String| l@) =~= before.push(lines@.last()@));
                        assert(goal =~= lines@.map_values(|l: String| l@) + describe_from(bytes@, ip as int));
                    }
                } else {
                    let l = line_with_value("Compute: push ", imm);
                    lines.push(l);
                    proof {
                        assert(lines@.map_values(|l: String| l@) =~= before.push(lines@.last()@));
                        assert(goal =~= lines@.map_values(|l: String| l@));
                    }
                    return lines;
                }
            },
            Some(op) => {
                let name = op.name_string();
                let l = crate::text::concat_str("Compute op: ", name.as_str());
                lines.push(l);
                ip = ip + 1;
                proof {
                    assert(lines@.map_values(|l: String| l@) =~= before.push(lines@.last()@));
                    assert(goal =~= lines@.map_values(|l: String| l@) + describe_from(bytes@, ip as int));
                }
            },
        }
    }
    proof { assert(goal =~= lines@.map_values(|l: String| l@)); }
    lines
}

/// How many values an opcode pops and then pushes, for the opcodes that do not end the analysis.
pub open spec fn stack_effect(op: OpCode) -> Option<(int, int)> {
    match op {
        OpCode::Push => Some((0, 1)),
        OpCode::Pop => Some((1, 0)),
        OpCode::Add | OpCode::Subtract | OpCode::Multiply | OpCode::Divide | OpCode::Modulo => Some((2, 1)),
        OpCode::Negate | OpCode::Not => Some((1, 1)),
        OpCode::Equal | OpCode::NotEqual | OpCode::GreaterThan | OpCode::LessThan
        | OpCode::GreaterEqual | OpCode::LessEqual => Some((2, 1)),
        OpCode::And | OpCode::Or => Some((2, 1)),
        OpCode::Dup => Some((1, 2)),
        OpCode::Swap => Some((2, 2)),
        _ => None,
    }
}

/// The lowest stack depth reached, relative to the start, scanning from `ip` with
/// `depth` and `lowest` so far; `Err` for a byte that encodes no opcode. Each
/// instruction's pops are counted before its pushes; `Halt`, `CallFfi`, any
/// opcode without a stack effect, and a `Push` cut short end the scan.
pub open spec fn lowest_depth_from(code: Seq<u8>, ip: int, depth: int, lowest: int) -> Result<int, ErrorView>
    decreases code.len() - ip,
{
    if ip < 0 || ip >= code.len() {
        Ok(lowest)
    } else {
        match OpCode::decode(code[ip]) {
            None => Err(ErrorView::InvalidBytecode(invalid_opcode_text(code[ip]))),
            Some(op) => {
                if op == OpCode::Push && ip + 5 > code.len() {
                    Ok(lowest)
                } else {
                    match stack_effect(op) {
                        None => Ok(lowest),
                        Some((pops, pushes)) => {
                            let d = depth - pops;
                            let low = if d < lowest { d } else { lowest };
                            let next = if op == OpCode::Push { ip + 5 } else { ip + 1 };
                            lowest_depth_from(code, next, d + pushes, low)
                        },
                    }
                }
            },
        }
    }
}

fn effect(op: OpCode) -> (r: Option<(i128, i128)>)
    ensures
        match stack_effect(op) {
            Some((p, q)) => r matches Some((a, b)) && a == p && b == q,
            None => r is None,
        },
{
    match op {
        OpCode::Push => Some((0, 1)),
        OpCode::Pop => Some((1, 0)),
        OpCode::Add | OpCode::Subtract | OpCode::Multiply | OpCode::Divide | OpCode::Modulo => Some((2, 1)),
        OpCode::Negate | OpCode::Not => Some((1, 1)),
        OpCode::Equal | OpCode::NotEqual | OpCode::GreaterThan | OpCode::LessThan
        | OpCode::GreaterEqual | OpCode::LessEqual => Some((2, 1)),
        OpCode::And | OpCode::Or => Some((2, 1)),
        OpCode::Dup => Some((1, 2)),
        OpCode::Swap => Some((2, 2)),
        _ => None,
    }
}

fn depth_to_count(lowest: i128, len: usize) -> (n: usize)
    requires
        -(len as int) - 1 <= lowest <= 0,
        len < usize::MAX,
    ensures
        n == -lowest,
{
    (0 - lowest) as usize
}

/// How many values must be on the stack before `bytecode` runs so that it never
/// pops from an empty stack, as far as [`lowest_depth_from`] scans it.
pub fn analyse_min_required_inputs(bytecode: &[u8]) -> (r: Result<usize, InterpreterError>)
    requires
        bytecode.len() < usize::MAX,
    ensures
        match lowest_depth_from(bytecode@, 0, 0, 0) {
            Ok(low) => r matches Ok(n) && n == -low,
            Err(e) => r matches Err(x) && x@ == e,
        },
{
    let mut ip: usize = 0;
    let mut depth: i128 = 0;
    let mut lowest: i128 = 0;
    let ghost goal = lowest_depth_from(bytecode@, 0, 0, 0);
    while ip < bytecode.len()
        invariant
            ip <= bytecode.len(),
            bytecode.len() < usize::MAX,
            goal == lowest_depth_from(bytecode@, 0, 0, 0),
            goal == lowest_depth_from(bytecode@, ip as int, depth as int, lowest as int),
            -(ip as int) - 1 <= lowest <= 0,
            lowest <= depth <= 2 * (ip as int),
            depth >= -(ip as int),
        decreases bytecode.len() - ip,
    {
        let op = match decode_opcode(bytecode[ip]) {
            Ok(op) => op,
            Err(e) => return Err(e),
        };
        if op == OpCode::Push && bytecode.len() - ip < 5 {
            return Ok(depth_to_count(lowest, bytecode.len()));
        }
        match effect(op) {
            None => {
                return Ok(depth_to_count(lowest, bytecode.len()));
            },
            Some((pops, pushes)) => {
                depth = depth - pops;
                if depth < lowest {
                    lowest = depth;
                }
                depth = depth + pushes;
                ip = if op == OpCode::Push { ip + 5 } else { ip + 1 };
            },
        }
    }
    Ok(depth_to_count(lowest, bytecode.len()))
}

} // verus!
