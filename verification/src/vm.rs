//! The VM translator: each stack-machine command appends a fixed sequence of
//! Hack assembly lines to a buffer. Comparisons draw fresh labels from
//! per-operation counters so that repeated commands never collide.

use crate::text::{
    dec_seq, dec_string, dec_val, lemma_dec_seq_injective, lemma_dec_val_bounds, parse_u16,
    split_tokens, str_eq, tokens_of, u16_parses,
};
use vstd::pervasive::unreached;
use vstd::prelude::*;

verus! {

/// The views of an assembly line buffer.
pub open spec fn asm_view(s: Seq<String>) -> Seq<Seq<char>> {
    s.map_values(|l: String| l@)
}

/// The line `@n` for a numeric address or constant.
pub open spec fn at_num(n: u16) -> Seq<char> {
    "@"@ + dec_seq(n as nat)
}

/// The line `@sym` for a symbolic address.
pub open spec fn at_sym(sym: Seq<char>) -> Seq<char> {
    "@"@ + sym
}

/// The line `(sym)` declaring a label.
pub open spec fn label_line(sym: Seq<char>) -> Seq<char> {
    "("@ + sym + ")"@
}

/// The static-segment symbol `Static.n`.
pub open spec fn static_label(n: u16) -> Seq<char> {
    "Static."@ + dec_seq(n as nat)
}

/// Pushing a constant: load it into D, store D at the stack top, bump SP.
pub open spec fn push_value_lines(value: u16) -> Seq<Seq<char>> {
    seq![at_num(value), "D=A"@, "@SP"@, "A=M"@, "M=D"@, "@SP"@, "M=M+1"@]
}

/// Pushing through a segment pointer: D becomes the word at base + index,
/// then D is pushed.
pub open spec fn push_from_pointer_lines(pointer: Seq<char>, index: u16) -> Seq<Seq<char>> {
    seq![
        at_sym(pointer),
        "D=M"@,
        at_num(index),
        "A=D+A"@,
        "D=M"@,
        "@SP"@,
        "A=M"@,
        "M=D"@,
        "@SP"@,
        "M=M+1"@,
    ]
}

/// Pushing from a directly addressed cell: D becomes the word at the given
/// address line, then D is pushed.
pub open spec fn push_direct_lines(addr: Seq<char>) -> Seq<Seq<char>> {
    seq![addr, "D=M"@, "@SP"@, "A=M"@, "M=D"@, "@SP"@, "M=M+1"@]
}

/// Popping through a segment pointer: the target base + index is stashed in
/// R13, the top of stack lands in D, and D is stored through R13.
pub open spec fn pop_to_pointer_lines(pointer: Seq<char>, index: u16) -> Seq<Seq<char>> {
    seq![
        at_sym(pointer),
        "D=M"@,
        at_num(index),
        "D=D+A"@,
        "@R13"@,
        "M=D"@,
        "@SP"@,
        "M=M-1"@,
        "A=M"@,
        "D=M"@,
        "@R13"@,
        "A=M"@,
        "M=D"@,
    ]
}

/// Popping into a directly addressed cell.
pub open spec fn pop_direct_lines(addr: Seq<char>) -> Seq<Seq<char>> {
    seq!["@SP"@, "M=M-1"@, "A=M"@, "D=M"@, addr, "M=D"@]
}

/// The shared binary prelude: pop y into D, then point A at x.
pub open spec fn setup_x_y_lines() -> Seq<Seq<char>> {
    seq!["@SP"@, "M=M-1"@, "A=M"@, "D=M"@, "@SP"@, "M=M-1"@, "A=M"@]
}

/// The shared epilogue: store D at the stack top and bump SP.
pub open spec fn push_result_lines() -> Seq<Seq<char>> {
    seq!["M=D"@, "@SP"@, "M=M+1"@]
}

/// A binary operation: the prelude, one computing line, the epilogue.
pub open spec fn binary_op_lines(op: Seq<char>) -> Seq<Seq<char>> {
    setup_x_y_lines() + seq![op] + push_result_lines()
}

/// A unary operation acts in place on the stack top.
pub open spec fn unary_op_lines(op: Seq<char>) -> Seq<Seq<char>> {
    seq!["@SP"@, "M=M-1"@, "A=M"@, op] + push_result_lines()
}

/// A comparison: subtract, jump to the true branch on the predicate, store
/// 0 or the all-ones truth value, and rejoin at the end label.
pub open spec fn compare_lines(jump: Seq<char>, true_label: Seq<char>, end_label: Seq<char>) -> Seq<
    Seq<char>,
> {
    setup_x_y_lines() + seq![
        "D=M-D"@,
        at_sym(true_label),
        jump,
        "@SP"@,
        "A=M"@,
        "M=0"@,
        at_sym(end_label),
        "0;JMP"@,
        label_line(true_label),
        "@SP"@,
        "A=M"@,
        "M=-1"@,
        label_line(end_label),
        "@SP"@,
        "M=M+1"@,
    ]
}

pub open spec fn eq_true_label(n: u16) -> Seq<char> {
    "EQ_TRUE_"@ + dec_seq(n as nat)
}

pub open spec fn eq_end_label(n: u16) -> Seq<char> {
    "EQ_END_"@ + dec_seq(n as nat)
}

pub open spec fn gt_true_label(n: u16) -> Seq<char> {
    "GT_TRUE_"@ + dec_seq(n as nat)
}

pub open spec fn gt_end_label(n: u16) -> Seq<char> {
    "GT_END_"@ + dec_seq(n as nat)
}

pub open spec fn lt_true_label(n: u16) -> Seq<char> {
    "LT_TRUE_"@ + dec_seq(n as nat)
}

pub open spec fn lt_end_label(n: u16) -> Seq<char> {
    "LT_END_"@ + dec_seq(n as nat)
}

pub open spec fn eq_lines(n: u16) -> Seq<Seq<char>> {
    compare_lines("D;JEQ"@, eq_true_label(n), eq_end_label(n))
}

pub open spec fn gt_lines(n: u16) -> Seq<Seq<char>> {
    compare_lines("D;JGT"@, gt_true_label(n), gt_end_label(n))
}

pub open spec fn lt_lines(n: u16) -> Seq<Seq<char>> {
    compare_lines("D;JLT"@, lt_true_label(n), lt_end_label(n))
}


/// Label freshness: comparisons translated under different counter values
/// never declare the same label, so repeated `eq`, `gt` or `lt` commands
/// cannot collide.
pub proof fn lemma_labels_fresh(m: u16, n: u16)
    requires
        m != n,
    ensures
        eq_true_label(m) != eq_true_label(n),
        eq_end_label(m) != eq_end_label(n),
        gt_true_label(m) != gt_true_label(n),
        gt_end_label(m) != gt_end_label(n),
        lt_true_label(m) != lt_true_label(n),
        lt_end_label(m) != lt_end_label(n),
{
    assert forall|p: Seq<char>|
        p + dec_seq(m as nat) == p + dec_seq(n as nat) implies false by {
        assert((p + dec_seq(m as nat)).skip(p.len() as int) =~= dec_seq(m as nat));
        assert((p + dec_seq(n as nat)).skip(p.len() as int) =~= dec_seq(n as nat));
        lemma_dec_seq_injective(m as nat, n as nat);
    }
}

/// Whether a `push` command's segment and index are acceptable.
pub open spec fn push_cmd_ok(seg: Seq<char>, num: Seq<char>) -> bool {
    u16_parses(num) && {
        let v = dec_val(num);
        if seg == "temp"@ {
            v + 5 <= 65535
        } else if seg == "pointer"@ {
            v <= 1
        } else {
            seg == "constant"@ || seg == "local"@ || seg == "argument"@ || seg == "this"@ || seg
                == "that"@ || seg == "static"@
        }
    }
}

/// The lines a `push` command emits for each segment.
pub open spec fn push_cmd_lines(seg: Seq<char>, idx: u16) -> Seq<Seq<char>> {
    if seg == "constant"@ {
        push_value_lines(idx)
    } else if seg == "local"@ {
        push_from_pointer_lines("LCL"@, idx)
    } else if seg == "argument"@ {
        push_from_pointer_lines("ARG"@, idx)
    } else if seg == "this"@ {
        push_from_pointer_lines("THIS"@, idx)
    } else if seg == "that"@ {
        push_from_pointer_lines("THAT"@, idx)
    } else if seg == "temp"@ {
        push_direct_lines(at_num((idx + 5) as u16))
    } else if seg == "pointer"@ {
        push_direct_lines(
            at_sym(
                if idx == 0 {
                    "THIS"@
                } else {
                    "THAT"@
                },
            ),
        )
    } else {
        push_direct_lines(at_sym(static_label(idx)))
    }
}

/// Whether a `pop` command's segment and index are acceptable; the constant
/// segment is no memory region and cannot be popped into.
pub open spec fn pop_cmd_ok(seg: Seq<char>, num: Seq<char>) -> bool {
    u16_parses(num) && {
        let v = dec_val(num);
        if seg == "temp"@ {
            v + 5 <= 65535
        } else if seg == "pointer"@ {
            v <= 1
        } else {
            seg == "local"@ || seg == "argument"@ || seg == "this"@ || seg == "that"@ || seg
                == "static"@
        }
    }
}

/// The lines a `pop` command emits for each segment.
pub open spec fn pop_cmd_lines(seg: Seq<char>, idx: u16) -> Seq<Seq<char>> {
    if seg == "local"@ {
        pop_to_pointer_lines("LCL"@, idx)
    } else if seg == "argument"@ {
        pop_to_pointer_lines("ARG"@, idx)
    } else if seg == "this"@ {
        pop_to_pointer_lines("THIS"@, idx)
    } else if seg == "that"@ {
        pop_to_pointer_lines("THAT"@, idx)
    } else if seg == "temp"@ {
        pop_direct_lines(at_num((idx + 5) as u16))
    } else if seg == "pointer"@ {
        pop_direct_lines(
            at_sym(
                if idx == 0 {
                    "THIS"@
                } else {
                    "THAT"@
                },
            ),
        )
    } else {
        pop_direct_lines(at_sym(static_label(idx)))
    }
}

/// Whether one whitespace-separated VM command is well formed.
pub open spec fn vm_cmd_ok(cmd: Seq<char>) -> bool {
    let ts = tokens_of(cmd);
    if ts.len() == 1 {
        ts[0] == "add"@ || ts[0] == "sub"@ || ts[0] == "and"@ || ts[0] == "or"@ || ts[0] == "not"@
            || ts[0] == "neg"@ || ts[0] == "eq"@ || ts[0] == "gt"@ || ts[0] == "lt"@
    } else if ts.len() == 3 {
        (ts[0] == "push"@ && push_cmd_ok(ts[1], ts[2])) || (ts[0] == "pop"@ && pop_cmd_ok(
            ts[1],
            ts[2],
        ))
    } else {
        false
    }
}

/// The lines one VM command emits, given the current label counters.
pub open spec fn vm_cmd_lines(cmd: Seq<char>, ce: u16, cg: u16, cl: u16) -> Seq<Seq<char>> {
    let ts = tokens_of(cmd);
    if ts.len() == 3 {
        if ts[0] == "push"@ {
            push_cmd_lines(ts[1], dec_val(ts[2]) as u16)
        } else {
            pop_cmd_lines(ts[1], dec_val(ts[2]) as u16)
        }
    } else {
        if ts[0] == "add"@ {
            binary_op_lines("D=D+M"@)
        } else if ts[0] == "sub"@ {
            binary_op_lines("D=M-D"@)
        } else if ts[0] == "and"@ {
            binary_op_lines("D=D&M"@)
        } else if ts[0] == "or"@ {
            binary_op_lines("D=D|M"@)
        } else if ts[0] == "not"@ {
            unary_op_lines("D=!M"@)
        } else if ts[0] == "neg"@ {
            unary_op_lines("D=-M"@)
        } else if ts[0] == "eq"@ {
            eq_lines(ce)
        } else if ts[0] == "gt"@ {
            gt_lines(cg)
        } else {
            lt_lines(cl)
        }
    }
}

/// How much one command advances the `eq` label counter.
pub open spec fn eq_delta(cmd: Seq<char>) -> int {
    if tokens_of(cmd).len() == 1 && tokens_of(cmd)[0] == "eq"@ {
        1int
    } else {
        0int
    }
}

pub open spec fn gt_delta(cmd: Seq<char>) -> int {
    if tokens_of(cmd).len() == 1 && tokens_of(cmd)[0] == "gt"@ {
        1int
    } else {
        0int
    }
}

pub open spec fn lt_delta(cmd: Seq<char>) -> int {
    if tokens_of(cmd).len() == 1 && tokens_of(cmd)[0] == "lt"@ {
        1int
    } else {
        0int
    }
}

/// The lines and final counters after translating the first `i` commands,
/// starting from the given counters.
pub open spec fn translate_upto(cmds: Seq<Seq<char>>, i: int, ce: int, cg: int, cl: int) -> (
    Seq<Seq<char>>,
    int,
    int,
    int,
)
    decreases i,
{
    if i <= 0 {
        (Seq::empty(), ce, cg, cl)
    } else {
        let r = translate_upto(cmds, i - 1, ce, cg, cl);
        (
            r.0 + vm_cmd_lines(cmds[i - 1], r.1 as u16, r.2 as u16, r.3 as u16),
            r.1 + eq_delta(cmds[i - 1]),
            r.2 + gt_delta(cmds[i - 1]),
            r.3 + lt_delta(cmds[i - 1]),
        )
    }
}

pub proof fn lemma_translate_counter_bounds(cmds: Seq<Seq<char>>, i: int, ce: int, cg: int, cl: int)
    requires
        i >= 0,
    ensures
        ce <= translate_upto(cmds, i, ce, cg, cl).1 <= ce + i,
        cg <= translate_upto(cmds, i, ce, cg, cl).2 <= cg + i,
        cl <= translate_upto(cmds, i, ce, cg, cl).3 <= cl + i,
    decreases i,
{
    if i > 0 {
        lemma_translate_counter_bounds(cmds, i - 1, ce, cg, cl);
    }
}

/// The operation names are pairwise distinct, so a translated command
/// advances exactly the counter of its own comparison operation.
proof fn lemma_op_names_distinct()
    ensures
        "add"@ != "eq"@ && "add"@ != "gt"@ && "add"@ != "lt"@,
        "sub"@ != "eq"@ && "sub"@ != "gt"@ && "sub"@ != "lt"@,
        "and"@ != "eq"@ && "and"@ != "gt"@ && "and"@ != "lt"@,
        "or"@ != "eq"@ && "or"@ != "gt"@ && "or"@ != "lt"@,
        "not"@ != "eq"@ && "not"@ != "gt"@ && "not"@ != "lt"@,
        "neg"@ != "eq"@ && "neg"@ != "gt"@ && "neg"@ != "lt"@,
        "eq"@ != "gt"@ && "eq"@ != "lt"@ && "gt"@ != "lt"@,
        "push"@ != "pop"@,
{
    reveal_strlit("add");
    reveal_strlit("sub");
    reveal_strlit("and");
    reveal_strlit("or");
    reveal_strlit("not");
    reveal_strlit("neg");
    reveal_strlit("eq");
    reveal_strlit("gt");
    reveal_strlit("lt");
    reveal_strlit("push");
    reveal_strlit("pop");
    assert("add"@.len() == 3 && "sub"@.len() == 3 && "and"@.len() == 3 && "or"@.len() == 2
        && "not"@.len() == 3 && "neg"@.len() == 3 && "eq"@.len() == 2 && "gt"@.len() == 2
        && "lt"@.len() == 2 && "push"@.len() == 4 && "pop"@.len() == 3);
    assert("or"@[0] == 'o' && "eq"@[0] == 'e' && "gt"@[0] == 'g' && "lt"@[0] == 'l');
}

/// The views of the stored command strings.
pub open spec fn vm_cmds_view(s: Seq<String>) -> Seq<Seq<char>> {
    s.map_values(|c: String| c@)
}

/// Decides `vm_cmd_ok` at run time, so that a caller can screen commands
/// before translating them.
pub fn command_ok(cmd: &str) -> (r: bool)
    ensures
        r == vm_cmd_ok(cmd@),
{
    let tokens = split_tokens(cmd);
    let ghost ts = tokens_of(cmd@);
    proof {
        assert(tokens@.map_values(|t: String| t@) == ts);
    }
    if tokens.len() == 1 {
        proof {
            assert(tokens@.map_values(|t: String| t@)[0] == tokens@[0]@);
        }
        let op = tokens[0].as_str();
        str_eq(op, "add") || str_eq(op, "sub") || str_eq(op, "and") || str_eq(op, "or") || str_eq(
            op,
            "not",
        ) || str_eq(op, "neg") || str_eq(op, "eq") || str_eq(op, "gt") || str_eq(op, "lt")
    } else if tokens.len() == 3 {
        proof {
            assert(tokens@.map_values(|t: String| t@)[0] == tokens@[0]@);
            assert(tokens@.map_values(|t: String| t@)[1] == tokens@[1]@);
            assert(tokens@.map_values(|t: String| t@)[2] == tokens@[2]@);
        }
        let kind = tokens[0].as_str();
        let seg = tokens[1].as_str();
        let num = tokens[2].as_str();
        let idx: u16 = match parse_u16(num) {
            Some(i) => i,
            None => {
                return false;
            },
        };
        proof {
            lemma_dec_val_bounds(num@);
        }
        if str_eq(kind, "push") {
            if str_eq(seg, "temp") {
                idx <= 65530
            } else if str_eq(seg, "pointer") {
                idx <= 1
            } else {
                str_eq(seg, "constant") || str_eq(seg, "local") || str_eq(seg, "argument")
                    || str_eq(seg, "this") || str_eq(seg, "that") || str_eq(seg, "static")
            }
        } else if str_eq(kind, "pop") {
            if str_eq(seg, "temp") {
                idx <= 65530
            } else if str_eq(seg, "pointer") {
                idx <= 1
            } else {
                str_eq(seg, "local") || str_eq(seg, "argument") || str_eq(seg, "this") || str_eq(
                    seg,
                    "that",
                ) || str_eq(seg, "static")
            }
        } else {
            false
        }
    } else {
        false
    }
}

/// The VM translator state: the commands handed to it, the assembly buffer
/// it grows, and one label counter per comparison operation.
pub struct Stack {
    pub commands: Vec<String>,
    pub assembly: Vec<String>,
    pub counter_eq: u16,
    pub counter_gt: u16,
    pub counter_lt: u16,
}

impl Stack {
    pub fn new() -> (r: Self)
        ensures
            r.commands@.len() == 0,
            r.assembly@.len() == 0,
            r.counter_eq == 0,
            r.counter_gt == 0,
            r.counter_lt == 0,
    {
        Stack {
            commands: Vec::new(),
            assembly: Vec::new(),
            counter_eq: 0,
            counter_gt: 0,
            counter_lt: 0,
        }
    }

    /// Appends one literal line.
    fn emit(&mut self, line: &str)
        ensures
            asm_view(final(self).assembly@) == asm_view(old(self).assembly@).push(line@),
            final(self).commands == old(self).commands,
            final(self).counter_eq == old(self).counter_eq,
            final(self).counter_gt == old(self).counter_gt,
            final(self).counter_lt == old(self).counter_lt,
    {
        self.assembly.push(line.to_owned());
        proof {
            assert(asm_view(self.assembly@) =~= asm_view(old(self).assembly@).push(line@));
        }
    }

    /// Appends one built line.
    fn emit_string(&mut self, line: String)
        ensures
            asm_view(final(self).assembly@) == asm_view(old(self).assembly@).push(line@),
            final(self).commands == old(self).commands,
            final(self).counter_eq == old(self).counter_eq,
            final(self).counter_gt == old(self).counter_gt,
            final(self).counter_lt == old(self).counter_lt,
    {
        let ghost lv = line@;
        self.assembly.push(line);
        proof {
            assert(asm_view(self.assembly@) =~= asm_view(old(self).assembly@).push(lv));
        }
    }

    /// Appends `@n`.
    fn emit_at_num(&mut self, n: u16)
        ensures
            asm_view(final(self).assembly@) == asm_view(old(self).assembly@).push(at_num(n)),
            final(self).commands == old(self).commands,
            final(self).counter_eq == old(self).counter_eq,
            final(self).counter_gt == old(self).counter_gt,
            final(self).counter_lt == old(self).counter_lt,
    {
        let mut line = "@".to_owned();
        let num = dec_string(n);
        line.append(num.as_str());
        self.emit_string(line);
    }

    /// Appends `@sym`.
    fn emit_at_sym(&mut self, sym: &str)
        ensures
            asm_view(final(self).assembly@) == asm_view(old(self).assembly@).push(at_sym(sym@)),
            final(self).commands == old(self).commands,
            final(self).counter_eq == old(self).counter_eq,
            final(self).counter_gt == old(self).counter_gt,
            final(self).counter_lt == old(self).counter_lt,
    {
        let mut line = "@".to_owned();
        line.append(sym);
        self.emit_string(line);
    }

    /// Appends `(sym)`.
    fn emit_label(&mut self, sym: &str)
        ensures
            asm_view(final(self).assembly@) == asm_view(old(self).assembly@).push(label_line(sym@)),
            final(self).commands == old(self).commands,
            final(self).counter_eq == old(self).counter_eq,
            final(self).counter_gt == old(self).counter_gt,
            final(self).counter_lt == old(self).counter_lt,
    {
        let mut line = "(".to_owned();
        line.append(sym);
        line.append(")");
        self.emit_string(line);
    }

    /// Pushes a constant onto the stack.
    pub fn push_value(&mut self, value: u16)
        ensures
            asm_view(final(self).assembly@) == asm_view(old(self).assembly@) + push_value_lines(
                value,
            ),
            final(self).commands == old(self).commands,
            final(self).counter_eq == old(self).counter_eq,
            final(self).counter_gt == old(self).counter_gt,
            final(self).counter_lt == old(self).counter_lt,
    {
        self.emit_at_num(value);
        self.emit("D=A");
        self.emit("@SP");
        self.emit("A=M");
        self.emit("M=D");
        self.emit("@SP");
        self.emit("M=M+1");
        proof {
            assert(asm_view(self.assembly@) =~= asm_view(old(self).assembly@) + push_value_lines(
                value,
            ));
        }
    }

    /// Pushes the word at `pointer` base plus `index`.
    pub fn push_from_pointer(&mut self, pointer: &str, index: u16)
        ensures
            asm_view(final(self).assembly@) == asm_view(old(self).assembly@)
                + push_from_pointer_lines(pointer@, index),
            final(self).commands == old(self).commands,
            final(self).counter_eq == old(self).counter_eq,
            final(self).counter_gt == old(self).counter_gt,
            final(self).counter_lt == old(self).counter_lt,
    {
        self.emit_at_sym(pointer);
        self.emit("D=M");
        self.emit_at_num(index);
        self.emit("A=D+A");
        self.emit("D=M");
        self.emit("@SP");
        self.emit("A=M");
        self.emit("M=D");
        self.emit("@SP");
        self.emit("M=M+1");
        proof {
            assert(asm_view(self.assembly@) =~= asm_view(old(self).assembly@)
                + push_from_pointer_lines(pointer@, index));
        }
    }

    /// Pops the stack top into the cell `pointer` base plus `index`.
    pub fn pop_to_pointer(&mut self, pointer: &str, index: u16)
        ensures
            asm_view(final(self).assembly@) == asm_view(old(self).assembly@) + pop_to_pointer_lines(
                pointer@,
                index,
            ),
            final(self).commands == old(self).commands,
            final(self).counter_eq == old(self).counter_eq,
            final(self).counter_gt == old(self).counter_gt,
            final(self).counter_lt == old(self).counter_lt,
    {
        self.emit_at_sym(pointer);
        self.emit("D=M");
        self.emit_at_num(index);
        self.emit("D=D+A");
        self.emit("@R13");
        self.emit("M=D");
        self.emit("@SP");
        self.emit("M=M-1");
        self.emit("A=M");
        self.emit("D=M");
        self.emit("@R13");
        self.emit("A=M");
        self.emit("M=D");
        proof {
            assert(asm_view(self.assembly@) =~= asm_view(old(self).assembly@)
                + pop_to_pointer_lines(pointer@, index));
        }
    }

    /// Pops the stack top into the cell at a fixed address.
    pub fn pop_address(&mut self, address: usize)
        requires
            address < 32768,
        ensures
            asm_view(final(self).assembly@) == asm_view(old(self).assembly@) + pop_direct_lines(
                at_num(address as u16),
            ),
            final(self).commands == old(self).commands,
            final(self).counter_eq == old(self).counter_eq,
            final(self).counter_gt == old(self).counter_gt,
            final(self).counter_lt == old(self).counter_lt,
    {
        self.emit("@SP");
        self.emit("M=M-1");
        self.emit("A=M");
        self.emit("D=M");
        self.emit_at_num(address as u16);
        self.emit("M=D");
        proof {
            assert(asm_view(self.assembly@) =~= asm_view(old(self).assembly@) + pop_direct_lines(
                at_num(address as u16),
            ));
        }
    }

    /// The shared binary prelude: y lands in D, A points at x.
    fn setup_x_y(&mut self)
        ensures
            asm_view(final(self).assembly@) == asm_view(old(self).assembly@) + setup_x_y_lines(),
            final(self).commands == old(self).commands,
            final(self).counter_eq == old(self).counter_eq,
            final(self).counter_gt == old(self).counter_gt,
            final(self).counter_lt == old(self).counter_lt,
    {
        self.emit("@SP");
        self.emit("M=M-1");
        self.emit("A=M");
        self.emit("D=M");
        self.emit("@SP");
        self.emit("M=M-1");
        self.emit("A=M");
        proof {
            assert(asm_view(self.assembly@) =~= asm_view(old(self).assembly@) + setup_x_y_lines());
        }
    }

    /// The shared epilogue: the result in D is pushed.
    fn push_result(&mut self)
        ensures
            asm_view(final(self).assembly@) == asm_view(old(self).assembly@) + push_result_lines(),
            final(self).commands == old(self).commands,
            final(self).counter_eq == old(self).counter_eq,
            final(self).counter_gt == old(self).counter_gt,
            final(self).counter_lt == old(self).counter_lt,
    {
        self.emit("M=D");
        self.emit("@SP");
        self.emit("M=M+1");
        proof {
            assert(asm_view(self.assembly@) =~= asm_view(old(self).assembly@)
                + push_result_lines());
        }
    }

    pub fn add(&mut self)
        ensures
            asm_view(final(self).assembly@) == asm_view(old(self).assembly@) + binary_op_lines(
                "D=D+M"@,
            ),
            final(self).commands == old(self).commands,
            final(self).counter_eq == old(self).counter_eq,
            final(self).counter_gt == old(self).counter_gt,
            final(self).counter_lt == old(self).counter_lt,
    {
        self.setup_x_y();
        self.emit("D=D+M");
        self.push_result();
        proof {
            assert(asm_view(self.assembly@) =~= asm_view(old(self).assembly@) + binary_op_lines(
                "D=D+M"@,
            ));
        }
    }

    pub fn sub(&mut self)
        ensures
            asm_view(final(self).assembly@) == asm_view(old(self).assembly@) + binary_op_lines(
                "D=M-D"@,
            ),
            final(self).commands == old(self).commands,
            final(self).counter_eq == old(self).counter_eq,
            final(self).counter_gt == old(self).counter_gt,
            final(self).counter_lt == old(self).counter_lt,
    {
        self.setup_x_y();
        self.emit("D=M-D");
        self.push_result();
        proof {
            assert(asm_view(self.assembly@) =~= asm_view(old(self).assembly@) + binary_op_lines(
                "D=M-D"@,
            ));
        }
    }

    pub fn and(&mut self)
        ensures
            asm_view(final(self).assembly@) == asm_view(old(self).assembly@) + binary_op_lines(
                "D=D&M"@,
            ),
            final(self).commands == old(self).commands,
            final(self).counter_eq == old(self).counter_eq,
            final(self).counter_gt == old(self).counter_gt,
            final(self).counter_lt == old(self).counter_lt,
    {
        self.setup_x_y();
        self.emit("D=D&M");
        self.push_result();
        proof {
            assert(asm_view(self.assembly@) =~= asm_view(old(self).assembly@) + binary_op_lines(
                "D=D&M"@,
            ));
        }
    }

    pub fn or(&mut self)
        ensures
            asm_view(final(self).assembly@) == asm_view(old(self).assembly@) + binary_op_lines(
                "D=D|M"@,
            ),
            final(self).commands == old(self).commands,
            final(self).counter_eq == old(self).counter_eq,
            final(self).counter_gt == old(self).counter_gt,
            final(self).counter_lt == old(self).counter_lt,
    {
        self.setup_x_y();
        self.emit("D=D|M");
        self.push_result();
        proof {
            assert(asm_view(self.assembly@) =~= asm_view(old(self).assembly@) + binary_op_lines(
                "D=D|M"@,
            ));
        }
    }

    pub fn not(&mut self)
        ensures
            asm_view(final(self).assembly@) == asm_view(old(self).assembly@) + unary_op_lines(
                "D=!M"@,
            ),
            final(self).commands == old(self).commands,
            final(self).counter_eq == old(self).counter_eq,
            final(self).counter_gt == old(self).counter_gt,
            final(self).counter_lt == old(self).counter_lt,
    {
        self.emit("@SP");
        self.emit("M=M-1");
        self.emit("A=M");
        self.emit("D=!M");
        self.push_result();
        proof {
            assert(asm_view(self.assembly@) =~= asm_view(old(self).assembly@) + unary_op_lines(
                "D=!M"@,
            ));
        }
    }

    pub fn neg(&mut self)
        ensures
            asm_view(final(self).assembly@) == asm_view(old(self).assembly@) + unary_op_lines(
                "D=-M"@,
            ),
            final(self).commands == old(self).commands,
            final(self).counter_eq == old(self).counter_eq,
            final(self).counter_gt == old(self).counter_gt,
            final(self).counter_lt == old(self).counter_lt,
    {
        self.emit("@SP");
        self.emit("M=M-1");
        self.emit("A=M");
        self.emit("D=-M");
        self.push_result();
        proof {
            assert(asm_view(self.assembly@) =~= asm_view(old(self).assembly@) + unary_op_lines(
                "D=-M"@,
            ));
        }
    }

    /// Pushes the all-ones truth value when the two popped words are equal,
    /// zero otherwise, under a fresh pair of labels.
    pub fn eq(&mut self)
        requires
            old(self).counter_eq < 65535,
        ensures
            asm_view(final(self).assembly@) == asm_view(old(self).assembly@) + eq_lines(
                old(self).counter_eq,
            ),
            final(self).counter_eq == old(self).counter_eq + 1,
            final(self).commands == old(self).commands,
            final(self).counter_gt == old(self).counter_gt,
            final(self).counter_lt == old(self).counter_lt,
    {
        let n = self.counter_eq;
        let num = dec_string(n);
        let mut true_label = "EQ_TRUE_".to_owned();
        true_label.append(num.as_str());
        let mut end_label = "EQ_END_".to_owned();
        end_label.append(num.as_str());
        self.counter_eq = self.counter_eq + 1;
        self.compare(&true_label, &end_label, "D;JEQ");
        proof {
            assert(asm_view(self.assembly@) =~= asm_view(old(self).assembly@) + eq_lines(n));
        }
    }

    /// Pushes the truth value of x > y (signed), under fresh labels.
    pub fn gt(&mut self)
        requires
            old(self).counter_gt < 65535,
        ensures
            asm_view(final(self).assembly@) == asm_view(old(self).assembly@) + gt_lines(
                old(self).counter_gt,
            ),
            final(self).counter_gt == old(self).counter_gt + 1,
            final(self).commands == old(self).commands,
            final(self).counter_eq == old(self).counter_eq,
            final(self).counter_lt == old(self).counter_lt,
    {
        let n = self.counter_gt;
        let num = dec_string(n);
        let mut true_label = "GT_TRUE_".to_owned();
        true_label.append(num.as_str());
        let mut end_label = "GT_END_".to_owned();
        end_label.append(num.as_str());
        self.counter_gt = self.counter_gt + 1;
        self.compare(&true_label, &end_label, "D;JGT");
        proof {
            assert(asm_view(self.assembly@) =~= asm_view(old(self).assembly@) + gt_lines(n));
        }
    }

    /// Pushes the truth value of x < y (signed), under fresh labels.
    pub fn lt(&mut self)
        requires
            old(self).counter_lt < 65535,
        ensures
            asm_view(final(self).assembly@) == asm_view(old(self).assembly@) + lt_lines(
                old(self).counter_lt,
            ),
            final(self).counter_lt == old(self).counter_lt + 1,
            final(self).commands == old(self).commands,
            final(self).counter_eq == old(self).counter_eq,
            final(self).counter_gt == old(self).counter_gt,
    {
        let n = self.counter_lt;
        let num = dec_string(n);
        let mut true_label = "LT_TRUE_".to_owned();
        true_label.append(num.as_str());
        let mut end_label = "LT_END_".to_owned();
        end_label.append(num.as_str());
        self.counter_lt = self.counter_lt + 1;
        self.compare(&true_label, &end_label, "D;JLT");
        proof {
            assert(asm_view(self.assembly@) =~= asm_view(old(self).assembly@) + lt_lines(n));
        }
    }

    /// The shared comparison body under the given jump predicate and labels.
    fn compare(&mut self, true_label: &str, end_label: &str, jump: &str)
        ensures
            asm_view(final(self).assembly@) == asm_view(old(self).assembly@) + compare_lines(
                jump@,
                true_label@,
                end_label@,
            ),
            final(self).commands == old(self).commands,
            final(self).counter_eq == old(self).counter_eq,
            final(self).counter_gt == old(self).counter_gt,
            final(self).counter_lt == old(self).counter_lt,
    {
        self.setup_x_y();
        self.emit("D=M-D");
        self.emit_at_sym(true_label);
        self.emit(jump);
        self.emit("@SP");
        self.emit("A=M");
        self.emit("M=0");
        self.emit_at_sym(end_label);
        self.emit("0;JMP");
        self.emit_label(true_label);
        self.emit("@SP");
        self.emit("A=M");
        self.emit("M=-1");
        self.emit_label(end_label);
        self.emit("@SP");
        self.emit("M=M+1");
        proof {
            assert(asm_view(self.assembly@) =~= asm_view(old(self).assembly@) + compare_lines(
                jump@,
                true_label@,
                end_label@,
            ));
        }
    }

    /// One `push` command: the segment name picks the addressing shape, the
    /// index must be a decimal.
    pub fn push_command(&mut self, segment: &str, number: &str)
        requires
            push_cmd_ok(segment@, number@),
        ensures
            asm_view(final(self).assembly@) == asm_view(old(self).assembly@) + push_cmd_lines(
                segment@,
                dec_val(number@) as u16,
            ),
            final(self).commands == old(self).commands,
            final(self).counter_eq == old(self).counter_eq,
            final(self).counter_gt == old(self).counter_gt,
            final(self).counter_lt == old(self).counter_lt,
    {
        proof {
            lemma_dec_val_bounds(number@);
        }
        let index: u16 = match parse_u16(number) {
            Some(i) => i,
            None => unreached(),
        };
        if str_eq(segment, "constant") {
            self.push_value(index);
        } else if str_eq(segment, "local") {
            self.push_from_pointer("LCL", index);
        } else if str_eq(segment, "argument") {
            self.push_from_pointer("ARG", index);
        } else if str_eq(segment, "this") {
            self.push_from_pointer("THIS", index);
        } else if str_eq(segment, "that") {
            self.push_from_pointer("THAT", index);
        } else if str_eq(segment, "temp") {
            let addr: u16 = 5 + index;
            self.emit_at_num(addr);
            self.emit("D=M");
            self.emit("@SP");
            self.emit("A=M");
            self.emit("M=D");
            self.emit("@SP");
            self.emit("M=M+1");
            proof {
                assert(asm_view(self.assembly@) =~= asm_view(old(self).assembly@)
                    + push_direct_lines(at_num(addr)));
            }
        } else if str_eq(segment, "pointer") {
            let addr = if index == 0 {
                "THIS"
            } else {
                "THAT"
            };
            self.emit_at_sym(addr);
            self.emit("D=M");
            self.emit("@SP");
            self.emit("A=M");
            self.emit("M=D");
            self.emit("@SP");
            self.emit("M=M+1");
            proof {
                assert(asm_view(self.assembly@) =~= asm_view(old(self).assembly@)
                    + push_direct_lines(at_sym(addr@)));
            }
        } else if str_eq(segment, "static") {
            let mut label = "Static.".to_owned();
            let num = dec_string(index);
            label.append(num.as_str());
            self.emit_at_sym(label.as_str());
            self.emit("D=M");
            self.emit("@SP");
            self.emit("A=M");
            self.emit("M=D");
            self.emit("@SP");
            self.emit("M=M+1");
            proof {
                assert(asm_view(self.assembly@) =~= asm_view(old(self).assembly@)
                    + push_direct_lines(at_sym(static_label(index))));
            }
        } else {
            proof {
                assert(false);
            }
        }
    }

    /// One `pop` command; the constant segment is rejected by the
    /// precondition, since a constant is no memory region.
    pub fn pop_command(&mut self, segment: &str, number: &str)
        requires
            pop_cmd_ok(segment@, number@),
        ensures
            asm_view(final(self).assembly@) == asm_view(old(self).assembly@) + pop_cmd_lines(
                segment@,
                dec_val(number@) as u16,
            ),
            final(self).commands == old(self).commands,
            final(self).counter_eq == old(self).counter_eq,
            final(self).counter_gt == old(self).counter_gt,
            final(self).counter_lt == old(self).counter_lt,
    {
        proof {
            lemma_dec_val_bounds(number@);
        }
        let index: u16 = match parse_u16(number) {
            Some(i) => i,
            None => unreached(),
        };
        if str_eq(segment, "local") {
            self.pop_to_pointer("LCL", index);
        } else if str_eq(segment, "argument") {
            self.pop_to_pointer("ARG", index);
        } else if str_eq(segment, "this") {
            self.pop_to_pointer("THIS", index);
        } else if str_eq(segment, "that") {
            self.pop_to_pointer("THAT", index);
        } else if str_eq(segment, "temp") {
            let addr: u16 = 5 + index;
            self.emit("@SP");
            self.emit("M=M-1");
            self.emit("A=M");
            self.emit("D=M");
            self.emit_at_num(addr);
            self.emit("M=D");
            proof {
                assert(asm_view(self.assembly@) =~= asm_view(old(self).assembly@)
                    + pop_direct_lines(at_num(addr)));
            }
        } else if str_eq(segment, "pointer") {
            let addr = if index == 0 {
                "THIS"
            } else {
                "THAT"
            };
            self.emit("@SP");
            self.emit("M=M-1");
            self.emit("A=M");
            self.emit("D=M");
            self.emit_at_sym(addr);
            self.emit("M=D");
            proof {
                assert(asm_view(self.assembly@) =~= asm_view(old(self).assembly@)
                    + pop_direct_lines(at_sym(addr@)));
            }
        } else if str_eq(segment, "static") {
            let mut label = "Static.".to_owned();
            let num = dec_string(index);
            label.append(num.as_str());
            self.emit("@SP");
            self.emit("M=M-1");
            self.emit("A=M");
            self.emit("D=M");
            self.emit_at_sym(label.as_str());
            self.emit("M=D");
            proof {
                assert(asm_view(self.assembly@) =~= asm_view(old(self).assembly@)
                    + pop_direct_lines(at_sym(static_label(index))));
            }
        } else {
            proof {
                assert(false);
            }
        }
    }

    /// Translates every stored command in order, appending its lines to the
    /// assembly buffer and advancing the label counters.
    pub fn translate_all(&mut self)
        requires
            forall|i: int|
                0 <= i < old(self).commands@.len() ==> vm_cmd_ok(
                    #[trigger] vm_cmds_view(old(self).commands@)[i],
                ),
            old(self).counter_eq + old(self).commands@.len() <= 65535,
            old(self).counter_gt + old(self).commands@.len() <= 65535,
            old(self).counter_lt + old(self).commands@.len() <= 65535,
        ensures
            final(self).commands == old(self).commands,
            asm_view(final(self).assembly@) == asm_view(old(self).assembly@) + translate_upto(
                vm_cmds_view(old(self).commands@),
                old(self).commands@.len() as int,
                old(self).counter_eq as int,
                old(self).counter_gt as int,
                old(self).counter_lt as int,
            ).0,
            final(self).counter_eq == translate_upto(
                vm_cmds_view(old(self).commands@),
                old(self).commands@.len() as int,
                old(self).counter_eq as int,
                old(self).counter_gt as int,
                old(self).counter_lt as int,
            ).1,
            final(self).counter_gt == translate_upto(
                vm_cmds_view(old(self).commands@),
                old(self).commands@.len() as int,
                old(self).counter_eq as int,
                old(self).counter_gt as int,
                old(self).counter_lt as int,
            ).2,
            final(self).counter_lt == translate_upto(
                vm_cmds_view(old(self).commands@),
                old(self).commands@.len() as int,
                old(self).counter_eq as int,
                old(self).counter_gt as int,
                old(self).counter_lt as int,
            ).3,
    {
        let ghost cvs = vm_cmds_view(self.commands@);
        let ghost ce0 = self.counter_eq as int;
        let ghost cg0 = self.counter_gt as int;
        let ghost cl0 = self.counter_lt as int;
        let ghost asm0 = asm_view(self.assembly@);
        let n = self.commands.len();
        for i in 0..n
            invariant
                n == self.commands@.len(),
                cvs == vm_cmds_view(self.commands@),
                cvs.len() == n,
                forall|j: int| 0 <= j < n ==> vm_cmd_ok(#[trigger] cvs[j]),
                ce0 + n <= 65535,
                cg0 + n <= 65535,
                cl0 + n <= 65535,
                self.commands == old(self).commands,
                asm_view(self.assembly@) == asm0 + translate_upto(cvs, i as int, ce0, cg0, cl0).0,
                self.counter_eq == translate_upto(cvs, i as int, ce0, cg0, cl0).1,
                self.counter_gt == translate_upto(cvs, i as int, ce0, cg0, cl0).2,
                self.counter_lt == translate_upto(cvs, i as int, ce0, cg0, cl0).3,
        {
            proof {
                lemma_translate_counter_bounds(cvs, i as int, ce0, cg0, cl0);
                lemma_op_names_distinct();
                assert(vm_cmds_view(self.commands@)[i as int] == self.commands@[i as int]@);
            }
            let cmd: String = self.commands[i].as_str().to_owned();
            let ghost cv = cvs[i as int];
            let tokens = split_tokens(cmd.as_str());
            let ghost ts = tokens_of(cv);
            proof {
                assert(tokens@.map_values(|t: String| t@) == ts);
            }
            if tokens.len() == 1 {
                proof {
                    assert(tokens@.map_values(|t: String| t@)[0] == tokens@[0]@);
                }
                let op = tokens[0].as_str();
                if str_eq(op, "add") {
                    self.add();
                } else if str_eq(op, "sub") {
                    self.sub();
                } else if str_eq(op, "and") {
                    self.and();
                } else if str_eq(op, "or") {
                    self.or();
                } else if str_eq(op, "not") {
                    self.not();
                } else if str_eq(op, "neg") {
                    self.neg();
                } else if str_eq(op, "eq") {
                    self.eq();
                } else if str_eq(op, "gt") {
                    self.gt();
                } else if str_eq(op, "lt") {
                    self.lt();
                } else {
                    proof {
                        assert(false);
                    }
                }
            } else if tokens.len() == 3 {
                proof {
                    assert(tokens@.map_values(|t: String| t@)[0] == tokens@[0]@);
                    assert(tokens@.map_values(|t: String| t@)[1] == tokens@[1]@);
                    assert(tokens@.map_values(|t: String| t@)[2] == tokens@[2]@);
                }
                let kind = tokens[0].as_str();
                if str_eq(kind, "push") {
                    self.push_command(tokens[1].as_str(), tokens[2].as_str());
                } else if str_eq(kind, "pop") {
                    self.pop_command(tokens[1].as_str(), tokens[2].as_str());
                } else {
                    proof {
                        assert(false);
                    }
                }
            } else {
                proof {
                    assert(false);
                }
            }
            proof {
                assert(asm_view(self.assembly@) =~= asm0 + translate_upto(
                    cvs,
                    i as int + 1,
                    ce0,
                    cg0,
                    cl0,
                ).0);
            }
        }
    }
}

} // verus!
