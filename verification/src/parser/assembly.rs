//! The two-pass Hack assembler: source lines are classified into commands,
//! labels and variables are resolved into a symbol table, and every
//! instruction is encoded as one 16-character binary word.

use crate::parser::table::{
    comp_bits, comp_lookup, dest_bits, dest_lookup, jump_bits, jump_lookup, SymbolTable,
};
use crate::text::{
    bin16_string, bin_seq, contains_char, count_char, dec_val, find_char, lemma_find_char,
    lemma_count_char_zero, lines_of, parse_u16, split_lines, str_eq, trim_seq, trim_str,
    u16_parses,
};
use vstd::pervasive::unreached;
use vstd::prelude::*;

verus! {

/// The shape of a parsed command: the payload of an A-instruction is the
/// text after `@`, of a label the name inside the parentheses, of a
/// C-instruction the whole trimmed line.
pub ghost enum CmdV {
    AInstruction(Seq<char>),
    CInstruction(Seq<char>),
    Label(Seq<char>),
}

/// One parsed line of assembly source.
#[derive(Debug)]
pub enum AssemblyCommand {
    AInstruction(String),
    CInstruction(String),
    Label(String),
}

impl View for AssemblyCommand {
    type V = CmdV;

    open spec fn view(&self) -> CmdV {
        match self {
            AssemblyCommand::AInstruction(s) => CmdV::AInstruction(s@),
            AssemblyCommand::CInstruction(s) => CmdV::CInstruction(s@),
            AssemblyCommand::Label(s) => CmdV::Label(s@),
        }
    }
}

impl PartialEq for AssemblyCommand {
    fn eq(&self, other: &Self) -> (r: bool) {
        match (self, other) {
            (AssemblyCommand::AInstruction(a), AssemblyCommand::AInstruction(b)) => str_eq(
                a.as_str(),
                b.as_str(),
            ),
            (AssemblyCommand::CInstruction(a), AssemblyCommand::CInstruction(b)) => str_eq(
                a.as_str(),
                b.as_str(),
            ),
            (AssemblyCommand::Label(a), AssemblyCommand::Label(b)) => str_eq(a.as_str(), b.as_str()),
            _ => false,
        }
    }
}

impl vstd::std_specs::cmp::PartialEqSpecImpl for AssemblyCommand {
    open spec fn obeys_eq_spec() -> bool {
        true
    }

    open spec fn eq_spec(&self, other: &AssemblyCommand) -> bool {
        self@ == other@
    }
}

/// A trimmed line the parser drops: blank, or a comment.
pub open spec fn line_skipped(t: Seq<char>) -> bool {
    t.len() == 0 || (t.len() >= 2 && t[0] == '/' && t[1] == '/')
}

pub open spec fn is_a_line(t: Seq<char>) -> bool {
    t.len() >= 1 && t[0] == '@'
}

pub open spec fn is_label_line(t: Seq<char>) -> bool {
    t.len() >= 1 && t[0] == '(' && t.last() == ')'
}

pub open spec fn is_c_line(t: Seq<char>) -> bool {
    has_eq_or_semi(t)
}

pub open spec fn has_eq_or_semi(t: Seq<char>) -> bool {
    crate::text::has_char(t, '=') || crate::text::has_char(t, ';')
}

/// A kept line the parser accepts: an A-instruction, a label, or a line with
/// `=` or `;` in it.
pub open spec fn line_classified(t: Seq<char>) -> bool {
    is_a_line(t) || is_label_line(t) || is_c_line(t)
}

/// What a kept line parses to, in the order the parser tests: `@` first,
/// then a parenthesized label, else a C-instruction.
pub open spec fn classify_line(t: Seq<char>) -> CmdV {
    if is_a_line(t) {
        CmdV::AInstruction(t.skip(1))
    } else if is_label_line(t) {
        CmdV::Label(t.subrange(1, t.len() - 1))
    } else {
        CmdV::CInstruction(t)
    }
}

/// The commands of a line sequence: each line trimmed, blank and comment
/// lines dropped, the rest classified in order.
pub open spec fn parse_lines_rec(lines: Seq<Seq<char>>) -> Seq<CmdV>
    decreases lines.len(),
{
    if lines.len() == 0 {
        Seq::empty()
    } else {
        let rest = parse_lines_rec(lines.drop_last());
        let t = trim_seq(lines.last());
        if line_skipped(t) {
            rest
        } else {
            rest.push(classify_line(t))
        }
    }
}

/// Every kept line of the sequence is classifiable.
pub open spec fn lines_ok(lines: Seq<Seq<char>>) -> bool
    decreases lines.len(),
{
    if lines.len() == 0 {
        true
    } else {
        lines_ok(lines.drop_last()) && {
            let t = trim_seq(lines.last());
            line_skipped(t) || line_classified(t)
        }
    }
}

pub proof fn lemma_lines_ok_index(lines: Seq<Seq<char>>, i: int)
    requires
        lines_ok(lines),
        0 <= i < lines.len(),
    ensures
        line_skipped(trim_seq(lines[i])) || line_classified(trim_seq(lines[i])),
    decreases lines.len(),
{
    if i < lines.len() - 1 {
        lemma_lines_ok_index(lines.drop_last(), i);
    }
}

/// Whether the parser accepts the whole source.
pub open spec fn parse_ok(contents: Seq<char>) -> bool {
    lines_ok(lines_of(contents))
}

/// The command sequence of an accepted source.
pub open spec fn parse_spec(contents: Seq<char>) -> Seq<CmdV> {
    parse_lines_rec(lines_of(contents))
}

/// The views of a vector of source lines.
pub open spec fn line_views(lines: Seq<String>) -> Seq<Seq<char>> {
    lines.map_values(|l: String| l@)
}

/// The views of a parsed command vector.
pub open spec fn cmds_view(s: Seq<AssemblyCommand>) -> Seq<CmdV> {
    s.map_values(|c: AssemblyCommand| c@)
}

/// How many instruction slots the first `i` commands occupy: every command
/// but a label takes one.
pub open spec fn instr_count(cmds: Seq<CmdV>, i: int) -> int
    decreases i,
{
    if i <= 0 {
        0int
    } else {
        instr_count(cmds, i - 1) + match cmds[i - 1] {
            CmdV::Label(_) => 0int,
            _ => 1int,
        }
    }
}

/// The first resolution pass over the first `i` commands: each label is
/// bound to the address of the next instruction.
pub open spec fn pass1(m: Map<Seq<char>, u16>, cmds: Seq<CmdV>, i: int) -> Map<Seq<char>, u16>
    decreases i,
{
    if i <= 0 {
        m
    } else {
        let m2 = pass1(m, cmds, i - 1);
        match cmds[i - 1] {
            CmdV::Label(l) => m2.insert(l, instr_count(cmds, i - 1) as u16),
            _ => m2,
        }
    }
}

/// The second resolution pass over the first `i` commands: every
/// A-instruction whose payload is not a decimal and not yet bound becomes a
/// fresh variable, allocated in source order from `next` up.
pub open spec fn pass2(m: Map<Seq<char>, u16>, cmds: Seq<CmdV>, i: int, next: int) -> (
    Map<Seq<char>, u16>,
    int,
)
    decreases i,
{
    if i <= 0 {
        (m, next)
    } else {
        let (m2, n2) = pass2(m, cmds, i - 1, next);
        match cmds[i - 1] {
            CmdV::AInstruction(v) => if !u16_parses(v) && !m2.contains_key(v) {
                (m2.insert(v, n2 as u16), n2 + 1)
            } else {
                (m2, n2)
            },
            _ => (m2, n2),
        }
    }
}

/// Resolution only adds bindings: a name bound before the first pass is
/// still bound after it.
pub proof fn lemma_pass1_preserves(m: Map<Seq<char>, u16>, cmds: Seq<CmdV>, i: int, k: Seq<char>)
    requires
        m.contains_key(k),
    ensures
        pass1(m, cmds, i).contains_key(k),
    decreases i,
{
    if i > 0 {
        lemma_pass1_preserves(m, cmds, i - 1, k);
    }
}

/// Resolution only adds bindings: a name bound before the second pass is
/// still bound after it.
pub proof fn lemma_pass2_preserves(
    m: Map<Seq<char>, u16>,
    cmds: Seq<CmdV>,
    i: int,
    next: int,
    k: Seq<char>,
)
    requires
        m.contains_key(k),
    ensures
        pass2(m, cmds, i, next).0.contains_key(k),
    decreases i,
{
    if i > 0 {
        lemma_pass2_preserves(m, cmds, i - 1, next, k);
    }
}

proof fn lemma_pass1_binds_label(m: Map<Seq<char>, u16>, cmds: Seq<CmdV>, i: int, j: int)
    requires
        0 <= j < i,
        cmds[j] is Label,
    ensures
        pass1(m, cmds, i).contains_key(cmds[j]->Label_0),
    decreases i,
{
    if j < i - 1 {
        lemma_pass1_binds_label(m, cmds, i - 1, j);
    }
}

proof fn lemma_pass2_binds_a(m: Map<Seq<char>, u16>, cmds: Seq<CmdV>, i: int, next: int, j: int)
    requires
        0 <= j < i,
        cmds[j] is AInstruction,
        !u16_parses(cmds[j]->AInstruction_0),
    ensures
        pass2(m, cmds, i, next).0.contains_key(cmds[j]->AInstruction_0),
    decreases i,
{
    if j < i - 1 {
        lemma_pass2_binds_a(m, cmds, i - 1, next, j);
    }
}

/// Completeness of the two passes: afterwards every label name is bound, and
/// every A-instruction payload that is not a decimal is bound, either because
/// it already was or because the second pass allocated it as a variable.
pub proof fn lemma_resolve_binds_all(m: Map<Seq<char>, u16>, cmds: Seq<CmdV>, next: int, j: int)
    requires
        0 <= j < cmds.len(),
    ensures
        cmds[j] is Label ==> resolve_spec(m, cmds, next).0.contains_key(cmds[j]->Label_0),
        cmds[j] is AInstruction && !u16_parses(cmds[j]->AInstruction_0) ==> resolve_spec(
            m,
            cmds,
            next,
        ).0.contains_key(cmds[j]->AInstruction_0),
{
    let n = cmds.len() as int;
    if cmds[j] is Label {
        lemma_pass1_binds_label(m, cmds, n, j);
        lemma_pass2_preserves(pass1(m, cmds, n), cmds, n, next, cmds[j]->Label_0);
    }
    if cmds[j] is AInstruction && !u16_parses(cmds[j]->AInstruction_0) {
        lemma_pass2_binds_a(pass1(m, cmds, n), cmds, n, next, j);
    }
}

/// Resolution never drops a binding: a name bound before the passes, such
/// as a predefined symbol, is still bound afterwards.
pub proof fn lemma_resolve_preserves(
    m: Map<Seq<char>, u16>,
    cmds: Seq<CmdV>,
    next: int,
    k: Seq<char>,
)
    requires
        m.contains_key(k),
    ensures
        resolve_spec(m, cmds, next).0.contains_key(k),
{
    let n = cmds.len() as int;
    lemma_pass1_preserves(m, cmds, n, k);
    lemma_pass2_preserves(pass1(m, cmds, n), cmds, n, next, k);
}

/// The symbol table after both passes, and the next free variable address.
pub open spec fn resolve_spec(m: Map<Seq<char>, u16>, cmds: Seq<CmdV>, next: int) -> (
    Map<Seq<char>, u16>,
    int,
) {
    pass2(pass1(m, cmds, cmds.len() as int), cmds, cmds.len() as int, next)
}

/// Whether an A-instruction payload resolves under table `m`: a decimal must
/// fit the 15-bit immediate, anything else must be bound.
pub open spec fn a_resolves(m: Map<Seq<char>, u16>, v: Seq<char>) -> bool {
    if u16_parses(v) {
        dec_val(v) < 32768
    } else {
        m.contains_key(v)
    }
}

/// The address word an A-instruction encodes under table `m`.
pub open spec fn a_value(m: Map<Seq<char>, u16>, v: Seq<char>) -> u16 {
    if u16_parses(v) {
        dec_val(v) as u16
    } else {
        m[v]
    }
}

/// The part of a C-instruction before the jump separator.
pub open spec fn c_head(s: Seq<char>) -> Seq<char> {
    s.take(find_char(s, ';') as int)
}

/// The dest field: the trimmed text before `=`, when there is exactly one
/// `=` before the jump separator; empty otherwise.
pub open spec fn c_dest(s: Seq<char>) -> Seq<char> {
    let head = c_head(s);
    if count_char(head, '=') == 1 {
        trim_seq(head.take(find_char(head, '=') as int))
    } else {
        Seq::empty()
    }
}

/// The comp field: the trimmed text between `=` (if exactly one) and the
/// jump separator.
pub open spec fn c_comp(s: Seq<char>) -> Seq<char> {
    let head = c_head(s);
    if count_char(head, '=') == 1 {
        trim_seq(head.skip(find_char(head, '=') as int + 1))
    } else {
        trim_seq(head.take(find_char(head, '=') as int))
    }
}

/// The jump field: the trimmed text after `;`, when there is exactly one
/// `;`; empty otherwise.
pub open spec fn c_jump(s: Seq<char>) -> Seq<char> {
    if count_char(s, ';') == 1 {
        trim_seq(s.skip(find_char(s, ';') as int + 1))
    } else {
        Seq::empty()
    }
}

/// Whether all three fields of a C-instruction are in their vocabularies.
pub open spec fn c_encodable(s: Seq<char>) -> bool {
    comp_lookup(c_comp(s)).is_some() && dest_lookup(c_dest(s)).is_some() && jump_lookup(
        c_jump(s),
    ).is_some()
}

/// The instruction word a C-instruction encodes: the three leading ones,
/// the a-bit, six c-bits, three d-bits and three j-bits.
pub open spec fn c_word(s: Seq<char>) -> u16 {
    let ab = comp_lookup(c_comp(s)).unwrap().0;
    let cc = comp_lookup(c_comp(s)).unwrap().1;
    let dd = dest_lookup(c_dest(s)).unwrap();
    let jj = jump_lookup(c_jump(s)).unwrap();
    (0xE000 + if ab {
        0x1000int
    } else {
        0int
    } + cc * 64 + dd * 8 + jj) as u16
}

/// Whether a command encodes under table `m`.
pub open spec fn cmd_encodable(m: Map<Seq<char>, u16>, c: CmdV) -> bool {
    match c {
        CmdV::AInstruction(v) => a_resolves(m, v),
        CmdV::CInstruction(v) => c_encodable(v),
        CmdV::Label(_) => true,
    }
}

/// The binary words of the first `i` commands under table `m`, in source
/// order; labels emit nothing.
pub open spec fn encode_upto(m: Map<Seq<char>, u16>, cmds: Seq<CmdV>, i: int) -> Seq<Seq<char>>
    decreases i,
{
    if i <= 0 {
        Seq::empty()
    } else {
        let pre = encode_upto(m, cmds, i - 1);
        match cmds[i - 1] {
            CmdV::AInstruction(v) => pre.push(bin_seq(a_value(m, v))),
            CmdV::CInstruction(v) => pre.push(bin_seq(c_word(v))),
            CmdV::Label(_) => pre,
        }
    }
}

/// Every emitted word is a 16-character binary string, and the first `i`
/// commands emit at most `i` of them.
pub proof fn lemma_encode_upto_wf(m: Map<Seq<char>, u16>, cmds: Seq<CmdV>, i: int)
    requires
        i >= 0,
    ensures
        encode_upto(m, cmds, i).len() <= i,
        forall|j: int|
            0 <= j < encode_upto(m, cmds, i).len() ==> crate::text::is_bin16(
                #[trigger] encode_upto(m, cmds, i)[j],
            ),
    decreases i,
{
    if i > 0 {
        lemma_encode_upto_wf(m, cmds, i - 1);
        match cmds[i - 1] {
            CmdV::AInstruction(v) => {
                crate::text::lemma_bin_seq_val(a_value(m, v));
            },
            CmdV::CInstruction(v) => {
                crate::text::lemma_bin_seq_val(c_word(v));
            },
            CmdV::Label(_) => {},
        }
    }
}

/// The two-pass assembler. All fields are observable: the parsed commands,
/// the symbol table, the next free variable address, and the emitted words.
pub struct Assembler {
    pub symbol_table: SymbolTable,
    pub commands: Vec<AssemblyCommand>,
    pub next_variable_address: u16,
    pub binaries: Vec<String>,
}

impl Assembler {
    pub open spec fn wf(&self) -> bool {
        self.symbol_table.wf()
    }

    pub fn new() -> (r: Self)
        ensures
            r.wf(),
            r.symbol_table@ == crate::parser::table::predefined_symbols(),
            r.commands@.len() == 0,
            r.next_variable_address == 16,
            r.binaries@.len() == 0,
    {
        Assembler {
            symbol_table: SymbolTable::new(),
            commands: Vec::new(),
            next_variable_address: 16,
            binaries: Vec::new(),
        }
    }

    /// Splits the source into lines, trims each, drops blanks and comments,
    /// and classifies the rest.
    pub fn parse_source(&mut self, contents: &str)
        requires
            parse_ok(contents@),
        ensures
            cmds_view(final(self).commands@) == parse_spec(contents@),
            final(self).symbol_table == old(self).symbol_table,
            final(self).next_variable_address == old(self).next_variable_address,
            final(self).binaries == old(self).binaries,
    {
        let lines = split_lines(contents);
        self.parse_lines(&lines);
    }

    /// Parses an already split source, one entry per line.
    pub fn parse_lines(&mut self, lines: &Vec<String>)
        requires
            lines_ok(line_views(lines@)),
        ensures
            cmds_view(final(self).commands@) == parse_lines_rec(line_views(lines@)),
            final(self).symbol_table == old(self).symbol_table,
            final(self).next_variable_address == old(self).next_variable_address,
            final(self).binaries == old(self).binaries,
    {
        let ghost lviews = line_views(lines@);
        let mut commands: Vec<AssemblyCommand> = Vec::new();
        proof {
            assert(lviews.take(0) =~= Seq::<Seq<char>>::empty());
        }
        let n = lines.len();
        for i in 0..n
            invariant
                n == lines@.len(),
                lviews == line_views(lines@),
                lines_ok(lviews),
                lviews.len() == n,
                cmds_view(commands@) =~= parse_lines_rec(lviews.take(i as int)),
        {
            proof {
                lemma_lines_ok_index(lviews, i as int);
                assert(lviews.take(i as int + 1).drop_last() =~= lviews.take(i as int));
                assert(lviews.take(i as int + 1).last() == lviews[i as int]);
            }
            let t = trim_str(lines[i].as_str());
            let ghost tv = trim_seq(lviews[i as int]);
            let m = t.unicode_len();
            let skip_line = m == 0 || (m >= 2 && t.get_char(0) == '/' && t.get_char(1) == '/');
            if !skip_line {
                assert(!line_skipped(tv));
                let c0 = t.get_char(0);
                let cmd = if c0 == '@' {
                    AssemblyCommand::AInstruction(t.substring_char(1, m).to_owned())
                } else if c0 == '(' && t.get_char(m - 1) == ')' {
                    AssemblyCommand::Label(t.substring_char(1, m - 1).to_owned())
                } else if contains_char(t, '=') || contains_char(t, ';') {
                    AssemblyCommand::CInstruction(t.to_owned())
                } else {
                    unreached()
                };
                proof {
                    assert(tv.skip(1) =~= tv.subrange(1, tv.len() as int));
                    assert(cmd@ == classify_line(tv));
                    assert(cmds_view(commands@.push(cmd)) =~= cmds_view(commands@).push(cmd@));
                }
                commands.push(cmd);
            }
        }
        proof {
            assert(lviews.take(n as int) =~= lviews);
        }
        self.commands = commands;
    }

    /// Encodes an A-instruction payload: a decimal becomes the immediate,
    /// anything else is looked up in the symbol table.
    pub fn assemble_a_instruction(&self, value: &str) -> (r: String)
        requires
            self.wf(),
            a_resolves(self.symbol_table@, value@),
        ensures
            r@ == bin_seq(a_value(self.symbol_table@, value@)),
    {
        let number: u16 = match parse_u16(value) {
            Some(n) => n,
            None => match self.symbol_table.get_address(value) {
                Some(a) => a,
                None => unreached(),
            },
        };
        bin16_string(number)
    }

    /// Encodes a C-instruction: the text is split at `;` to isolate the
    /// jump field and at `=` to isolate the dest field, and the three fields
    /// are resolved against their vocabularies.
    pub fn assemble_c_instruction(&self, value: &str) -> (r: String)
        requires
            c_encodable(value@),
        ensures
            r@ == bin_seq(c_word(value@)),
    {
        let n = value.unicode_len();
        let mut semi: usize = 0;
        while semi < n && value.get_char(semi) != ';'
            invariant
                semi <= n,
                n == value@.len(),
                forall|j: int| 0 <= j < semi ==> value@[j] != ';',
            decreases n - semi,
        {
            semi = semi + 1;
        }
        proof {
            lemma_find_char(value@, ';');
            if find_char(value@, ';') < semi {
                assert(false);
            }
            if semi < n && find_char(value@, ';') > semi {
                assert(false);
            }
            assert(find_char(value@, ';') == semi);
        }
        let mut semi_count: usize = 0;
        let mut i: usize = 0;
        while i < n
            invariant
                i <= n,
                n == value@.len(),
                semi_count == count_char(value@.take(i as int), ';'),
                semi_count <= i,
            decreases n - i,
        {
            proof {
                assert(value@.take(i as int + 1).drop_last() =~= value@.take(i as int));
            }
            if value.get_char(i) == ';' {
                semi_count = semi_count + 1;
            }
            i = i + 1;
        }
        proof {
            assert(value@.take(n as int) =~= value@);
        }

        let head = value.substring_char(0, semi);
        proof {
            assert(head@ =~= c_head(value@));
        }
        let jump_field: &str = if semi_count == 1 {
            proof {
                if semi >= n {
                    lemma_count_char_zero(value@, ';');
                    assert(false);
                }
            }
            trim_str(value.substring_char(semi + 1, n))
        } else {
            ""
        };
        proof {
            reveal_strlit("");
            if semi_count == 1 {
                assert(value@.subrange(semi as int + 1, n as int) =~= value@.skip(semi as int + 1));
            } else {
                assert(""@ =~= Seq::<char>::empty());
            }
            assert(jump_field@ == c_jump(value@));
        }

        let hn = head.unicode_len();
        let mut eq: usize = 0;
        while eq < hn && head.get_char(eq) != '='
            invariant
                eq <= hn,
                hn == head@.len(),
                forall|j: int| 0 <= j < eq ==> head@[j] != '=',
            decreases hn - eq,
        {
            eq = eq + 1;
        }
        proof {
            lemma_find_char(head@, '=');
            if find_char(head@, '=') < eq {
                assert(false);
            }
            if eq < hn && find_char(head@, '=') > eq {
                assert(false);
            }
            assert(find_char(head@, '=') == eq);
        }
        let mut eq_count: usize = 0;
        let mut k: usize = 0;
        while k < hn
            invariant
                k <= hn,
                hn == head@.len(),
                eq_count == count_char(head@.take(k as int), '='),
                eq_count <= k,
            decreases hn - k,
        {
            proof {
                assert(head@.take(k as int + 1).drop_last() =~= head@.take(k as int));
            }
            if head.get_char(k) == '=' {
                eq_count = eq_count + 1;
            }
            k = k + 1;
        }
        proof {
            assert(head@.take(hn as int) =~= head@);
        }

        let dest_field: &str = if eq_count == 1 {
            trim_str(head.substring_char(0, eq))
        } else {
            ""
        };
        let comp_field: &str = if eq_count == 1 {
            proof {
                if eq >= hn {
                    lemma_count_char_zero(head@, '=');
                    assert(false);
                }
            }
            trim_str(head.substring_char(eq + 1, hn))
        } else {
            trim_str(head.substring_char(0, eq))
        };
        proof {
            reveal_strlit("");
            assert(head@.subrange(0, eq as int) =~= head@.take(eq as int));
            if eq_count == 1 {
                assert(head@.subrange(eq as int + 1, hn as int) =~= head@.skip(eq as int + 1));
            } else {
                assert(""@ =~= Seq::<char>::empty());
            }
            assert(dest_field@ == c_dest(value@));
            assert(comp_field@ == c_comp(value@));
        }

        let (a_bit, c6) = match comp_bits(comp_field) {
            Some(x) => x,
            None => unreached(),
        };
        let d3 = match dest_bits(dest_field) {
            Some(x) => x,
            None => unreached(),
        };
        let j3 = match jump_bits(jump_field) {
            Some(x) => x,
            None => unreached(),
        };
        let word: u16 = 0xE000 + (if a_bit {
            0x1000
        } else {
            0
        }) + c6 * 64 + d3 * 8 + j3;
        bin16_string(word)
    }

    /// The two resolution passes: labels bind to instruction addresses,
    /// then unbound non-numeric A-payloads become variables from
    /// `next_variable_address` up.
    pub fn resolve_symbols(&mut self)
        requires
            old(self).wf(),
            old(self).commands@.len() <= 32768,
            old(self).next_variable_address + old(self).commands@.len() <= 32768,
        ensures
            final(self).wf(),
            final(self).symbol_table@ == resolve_spec(
                old(self).symbol_table@,
                cmds_view(old(self).commands@),
                old(self).next_variable_address as int,
            ).0,
            final(self).next_variable_address == resolve_spec(
                old(self).symbol_table@,
                cmds_view(old(self).commands@),
                old(self).next_variable_address as int,
            ).1,
            final(self).commands == old(self).commands,
            final(self).binaries == old(self).binaries,
    {
        let ghost cv = cmds_view(self.commands@);
        let ghost m0 = self.symbol_table@;
        let ghost next0 = self.next_variable_address as int;
        let n = self.commands.len();

        let mut instruction_address: u16 = 0;
        for i in 0..n
            invariant
                n == self.commands@.len(),
                cv == cmds_view(self.commands@),
                cv.len() == n,
                n <= 32768,
                self.symbol_table.wf(),
                self.symbol_table@ == pass1(m0, cv, i as int),
                instruction_address == instr_count(cv, i as int),
                instruction_address <= i,
                self.commands == old(self).commands,
                self.binaries == old(self).binaries,
                self.next_variable_address == old(self).next_variable_address,
        {
            match &self.commands[i] {
                AssemblyCommand::Label(label) => {
                    let l = label.as_str();
                    self.symbol_table.add_entry(l, instruction_address);
                },
                _ => {
                    instruction_address = instruction_address + 1;
                },
            }
        }

        let ghost m1 = pass1(m0, cv, n as int);
        for i in 0..n
            invariant
                n == self.commands@.len(),
                cv == cmds_view(self.commands@),
                cv.len() == n,
                next0 + n <= 32768,
                self.symbol_table.wf(),
                self.symbol_table@ == pass2(m1, cv, i as int, next0).0,
                self.next_variable_address == pass2(m1, cv, i as int, next0).1,
                next0 <= self.next_variable_address <= next0 + i,
                self.commands == old(self).commands,
                self.binaries == old(self).binaries,
        {
            match &self.commands[i] {
                AssemblyCommand::AInstruction(value) => {
                    let v = value.as_str();
                    if parse_u16(v).is_none() && !self.symbol_table.contains(v) {
                        let addr = self.next_variable_address;
                        self.symbol_table.add_entry(v, addr);
                        self.next_variable_address = self.next_variable_address + 1;
                    }
                },
                _ => {},
            }
        }
    }

    /// The whole pipeline: parse, resolve, encode every instruction in
    /// source order, and append the all-ones halt sentinel.
    pub fn assemble_all(&mut self, contents: &str)
        requires
            old(self).wf(),
            parse_ok(contents@),
            parse_spec(contents@).len() <= 32768,
            old(self).next_variable_address + parse_spec(contents@).len() <= 32768,
            forall|i: int|
                0 <= i < parse_spec(contents@).len() ==> cmd_encodable(
                    resolve_spec(
                        old(self).symbol_table@,
                        parse_spec(contents@),
                        old(self).next_variable_address as int,
                    ).0,
                    #[trigger] parse_spec(contents@)[i],
                ),
        ensures
            final(self).wf(),
            cmds_view(final(self).commands@) == parse_spec(contents@),
            final(self).symbol_table@ == resolve_spec(
                old(self).symbol_table@,
                parse_spec(contents@),
                old(self).next_variable_address as int,
            ).0,
            final(self).binaries@.map_values(|b: String| b@) == encode_upto(
                final(self).symbol_table@,
                parse_spec(contents@),
                parse_spec(contents@).len() as int,
            ).push(bin_seq(0xFFFFu16)),
    {
        self.parse_source(contents);
        self.resolve_symbols();
        self.emit_binaries();
    }

    /// The whole pipeline on an already split source: parse, resolve,
    /// encode, and append the halt sentinel.
    pub fn assemble_lines(&mut self, lines: &Vec<String>)
        requires
            old(self).wf(),
            lines_ok(line_views(lines@)),
            parse_lines_rec(line_views(lines@)).len() <= 32768,
            old(self).next_variable_address + parse_lines_rec(
                line_views(lines@),
            ).len() <= 32768,
            forall|i: int|
                0 <= i < parse_lines_rec(line_views(lines@)).len() ==> cmd_encodable(
                    resolve_spec(
                        old(self).symbol_table@,
                        parse_lines_rec(line_views(lines@)),
                        old(self).next_variable_address as int,
                    ).0,
                    #[trigger] parse_lines_rec(line_views(lines@))[i],
                ),
        ensures
            final(self).wf(),
            cmds_view(final(self).commands@) == parse_lines_rec(line_views(lines@)),
            final(self).symbol_table@ == resolve_spec(
                old(self).symbol_table@,
                parse_lines_rec(line_views(lines@)),
                old(self).next_variable_address as int,
            ).0,
            final(self).next_variable_address == resolve_spec(
                old(self).symbol_table@,
                parse_lines_rec(line_views(lines@)),
                old(self).next_variable_address as int,
            ).1,
            final(self).binaries@.map_values(|b: String| b@) == encode_upto(
                final(self).symbol_table@,
                parse_lines_rec(line_views(lines@)),
                parse_lines_rec(line_views(lines@)).len() as int,
            ).push(bin_seq(0xFFFFu16)),
    {
        self.parse_lines(lines);
        self.resolve_symbols();
        self.emit_binaries();
    }

    /// Encodes every parsed command against the resolved table, in source
    /// order, and appends the halt sentinel.
    fn emit_binaries(&mut self)
        requires
            old(self).wf(),
            forall|i: int|
                0 <= i < old(self).commands@.len() ==> cmd_encodable(
                    old(self).symbol_table@,
                    #[trigger] cmds_view(old(self).commands@)[i],
                ),
        ensures
            final(self).wf(),
            final(self).commands == old(self).commands,
            final(self).symbol_table == old(self).symbol_table,
            final(self).next_variable_address == old(self).next_variable_address,
            final(self).binaries@.map_values(|b: String| b@) == encode_upto(
                old(self).symbol_table@,
                cmds_view(old(self).commands@),
                old(self).commands@.len() as int,
            ).push(bin_seq(0xFFFFu16)),
    {
        let ghost cv = cmds_view(self.commands@);
        let ghost m2 = self.symbol_table@;
        let n = self.commands.len();
        let mut binaries: Vec<String> = Vec::new();
        proof {
            assert(binaries@.map_values(|b: String| b@) =~= encode_upto(m2, cv, 0));
        }
        for i in 0..n
            invariant
                n == self.commands@.len(),
                cv == cmds_view(self.commands@),
                cv.len() == n,
                self.commands == old(self).commands,
                self.symbol_table == old(self).symbol_table,
                self.next_variable_address == old(self).next_variable_address,
                self.symbol_table.wf(),
                self.symbol_table@ == m2,
                forall|j: int| 0 <= j < n ==> cmd_encodable(m2, #[trigger] cv[j]),
                binaries@.map_values(|b: String| b@) =~= encode_upto(m2, cv, i as int),
        {
            proof {
                assert(cmds_view(self.commands@)[i as int] == self.commands@[i as int]@);
            }
            match &self.commands[i] {
                AssemblyCommand::AInstruction(value) => {
                    let b = self.assemble_a_instruction(value.as_str());
                    binaries.push(b);
                },
                AssemblyCommand::CInstruction(value) => {
                    let b = self.assemble_c_instruction(value.as_str());
                    binaries.push(b);
                },
                AssemblyCommand::Label(_) => {},
            }
            proof {
                assert(binaries@.map_values(|b: String| b@) =~= encode_upto(m2, cv, i as int + 1));
            }
        }
        let sentinel = bin16_string(0xFFFF);
        binaries.push(sentinel);
        self.binaries = binaries;
        proof {
            assert(self.binaries@.map_values(|b: String| b@) =~= encode_upto(
                m2,
                cv,
                cv.len() as int,
            ).push(bin_seq(0xFFFFu16)));
        }
    }
}

} // verus!
