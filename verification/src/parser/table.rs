//! The Hack instruction vocabularies: the comp, dest and jump field
//! encodings, the symbol table with its predefined symbols, and the decoder
//! from instruction words back to mnemonics.

use crate::text::str_eq;
use vstd::prelude::*;

verus! {

/// The a-bit and the six c-bits of a comp mnemonic, or nothing for an
/// unknown field.
pub open spec fn comp_lookup(s: Seq<char>) -> Option<(bool, u16)> {
    if s == "0"@ {
        Some((false, 0b101010u16))
    } else if s == "1"@ {
        Some((false, 0b111111u16))
    } else if s == "-1"@ {
        Some((false, 0b111010u16))
    } else if s == "D"@ {
        Some((false, 0b001100u16))
    } else if s == "A"@ {
        Some((false, 0b110000u16))
    } else if s == "!D"@ {
        Some((false, 0b001101u16))
    } else if s == "!A"@ {
        Some((false, 0b110001u16))
    } else if s == "-D"@ {
        Some((false, 0b001111u16))
    } else if s == "-A"@ {
        Some((false, 0b110011u16))
    } else if s == "D+1"@ {
        Some((false, 0b011111u16))
    } else if s == "A+1"@ {
        Some((false, 0b110111u16))
    } else if s == "D-1"@ {
        Some((false, 0b001110u16))
    } else if s == "A-1"@ {
        Some((false, 0b110010u16))
    } else if s == "D+A"@ {
        Some((false, 0b000010u16))
    } else if s == "D-A"@ {
        Some((false, 0b010011u16))
    } else if s == "A-D"@ {
        Some((false, 0b000111u16))
    } else if s == "D&A"@ {
        Some((false, 0b000000u16))
    } else if s == "D|A"@ {
        Some((false, 0b010101u16))
    } else if s == "M"@ {
        Some((true, 0b110000u16))
    } else if s == "!M"@ {
        Some((true, 0b110001u16))
    } else if s == "-M"@ {
        Some((true, 0b110011u16))
    } else if s == "M+1"@ {
        Some((true, 0b110111u16))
    } else if s == "M-1"@ {
        Some((true, 0b110010u16))
    } else if s == "D+M"@ {
        Some((true, 0b000010u16))
    } else if s == "D-M"@ {
        Some((true, 0b010011u16))
    } else if s == "M-D"@ {
        Some((true, 0b000111u16))
    } else if s == "D&M"@ {
        Some((true, 0b000000u16))
    } else if s == "D|M"@ {
        Some((true, 0b010101u16))
    } else {
        None
    }
}

/// The three d-bits of a dest mnemonic.
pub open spec fn dest_lookup(s: Seq<char>) -> Option<u16> {
    if s == ""@ {
        Some(0b000u16)
    } else if s == "M"@ {
        Some(0b001u16)
    } else if s == "D"@ {
        Some(0b010u16)
    } else if s == "MD"@ {
        Some(0b011u16)
    } else if s == "A"@ {
        Some(0b100u16)
    } else if s == "AM"@ {
        Some(0b101u16)
    } else if s == "AD"@ {
        Some(0b110u16)
    } else if s == "AMD"@ {
        Some(0b111u16)
    } else {
        None
    }
}

/// The three j-bits of a jump mnemonic.
pub open spec fn jump_lookup(s: Seq<char>) -> Option<u16> {
    if s == ""@ {
        Some(0b000u16)
    } else if s == "JGT"@ {
        Some(0b001u16)
    } else if s == "JEQ"@ {
        Some(0b010u16)
    } else if s == "JGE"@ {
        Some(0b011u16)
    } else if s == "JLT"@ {
        Some(0b100u16)
    } else if s == "JNE"@ {
        Some(0b101u16)
    } else if s == "JLE"@ {
        Some(0b110u16)
    } else if s == "JMP"@ {
        Some(0b111u16)
    } else {
        None
    }
}

/// Resolves a comp mnemonic to its a-bit and c-bits.
pub fn comp_bits(s: &str) -> (r: Option<(bool, u16)>)
    ensures
        r == comp_lookup(s@),
        r matches Some(b) ==> b.1 < 64,
{
    if str_eq(s, "0") {
        Some((false, 0b101010))
    } else if str_eq(s, "1") {
        Some((false, 0b111111))
    } else if str_eq(s, "-1") {
        Some((false, 0b111010))
    } else if str_eq(s, "D") {
        Some((false, 0b001100))
    } else if str_eq(s, "A") {
        Some((false, 0b110000))
    } else if str_eq(s, "!D") {
        Some((false, 0b001101))
    } else if str_eq(s, "!A") {
        Some((false, 0b110001))
    } else if str_eq(s, "-D") {
        Some((false, 0b001111))
    } else if str_eq(s, "-A") {
        Some((false, 0b110011))
    } else if str_eq(s, "D+1") {
        Some((false, 0b011111))
    } else if str_eq(s, "A+1") {
        Some((false, 0b110111))
    } else if str_eq(s, "D-1") {
        Some((false, 0b001110))
    } else if str_eq(s, "A-1") {
        Some((false, 0b110010))
    } else if str_eq(s, "D+A") {
        Some((false, 0b000010))
    } else if str_eq(s, "D-A") {
        Some((false, 0b010011))
    } else if str_eq(s, "A-D") {
        Some((false, 0b000111))
    } else if str_eq(s, "D&A") {
        Some((false, 0b000000))
    } else if str_eq(s, "D|A") {
        Some((false, 0b010101))
    } else if str_eq(s, "M") {
        Some((true, 0b110000))
    } else if str_eq(s, "!M") {
        Some((true, 0b110001))
    } else if str_eq(s, "-M") {
        Some((true, 0b110011))
    } else if str_eq(s, "M+1") {
        Some((true, 0b110111))
    } else if str_eq(s, "M-1") {
        Some((true, 0b110010))
    } else if str_eq(s, "D+M") {
        Some((true, 0b000010))
    } else if str_eq(s, "D-M") {
        Some((true, 0b010011))
    } else if str_eq(s, "M-D") {
        Some((true, 0b000111))
    } else if str_eq(s, "D&M") {
        Some((true, 0b000000))
    } else if str_eq(s, "D|M") {
        Some((true, 0b010101))
    } else {
        None
    }
}

/// Resolves a dest mnemonic to its three d-bits.
pub fn dest_bits(s: &str) -> (r: Option<u16>)
    ensures
        r == dest_lookup(s@),
        r matches Some(b) ==> b < 8,
{
    if str_eq(s, "") {
        Some(0b000)
    } else if str_eq(s, "M") {
        Some(0b001)
    } else if str_eq(s, "D") {
        Some(0b010)
    } else if str_eq(s, "MD") {
        Some(0b011)
    } else if str_eq(s, "A") {
        Some(0b100)
    } else if str_eq(s, "AM") {
        Some(0b101)
    } else if str_eq(s, "AD") {
        Some(0b110)
    } else if str_eq(s, "AMD") {
        Some(0b111)
    } else {
        None
    }
}

/// Resolves a jump mnemonic to its three j-bits.
pub fn jump_bits(s: &str) -> (r: Option<u16>)
    ensures
        r == jump_lookup(s@),
        r matches Some(b) ==> b < 8,
{
    if str_eq(s, "") {
        Some(0b000)
    } else if str_eq(s, "JGT") {
        Some(0b001)
    } else if str_eq(s, "JEQ") {
        Some(0b010)
    } else if str_eq(s, "JGE") {
        Some(0b011)
    } else if str_eq(s, "JLT") {
        Some(0b100)
    } else if str_eq(s, "JNE") {
        Some(0b101)
    } else if str_eq(s, "JLE") {
        Some(0b110)
    } else if str_eq(s, "JMP") {
        Some(0b111)
    } else {
        None
    }
}

/// The comp vocabulary as data: every mnemonic with its a-bit and c-bits.
pub fn comp_table() -> (r: Vec<(&'static str, bool, u16)>)
    ensures
        r@.len() == 28,
        r@[0].0@ == "0"@ && r@[0].1 == false && r@[0].2 == 0b101010u16,
        r@[1].0@ == "1"@ && r@[1].1 == false && r@[1].2 == 0b111111u16,
        r@[2].0@ == "-1"@ && r@[2].1 == false && r@[2].2 == 0b111010u16,
        r@[3].0@ == "D"@ && r@[3].1 == false && r@[3].2 == 0b001100u16,
        r@[4].0@ == "A"@ && r@[4].1 == false && r@[4].2 == 0b110000u16,
        r@[5].0@ == "!D"@ && r@[5].1 == false && r@[5].2 == 0b001101u16,
        r@[6].0@ == "!A"@ && r@[6].1 == false && r@[6].2 == 0b110001u16,
        r@[7].0@ == "-D"@ && r@[7].1 == false && r@[7].2 == 0b001111u16,
        r@[8].0@ == "-A"@ && r@[8].1 == false && r@[8].2 == 0b110011u16,
        r@[9].0@ == "D+1"@ && r@[9].1 == false && r@[9].2 == 0b011111u16,
        r@[10].0@ == "A+1"@ && r@[10].1 == false && r@[10].2 == 0b110111u16,
        r@[11].0@ == "D-1"@ && r@[11].1 == false && r@[11].2 == 0b001110u16,
        r@[12].0@ == "A-1"@ && r@[12].1 == false && r@[12].2 == 0b110010u16,
        r@[13].0@ == "D+A"@ && r@[13].1 == false && r@[13].2 == 0b000010u16,
        r@[14].0@ == "D-A"@ && r@[14].1 == false && r@[14].2 == 0b010011u16,
        r@[15].0@ == "A-D"@ && r@[15].1 == false && r@[15].2 == 0b000111u16,
        r@[16].0@ == "D&A"@ && r@[16].1 == false && r@[16].2 == 0b000000u16,
        r@[17].0@ == "D|A"@ && r@[17].1 == false && r@[17].2 == 0b010101u16,
        r@[18].0@ == "M"@ && r@[18].1 == true && r@[18].2 == 0b110000u16,
        r@[19].0@ == "!M"@ && r@[19].1 == true && r@[19].2 == 0b110001u16,
        r@[20].0@ == "-M"@ && r@[20].1 == true && r@[20].2 == 0b110011u16,
        r@[21].0@ == "M+1"@ && r@[21].1 == true && r@[21].2 == 0b110111u16,
        r@[22].0@ == "M-1"@ && r@[22].1 == true && r@[22].2 == 0b110010u16,
        r@[23].0@ == "D+M"@ && r@[23].1 == true && r@[23].2 == 0b000010u16,
        r@[24].0@ == "D-M"@ && r@[24].1 == true && r@[24].2 == 0b010011u16,
        r@[25].0@ == "M-D"@ && r@[25].1 == true && r@[25].2 == 0b000111u16,
        r@[26].0@ == "D&M"@ && r@[26].1 == true && r@[26].2 == 0b000000u16,
        r@[27].0@ == "D|M"@ && r@[27].1 == true && r@[27].2 == 0b010101u16,
{
    let mut t: Vec<(&'static str, bool, u16)> = Vec::new();
    t.push(("0", false, 0b101010));
    t.push(("1", false, 0b111111));
    t.push(("-1", false, 0b111010));
    t.push(("D", false, 0b001100));
    t.push(("A", false, 0b110000));
    t.push(("!D", false, 0b001101));
    t.push(("!A", false, 0b110001));
    t.push(("-D", false, 0b001111));
    t.push(("-A", false, 0b110011));
    t.push(("D+1", false, 0b011111));
    t.push(("A+1", false, 0b110111));
    t.push(("D-1", false, 0b001110));
    t.push(("A-1", false, 0b110010));
    t.push(("D+A", false, 0b000010));
    t.push(("D-A", false, 0b010011));
    t.push(("A-D", false, 0b000111));
    t.push(("D&A", false, 0b000000));
    t.push(("D|A", false, 0b010101));
    t.push(("M", true, 0b110000));
    t.push(("!M", true, 0b110001));
    t.push(("-M", true, 0b110011));
    t.push(("M+1", true, 0b110111));
    t.push(("M-1", true, 0b110010));
    t.push(("D+M", true, 0b000010));
    t.push(("D-M", true, 0b010011));
    t.push(("M-D", true, 0b000111));
    t.push(("D&M", true, 0b000000));
    t.push(("D|M", true, 0b010101));
    t
}

/// The dest vocabulary as data.
pub fn dest_table() -> (r: Vec<(&'static str, u16)>)
    ensures
        r@.len() == 8,
        r@[0].0@ == ""@ && r@[0].1 == 0b000u16,
        r@[1].0@ == "M"@ && r@[1].1 == 0b001u16,
        r@[2].0@ == "D"@ && r@[2].1 == 0b010u16,
        r@[3].0@ == "MD"@ && r@[3].1 == 0b011u16,
        r@[4].0@ == "A"@ && r@[4].1 == 0b100u16,
        r@[5].0@ == "AM"@ && r@[5].1 == 0b101u16,
        r@[6].0@ == "AD"@ && r@[6].1 == 0b110u16,
        r@[7].0@ == "AMD"@ && r@[7].1 == 0b111u16,
{
    let mut t: Vec<(&'static str, u16)> = Vec::new();
    t.push(("", 0b000));
    t.push(("M", 0b001));
    t.push(("D", 0b010));
    t.push(("MD", 0b011));
    t.push(("A", 0b100));
    t.push(("AM", 0b101));
    t.push(("AD", 0b110));
    t.push(("AMD", 0b111));
    t
}

/// The jump vocabulary as data.
pub fn jump_table() -> (r: Vec<(&'static str, u16)>)
    ensures
        r@.len() == 8,
        r@[0].0@ == ""@ && r@[0].1 == 0b000u16,
        r@[1].0@ == "JGT"@ && r@[1].1 == 0b001u16,
        r@[2].0@ == "JEQ"@ && r@[2].1 == 0b010u16,
        r@[3].0@ == "JGE"@ && r@[3].1 == 0b011u16,
        r@[4].0@ == "JLT"@ && r@[4].1 == 0b100u16,
        r@[5].0@ == "JNE"@ && r@[5].1 == 0b101u16,
        r@[6].0@ == "JLE"@ && r@[6].1 == 0b110u16,
        r@[7].0@ == "JMP"@ && r@[7].1 == 0b111u16,
{
    let mut t: Vec<(&'static str, u16)> = Vec::new();
    t.push(("", 0b000));
    t.push(("JGT", 0b001));
    t.push(("JEQ", 0b010));
    t.push(("JGE", 0b011));
    t.push(("JLT", 0b100));
    t.push(("JNE", 0b101));
    t.push(("JLE", 0b110));
    t.push(("JMP", 0b111));
    t
}

/// A name-to-address table: a list of bindings where the latest binding for
/// a name wins, viewed as a map.
pub struct SymbolTable {
    pub entries: Vec<(String, u16)>,
}

/// The bindings folded into a map; a later entry shadows an earlier one of
/// the same name.
pub open spec fn as_map(s: Seq<(String, u16)>) -> Map<Seq<char>, u16>
    decreases s.len(),
{
    if s.len() == 0 {
        Map::empty()
    } else {
        as_map(s.drop_last()).insert(s.last().0@, s.last().1)
    }
}

/// Entries at or past `i` bind none of them `k`, so the whole table answers
/// `k` as its first `i` entries do.
pub proof fn lemma_as_map_suffix(s: Seq<(String, u16)>, i: int, k: Seq<char>)
    requires
        0 <= i <= s.len(),
        forall|j: int| i <= j < s.len() ==> (#[trigger] s[j]).0@ != k,
    ensures
        as_map(s).contains_key(k) == as_map(s.take(i)).contains_key(k),
        as_map(s).contains_key(k) ==> as_map(s)[k] == as_map(s.take(i))[k],
    decreases s.len() - i,
{
    if i < s.len() {
        lemma_as_map_suffix(s.drop_last(), i, k);
        assert(s.drop_last().take(i) =~= s.take(i));
        assert(s[s.len() - 1].0@ != k);
    } else {
        assert(s.take(i) =~= s);
    }
}

impl View for SymbolTable {
    type V = Map<Seq<char>, u16>;

    open spec fn view(&self) -> Map<Seq<char>, u16> {
        as_map(self.entries@)
    }
}

/// The map that every fresh symbol table starts from: the stack and segment
/// pointers, the sixteen register aliases, and the two device addresses.
pub open spec fn predefined_symbols() -> Map<Seq<char>, u16> {
    Map::empty().insert("SP"@, 0u16).insert("LCL"@, 1u16).insert("ARG"@, 2u16).insert(
        "THIS"@,
        3u16,
    ).insert("THAT"@, 4u16).insert("R0"@, 0u16).insert("R1"@, 1u16).insert("R2"@, 2u16).insert(
        "R3"@,
        3u16,
    ).insert("R4"@, 4u16).insert("R5"@, 5u16).insert("R6"@, 6u16).insert("R7"@, 7u16).insert(
        "R8"@,
        8u16,
    ).insert("R9"@, 9u16).insert("R10"@, 10u16).insert("R11"@, 11u16).insert("R12"@, 12u16).insert(
        "R13"@,
        13u16,
    ).insert("R14"@, 14u16).insert("R15"@, 15u16).insert("SCREEN"@, 16384u16).insert(
        "KBD"@,
        24576u16,
    )
}

impl SymbolTable {
    /// Every bound address fits the 15-bit address space.
    pub open spec fn wf(&self) -> bool {
        forall|i: int| 0 <= i < self.entries@.len() ==> (#[trigger] self.entries@[i]).1 < 32768
    }

    pub fn new() -> (r: Self)
        ensures
            r.wf(),
            r@ == predefined_symbols(),
    {
        let mut t = SymbolTable { entries: Vec::new() };
        proof {
            assert(t@ =~= Map::<Seq<char>, u16>::empty());
        }
        t.add_entry("SP", 0);
        t.add_entry("LCL", 1);
        t.add_entry("ARG", 2);
        t.add_entry("THIS", 3);
        t.add_entry("THAT", 4);
        t.add_entry("R0", 0);
        t.add_entry("R1", 1);
        t.add_entry("R2", 2);
        t.add_entry("R3", 3);
        t.add_entry("R4", 4);
        t.add_entry("R5", 5);
        t.add_entry("R6", 6);
        t.add_entry("R7", 7);
        t.add_entry("R8", 8);
        t.add_entry("R9", 9);
        t.add_entry("R10", 10);
        t.add_entry("R11", 11);
        t.add_entry("R12", 12);
        t.add_entry("R13", 13);
        t.add_entry("R14", 14);
        t.add_entry("R15", 15);
        t.add_entry("SCREEN", 16384);
        t.add_entry("KBD", 24576);
        t
    }

    /// Binds `symbol` to `address`, shadowing any earlier binding.
    pub fn add_entry(&mut self, symbol: &str, address: u16)
        requires
            old(self).wf(),
            address < 32768,
        ensures
            final(self).wf(),
            final(self)@ == old(self)@.insert(symbol@, address),
    {
        let owned: String = symbol.to_owned();
        self.entries.push((owned, address));
        proof {
            assert(self.entries@.drop_last() =~= old(self).entries@);
        }
    }

    pub fn contains(&self, symbol: &str) -> (r: bool)
        ensures
            r == self@.contains_key(symbol@),
    {
        self.get_address(symbol).is_some()
    }

    /// The address bound to `symbol`, if any; in a well-formed table it is
    /// always a valid instruction address.
    pub fn get_address(&self, symbol: &str) -> (r: Option<u16>)
        ensures
            r == if self@.contains_key(symbol@) {
                Some(self@[symbol@])
            } else {
                None::<u16>
            },
            self.wf() ==> (r matches Some(v) ==> v < 32768),
    {
        let n = self.entries.len();
        let mut i: usize = n;
        while i > 0
            invariant
                i <= n,
                n == self.entries@.len(),
                forall|j: int| i <= j < n ==> (#[trigger] self.entries@[j]).0@ != symbol@,
            decreases i,
        {
            i = i - 1;
            if str_eq(self.entries[i].0.as_str(), symbol) {
                proof {
                    lemma_as_map_suffix(self.entries@, i + 1, symbol@);
                    assert(self.entries@.take(i as int + 1).drop_last() =~= self.entries@.take(
                        i as int,
                    ));
                    assert(self.entries@.take(i as int + 1).last() == self.entries@[i as int]);
                }
                return Some(self.entries[i].1);
            }
        }
        proof {
            lemma_as_map_suffix(self.entries@, 0, symbol@);
            assert(self.entries@.take(0) =~= Seq::<(String, u16)>::empty());
            assert(!as_map(Seq::<(String, u16)>::empty()).contains_key(symbol@));
        }
        None
    }
}

/// The comp mnemonic of an a-bit and c-bit pattern, or a placeholder for a
/// pattern outside the vocabulary.
pub open spec fn comp_mnemonic_spec(a: u16, comp: u16) -> Seq<char> {
    if a == 0 && comp == 0b101010 {
        "0"@
    } else if a == 0 && comp == 0b111111 {
        "1"@
    } else if a == 0 && comp == 0b111010 {
        "-1"@
    } else if a == 0 && comp == 0b001100 {
        "D"@
    } else if a == 0 && comp == 0b110000 {
        "A"@
    } else if a == 1 && comp == 0b110000 {
        "M"@
    } else if a == 0 && comp == 0b001101 {
        "!D"@
    } else if a == 0 && comp == 0b110001 {
        "!A"@
    } else if a == 1 && comp == 0b110001 {
        "!M"@
    } else if a == 0 && comp == 0b001111 {
        "-D"@
    } else if a == 0 && comp == 0b110011 {
        "-A"@
    } else if a == 1 && comp == 0b110011 {
        "-M"@
    } else if a == 0 && comp == 0b011111 {
        "D+1"@
    } else if a == 0 && comp == 0b110111 {
        "A+1"@
    } else if a == 1 && comp == 0b110111 {
        "M+1"@
    } else if a == 0 && comp == 0b001110 {
        "D-1"@
    } else if a == 0 && comp == 0b110010 {
        "A-1"@
    } else if a == 1 && comp == 0b110010 {
        "M-1"@
    } else if a == 0 && comp == 0b000010 {
        "D+A"@
    } else if a == 1 && comp == 0b000010 {
        "D+M"@
    } else if a == 0 && comp == 0b010011 {
        "D-A"@
    } else if a == 1 && comp == 0b010011 {
        "D-M"@
    } else if a == 0 && comp == 0b000111 {
        "A-D"@
    } else if a == 1 && comp == 0b000111 {
        "M-D"@
    } else if a == 0 && comp == 0b000000 {
        "D&A"@
    } else if a == 1 && comp == 0b000000 {
        "D&M"@
    } else if a == 0 && comp == 0b010101 {
        "D|A"@
    } else if a == 1 && comp == 0b010101 {
        "D|M"@
    } else {
        "???"@
    }
}

fn comp_mnemonic(a: u16, comp: u16) -> (r: &'static str)
    ensures
        r@ == comp_mnemonic_spec(a, comp),
{
    match (a, comp) {
        (0, 0b101010) => "0",
        (0, 0b111111) => "1",
        (0, 0b111010) => "-1",
        (0, 0b001100) => "D",
        (0, 0b110000) => "A",
        (1, 0b110000) => "M",
        (0, 0b001101) => "!D",
        (0, 0b110001) => "!A",
        (1, 0b110001) => "!M",
        (0, 0b001111) => "-D",
        (0, 0b110011) => "-A",
        (1, 0b110011) => "-M",
        (0, 0b011111) => "D+1",
        (0, 0b110111) => "A+1",
        (1, 0b110111) => "M+1",
        (0, 0b001110) => "D-1",
        (0, 0b110010) => "A-1",
        (1, 0b110010) => "M-1",
        (0, 0b000010) => "D+A",
        (1, 0b000010) => "D+M",
        (0, 0b010011) => "D-A",
        (1, 0b010011) => "D-M",
        (0, 0b000111) => "A-D",
        (1, 0b000111) => "M-D",
        (0, 0b000000) => "D&A",
        (1, 0b000000) => "D&M",
        (0, 0b010101) => "D|A",
        (1, 0b010101) => "D|M",
        _ => "???",
    }
}

pub open spec fn dest_mnemonic_spec(dest: u16) -> Seq<char> {
    if dest == 0b000 {
        ""@
    } else if dest == 0b001 {
        "M"@
    } else if dest == 0b010 {
        "D"@
    } else if dest == 0b011 {
        "MD"@
    } else if dest == 0b100 {
        "A"@
    } else if dest == 0b101 {
        "AM"@
    } else if dest == 0b110 {
        "AD"@
    } else if dest == 0b111 {
        "AMD"@
    } else {
        "???"@
    }
}

fn dest_mnemonic(dest: u16) -> (r: &'static str)
    ensures
        r@ == dest_mnemonic_spec(dest),
{
    match dest {
        0b000 => "",
        0b001 => "M",
        0b010 => "D",
        0b011 => "MD",
        0b100 => "A",
        0b101 => "AM",
        0b110 => "AD",
        0b111 => "AMD",
        _ => "???",
    }
}

pub open spec fn jump_mnemonic_spec(jump: u16) -> Seq<char> {
    if jump == 0b000 {
        ""@
    } else if jump == 0b001 {
        "JGT"@
    } else if jump == 0b010 {
        "JEQ"@
    } else if jump == 0b011 {
        "JGE"@
    } else if jump == 0b100 {
        "JLT"@
    } else if jump == 0b101 {
        "JNE"@
    } else if jump == 0b110 {
        "JLE"@
    } else if jump == 0b111 {
        "JMP"@
    } else {
        "???"@
    }
}

fn jump_mnemonic(jump: u16) -> (r: &'static str)
    ensures
        r@ == jump_mnemonic_spec(jump),
{
    match jump {
        0b000 => "",
        0b001 => "JGT",
        0b010 => "JEQ",
        0b011 => "JGE",
        0b100 => "JLT",
        0b101 => "JNE",
        0b110 => "JLE",
        0b111 => "JMP",
        _ => "???",
    }
}

/// The assembly text of an A-instruction word.
pub open spec fn decode_a_spec(instruction: u16) -> Seq<char> {
    "@"@ + crate::text::dec_seq(instruction as nat)
}

fn decode_a_instruction(instruction: u16) -> (r: String)
    ensures
        r@ == decode_a_spec(instruction),
{
    let mut r = "@".to_owned();
    let num = crate::text::dec_string(instruction);
    r.append(num.as_str());
    r
}

/// The assembly text of a C-instruction word, rebuilt from its fields.
pub open spec fn decode_c_spec(instruction: u16) -> Seq<char> {
    let a = (instruction >> 12u16) & 0b1;
    let comp = (instruction >> 6u16) & 0b111111;
    let dest = (instruction >> 3u16) & 0b111;
    let jump = instruction & 0b111;
    let comp_str = comp_mnemonic_spec(a, comp);
    let dest_str = dest_mnemonic_spec(dest);
    let jump_str = jump_mnemonic_spec(jump);
    if dest == 0 && jump == 0 {
        comp_str
    } else if dest == 0 {
        comp_str + ";"@ + jump_str
    } else if jump == 0 {
        dest_str + "="@ + comp_str
    } else {
        dest_str + "="@ + comp_str + ";"@ + jump_str
    }
}

fn decode_c_instruction(instruction: u16) -> (r: String)
    ensures
        r@ == decode_c_spec(instruction),
{
    let a = (instruction >> 12) & 0b1;
    let comp = (instruction >> 6) & 0b111111;
    let dest = (instruction >> 3) & 0b111;
    let jump = instruction & 0b111;

    let comp_str = comp_mnemonic(a, comp);
    let dest_str = dest_mnemonic(dest);
    let jump_str = jump_mnemonic(jump);

    if dest == 0 && jump == 0 {
        comp_str.to_owned()
    } else if dest == 0 {
        let mut r = comp_str.to_owned();
        r.append(";");
        r.append(jump_str);
        r
    } else if jump == 0 {
        let mut r = dest_str.to_owned();
        r.append("=");
        r.append(comp_str);
        r
    } else {
        let mut r = dest_str.to_owned();
        r.append("=");
        r.append(comp_str);
        r.append(";");
        r.append(jump_str);
        r
    }
}

/// The assembly text a word decodes to: A-instructions print their value,
/// C-instructions their dest, comp and jump fields.
pub open spec fn decode_spec(instruction: u16) -> Seq<char> {
    if instruction & 0x8000 == 0 {
        decode_a_spec(instruction)
    } else {
        decode_c_spec(instruction)
    }
}

pub fn decode_instruction(instruction: u16) -> (r: String)
    ensures
        r@ == decode_spec(instruction),
{
    if instruction & 0x8000 == 0 {
        decode_a_instruction(instruction)
    } else {
        decode_c_instruction(instruction)
    }
}

} // verus!
