//! The symbol table and the two-pass resolver.
//!
//! A fresh table knows only the pre-defined names (`SP`, `LCL`, `ARG`,
//! `THIS`, `THAT`, `R0`..`R15`, `SCREEN`, `KBD`).  Pass one walks the
//! parsed instructions and binds every label name to the address of the
//! next executable instruction, aborting on a duplicate.  Pass two walks
//! them again, resolves each symbolic memory reference — allocating the
//! next free variable address, from 16 up, for names not yet bound — and
//! encodes every executable instruction in source order.

use vstd::prelude::*;
use vstd::slice::slice_to_vec;

use crate::ast::Address;
use crate::ast::AddressView;
use crate::ast::Instruction;
use crate::ast::InstructionView;
use crate::ast::views;
use crate::encoder::encode_a;
use crate::encoder::encode_a_spec;
use crate::encoder::encode_c;
use crate::encoder::encode_c_spec;
use crate::encoder::is_bit_line;
use crate::encoder::lemma_encode_line_shape;
use crate::parser::parse;
use crate::parser::spec_parse;
use crate::parser::spec_read_lines;

verus! {

/// `n` is the two-byte name `c0 c1`.
pub open spec fn name2(n: Seq<u8>, c0: char, c1: char) -> bool {
    n.len() == 2 && n[0] == c0 as u8 && n[1] == c1 as u8
}

/// `n` is the three-byte name `c0 c1 c2`.
pub open spec fn name3(n: Seq<u8>, c0: char, c1: char, c2: char) -> bool {
    n.len() == 3 && n[0] == c0 as u8 && n[1] == c1 as u8 && n[2] == c2 as u8
}

/// `n` is the four-byte name `c0 c1 c2 c3`.
pub open spec fn name4(n: Seq<u8>, c0: char, c1: char, c2: char, c3: char) -> bool {
    n.len() == 4 && n[0] == c0 as u8 && n[1] == c1 as u8 && n[2] == c2 as u8 && n[3] == c3 as u8
}

/// `n` is the six-byte name `c0 c1 c2 c3 c4 c5`.
pub open spec fn name6(
    n: Seq<u8>,
    c0: char,
    c1: char,
    c2: char,
    c3: char,
    c4: char,
    c5: char,
) -> bool {
    n.len() == 6 && n[0] == c0 as u8 && n[1] == c1 as u8 && n[2] == c2 as u8 && n[3] == c3 as u8
        && n[4] == c4 as u8 && n[5] == c5 as u8
}

/// The address of a pre-defined name: the five pointer registers, the
/// sixteen general registers (`R0`..`R4` alias the pointer names), the
/// screen buffer and the keyboard register.
pub open spec fn reserved(name: Seq<u8>) -> Option<u16> {
    if name2(name, 'S', 'P') {
        Some(0u16)
    } else if name3(name, 'L', 'C', 'L') {
        Some(1u16)
    } else if name3(name, 'A', 'R', 'G') {
        Some(2u16)
    } else if name4(name, 'T', 'H', 'I', 'S') {
        Some(3u16)
    } else if name4(name, 'T', 'H', 'A', 'T') {
        Some(4u16)
    } else if name2(name, 'R', '0') {
        Some(0u16)
    } else if name2(name, 'R', '1') {
        Some(1u16)
    } else if name2(name, 'R', '2') {
        Some(2u16)
    } else if name2(name, 'R', '3') {
        Some(3u16)
    } else if name2(name, 'R', '4') {
        Some(4u16)
    } else if name2(name, 'R', '5') {
        Some(5u16)
    } else if name2(name, 'R', '6') {
        Some(6u16)
    } else if name2(name, 'R', '7') {
        Some(7u16)
    } else if name2(name, 'R', '8') {
        Some(8u16)
    } else if name2(name, 'R', '9') {
        Some(9u16)
    } else if name3(name, 'R', '1', '0') {
        Some(10u16)
    } else if name3(name, 'R', '1', '1') {
        Some(11u16)
    } else if name3(name, 'R', '1', '2') {
        Some(12u16)
    } else if name3(name, 'R', '1', '3') {
        Some(13u16)
    } else if name3(name, 'R', '1', '4') {
        Some(14u16)
    } else if name3(name, 'R', '1', '5') {
        Some(15u16)
    } else if name6(name, 'S', 'C', 'R', 'E', 'E', 'N') {
        Some(16384u16)
    } else if name3(name, 'K', 'B', 'D') {
        Some(24576u16)
    } else {
        None
    }
}

/// Looks a name up among the pre-defined names.
fn reserved_addr(name: &[u8]) -> (r: Option<u16>)
    ensures
        r == reserved(name@),
{
    let n = name.len();
    if n == 2 && name[0] == 'S' as u8 && name[1] == 'P' as u8 {
        Some(0)
    } else if n == 3 && name[0] == 'L' as u8 && name[1] == 'C' as u8 && name[2] == 'L' as u8 {
        Some(1)
    } else if n == 3 && name[0] == 'A' as u8 && name[1] == 'R' as u8 && name[2] == 'G' as u8 {
        Some(2)
    } else if n == 4 && name[0] == 'T' as u8 && name[1] == 'H' as u8 && name[2] == 'I' as u8
        && name[3] == 'S' as u8 {
        Some(3)
    } else if n == 4 && name[0] == 'T' as u8 && name[1] == 'H' as u8 && name[2] == 'A' as u8
        && name[3] == 'T' as u8 {
        Some(4)
    } else if n == 2 && name[0] == 'R' as u8 && name[1] == '0' as u8 {
        Some(0)
    } else if n == 2 && name[0] == 'R' as u8 && name[1] == '1' as u8 {
        Some(1)
    } else if n == 2 && name[0] == 'R' as u8 && name[1] == '2' as u8 {
        Some(2)
    } else if n == 2 && name[0] == 'R' as u8 && name[1] == '3' as u8 {
        Some(3)
    } else if n == 2 && name[0] == 'R' as u8 && name[1] == '4' as u8 {
        Some(4)
    } else if n == 2 && name[0] == 'R' as u8 && name[1] == '5' as u8 {
        Some(5)
    } else if n == 2 && name[0] == 'R' as u8 && name[1] == '6' as u8 {
        Some(6)
    } else if n == 2 && name[0] == 'R' as u8 && name[1] == '7' as u8 {
        Some(7)
    } else if n == 2 && name[0] == 'R' as u8 && name[1] == '8' as u8 {
        Some(8)
    } else if n == 2 && name[0] == 'R' as u8 && name[1] == '9' as u8 {
        Some(9)
    } else if n == 3 && name[0] == 'R' as u8 && name[1] == '1' as u8 && name[2] == '0' as u8 {
        Some(10)
    } else if n == 3 && name[0] == 'R' as u8 && name[1] == '1' as u8 && name[2] == '1' as u8 {
        Some(11)
    } else if n == 3 && name[0] == 'R' as u8 && name[1] == '1' as u8 && name[2] == '2' as u8 {
        Some(12)
    } else if n == 3 && name[0] == 'R' as u8 && name[1] == '1' as u8 && name[2] == '3' as u8 {
        Some(13)
    } else if n == 3 && name[0] == 'R' as u8 && name[1] == '1' as u8 && name[2] == '4' as u8 {
        Some(14)
    } else if n == 3 && name[0] == 'R' as u8 && name[1] == '1' as u8 && name[2] == '5' as u8 {
        Some(15)
    } else if n == 6 && name[0] == 'S' as u8 && name[1] == 'C' as u8 && name[2] == 'R' as u8
        && name[3] == 'E' as u8 && name[4] == 'E' as u8 && name[5] == 'N' as u8 {
        Some(16384)
    } else if n == 3 && name[0] == 'K' as u8 && name[1] == 'B' as u8 && name[2] == 'D' as u8 {
        Some(24576)
    } else {
        None
    }
}

/// The symbol table: the names bound by the two passes, in binding order.
/// Pre-defined names are not stored; lookups consult them first.
pub struct SymbolTable {
    entries: Vec<(Vec<u8>, u16)>,
}

impl View for SymbolTable {
    type V = Seq<(Seq<u8>, u16)>;

    closed spec fn view(&self) -> Seq<(Seq<u8>, u16)> {
        self.entries@.map_values(|p: (Vec<u8>, u16)| (p.0@, p.1))
    }
}

/// The first binding of `name` among the entries of `t`.
pub open spec fn assoc(t: Seq<(Seq<u8>, u16)>, name: Seq<u8>) -> Option<u16>
    decreases t.len(),
{
    if t.len() == 0 {
        None
    } else if t[0].0 == name {
        Some(t[0].1)
    } else {
        assoc(t.drop_first(), name)
    }
}

/// A full lookup: pre-defined names first, then bound entries.
pub open spec fn table_lookup(t: Seq<(Seq<u8>, u16)>, name: Seq<u8>) -> Option<u16> {
    match reserved(name) {
        Some(v) => Some(v),
        None => assoc(t, name),
    }
}

/// Byte-for-byte equality of two byte strings.
fn bytes_eq(a: &[u8], b: &[u8]) -> (r: bool)
    ensures
        r == (a@ == b@),
{
    if a.len() != b.len() {
        return false;
    }
    let mut i: usize = 0;
    while i < a.len()
        invariant
            i <= a@.len(),
            a@.len() == b@.len(),
            forall|j: int| 0 <= j < i ==> a@[j] == b@[j],
        decreases a@.len() - i,
    {
        if a[i] != b[i] {
            return false;
        }
        i = i + 1;
    }
    proof {
        assert(a@ =~= b@);
    }
    true
}

impl SymbolTable {
    /// A fresh table: no labels or variables bound yet, so only the
    /// pre-defined names resolve.
    pub fn new() -> (r: SymbolTable)
        ensures
            r@ == Seq::<(Seq<u8>, u16)>::empty(),
    {
        let r = SymbolTable { entries: Vec::new() };
        proof {
            assert(r@ =~= Seq::<(Seq<u8>, u16)>::empty());
        }
        r
    }

    /// Resolves `name`: a pre-defined address if the name is reserved, else
    /// its first bound entry, else nothing.
    pub fn get(&self, name: &[u8]) -> (r: Option<u16>)
        ensures
            r == table_lookup(self@, name@),
    {
        match reserved_addr(name) {
            Some(v) => Some(v),
            None => {
                let mut i: usize = 0;
                proof {
                    assert(self@.skip(0) =~= self@);
                }
                while i < self.entries.len()
                    invariant
                        i <= self.entries@.len(),
                        self@.len() == self.entries@.len(),
                        reserved(name@) is None,
                        assoc(self@, name@) == assoc(self@.skip(i as int), name@),
                    decreases self.entries@.len() - i,
                {
                    let e = &self.entries[i];
                    if bytes_eq(e.0.as_slice(), name) {
                        proof {
                            let k: int = i as int;
                            assert(self@.skip(k)[0] == self@[k]);
                            assert(self@[k] == (self.entries@[k].0@, self.entries@[k].1));
                        }
                        return Some(e.1);
                    }
                    proof {
                        assert(self@.skip(i as int).drop_first() =~= self@.skip(i + 1));
                    }
                    i = i + 1;
                }
                None
            },
        }
    }

    /// Binds `name` to `addr` by appending an entry.
    pub fn insert(&mut self, name: Vec<u8>, addr: u16)
        ensures
            final(self)@ == old(self)@.push((name@, addr)),
    {
        let ghost n = name@;
        self.entries.push((name, addr));
        proof {
            assert(self@ =~= old(self)@.push((n, addr)));
        }
    }
}

/// An assembly failure: a parse failure at some position, or a label name
/// that collides with an existing binding.
#[derive(Clone, PartialEq, Eq, Debug)]
pub enum AsmError {
    Syntax { pos: usize },
    DuplicateSymbol { name: Vec<u8> },
}

/// Spec-level view of an [`AsmError`].
pub enum AsmErrorView {
    Syntax { pos: int },
    DuplicateSymbol { name: Seq<u8> },
}

impl View for AsmError {
    type V = AsmErrorView;

    open spec fn view(&self) -> AsmErrorView {
        match self {
            AsmError::Syntax { pos } => AsmErrorView::Syntax { pos: *pos as int },
            AsmError::DuplicateSymbol { name } => AsmErrorView::DuplicateSymbol { name: name@ },
        }
    }
}

/// The label pass from instruction `i` on: a running address counter,
/// incremented once per executable instruction, gives each label the
/// address of the next executable instruction; a label whose name is
/// already bound (pre-defined or an earlier label) is the fatal duplicate
/// returned as the error.  The counter wraps at the 16-bit boundary, as
/// bound addresses are 16-bit words.
pub open spec fn pass1(
    instrs: Seq<InstructionView>,
    i: int,
    addr: int,
    t: Seq<(Seq<u8>, u16)>,
) -> Result<Seq<(Seq<u8>, u16)>, Seq<u8>>
    decreases instrs.len() - i
    when 0 <= i <= instrs.len() && 0 <= addr < 0x10000
{
    if i == instrs.len() {
        Ok(t)
    } else {
        match instrs[i] {
            InstructionView::Label(name) => if table_lookup(t, name) is Some {
                Err(name)
            } else {
                pass1(instrs, i + 1, addr, t.push((name, addr as u16)))
            },
            _ => pass1(instrs, i + 1, (addr + 1) % 0x10000, t),
        }
    }
}

/// The encode pass from instruction `i` on: labels are skipped, constant
/// memory references and compute instructions are encoded as they stand,
/// and a symbolic memory reference is resolved through the table — a name
/// not yet bound is allocated the next free variable address (the cursor
/// starts one past `R15`, so the first variable gets 16) and bound before
/// use.  One line per executable instruction, in source order.
pub open spec fn pass2(
    instrs: Seq<InstructionView>,
    i: int,
    t: Seq<(Seq<u8>, u16)>,
    next: int,
) -> Seq<Seq<char>>
    decreases instrs.len() - i
    when 0 <= i <= instrs.len() && 0 <= next < 0x10000
{
    if i == instrs.len() {
        Seq::empty()
    } else {
        match instrs[i] {
            InstructionView::Label(_) => pass2(instrs, i + 1, t, next),
            InstructionView::A(AddressView::Constant(v)) => seq![encode_a_spec(v)] + pass2(
                instrs,
                i + 1,
                t,
                next,
            ),
            InstructionView::A(AddressView::Symbol(name)) => match table_lookup(t, name) {
                Some(v) => seq![encode_a_spec(v)] + pass2(instrs, i + 1, t, next),
                None => seq![encode_a_spec(((next + 1) % 0x10000) as u16)] + pass2(
                    instrs,
                    i + 1,
                    t.push((name, ((next + 1) % 0x10000) as u16)),
                    (next + 1) % 0x10000,
                ),
            },
            InstructionView::C(c) => seq![encode_c_spec(c)] + pass2(instrs, i + 1, t, next),
        }
    }
}

/// The views of the output lines.
pub open spec fn line_views(v: Seq<String>) -> Seq<Seq<char>> {
    v.map_values(|s: String| s@)
}

/// What assembling a whole source text yields: the encoded lines of its
/// executable instructions, a syntax failure at the position where reading
/// stopped, or the first duplicate label name.
pub open spec fn assemble_spec(s: Seq<u8>) -> Result<Seq<Seq<char>>, AsmErrorView> {
    match spec_parse(s) {
        None => Err(AsmErrorView::Syntax { pos: spec_read_lines(s, 0).1 }),
        Some(instrs) => match pass1(instrs, 0, 0, Seq::empty()) {
            Err(name) => Err(AsmErrorView::DuplicateSymbol { name }),
            Ok(t) => Ok(pass2(instrs, 0, t, 15)),
        },
    }
}

/// Law: a binding, once made, is stable.  Appending further bindings (as
/// the encode pass does when it allocates a variable) never changes the
/// address an already-resolvable name resolves to, so repeated references
/// to one name all encode the same address.
pub proof fn lemma_lookup_stable(t: Seq<(Seq<u8>, u16)>, p: (Seq<u8>, u16), name: Seq<u8>)
    requires
        table_lookup(t, name) is Some,
    ensures
        table_lookup(t.push(p), name) == table_lookup(t, name),
    decreases t.len(),
{
    if reserved(name) is None {
        if t.len() == 0 {
        } else if t[0].0 == name {
            assert(t.push(p)[0] == t[0]);
        } else {
            assert(t.push(p).drop_first() =~= t.drop_first().push(p));
            lemma_lookup_stable(t.drop_first(), p, name);
        }
    }
}

/// The number of executable (non-label) instructions in `instrs` from `i` on.
pub open spec fn executable_count(instrs: Seq<InstructionView>, i: int) -> int
    decreases instrs.len() - i
    when 0 <= i <= instrs.len()
{
    if i == instrs.len() {
        0
    } else {
        match instrs[i] {
            InstructionView::Label(_) => executable_count(instrs, i + 1),
            _ => 1 + executable_count(instrs, i + 1),
        }
    }
}

/// Law: the encode pass emits exactly one line per executable instruction
/// (labels produce none), and every line is 16 characters of `'0'`/`'1'`.
pub proof fn lemma_pass2_output_shape(
    instrs: Seq<InstructionView>,
    i: int,
    t: Seq<(Seq<u8>, u16)>,
    next: int,
)
    requires
        0 <= i <= instrs.len(),
        0 <= next < 0x10000,
    ensures
        pass2(instrs, i, t, next).len() == executable_count(instrs, i),
        forall|k: int|
            0 <= k < pass2(instrs, i, t, next).len() ==> is_bit_line(
                #[trigger] pass2(instrs, i, t, next)[k],
            ),
    decreases instrs.len() - i,
{
    if i < instrs.len() {
        match instrs[i] {
            InstructionView::Label(_) => {
                lemma_pass2_output_shape(instrs, i + 1, t, next);
            },
            InstructionView::A(AddressView::Constant(v)) => {
                lemma_pass2_output_shape(instrs, i + 1, t, next);
                lemma_encode_line_shape(InstructionView::A(AddressView::Constant(v)));
            },
            InstructionView::A(AddressView::Symbol(name)) => {
                match table_lookup(t, name) {
                    Some(v) => {
                        lemma_pass2_output_shape(instrs, i + 1, t, next);
                        lemma_encode_line_shape(InstructionView::A(AddressView::Constant(v)));
                    },
                    None => {
                        let nv = ((next + 1) % 0x10000) as u16;
                        lemma_pass2_output_shape(
                            instrs,
                            i + 1,
                            t.push((name, nv)),
                            (next + 1) % 0x10000,
                        );
                        lemma_encode_line_shape(InstructionView::A(AddressView::Constant(nv)));
                    },
                }
            },
            InstructionView::C(c) => {
                lemma_pass2_output_shape(instrs, i + 1, t, next);
                lemma_encode_line_shape(InstructionView::C(c));
            },
        }
    }
}

/// Law: on success the assembler emits exactly one 16-character binary
/// line of `'0'`/`'1'` per executable instruction of the source, labels
/// excluded.
pub proof fn lemma_assemble_output_shape(
    s: Seq<u8>,
    instrs: Seq<InstructionView>,
    lines: Seq<Seq<char>>,
)
    requires
        spec_parse(s) == Some(instrs),
        assemble_spec(s) == Ok::<Seq<Seq<char>>, AsmErrorView>(lines),
    ensures
        lines.len() == executable_count(instrs, 0),
        forall|k: int| 0 <= k < lines.len() ==> is_bit_line(#[trigger] lines[k]),
{
    match pass1(instrs, 0, 0, Seq::empty()) {
        Ok(t) => {
            lemma_pass2_output_shape(instrs, 0, t, 15);
        },
        Err(_) => {},
    }
}

/// Assembles a source text: parses it once, binds every label in a first
/// pass, then encodes every executable instruction in a second pass,
/// allocating variable addresses from 16 up.  The output lines come in
/// source order, and nothing is produced on any failure.
pub fn assemble(source: &[u8]) -> (r: Result<Vec<String>, AsmError>)
    ensures
        match r {
            Ok(lines) => assemble_spec(source@) == Ok::<Seq<Seq<char>>, AsmErrorView>(
                line_views(lines@),
            ),
            Err(e) => assemble_spec(source@) == Err::<Seq<Seq<char>>, AsmErrorView>(e@),
        },
{
    let instrs = match parse(source) {
        Ok(v) => v,
        Err(pe) => {
            return Err(AsmError::Syntax { pos: pe.pos });
        },
    };
    let ghost ivs = views(instrs@);

    // Pass 1: bind the labels.
    let mut table = SymbolTable::new();
    let mut addr: usize = 0;
    let mut i: usize = 0;
    while i < instrs.len()
        invariant
            i <= instrs@.len(),
            ivs == views(instrs@),
            spec_parse(source@) == Some(ivs),
            addr < 0x10000,
            pass1(ivs, 0, 0, Seq::empty()) == pass1(ivs, i as int, addr as int, table@),
        decreases instrs@.len() - i,
    {
        let inst = &instrs[i];
        proof {
            assert(ivs[i as int] == instrs@[i as int]@);
        }
        match inst {
            Instruction::Label(name) => {
                if table.get(name.as_slice()).is_some() {
                    proof {
                        assert(pass1(ivs, i as int, addr as int, table@) == Err::<
                            Seq<(Seq<u8>, u16)>,
                            Seq<u8>,
                        >(name@));
                    }
                    return Err(AsmError::DuplicateSymbol { name: slice_to_vec(name.as_slice()) });
                }
                table.insert(slice_to_vec(name.as_slice()), addr as u16);
            },
            _ => {
                addr = (addr + 1) % 0x10000;
            },
        }
        i = i + 1;
    }
    let ghost t1 = table@;
    proof {
        assert(pass1(ivs, 0, 0, Seq::empty()) == Ok::<Seq<(Seq<u8>, u16)>, Seq<u8>>(t1));
    }

    // Pass 2: resolve and encode.
    let mut next: usize = 15;
    let mut out: Vec<String> = Vec::new();
    let mut j: usize = 0;
    proof {
        assert(line_views(out@) =~= Seq::<Seq<char>>::empty());
    }
    while j < instrs.len()
        invariant
            j <= instrs@.len(),
            ivs == views(instrs@),
            next < 0x10000,
            pass2(ivs, 0, t1, 15) == line_views(out@) + pass2(ivs, j as int, table@, next as int),
        decreases instrs@.len() - j,
    {
        let inst = &instrs[j];
        let ghost pre_t = table@;
        let ghost pre_next = next as int;
        let ghost pre_out = out@;
        proof {
            assert(ivs[j as int] == instrs@[j as int]@);
        }
        match inst {
            Instruction::Label(_) => {
                proof {
                    assert(pass2(ivs, j as int, pre_t, pre_next) == pass2(
                        ivs,
                        j + 1,
                        pre_t,
                        pre_next,
                    ));
                }
            },
            Instruction::A(Address::Constant(v)) => {
                out.push(encode_a(*v));
                proof {
                    assert(line_views(out@) =~= line_views(pre_out).push(encode_a_spec(*v)));
                    assert(line_views(pre_out) + pass2(ivs, j as int, pre_t, pre_next)
                        =~= line_views(out@) + pass2(ivs, j + 1, pre_t, pre_next));
                }
            },
            Instruction::A(Address::Symbol(name)) => {
                let v: u16 = match table.get(name.as_slice()) {
                    Some(v) => v,
                    None => {
                        let nv: u16 = ((next + 1) % 0x10000) as u16;
                        table.insert(slice_to_vec(name.as_slice()), nv);
                        next = (next + 1) % 0x10000;
                        nv
                    },
                };
                out.push(encode_a(v));
                proof {
                    assert(line_views(out@) =~= line_views(pre_out).push(encode_a_spec(v)));
                    assert(line_views(pre_out) + pass2(ivs, j as int, pre_t, pre_next)
                        =~= line_views(out@) + pass2(ivs, j + 1, table@, next as int));
                }
            },
            Instruction::C(c) => {
                out.push(encode_c(c));
                proof {
                    assert(line_views(out@) =~= line_views(pre_out).push(encode_c_spec(*c)));
                    assert(line_views(pre_out) + pass2(ivs, j as int, pre_t, pre_next)
                        =~= line_views(out@) + pass2(ivs, j + 1, pre_t, pre_next));
                }
            },
        }
        j = j + 1;
    }
    proof {
        assert(pass2(ivs, j as int, table@, next as int) =~= Seq::<Seq<char>>::empty());
        assert(pass2(ivs, 0, t1, 15) =~= line_views(out@));
    }
    Ok(out)
}

} // verus!
