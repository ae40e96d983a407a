//! The recursive-descent parser from raw source bytes to instructions.
//!
//! The line-level grammar is an ordered alternation: a memory reference
//! (`@` and a constant or symbol), a compute expression, a `(label)`, or
//! blank space.  Every recognized token must be followed by a trailer of
//! horizontal whitespace, an optional `//` comment and at least one further
//! whitespace byte (a line break or, at the end of a line run, blank space).
//! Token sets that share prefixes are matched longest first.
//!
//! Each executable function returns exactly what its spec-level twin
//! (`spec_parse`, `spec_read_line`, ...) says, so the grammar is pinned down
//! byte by byte.

use vstd::prelude::*;
use vstd::slice::slice_subrange;
use vstd::slice::slice_to_vec;

use crate::ast::Address;
use crate::ast::AddressView;
use crate::ast::Comp;
use crate::ast::Compute;
use crate::ast::Dest;
use crate::ast::Instruction;
use crate::ast::InstructionView;
use crate::ast::Jump;
use crate::ast::views;

verus! {

/// A decimal digit byte.
pub open spec fn is_digit(b: u8) -> bool {
    ('0' as u8) <= b <= ('9' as u8)
}

/// A byte that may occur in a symbol: letters, digits, `_`, `.`, `$`, `:`.
pub open spec fn is_symbol_byte(b: u8) -> bool {
    (('a' as u8) <= b <= ('z' as u8)) || (('A' as u8) <= b <= ('Z' as u8)) || is_digit(b) || b == ('_' as u8) || b == ('.' as u8) || b == ('$' as u8)
        || b == (':' as u8)
}

/// Horizontal whitespace: space or tab.
pub open spec fn is_hspace(b: u8) -> bool {
    b == (' ' as u8) || b == ('\t' as u8)
}

/// Any whitespace, including line breaks.
pub open spec fn is_mspace(b: u8) -> bool {
    is_hspace(b) || b == ('\n' as u8) || b == ('\r' as u8)
}

/// A byte a `//` comment consumes: anything but a line break.
pub open spec fn is_line_byte(b: u8) -> bool {
    b != ('\n' as u8) && b != ('\r' as u8)
}

/// End of the run of digit bytes starting at `pos`.
pub open spec fn digit_end(s: Seq<u8>, pos: int) -> int
    decreases s.len() - pos
    when 0 <= pos <= s.len()
{
    if pos < s.len() && is_digit(s[pos]) {
        digit_end(s, pos + 1)
    } else {
        pos
    }
}

/// End of the run of symbol bytes starting at `pos`.
pub open spec fn symbol_end(s: Seq<u8>, pos: int) -> int
    decreases s.len() - pos
    when 0 <= pos <= s.len()
{
    if pos < s.len() && is_symbol_byte(s[pos]) {
        symbol_end(s, pos + 1)
    } else {
        pos
    }
}

/// End of the run of horizontal whitespace starting at `pos`.
pub open spec fn hspace_end(s: Seq<u8>, pos: int) -> int
    decreases s.len() - pos
    when 0 <= pos <= s.len()
{
    if pos < s.len() && is_hspace(s[pos]) {
        hspace_end(s, pos + 1)
    } else {
        pos
    }
}

/// End of the run of whitespace (line breaks included) starting at `pos`.
pub open spec fn mspace_end(s: Seq<u8>, pos: int) -> int
    decreases s.len() - pos
    when 0 <= pos <= s.len()
{
    if pos < s.len() && is_mspace(s[pos]) {
        mspace_end(s, pos + 1)
    } else {
        pos
    }
}

/// End of the run of non-line-break bytes starting at `pos`.
pub open spec fn line_end(s: Seq<u8>, pos: int) -> int
    decreases s.len() - pos
    when 0 <= pos <= s.len()
{
    if pos < s.len() && is_line_byte(s[pos]) {
        line_end(s, pos + 1)
    } else {
        pos
    }
}

/// The decimal value of a digit string, most significant digit first.
pub open spec fn digits_val(d: Seq<u8>) -> int
    decreases d.len(),
{
    if d.len() == 0 {
        0
    } else {
        10 * digits_val(d.drop_last()) + (d.last() - ('0' as u8))
    }
}

/// A decimal constant at `pos`: one or more digits whose value fits in 16
/// bits.  A digit run with a value above 65535 matches no alternative at
/// all, since a symbol may not begin with a digit.
pub open spec fn spec_parse_constant(s: Seq<u8>, pos: int) -> Option<(u16, int)> {
    let e = digit_end(s, pos);
    if e > pos && digits_val(s.subrange(pos, e)) <= 65535 {
        Some((digits_val(s.subrange(pos, e)) as u16, e))
    } else {
        None
    }
}

/// A symbol at `pos`: one or more symbol bytes, not beginning with a digit.
pub open spec fn spec_parse_symbol(s: Seq<u8>, pos: int) -> Option<(Seq<u8>, int)> {
    if pos < s.len() && is_digit(s[pos]) {
        None
    } else {
        let e = symbol_end(s, pos);
        if e > pos {
            Some((s.subrange(pos, e), e))
        } else {
            None
        }
    }
}

/// A memory reference at `pos`: `@` followed by a constant, else a symbol.
pub open spec fn spec_parse_a(s: Seq<u8>, pos: int) -> Option<(AddressView, int)> {
    if pos < s.len() && s[pos] == ('@' as u8) {
        match spec_parse_constant(s, pos + 1) {
            Some((v, e)) => Some((AddressView::Constant(v), e)),
            None => match spec_parse_symbol(s, pos + 1) {
                Some((name, e)) => Some((AddressView::Symbol(name), e)),
                None => None,
            },
        }
    } else {
        None
    }
}

/// A label at `pos`: a symbol between `(` and `)`.
pub open spec fn spec_parse_label(s: Seq<u8>, pos: int) -> Option<(Seq<u8>, int)> {
    if pos < s.len() && s[pos] == ('(' as u8) {
        match spec_parse_symbol(s, pos + 1) {
            Some((name, e)) => if e < s.len() && s[e] == (')' as u8) {
                Some((name, e + 1))
            } else {
                None
            },
            None => None,
        }
    } else {
        None
    }
}

/// Nonnegativity of the value of a digit string.
proof fn lemma_digits_val_nonneg(d: Seq<u8>)
    requires
        forall|j: int| 0 <= j < d.len() ==> is_digit(d[j]),
    ensures
        digits_val(d) >= 0,
    decreases d.len(),
{
    if d.len() > 0 {
        lemma_digits_val_nonneg(d.drop_last());
    }
}

/// Extending a digit string never shrinks its value.
proof fn lemma_digits_val_extend(s: Seq<u8>, pos: int, i: int, e: int)
    requires
        0 <= pos <= i <= e <= s.len(),
        forall|j: int| pos <= j < e ==> is_digit(s[j]),
    ensures
        digits_val(s.subrange(pos, e)) >= digits_val(s.subrange(pos, i)),
    decreases e - i,
{
    if i < e {
        assert(s.subrange(pos, i + 1).drop_last() =~= s.subrange(pos, i));
        lemma_digits_val_nonneg(s.subrange(pos, i));
        assert(digits_val(s.subrange(pos, i + 1)) >= digits_val(s.subrange(pos, i)));
        lemma_digits_val_extend(s, pos, i + 1, e);
    }
}

/// Is `b` a decimal digit?
fn digit_byte(b: u8) -> (r: bool)
    ensures
        r == is_digit(b),
{
    b >= ('0' as u8) && b <= ('9' as u8)
}

/// Is `b` a symbol byte?
fn symbol_byte(b: u8) -> (r: bool)
    ensures
        r == is_symbol_byte(b),
{
    (b >= ('a' as u8) && b <= ('z' as u8)) || (b >= ('A' as u8) && b <= ('Z' as u8)) || (b >= ('0' as u8) && b <= ('9' as u8)) || b == ('_' as u8)
        || b == ('.' as u8) || b == ('$' as u8) || b == (':' as u8)
}

/// Scans the run of digits starting at `pos`.
fn scan_digits(s: &[u8], pos: usize) -> (r: usize)
    requires
        pos <= s@.len(),
    ensures
        r == digit_end(s@, pos as int),
        pos <= r <= s@.len(),
        forall|j: int| pos <= j < r ==> is_digit(s@[j]),
{
    let mut i: usize = pos;
    while i < s.len() && digit_byte(s[i])
        invariant
            pos <= i <= s@.len(),
            digit_end(s@, pos as int) == digit_end(s@, i as int),
            forall|j: int| pos <= j < i ==> is_digit(s@[j]),
        decreases s@.len() - i,
    {
        i = i + 1;
    }
    i
}

/// Scans the run of symbol bytes starting at `pos`.
fn scan_symbol(s: &[u8], pos: usize) -> (r: usize)
    requires
        pos <= s@.len(),
    ensures
        r == symbol_end(s@, pos as int),
        pos <= r <= s@.len(),
{
    let mut i: usize = pos;
    while i < s.len() && symbol_byte(s[i])
        invariant
            pos <= i <= s@.len(),
            symbol_end(s@, pos as int) == symbol_end(s@, i as int),
        decreases s@.len() - i,
    {
        i = i + 1;
    }
    i
}

/// Scans the run of horizontal whitespace starting at `pos`.
fn scan_hspace(s: &[u8], pos: usize) -> (r: usize)
    requires
        pos <= s@.len(),
    ensures
        r == hspace_end(s@, pos as int),
        pos <= r <= s@.len(),
{
    let mut i: usize = pos;
    while i < s.len() && (s[i] == (' ' as u8) || s[i] == ('\t' as u8))
        invariant
            pos <= i <= s@.len(),
            hspace_end(s@, pos as int) == hspace_end(s@, i as int),
        decreases s@.len() - i,
    {
        i = i + 1;
    }
    i
}

/// Scans the run of whitespace (line breaks included) starting at `pos`.
fn scan_mspace(s: &[u8], pos: usize) -> (r: usize)
    requires
        pos <= s@.len(),
    ensures
        r == mspace_end(s@, pos as int),
        pos <= r <= s@.len(),
{
    let mut i: usize = pos;
    while i < s.len() && (s[i] == (' ' as u8) || s[i] == ('\t' as u8) || s[i] == ('\n' as u8) || s[i] == ('\r' as u8))
        invariant
            pos <= i <= s@.len(),
            mspace_end(s@, pos as int) == mspace_end(s@, i as int),
        decreases s@.len() - i,
    {
        i = i + 1;
    }
    i
}

/// Scans to the next line break (or the end of the input).
fn scan_line(s: &[u8], pos: usize) -> (r: usize)
    requires
        pos <= s@.len(),
    ensures
        r == line_end(s@, pos as int),
        pos <= r <= s@.len(),
{
    let mut i: usize = pos;
    while i < s.len() && s[i] != ('\n' as u8) && s[i] != ('\r' as u8)
        invariant
            pos <= i <= s@.len(),
            line_end(s@, pos as int) == line_end(s@, i as int),
        decreases s@.len() - i,
    {
        i = i + 1;
    }
    i
}

/// Parses a decimal constant at `pos`.
pub fn parse_constant(s: &[u8], pos: usize) -> (r: Option<(u16, usize)>)
    requires
        pos <= s@.len(),
    ensures
        match r {
            Some((v, p)) => spec_parse_constant(s@, pos as int) == Some((v, p as int)) && pos < p
                <= s@.len(),
            None => spec_parse_constant(s@, pos as int) is None,
        },
{
    let e = scan_digits(s, pos);
    if e == pos {
        return None;
    }
    let mut val: u32 = 0;
    let mut i: usize = pos;
    while i < e
        invariant
            pos <= i <= e <= s@.len(),
            e == digit_end(s@, pos as int),
            forall|j: int| pos <= j < e ==> is_digit(s@[j]),
            val <= 65535,
            val == digits_val(s@.subrange(pos as int, i as int)),
        decreases e - i,
    {
        let d: u32 = (s[i] - ('0' as u8)) as u32;
        let nv: u32 = val * 10 + d;
        proof {
            assert(s@.subrange(pos as int, i + 1).drop_last() =~= s@.subrange(
                pos as int,
                i as int,
            ));
        }
        if nv > 65535 {
            proof {
                lemma_digits_val_extend(s@, pos as int, i + 1, e as int);
            }
            return None;
        }
        val = nv;
        i = i + 1;
    }
    Some((val as u16, e))
}

/// Parses a symbol at `pos`.
pub fn parse_symbol(s: &[u8], pos: usize) -> (r: Option<(Vec<u8>, usize)>)
    requires
        pos <= s@.len(),
    ensures
        match r {
            Some((name, p)) => spec_parse_symbol(s@, pos as int) == Some((name@, p as int)) && pos
                < p <= s@.len(),
            None => spec_parse_symbol(s@, pos as int) is None,
        },
{
    if pos < s.len() && digit_byte(s[pos]) {
        return None;
    }
    let e = scan_symbol(s, pos);
    if e == pos {
        return None;
    }
    let name = slice_to_vec(slice_subrange(s, pos, e));
    Some((name, e))
}

/// Parses a memory-reference instruction at `pos`.
pub fn parse_a(s: &[u8], pos: usize) -> (r: Option<(Address, usize)>)
    requires
        pos <= s@.len(),
    ensures
        match r {
            Some((a, p)) => spec_parse_a(s@, pos as int) == Some((a@, p as int)) && pos < p
                <= s@.len(),
            None => spec_parse_a(s@, pos as int) is None,
        },
{
    if !(pos < s.len() && s[pos] == ('@' as u8)) {
        return None;
    }
    match parse_constant(s, pos + 1) {
        Some((v, p)) => Some((Address::Constant(v), p)),
        None => match parse_symbol(s, pos + 1) {
            Some((name, p)) => Some((Address::Symbol(name), p)),
            None => None,
        },
    }
}

/// Parses a label instruction at `pos`, returning its name.
pub fn parse_label(s: &[u8], pos: usize) -> (r: Option<(Vec<u8>, usize)>)
    requires
        pos <= s@.len(),
    ensures
        match r {
            Some((name, p)) => spec_parse_label(s@, pos as int) == Some((name@, p as int)) && pos
                < p <= s@.len(),
            None => spec_parse_label(s@, pos as int) is None,
        },
{
    if !(pos < s.len() && s[pos] == ('(' as u8)) {
        return None;
    }
    match parse_symbol(s, pos + 1) {
        Some((name, p)) => {
            if p < s.len() && s[p] == (')' as u8) {
                Some((name, p + 1))
            } else {
                None
            }
        },
        None => None,
    }
}

/// The byte at `i` is exactly `b`.
pub open spec fn byte_at(s: Seq<u8>, i: int, b: u8) -> bool {
    0 <= i < s.len() && s[i] == b
}

/// A destination prefix at `pos`: a destination token followed by `=`.
/// Longer tokens are matched first, since the tokens share prefixes.
pub open spec fn spec_parse_dest(s: Seq<u8>, pos: int) -> Option<(Dest, int)> {
    if byte_at(s, pos, 'A' as u8) && byte_at(s, pos + 1, 'M' as u8) && byte_at(s, pos + 2, 'D' as u8)
        && byte_at(s, pos + 3, '=' as u8) {
        Some((Dest::AMD, pos + 4))
    } else if byte_at(s, pos, 'A' as u8) && byte_at(s, pos + 1, 'D' as u8) && byte_at(
        s,
        pos + 2,
        '=' as u8,
    ) {
        Some((Dest::AD, pos + 3))
    } else if byte_at(s, pos, 'A' as u8) && byte_at(s, pos + 1, 'M' as u8) && byte_at(
        s,
        pos + 2,
        '=' as u8,
    ) {
        Some((Dest::AM, pos + 3))
    } else if byte_at(s, pos, 'M' as u8) && byte_at(s, pos + 1, 'D' as u8) && byte_at(
        s,
        pos + 2,
        '=' as u8,
    ) {
        Some((Dest::MD, pos + 3))
    } else if byte_at(s, pos, 'A' as u8) && byte_at(s, pos + 1, '=' as u8) {
        Some((Dest::A, pos + 2))
    } else if byte_at(s, pos, 'D' as u8) && byte_at(s, pos + 1, '=' as u8) {
        Some((Dest::D, pos + 2))
    } else if byte_at(s, pos, 'M' as u8) && byte_at(s, pos + 1, '=' as u8) {
        Some((Dest::M, pos + 2))
    } else {
        None
    }
}

/// A three-byte compute operator at `pos`.
pub open spec fn spec_parse_comp3(s: Seq<u8>, pos: int) -> Option<Comp> {
    if byte_at(s, pos, 'A' as u8) && byte_at(s, pos + 1, '+' as u8) && byte_at(s, pos + 2, '1' as u8) {
        Some(Comp::IncA)
    } else if byte_at(s, pos, 'A' as u8) && byte_at(s, pos + 1, '-' as u8) && byte_at(s, pos + 2, '1' as u8) {
        Some(Comp::DecA)
    } else if byte_at(s, pos, 'A' as u8) && byte_at(s, pos + 1, '-' as u8) && byte_at(s, pos + 2, 'D' as u8) {
        Some(Comp::AMinusD)
    } else if byte_at(s, pos, 'D' as u8) && byte_at(s, pos + 1, '&' as u8) && byte_at(s, pos + 2, 'A' as u8) {
        Some(Comp::DAndA)
    } else if byte_at(s, pos, 'D' as u8) && byte_at(s, pos + 1, '&' as u8) && byte_at(s, pos + 2, 'M' as u8) {
        Some(Comp::DAndM)
    } else if byte_at(s, pos, 'D' as u8) && byte_at(s, pos + 1, '+' as u8) && byte_at(s, pos + 2, '1' as u8) {
        Some(Comp::IncD)
    } else if byte_at(s, pos, 'D' as u8) && byte_at(s, pos + 1, '+' as u8) && byte_at(s, pos + 2, 'A' as u8) {
        Some(Comp::DPlusA)
    } else if byte_at(s, pos, 'D' as u8) && byte_at(s, pos + 1, '+' as u8) && byte_at(s, pos + 2, 'M' as u8) {
        Some(Comp::DPlusM)
    } else if byte_at(s, pos, 'D' as u8) && byte_at(s, pos + 1, '-' as u8) && byte_at(s, pos + 2, '1' as u8) {
        Some(Comp::DecD)
    } else if byte_at(s, pos, 'D' as u8) && byte_at(s, pos + 1, '-' as u8) && byte_at(s, pos + 2, 'A' as u8) {
        Some(Comp::DMinusA)
    } else if byte_at(s, pos, 'D' as u8) && byte_at(s, pos + 1, '-' as u8) && byte_at(s, pos + 2, 'M' as u8) {
        Some(Comp::DMinusM)
    } else if byte_at(s, pos, 'D' as u8) && byte_at(s, pos + 1, '|' as u8) && byte_at(s, pos + 2, 'A' as u8) {
        Some(Comp::DOrA)
    } else if byte_at(s, pos, 'D' as u8) && byte_at(s, pos + 1, '|' as u8) && byte_at(s, pos + 2, 'M' as u8) {
        Some(Comp::DOrM)
    } else if byte_at(s, pos, 'M' as u8) && byte_at(s, pos + 1, '+' as u8) && byte_at(s, pos + 2, '1' as u8) {
        Some(Comp::IncM)
    } else if byte_at(s, pos, 'M' as u8) && byte_at(s, pos + 1, '-' as u8) && byte_at(s, pos + 2, '1' as u8) {
        Some(Comp::DecM)
    } else if byte_at(s, pos, 'M' as u8) && byte_at(s, pos + 1, '-' as u8) && byte_at(s, pos + 2, 'D' as u8) {
        Some(Comp::MMinusD)
    } else {
        None
    }
}

/// A two-byte compute operator at `pos`.
pub open spec fn spec_parse_comp2(s: Seq<u8>, pos: int) -> Option<Comp> {
    if byte_at(s, pos, '!' as u8) && byte_at(s, pos + 1, 'A' as u8) {
        Some(Comp::NotA)
    } else if byte_at(s, pos, '!' as u8) && byte_at(s, pos + 1, 'D' as u8) {
        Some(Comp::NotD)
    } else if byte_at(s, pos, '!' as u8) && byte_at(s, pos + 1, 'M' as u8) {
        Some(Comp::NotM)
    } else if byte_at(s, pos, '-' as u8) && byte_at(s, pos + 1, '1' as u8) {
        Some(Comp::NegOne)
    } else if byte_at(s, pos, '-' as u8) && byte_at(s, pos + 1, 'A' as u8) {
        Some(Comp::NegA)
    } else if byte_at(s, pos, '-' as u8) && byte_at(s, pos + 1, 'D' as u8) {
        Some(Comp::NegD)
    } else if byte_at(s, pos, '-' as u8) && byte_at(s, pos + 1, 'M' as u8) {
        Some(Comp::NegM)
    } else {
        None
    }
}

/// A one-byte compute operator at `pos`.
pub open spec fn spec_parse_comp1(s: Seq<u8>, pos: int) -> Option<Comp> {
    if byte_at(s, pos, '0' as u8) {
        Some(Comp::Zero)
    } else if byte_at(s, pos, '1' as u8) {
        Some(Comp::One)
    } else if byte_at(s, pos, 'A' as u8) {
        Some(Comp::A)
    } else if byte_at(s, pos, 'D' as u8) {
        Some(Comp::D)
    } else if byte_at(s, pos, 'M' as u8) {
        Some(Comp::M)
    } else {
        None
    }
}

/// A compute operator at `pos`: three-byte operators first, then two-byte,
/// then one-byte, since the operator texts share prefixes.
pub open spec fn spec_parse_comp(s: Seq<u8>, pos: int) -> Option<(Comp, int)> {
    match spec_parse_comp3(s, pos) {
        Some(c) => Some((c, pos + 3)),
        None => match spec_parse_comp2(s, pos) {
            Some(c) => Some((c, pos + 2)),
            None => match spec_parse_comp1(s, pos) {
                Some(c) => Some((c, pos + 1)),
                None => None,
            },
        },
    }
}

/// A jump suffix at `pos`: `;` followed by a jump keyword.
pub open spec fn spec_parse_jump(s: Seq<u8>, pos: int) -> Option<(Jump, int)> {
    if byte_at(s, pos, ';' as u8) && byte_at(s, pos + 1, 'J' as u8) {
        if byte_at(s, pos + 2, 'E' as u8) && byte_at(s, pos + 3, 'Q' as u8) {
            Some((Jump::JEQ, pos + 4))
        } else if byte_at(s, pos + 2, 'G' as u8) && byte_at(s, pos + 3, 'E' as u8) {
            Some((Jump::JGE, pos + 4))
        } else if byte_at(s, pos + 2, 'G' as u8) && byte_at(s, pos + 3, 'T' as u8) {
            Some((Jump::JGT, pos + 4))
        } else if byte_at(s, pos + 2, 'L' as u8) && byte_at(s, pos + 3, 'E' as u8) {
            Some((Jump::JLE, pos + 4))
        } else if byte_at(s, pos + 2, 'L' as u8) && byte_at(s, pos + 3, 'T' as u8) {
            Some((Jump::JLT, pos + 4))
        } else if byte_at(s, pos + 2, 'M' as u8) && byte_at(s, pos + 3, 'P' as u8) {
            Some((Jump::JMP, pos + 4))
        } else if byte_at(s, pos + 2, 'N' as u8) && byte_at(s, pos + 3, 'E' as u8) {
            Some((Jump::JNE, pos + 4))
        } else {
            None
        }
    } else {
        None
    }
}

/// The operator and optional jump of a compute instruction, with a given
/// already-parsed destination.
pub open spec fn spec_comp_jump(s: Seq<u8>, pos: int, dest: Option<Dest>) -> Option<
    (Compute, int),
> {
    match spec_parse_comp(s, pos) {
        Some((cc, p2)) => match spec_parse_jump(s, p2) {
            Some((j, p3)) => Some((Compute { dest, comp: cc, jump: Some(j) }, p3)),
            None => Some((Compute { dest, comp: cc, jump: None }, p2)),
        },
        None => None,
    }
}

/// A compute instruction at `pos`: optional `dest=`, an operator, and an
/// optional `;jump`.
pub open spec fn spec_parse_c(s: Seq<u8>, pos: int) -> Option<(Compute, int)> {
    match spec_parse_dest(s, pos) {
        Some((d, p1)) => spec_comp_jump(s, p1, Some(d)),
        None => spec_comp_jump(s, pos, None),
    }
}

/// A `//` comment at `pos`, consuming to the end of the line; the result is
/// the position of the line break (or the end of the input).
pub open spec fn spec_parse_comment(s: Seq<u8>, pos: int) -> Option<int> {
    if byte_at(s, pos, '/' as u8) && byte_at(s, pos + 1, '/' as u8) {
        Some(line_end(s, pos + 2))
    } else {
        None
    }
}

/// The mandatory trailer after each recognized token: horizontal
/// whitespace, an optional comment, then at least one whitespace byte.
pub open spec fn spec_trailer(s: Seq<u8>, pos: int) -> Option<int> {
    let p1 = hspace_end(s, pos);
    let p2 = match spec_parse_comment(s, p1) {
        Some(e) => e,
        None => p1,
    };
    let p3 = mspace_end(s, p2);
    if p3 > p2 {
        Some(p3)
    } else {
        None
    }
}

/// One line-level step at `pos`: the first alternative that matches, with
/// its trailer; blank or comment-only lines are skipped without producing
/// an instruction.  `None` is a syntax error at `pos`.
pub open spec fn spec_read_line(s: Seq<u8>, pos: int) -> Option<(InstructionView, int)>
    decreases s.len() - pos
    when 0 <= pos <= s.len()
{
    match spec_parse_a(s, pos) {
        Some((a, p)) => match spec_trailer(s, p) {
            Some(e) => Some((InstructionView::A(a), e)),
            None => None,
        },
        None => match spec_parse_c(s, pos) {
            Some((c, p)) => match spec_trailer(s, p) {
                Some(e) => Some((InstructionView::C(c), e)),
                None => None,
            },
            None => match spec_parse_label(s, pos) {
                Some((name, p)) => match spec_trailer(s, p) {
                    Some(e) => Some((InstructionView::Label(name), e)),
                    None => None,
                },
                None => match spec_trailer(s, pos) {
                    Some(e) => if pos < e <= s.len() {
                        spec_read_line(s, e)
                    } else {
                        None
                    },
                    None => None,
                },
            },
        },
    }
}

/// As many line-level steps as match, from `pos`: the instructions read and
/// the position where reading stopped.
pub open spec fn spec_read_lines(s: Seq<u8>, pos: int) -> (Seq<InstructionView>, int)
    decreases s.len() - pos
    when 0 <= pos <= s.len()
{
    match spec_read_line(s, pos) {
        Some((inst, p)) => if pos < p <= s.len() {
            let r = spec_read_lines(s, p);
            (seq![inst] + r.0, r.1)
        } else {
            (seq![], pos)
        },
        None => (seq![], pos),
    }
}

/// A whole source text: all instructions, provided the entire input is
/// consumed; `None` is a parse failure.
pub open spec fn spec_parse(s: Seq<u8>) -> Option<Seq<InstructionView>> {
    let r = spec_read_lines(s, 0);
    if r.1 == s.len() {
        Some(r.0)
    } else {
        None
    }
}

/// Parses a destination prefix at `pos`.
pub fn parse_dest(s: &[u8], pos: usize) -> (r: Option<(Dest, usize)>)
    requires
        pos <= s@.len(),
    ensures
        match r {
            Some((d, p)) => spec_parse_dest(s@, pos as int) == Some((d, p as int)) && pos < p
                <= s@.len(),
            None => spec_parse_dest(s@, pos as int) is None,
        },
{
    let n = s.len();
    if n - pos >= 4 && s[pos] == 'A' as u8 && s[pos + 1] == 'M' as u8 && s[pos + 2] == 'D' as u8
        && s[pos + 3] == '=' as u8 {
        Some((Dest::AMD, pos + 4))
    } else if n - pos >= 3 && s[pos] == 'A' as u8 && s[pos + 1] == 'D' as u8 && s[pos + 2]
        == '=' as u8 {
        Some((Dest::AD, pos + 3))
    } else if n - pos >= 3 && s[pos] == 'A' as u8 && s[pos + 1] == 'M' as u8 && s[pos + 2]
        == '=' as u8 {
        Some((Dest::AM, pos + 3))
    } else if n - pos >= 3 && s[pos] == 'M' as u8 && s[pos + 1] == 'D' as u8 && s[pos + 2]
        == '=' as u8 {
        Some((Dest::MD, pos + 3))
    } else if n - pos >= 2 && s[pos] == 'A' as u8 && s[pos + 1] == '=' as u8 {
        Some((Dest::A, pos + 2))
    } else if n - pos >= 2 && s[pos] == 'D' as u8 && s[pos + 1] == '=' as u8 {
        Some((Dest::D, pos + 2))
    } else if n - pos >= 2 && s[pos] == 'M' as u8 && s[pos + 1] == '=' as u8 {
        Some((Dest::M, pos + 2))
    } else {
        None
    }
}

/// Parses a three-byte compute operator at `pos`.
fn parse_comp3(s: &[u8], pos: usize) -> (r: Option<Comp>)
    requires
        pos <= s@.len(),
    ensures
        r == spec_parse_comp3(s@, pos as int),
        r is Some ==> pos + 3 <= s@.len(),
{
    if s.len() - pos < 3 {
        return None;
    }
    let b0 = s[pos];
    let b1 = s[pos + 1];
    let b2 = s[pos + 2];
    if b0 == 'A' as u8 && b1 == '+' as u8 && b2 == '1' as u8 {
        Some(Comp::IncA)
    } else if b0 == 'A' as u8 && b1 == '-' as u8 && b2 == '1' as u8 {
        Some(Comp::DecA)
    } else if b0 == 'A' as u8 && b1 == '-' as u8 && b2 == 'D' as u8 {
        Some(Comp::AMinusD)
    } else if b0 == 'D' as u8 && b1 == '&' as u8 && b2 == 'A' as u8 {
        Some(Comp::DAndA)
    } else if b0 == 'D' as u8 && b1 == '&' as u8 && b2 == 'M' as u8 {
        Some(Comp::DAndM)
    } else if b0 == 'D' as u8 && b1 == '+' as u8 && b2 == '1' as u8 {
        Some(Comp::IncD)
    } else if b0 == 'D' as u8 && b1 == '+' as u8 && b2 == 'A' as u8 {
        Some(Comp::DPlusA)
    } else if b0 == 'D' as u8 && b1 == '+' as u8 && b2 == 'M' as u8 {
        Some(Comp::DPlusM)
    } else if b0 == 'D' as u8 && b1 == '-' as u8 && b2 == '1' as u8 {
        Some(Comp::DecD)
    } else if b0 == 'D' as u8 && b1 == '-' as u8 && b2 == 'A' as u8 {
        Some(Comp::DMinusA)
    } else if b0 == 'D' as u8 && b1 == '-' as u8 && b2 == 'M' as u8 {
        Some(Comp::DMinusM)
    } else if b0 == 'D' as u8 && b1 == '|' as u8 && b2 == 'A' as u8 {
        Some(Comp::DOrA)
    } else if b0 == 'D' as u8 && b1 == '|' as u8 && b2 == 'M' as u8 {
        Some(Comp::DOrM)
    } else if b0 == 'M' as u8 && b1 == '+' as u8 && b2 == '1' as u8 {
        Some(Comp::IncM)
    } else if b0 == 'M' as u8 && b1 == '-' as u8 && b2 == '1' as u8 {
        Some(Comp::DecM)
    } else if b0 == 'M' as u8 && b1 == '-' as u8 && b2 == 'D' as u8 {
        Some(Comp::MMinusD)
    } else {
        None
    }
}

/// Parses a two-byte compute operator at `pos`.
fn parse_comp2(s: &[u8], pos: usize) -> (r: Option<Comp>)
    requires
        pos <= s@.len(),
    ensures
        r == spec_parse_comp2(s@, pos as int),
        r is Some ==> pos + 2 <= s@.len(),
{
    if s.len() - pos < 2 {
        return None;
    }
    let b0 = s[pos];
    let b1 = s[pos + 1];
    if b0 == '!' as u8 && b1 == 'A' as u8 {
        Some(Comp::NotA)
    } else if b0 == '!' as u8 && b1 == 'D' as u8 {
        Some(Comp::NotD)
    } else if b0 == '!' as u8 && b1 == 'M' as u8 {
        Some(Comp::NotM)
    } else if b0 == '-' as u8 && b1 == '1' as u8 {
        Some(Comp::NegOne)
    } else if b0 == '-' as u8 && b1 == 'A' as u8 {
        Some(Comp::NegA)
    } else if b0 == '-' as u8 && b1 == 'D' as u8 {
        Some(Comp::NegD)
    } else if b0 == '-' as u8 && b1 == 'M' as u8 {
        Some(Comp::NegM)
    } else {
        None
    }
}

/// Parses a one-byte compute operator at `pos`.
fn parse_comp1(s: &[u8], pos: usize) -> (r: Option<Comp>)
    requires
        pos <= s@.len(),
    ensures
        r == spec_parse_comp1(s@, pos as int),
        r is Some ==> pos + 1 <= s@.len(),
{
    if s.len() - pos < 1 {
        return None;
    }
    let b0 = s[pos];
    if b0 == '0' as u8 {
        Some(Comp::Zero)
    } else if b0 == '1' as u8 {
        Some(Comp::One)
    } else if b0 == 'A' as u8 {
        Some(Comp::A)
    } else if b0 == 'D' as u8 {
        Some(Comp::D)
    } else if b0 == 'M' as u8 {
        Some(Comp::M)
    } else {
        None
    }
}

/// Parses a compute operator at `pos`, longest first.
pub fn parse_comp(s: &[u8], pos: usize) -> (r: Option<(Comp, usize)>)
    requires
        pos <= s@.len(),
    ensures
        match r {
            Some((c, p)) => spec_parse_comp(s@, pos as int) == Some((c, p as int)) && pos < p
                <= s@.len(),
            None => spec_parse_comp(s@, pos as int) is None,
        },
{
    let n = s.len();
    match parse_comp3(s, pos) {
        Some(c) => {
            proof {
                assert(pos + 3 <= n);
            }
            Some((c, pos + 3))
        },
        None => match parse_comp2(s, pos) {
            Some(c) => {
                proof {
                    assert(pos + 2 <= n);
                }
                Some((c, pos + 2))
            },
            None => match parse_comp1(s, pos) {
                Some(c) => {
                    proof {
                        assert(pos + 1 <= n);
                    }
                    Some((c, pos + 1))
                },
                None => None,
            },
        },
    }
}

/// Parses a jump suffix at `pos`.
pub fn parse_jump(s: &[u8], pos: usize) -> (r: Option<(Jump, usize)>)
    requires
        pos <= s@.len(),
    ensures
        match r {
            Some((j, p)) => spec_parse_jump(s@, pos as int) == Some((j, p as int)) && pos < p
                <= s@.len(),
            None => spec_parse_jump(s@, pos as int) is None,
        },
{
    if s.len() - pos < 4 || s[pos] != ';' as u8 || s[pos + 1] != 'J' as u8 {
        return None;
    }
    let b2 = s[pos + 2];
    let b3 = s[pos + 3];
    if b2 == 'E' as u8 && b3 == 'Q' as u8 {
        Some((Jump::JEQ, pos + 4))
    } else if b2 == 'G' as u8 && b3 == 'E' as u8 {
        Some((Jump::JGE, pos + 4))
    } else if b2 == 'G' as u8 && b3 == 'T' as u8 {
        Some((Jump::JGT, pos + 4))
    } else if b2 == 'L' as u8 && b3 == 'E' as u8 {
        Some((Jump::JLE, pos + 4))
    } else if b2 == 'L' as u8 && b3 == 'T' as u8 {
        Some((Jump::JLT, pos + 4))
    } else if b2 == 'M' as u8 && b3 == 'P' as u8 {
        Some((Jump::JMP, pos + 4))
    } else if b2 == 'N' as u8 && b3 == 'E' as u8 {
        Some((Jump::JNE, pos + 4))
    } else {
        None
    }
}

/// Parses the operator and optional jump, with a given destination.
fn parse_comp_jump(s: &[u8], pos: usize, dest: Option<Dest>) -> (r: Option<(Compute, usize)>)
    requires
        pos <= s@.len(),
    ensures
        match r {
            Some((c, p)) => spec_comp_jump(s@, pos as int, dest) == Some((c, p as int)) && pos < p
                <= s@.len(),
            None => spec_comp_jump(s@, pos as int, dest) is None,
        },
{
    match parse_comp(s, pos) {
        Some((cc, p2)) => match parse_jump(s, p2) {
            Some((j, p3)) => Some((Compute { dest, comp: cc, jump: Some(j) }, p3)),
            None => Some((Compute { dest, comp: cc, jump: None }, p2)),
        },
        None => None,
    }
}

/// Parses a compute instruction at `pos`.
pub fn parse_c(s: &[u8], pos: usize) -> (r: Option<(Compute, usize)>)
    requires
        pos <= s@.len(),
    ensures
        match r {
            Some((c, p)) => spec_parse_c(s@, pos as int) == Some((c, p as int)) && pos < p
                <= s@.len(),
            None => spec_parse_c(s@, pos as int) is None,
        },
{
    match parse_dest(s, pos) {
        Some((d, p1)) => parse_comp_jump(s, p1, Some(d)),
        None => parse_comp_jump(s, pos, None),
    }
}

/// Parses a `//` comment at `pos`.
pub fn parse_comment(s: &[u8], pos: usize) -> (r: Option<usize>)
    requires
        pos <= s@.len(),
    ensures
        match r {
            Some(e) => spec_parse_comment(s@, pos as int) == Some(e as int) && pos < e <= s@.len(),
            None => spec_parse_comment(s@, pos as int) is None,
        },
{
    if s.len() - pos >= 2 && s[pos] == '/' as u8 && s[pos + 1] == '/' as u8 {
        Some(scan_line(s, pos + 2))
    } else {
        None
    }
}

/// Consumes the trailer after a recognized token.
fn eat_trailer(s: &[u8], pos: usize) -> (r: Option<usize>)
    requires
        pos <= s@.len(),
    ensures
        match r {
            Some(e) => spec_trailer(s@, pos as int) == Some(e as int) && pos < e <= s@.len(),
            None => spec_trailer(s@, pos as int) is None,
        },
{
    let p1 = scan_hspace(s, pos);
    let p2 = match parse_comment(s, p1) {
        Some(e) => e,
        None => p1,
    };
    let p3 = scan_mspace(s, p2);
    if p3 > p2 {
        Some(p3)
    } else {
        None
    }
}

/// Reads the next instruction starting at `pos`, skipping blank and
/// comment-only lines; `None` is a syntax error.
pub fn read_line(s: &[u8], pos: usize) -> (r: Option<(Instruction, usize)>)
    requires
        pos <= s@.len(),
    ensures
        match r {
            Some((inst, p)) => spec_read_line(s@, pos as int) == Some((inst@, p as int)) && pos < p
                <= s@.len(),
            None => spec_read_line(s@, pos as int) is None,
        },
{
    let mut cur: usize = pos;
    loop
        invariant
            pos <= cur <= s@.len(),
            spec_read_line(s@, pos as int) == spec_read_line(s@, cur as int),
        decreases s@.len() - cur,
    {
        match parse_a(s, cur) {
            Some((a, p)) => {
                return match eat_trailer(s, p) {
                    Some(e) => Some((Instruction::A(a), e)),
                    None => None,
                };
            },
            None => {},
        }
        match parse_c(s, cur) {
            Some((c, p)) => {
                return match eat_trailer(s, p) {
                    Some(e) => Some((Instruction::C(c), e)),
                    None => None,
                };
            },
            None => {},
        }
        match parse_label(s, cur) {
            Some((name, p)) => {
                return match eat_trailer(s, p) {
                    Some(e) => Some((Instruction::Label(name), e)),
                    None => None,
                };
            },
            None => {},
        }
        match eat_trailer(s, cur) {
            Some(e) => {
                cur = e;
            },
            None => {
                return None;
            },
        }
    }
}

/// Reads instructions from the start of `s` for as long as line-level steps
/// match, returning them and the position where reading stopped.
pub fn read_lines(s: &[u8]) -> (r: (Vec<Instruction>, usize))
    ensures
        spec_read_lines(s@, 0).0 == views(r.0@),
        spec_read_lines(s@, 0).1 == r.1 as int,
        r.1 <= s@.len(),
{
    let mut out: Vec<Instruction> = Vec::new();
    let mut pos: usize = 0;
    loop
        invariant
            pos <= s@.len(),
            spec_read_lines(s@, 0).0 =~= views(out@) + spec_read_lines(s@, pos as int).0,
            spec_read_lines(s@, 0).1 == spec_read_lines(s@, pos as int).1,
        decreases s@.len() - pos,
    {
        match read_line(s, pos) {
            Some((inst, p)) => {
                let ghost prev = out@;
                out.push(inst);
                proof {
                    assert(views(out@) =~= views(prev).push(inst@));
                    assert(spec_read_lines(s@, pos as int).0 =~= seq![inst@] + spec_read_lines(
                        s@,
                        p as int,
                    ).0);
                    assert(spec_read_lines(s@, 0).0 =~= views(out@) + spec_read_lines(
                        s@,
                        p as int,
                    ).0);
                }
                pos = p;
            },
            None => {
                proof {
                    assert(spec_read_lines(s@, pos as int).0 =~= Seq::<InstructionView>::empty());
                    assert(spec_read_lines(s@, 0).0 =~= views(out@));
                }
                return (out, pos);
            },
        }
    }
}

/// A parse failure: the position of the first input byte that no grammar
/// alternative consumed.
#[derive(Clone, Copy, PartialEq, Eq, Debug)]
pub struct ParseError {
    pub pos: usize,
}

/// Parses a whole source text into its instruction sequence.  The
/// instructions come back exactly when the grammar consumes the entire
/// input; otherwise the error names the position where reading stopped.
pub fn parse(source: &[u8]) -> (r: Result<Vec<Instruction>, ParseError>)
    ensures
        match r {
            Ok(v) => spec_parse(source@) == Some(views(v@)),
            Err(e) => spec_parse(source@) is None && e.pos == spec_read_lines(source@, 0).1,
        },
{
    let (instrs, pos) = read_lines(source);
    if pos == source.len() {
        Ok(instrs)
    } else {
        Err(ParseError { pos })
    }
}

/// Law: parsing is a function of the source text alone, so re-parsing the
/// same text (as the two-pass design does) yields the identical instruction
/// sequence both times.
pub proof fn lemma_reparse_identical(
    s: Seq<u8>,
    r1: Seq<InstructionView>,
    r2: Seq<InstructionView>,
)
    requires
        spec_parse(s) == Some(r1),
        spec_parse(s) == Some(r2),
    ensures
        r1 == r2,
{
}

} // verus!
