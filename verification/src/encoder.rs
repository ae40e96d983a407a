//! Encoding of one fully resolved instruction as its 16-character binary
//! line, most-significant bit first.
//!
//! A memory reference encodes as `0` followed by the low 15 bits of its
//! address (higher bits are masked off, not rejected).  A compute
//! instruction encodes as `111`, the 7-bit operation code, the 3-bit
//! destination code and the 3-bit jump code, in that order.

use vstd::prelude::*;

use crate::ast::Address;
use crate::ast::AddressView;
use crate::ast::Comp;
use crate::ast::Compute;
use crate::ast::Dest;
use crate::ast::Instruction;
use crate::ast::InstructionView;
use crate::ast::Jump;

verus! {

/// The 3-bit code of a destination set; 0 means "no destination".
pub open spec fn dest_code(d: Option<Dest>) -> u16 {
    match d {
        None => 0,
        Some(Dest::M) => 1,
        Some(Dest::D) => 2,
        Some(Dest::MD) => 3,
        Some(Dest::A) => 4,
        Some(Dest::AM) => 5,
        Some(Dest::AD) => 6,
        Some(Dest::AMD) => 7,
    }
}

/// The 3-bit code of a jump condition; 0 means "no jump".
pub open spec fn jump_code(j: Option<Jump>) -> u16 {
    match j {
        None => 0,
        Some(Jump::JGT) => 1,
        Some(Jump::JEQ) => 2,
        Some(Jump::JGE) => 3,
        Some(Jump::JLT) => 4,
        Some(Jump::JNE) => 5,
        Some(Jump::JLE) => 6,
        Some(Jump::JMP) => 7,
    }
}

/// The 7-bit code of a compute operation.
pub open spec fn comp_code(c: Comp) -> u16 {
    match c {
        Comp::Zero => 0b0101010,
        Comp::One => 0b0111111,
        Comp::NegOne => 0b0111010,
        Comp::D => 0b0001100,
        Comp::A => 0b0110000,
        Comp::NotD => 0b0001101,
        Comp::NotA => 0b0110001,
        Comp::NegD => 0b0001111,
        Comp::NegA => 0b0110011,
        Comp::IncD => 0b0011111,
        Comp::IncA => 0b0110111,
        Comp::DecD => 0b0001110,
        Comp::DecA => 0b0110010,
        Comp::DPlusA => 0b0000010,
        Comp::DMinusA => 0b0010011,
        Comp::AMinusD => 0b0000111,
        Comp::DAndA => 0b0000000,
        Comp::DOrA => 0b0010101,
        Comp::M => 0b1110000,
        Comp::NotM => 0b1110001,
        Comp::NegM => 0b1110011,
        Comp::IncM => 0b1110111,
        Comp::DecM => 0b1110010,
        Comp::DPlusM => 0b1000010,
        Comp::DMinusM => 0b1010011,
        Comp::MMinusD => 0b1000111,
        Comp::DAndM => 0b1000000,
        Comp::DOrM => 0b1010101,
    }
}

/// The character for bit `i` of `v`.
pub open spec fn bit_char(v: u16, i: u16) -> char {
    if (v >> i) & 1 == 1 {
        '1'
    } else {
        '0'
    }
}

/// The low `n` bits of `v` as characters, most significant first.
pub open spec fn bits_msb(v: u16, n: nat) -> Seq<char> {
    Seq::new(n, |i: int| bit_char(v, (n - 1 - i) as u16))
}

/// The binary line of a memory reference: `0`, then 15 address bits.
pub open spec fn encode_a_spec(v: u16) -> Seq<char> {
    seq!['0'] + bits_msb(v, 15)
}

/// The binary line of a compute instruction: `111`, then the operation,
/// destination and jump codes.
pub open spec fn encode_c_spec(c: Compute) -> Seq<char> {
    seq!['1', '1', '1'] + bits_msb(comp_code(c.comp), 7) + bits_msb(dest_code(c.dest), 3)
        + bits_msb(jump_code(c.jump), 3)
}

/// An instruction has a binary representation exactly when it is a memory
/// reference with a resolved constant address or a compute instruction.
pub open spec fn encodable(i: InstructionView) -> bool {
    match i {
        InstructionView::A(AddressView::Constant(_)) => true,
        InstructionView::A(AddressView::Symbol(_)) => false,
        InstructionView::C(_) => true,
        InstructionView::Label(_) => false,
    }
}

/// The binary line of an encodable instruction.
pub open spec fn encode_spec(i: InstructionView) -> Seq<char>
    recommends
        encodable(i),
{
    match i {
        InstructionView::A(AddressView::Constant(v)) => encode_a_spec(v),
        InstructionView::C(c) => encode_c_spec(c),
        _ => Seq::empty(),
    }
}

/// Appends the low `n` bits of `v` to `out`, most significant first.
fn push_bits(out: &mut String, v: u16, n: u16)
    requires
        n <= 16,
    ensures
        final(out)@ == old(out)@ + bits_msb(v, n as nat),
{
    let mut i: u16 = 0;
    while i < n
        invariant
            i <= n <= 16,
            out@ == old(out)@ + bits_msb(v, n as nat).subrange(0, i as int),
        decreases n - i,
    {
        let sh: u16 = n - 1 - i;
        let ghost prev = out@;
        if ((v >> sh) & 1) == 1 {
            out.append("1");
        } else {
            out.append("0");
        }
        proof {
            reveal_strlit("0");
            reveal_strlit("1");
            assert(out@ =~= prev + seq![bit_char(v, sh)]);
            assert(bits_msb(v, n as nat).subrange(0, i + 1) =~= bits_msb(v, n as nat).subrange(
                0,
                i as int,
            ) + seq![bit_char(v, sh)]);
            assert(out@ =~= old(out)@ + bits_msb(v, n as nat).subrange(0, i + 1));
        }
        i = i + 1;
    }
    proof {
        assert(bits_msb(v, n as nat).subrange(0, n as int) =~= bits_msb(v, n as nat));
    }
}

/// Encodes a memory reference with constant address `v`.
pub fn encode_a(v: u16) -> (r: String)
    ensures
        r@ == encode_a_spec(v),
{
    proof {
        reveal_strlit("0");
    }
    let mut r = String::new();
    r.append("0");
    push_bits(&mut r, v, 15);
    proof {
        assert(r@ =~= encode_a_spec(v));
    }
    r
}

/// The 3-bit code of a destination set, as executable code.
pub fn dest_bits(d: Option<Dest>) -> (r: u16)
    ensures
        r == dest_code(d),
{
    match d {
        None => 0,
        Some(Dest::M) => 1,
        Some(Dest::D) => 2,
        Some(Dest::MD) => 3,
        Some(Dest::A) => 4,
        Some(Dest::AM) => 5,
        Some(Dest::AD) => 6,
        Some(Dest::AMD) => 7,
    }
}

/// The 3-bit code of a jump condition, as executable code.
pub fn jump_bits(j: Option<Jump>) -> (r: u16)
    ensures
        r == jump_code(j),
{
    match j {
        None => 0,
        Some(Jump::JGT) => 1,
        Some(Jump::JEQ) => 2,
        Some(Jump::JGE) => 3,
        Some(Jump::JLT) => 4,
        Some(Jump::JNE) => 5,
        Some(Jump::JLE) => 6,
        Some(Jump::JMP) => 7,
    }
}

/// The 7-bit code of a compute operation, as executable code.
pub fn comp_bits(c: Comp) -> (r: u16)
    ensures
        r == comp_code(c),
{
    match c {
        Comp::Zero => 0b0101010,
        Comp::One => 0b0111111,
        Comp::NegOne => 0b0111010,
        Comp::D => 0b0001100,
        Comp::A => 0b0110000,
        Comp::NotD => 0b0001101,
        Comp::NotA => 0b0110001,
        Comp::NegD => 0b0001111,
        Comp::NegA => 0b0110011,
        Comp::IncD => 0b0011111,
        Comp::IncA => 0b0110111,
        Comp::DecD => 0b0001110,
        Comp::DecA => 0b0110010,
        Comp::DPlusA => 0b0000010,
        Comp::DMinusA => 0b0010011,
        Comp::AMinusD => 0b0000111,
        Comp::DAndA => 0b0000000,
        Comp::DOrA => 0b0010101,
        Comp::M => 0b1110000,
        Comp::NotM => 0b1110001,
        Comp::NegM => 0b1110011,
        Comp::IncM => 0b1110111,
        Comp::DecM => 0b1110010,
        Comp::DPlusM => 0b1000010,
        Comp::DMinusM => 0b1010011,
        Comp::MMinusD => 0b1000111,
        Comp::DAndM => 0b1000000,
        Comp::DOrM => 0b1010101,
    }
}

/// Encodes a compute instruction.
pub fn encode_c(c: &Compute) -> (r: String)
    ensures
        r@ == encode_c_spec(*c),
{
    proof {
        reveal_strlit("111");
    }
    let mut r = String::new();
    r.append("111");
    push_bits(&mut r, comp_bits(c.comp), 7);
    push_bits(&mut r, dest_bits(c.dest), 3);
    push_bits(&mut r, jump_bits(c.jump), 3);
    proof {
        assert(r@ =~= encode_c_spec(*c));
    }
    r
}

/// A well-formed output line: exactly 16 characters, each `'0'` or `'1'`.
pub open spec fn is_bit_line(l: Seq<char>) -> bool {
    l.len() == 16 && forall|k: int| 0 <= k < 16 ==> (l[k] == '0' || l[k] == '1')
}

/// Law: the binary line of any encodable instruction is exactly 16
/// characters of `'0'` and `'1'`.
pub proof fn lemma_encode_line_shape(i: InstructionView)
    requires
        encodable(i),
    ensures
        is_bit_line(encode_spec(i)),
{
}

/// The numeric value of a string of binary digit characters, most
/// significant first.
pub open spec fn bits_val(s: Seq<char>) -> int
    decreases s.len(),
{
    if s.len() == 0 {
        0
    } else {
        2 * bits_val(s.drop_last()) + (if s.last() == '1' {
            1int
        } else {
            0int
        })
    }
}

/// Decoding inverts encoding: the low `n` bits of `v`, written most
/// significant first, read back as `v` masked to its low `n` bits.
pub proof fn lemma_bits_msb_val(v: u16, n: u16)
    requires
        n <= 15,
    ensures
        bits_val(bits_msb(v, n as nat)) == (v & (((1u16 << n) - 1) as u16)),
    decreases n,
{
    if n == 0 {
        assert(bits_msb(v, 0) =~= Seq::<char>::empty());
        assert(v & (((1u16 << 0u16) - 1) as u16) == 0) by (bit_vector);
    } else {
        let m: u16 = (n - 1) as u16;
        let h: u16 = v >> 1u16;
        lemma_bits_msb_val(h, m);
        assert forall|idx: int| 0 <= idx < m implies bits_msb(v, n as nat)[idx] == bits_msb(
            h,
            m as nat,
        )[idx] by {
            let k: u16 = (m - 1 - idx) as u16;
            let k2: u16 = (n - 1 - idx) as u16;
            assert(((v >> 1u16) >> k) & 1 == (v >> k2) & 1) by (bit_vector)
                requires
                    k2 == k + 1,
                    k <= 14,
            ;
        }
        assert(bits_msb(v, n as nat).drop_last() =~= bits_msb(h, m as nat));
        assert(bits_msb(v, n as nat).last() == bit_char(v, 0));
        assert((v >> 0u16) & 1 == v & 1) by (bit_vector);
        if v & 1 == 1 {
            assert(2 * ((v >> 1u16) & (((1u16 << m) - 1) as u16)) + 1 == (v & (((1u16 << n) - 1) as u16)))
                by (bit_vector)
                requires
                    m == n - 1,
                    1 <= n <= 15,
                    v & 1 == 1,
            ;
        } else {
            assert(2 * ((v >> 1u16) & (((1u16 << m) - 1) as u16)) == (v & (((1u16 << n) - 1) as u16)))
                by (bit_vector)
                requires
                    m == n - 1,
                    1 <= n <= 15,
                    v & 1 != 1,
            ;
        }
    }
}

/// Law: the binary line of a memory reference with a constant address `v`
/// up to 32767 is `'0'` followed by the 15-bit binary representation of
/// `v`, zero-padded: reading those 15 bits back yields `v` exactly.
pub proof fn lemma_encode_a_value(v: u16)
    requires
        v <= 32767,
    ensures
        encode_a_spec(v).len() == 16,
        encode_a_spec(v)[0] == '0',
        bits_val(encode_a_spec(v).subrange(1, 16)) == v,
{
    lemma_bits_msb_val(v, 15);
    assert(encode_a_spec(v).subrange(1, 16) =~= bits_msb(v, 15));
    assert(v & (((1u16 << 15u16) - 1) as u16) == v) by (bit_vector)
        requires
            v <= 32767,
    ;
}

/// Law: the binary line of a compute instruction starts with three `'1'`
/// characters, and reading back the three packed fields yields exactly the
/// operation code, the destination code and the jump code of the tables.
pub proof fn lemma_encode_c_fields(c: Compute)
    ensures
        encode_c_spec(c).len() == 16,
        encode_c_spec(c)[0] == '1',
        encode_c_spec(c)[1] == '1',
        encode_c_spec(c)[2] == '1',
        bits_val(encode_c_spec(c).subrange(3, 10)) == comp_code(c.comp),
        bits_val(encode_c_spec(c).subrange(10, 13)) == dest_code(c.dest),
        bits_val(encode_c_spec(c).subrange(13, 16)) == jump_code(c.jump),
{
    let cc = comp_code(c.comp);
    let dc = dest_code(c.dest);
    let jc = jump_code(c.jump);
    lemma_bits_msb_val(cc, 7);
    lemma_bits_msb_val(dc, 3);
    lemma_bits_msb_val(jc, 3);
    assert(encode_c_spec(c).subrange(3, 10) =~= bits_msb(cc, 7));
    assert(encode_c_spec(c).subrange(10, 13) =~= bits_msb(dc, 3));
    assert(encode_c_spec(c).subrange(13, 16) =~= bits_msb(jc, 3));
    assert(cc < 128);
    assert(dc < 8);
    assert(jc < 8);
    assert(cc & (((1u16 << 7u16) - 1) as u16) == cc) by (bit_vector)
        requires
            cc < 128,
    ;
    assert(dc & (((1u16 << 3u16) - 1) as u16) == dc) by (bit_vector)
        requires
            dc < 8,
    ;
    assert(jc & (((1u16 << 3u16) - 1) as u16) == jc) by (bit_vector)
        requires
            jc < 8,
    ;
}

impl Instruction {
    /// The 16-character binary line of this instruction.  Labels and
    /// unresolved symbolic addresses have none: the two-pass resolver must
    /// have replaced every symbol by a constant before encoding.
    pub fn encode(&self) -> (r: String)
        requires
            encodable(self@),
        ensures
            r@ == encode_spec(self@),
    {
        match self {
            Instruction::A(Address::Constant(v)) => encode_a(*v),
            Instruction::A(Address::Symbol(_)) => unreached(),
            Instruction::C(c) => encode_c(c),
            Instruction::Label(_) => unreached(),
        }
    }
}

} // verus!
