use vstd::prelude::*;
use vstd::arithmetic::power2::{pow2, lemma2_to64, lemma_pow2_pos};
use vstd::bits::{lemma_u64_shl_is_mul, lemma_u64_pow2_no_overflow};

verus! {

/// The low `bits` bits of `val` read as a two's-complement number.
pub open spec fn sign_ext_spec(val: u64, bits: nat) -> int {
    let low = val as int % pow2(bits) as int;
    if low >= pow2((bits - 1) as nat) { low - pow2(bits) } else { low }
}

/// The C.J / C.JAL offset field of a compressed instruction, unsigned:
/// inst[12]=imm[11], inst[11]=imm[4], inst[10:9]=imm[9:8], inst[8]=imm[10],
/// inst[7]=imm[6], inst[6]=imm[7], inst[5:3]=imm[3:1], inst[2]=imm[5].
pub open spec fn rvc_j_field(raw: u16) -> u64 {
    let r = raw as u64;
    ((r >> 12) & 1) << 11 | ((r >> 11) & 1) << 4 | ((r >> 9) & 3) << 8 | ((r >> 8) & 1) << 10
        | ((r >> 7) & 1) << 6 | ((r >> 6) & 1) << 7 | ((r >> 3) & 7) << 1 | ((r >> 2) & 1) << 5
}

/// The C.BEQZ / C.BNEZ offset field, unsigned: inst[12]=imm[8], inst[11:10]=imm[4:3],
/// inst[6:5]=imm[7:6], inst[4:3]=imm[2:1], inst[2]=imm[5].
pub open spec fn rvc_b_field(raw: u16) -> u64 {
    let r = raw as u64;
    ((r >> 12) & 1) << 8 | ((r >> 10) & 3) << 3 | ((r >> 5) & 3) << 6 | ((r >> 3) & 3) << 1 | ((r >> 2) & 1) << 5
}

/// Sign-extend the low `bits` bits of `val`.
pub fn sign_ext(val: u64, bits: u32) -> (r: i64)
    requires
        1 <= bits <= 64,
    ensures
        r == sign_ext_spec(val, bits as nat),
{
    proof {
        lemma2_to64();
        lemma_pow2_pos(bits as nat);
        lemma_pow2_pos((bits - 1) as nat);
    }
    let (low, m): (u64, u128) = if bits == 64 {
        assert(val as int % pow2(64) as int == val);
        (val, 0x1_0000_0000_0000_0000u128)
    } else {
        proof {
            lemma_u64_pow2_no_overflow(bits as nat);
            lemma_u64_shl_is_mul(1, bits as u64);
        }
        let m: u64 = 1u64 << bits;
        (val % m, m as u128)
    };
    assert(m as int == pow2(bits as nat));
    assert(pow2(bits as nat) == 2 * pow2((bits - 1) as nat)) by {
        vstd::arithmetic::power2::lemma_pow2_unfold(bits as nat);
    }
    let half: u128 = m / 2;
    if (low as u128) >= half {
        (low as i128 - m as i128) as i64
    } else {
        low as i64
    }
}

/// The sign-extended C.J / C.JAL offset of a compressed instruction.
pub fn rvc_j_imm(raw: u16) -> (r: i64)
    ensures
        r == sign_ext_spec(rvc_j_field(raw), 12),
        r % 2 == 0,
        -2048 <= r < 2048,
{
    let r: u64 = raw as u64;
    let imm: u64 = ((r >> 12) & 1) << 11 | ((r >> 11) & 1) << 4 | ((r >> 9) & 3) << 8 | ((r >> 8) & 1) << 10
        | ((r >> 7) & 1) << 6 | ((r >> 6) & 1) << 7 | ((r >> 3) & 7) << 1 | ((r >> 2) & 1) << 5;
    assert(imm < 4096 && imm % 2 == 0) by (bit_vector)
        requires imm == ((r >> 12) & 1) << 11 | ((r >> 11) & 1) << 4 | ((r >> 9) & 3) << 8 | ((r >> 8) & 1) << 10
            | ((r >> 7) & 1) << 6 | ((r >> 6) & 1) << 7 | ((r >> 3) & 7) << 1 | ((r >> 2) & 1) << 5;
    proof {
        lemma2_to64();
    }
    sign_ext(imm, 12)
}

/// The sign-extended C.BEQZ / C.BNEZ offset of a compressed instruction.
pub fn rvc_b_imm(raw: u16) -> (r: i64)
    ensures
        r == sign_ext_spec(rvc_b_field(raw), 9),
        r % 2 == 0,
        -256 <= r < 256,
{
    let r: u64 = raw as u64;
    let imm: u64 = ((r >> 12) & 1) << 8 | ((r >> 10) & 3) << 3 | ((r >> 5) & 3) << 6 | ((r >> 3) & 3) << 1 | ((r >> 2) & 1) << 5;
    assert(imm < 512 && imm % 2 == 0) by (bit_vector)
        requires imm == ((r >> 12) & 1) << 8 | ((r >> 10) & 3) << 3 | ((r >> 5) & 3) << 6 | ((r >> 3) & 3) << 1 | ((r >> 2) & 1) << 5;
    proof {
        lemma2_to64();
    }
    sign_ext(imm, 9)
}

} // verus!
