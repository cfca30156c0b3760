use riscv_emu::rvc::{rvc_b_imm, rvc_j_imm, sign_ext};

#[test]
fn sign_ext_negative_and_positive() {
    assert_eq!(sign_ext(0xFFF, 12), -1);
    assert_eq!(sign_ext(0x7FF, 12), 0x7FF);
    assert_eq!(sign_ext(0x800, 12), -2048);
    assert_eq!(sign_ext(u64::MAX, 64), -1);
}

#[test]
fn c_j_offsets() {
    // c.j +8: imm[3] is bit 5 of the instruction's offset field (bit 4 of raw >> 2 ... )
    assert_eq!(rvc_j_imm(0xA009), 2);
    assert_eq!(rvc_j_imm(0xBFFD), -2);
    assert_eq!(rvc_j_imm(0xA001), 0);
}

#[test]
fn c_beqz_offsets() {
    assert_eq!(rvc_b_imm(0xC001), 0);
    assert_eq!(rvc_b_imm(0xDC7D), -2);
}
