use riscv_emu::dtb::build_dtb;

#[test]
fn build_dtb_has_valid_fdt_magic() {
    let bytes = build_dtb(0).unwrap();
    let magic = u32::from_be_bytes([bytes[0], bytes[1], bytes[2], bytes[3]]);
    assert_eq!(magic, 0xD00D_FEED);
    assert!(bytes.len() > 64);
}

#[test]
fn build_dtb_with_initrd_includes_initrd_properties() {
    let bytes = build_dtb(0x100_0000).unwrap();
    assert!(
        bytes.windows(18).any(|w| w == b"linux,initrd-start"),
        "expected linux,initrd-start property in DTB"
    );
}

#[test]
fn build_dtb_without_initrd_omits_initrd_properties() {
    let bytes = build_dtb(0).unwrap();
    assert!(
        !bytes.windows(18).any(|w| w == b"linux,initrd-start"),
        "linux,initrd-start should not appear when initrd_size=0"
    );
}

#[test]
fn build_dtb_names_the_uart() {
    let bytes = build_dtb(0).unwrap();
    assert!(bytes.windows(7).any(|w| w == b"ns16550"));
}
