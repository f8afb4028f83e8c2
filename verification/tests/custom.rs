use rumiga::custom::{
    BEAMCON0_PAL, BLTCON0, BLTCON1, BLTSIZE, BPLCON0, COLOR00, COLOR31, COP1LCH, COP2LCH, DDFSTOP,
    DDFSTRT, DIWSTOP, DIWSTRT, DMACON, DMACONR, INTENA, INTENAR, INTREQ, INTREQR, VHPOSR, VPOSR,
};

#[test]
fn register_offsets_match_hardware() {
    assert_eq!(DMACONR, 0x002);
    assert_eq!(VPOSR, 0x004);
    assert_eq!(VHPOSR, 0x006);
    assert_eq!(INTENAR, 0x01C);
    assert_eq!(INTREQR, 0x01E);
    assert_eq!(BLTCON0, 0x040);
    assert_eq!(BLTCON1, 0x042);
    assert_eq!(BLTSIZE, 0x058);
    assert_eq!(COP1LCH, 0x080);
    assert_eq!(COP2LCH, 0x084);
    assert_eq!(DIWSTRT, 0x08E);
    assert_eq!(DIWSTOP, 0x090);
    assert_eq!(DDFSTRT, 0x092);
    assert_eq!(DDFSTOP, 0x094);
    assert_eq!(DMACON, 0x096);
    assert_eq!(INTENA, 0x09A);
    assert_eq!(INTREQ, 0x09C);
    assert_eq!(BPLCON0, 0x100);
    assert_eq!(COLOR00, 0x180);
    assert_eq!(COLOR31, 0x1BE);
}

#[test]
fn color_registers_are_contiguous() {
    assert_eq!(COLOR31 - COLOR00, 31 * 2);
}

#[test]
fn beamcon0_pal_is_bit_five() {
    assert_eq!(BEAMCON0_PAL, 1 << 5);
}
