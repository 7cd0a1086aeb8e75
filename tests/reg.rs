use keyboard_fw::reg::Reg;

#[test]
fn register_addresses() {
    assert_eq!(Reg::PROD_ID.addr(), 0x00);
    assert_eq!(Reg::MOTION.addr(), 0x02);
    assert_eq!(Reg::BURST_READ.addr(), 0x12);
    assert_eq!(Reg::RUN_DOWNSHIFT.addr(), 0x1b);
    assert_eq!(Reg::NOT_PROD_ID.addr(), 0x3f);
    assert_eq!(Reg::RES_STEP.addr(), 0x85);
    assert_eq!(Reg::SPI_PAGE1.addr(), 0xff);
}
