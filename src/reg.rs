use vstd::prelude::*;

verus! {

/// Registers of the PMW3610 optical motion sensor.
#[allow(non_camel_case_types)]
#[derive(Debug, Clone, Copy, PartialEq, Eq, Structural)]
pub enum Reg {
    /// R, Default: 0x3e
    PROD_ID,
    /// R, Default: 0x01
    REV_ID,
    /// R/W, Default: 0x09
    MOTION,
    /// R, Default: 0x00
    DELTA_X_L,
    /// R, Default: 0x00
    DELTA_Y_L,
    /// R, Default: 0x00
    DELTA_XY_H,
    /// R, Default: 0x00
    SQUAL,
    /// R/W, Default: 0x00
    SHUTTER_HIGHER,
    /// R/W, Default: 0x22
    SHUTTER_LOWER,
    /// R, Default: 0x60
    PIX_MAX,
    /// R, Default: 0x4f
    PIX_AVG,
    /// R, Default: 0x7f
    PIX_MIN,
    /// R, Default: 0x00
    CRC0,
    /// R, Default: 0x00
    CRC1,
    /// R, Default: 0x00
    CRC2,
    /// R, Default: 0x00
    CRC3,
    /// W, Default: 0x00
    SELF_TEST,
    /// R/W, Default: 0x01
    PERFORMANCE,
    /// R/W, Default: 0x0b
    BURST_READ,
    /// R/W, Default: 0x02
    RUN_DOWNSHIFT,
    /// R/W, Default: 0x04
    REST1_RATE,
    /// R/W, Default: 0x1f
    REST1_DOWNSHIFT,
    /// R/W, Default: 0x0a
    REST2_RATE,
    /// R/W, Default: 0x2f
    REST2_DOWNSHIFT,
    /// R/W, Default: 0x32
    REST3_RATE,
    /// R/W, Default: 0x00
    OBSERVATION1,
    /// R/W, Default: 0x00
    DTEST2_PAD,
    /// R/W, Default: 0x00
    PIXEL_GRAB,
    /// R/W, Default: 0x00
    FRAME_GRAB,
    /// W, Default: NA
    POWER_UP_RESET,
    /// W, Default: NA
    SHUTDOWN,
    /// R, Default: 0xfe
    NOT_REV_ID,
    /// R, Default: 0xc1
    NOT_PROD_ID,
    /// W, Default: NA
    SPI_CLK_ON_REQ,
    /// R/W, Default: 0x00
    PRBS_TEST_CTL,
    /// R/W, Default: 0x00
    SPI_PAGE0,
    /// R/W, Default: 0x86
    RES_STEP,
    /// R/W, Default: 0x00
    VCSEL_CTL,
    /// R/W, Default: 0x00
    LSR_CONTROL,
    /// R/W, Default: 0x00
    SPI_PAGE1,
}

/// Address of each register on the sensor's serial bus.
pub open spec fn reg_address(r: Reg) -> u8 {
    match r {
        Reg::PROD_ID => 0x00u8,
        Reg::REV_ID => 0x01u8,
        Reg::MOTION => 0x02u8,
        Reg::DELTA_X_L => 0x03u8,
        Reg::DELTA_Y_L => 0x04u8,
        Reg::DELTA_XY_H => 0x05u8,
        Reg::SQUAL => 0x06u8,
        Reg::SHUTTER_HIGHER => 0x07u8,
        Reg::SHUTTER_LOWER => 0x08u8,
        Reg::PIX_MAX => 0x09u8,
        Reg::PIX_AVG => 0x0au8,
        Reg::PIX_MIN => 0x0bu8,
        Reg::CRC0 => 0x0cu8,
        Reg::CRC1 => 0x0du8,
        Reg::CRC2 => 0x0eu8,
        Reg::CRC3 => 0x0fu8,
        Reg::SELF_TEST => 0x10u8,
        Reg::PERFORMANCE => 0x11u8,
        Reg::BURST_READ => 0x12u8,
        Reg::RUN_DOWNSHIFT => 0x1bu8,
        Reg::REST1_RATE => 0x1cu8,
        Reg::REST1_DOWNSHIFT => 0x1du8,
        Reg::REST2_RATE => 0x1eu8,
        Reg::REST2_DOWNSHIFT => 0x1fu8,
        Reg::REST3_RATE => 0x20u8,
        Reg::OBSERVATION1 => 0x2du8,
        Reg::DTEST2_PAD => 0x32u8,
        Reg::PIXEL_GRAB => 0x35u8,
        Reg::FRAME_GRAB => 0x36u8,
        Reg::POWER_UP_RESET => 0x3au8,
        Reg::SHUTDOWN => 0x3bu8,
        Reg::NOT_REV_ID => 0x3eu8,
        Reg::NOT_PROD_ID => 0x3fu8,
        Reg::SPI_CLK_ON_REQ => 0x41u8,
        Reg::PRBS_TEST_CTL => 0x47u8,
        Reg::SPI_PAGE0 => 0x7fu8,
        Reg::RES_STEP => 0x85u8,
        Reg::VCSEL_CTL => 0x9eu8,
        Reg::LSR_CONTROL => 0x9fu8,
        Reg::SPI_PAGE1 => 0xffu8,
    }
}

impl Reg {
    /// The register's address.
    pub fn addr(self) -> (r: u8)
        ensures
            r == reg_address(self),
    {
        match self {
            Reg::PROD_ID => 0x00,
            Reg::REV_ID => 0x01,
            Reg::MOTION => 0x02,
            Reg::DELTA_X_L => 0x03,
            Reg::DELTA_Y_L => 0x04,
            Reg::DELTA_XY_H => 0x05,
            Reg::SQUAL => 0x06,
            Reg::SHUTTER_HIGHER => 0x07,
            Reg::SHUTTER_LOWER => 0x08,
            Reg::PIX_MAX => 0x09,
            Reg::PIX_AVG => 0x0a,
            Reg::PIX_MIN => 0x0b,
            Reg::CRC0 => 0x0c,
            Reg::CRC1 => 0x0d,
            Reg::CRC2 => 0x0e,
            Reg::CRC3 => 0x0f,
            Reg::SELF_TEST => 0x10,
            Reg::PERFORMANCE => 0x11,
            Reg::BURST_READ => 0x12,
            Reg::RUN_DOWNSHIFT => 0x1b,
            Reg::REST1_RATE => 0x1c,
            Reg::REST1_DOWNSHIFT => 0x1d,
            Reg::REST2_RATE => 0x1e,
            Reg::REST2_DOWNSHIFT => 0x1f,
            Reg::REST3_RATE => 0x20,
            Reg::OBSERVATION1 => 0x2d,
            Reg::DTEST2_PAD => 0x32,
            Reg::PIXEL_GRAB => 0x35,
            Reg::FRAME_GRAB => 0x36,
            Reg::POWER_UP_RESET => 0x3a,
            Reg::SHUTDOWN => 0x3b,
            Reg::NOT_REV_ID => 0x3e,
            Reg::NOT_PROD_ID => 0x3f,
            Reg::SPI_CLK_ON_REQ => 0x41,
            Reg::PRBS_TEST_CTL => 0x47,
            Reg::SPI_PAGE0 => 0x7f,
            Reg::RES_STEP => 0x85,
            Reg::VCSEL_CTL => 0x9e,
            Reg::LSR_CONTROL => 0x9f,
            Reg::SPI_PAGE1 => 0xff,
        }
    }
}

} // verus!
