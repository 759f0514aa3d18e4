//! Bit patterns of the reals that the settings name.
use vstd::prelude::*;

verus! {

/// The bits of -1.
pub const R_M1_0: u64 = 0xBFF0_0000_0000_0000;

/// The bits of 1e-12.
pub const R_1EM12: u64 = 0x3D71_9799_812D_EA11;

/// The bits of 1e-09.
pub const R_1EM09: u64 = 0x3E11_2E0B_E826_D695;

/// The bits of 1e-06.
pub const R_1EM06: u64 = 0x3EB0_C6F7_A0B5_ED8D;

/// The bits of 0.0001.
pub const R_0_0001: u64 = 0x3F1A_36E2_EB1C_432D;

/// The bits of 0.0005.
pub const R_0_0005: u64 = 0x3F40_624D_D2F1_A9FC;

/// The bits of 0.002.
pub const R_0_002: u64 = 0x3F60_624D_D2F1_A9FC;

/// The bits of 0.01.
pub const R_0_01: u64 = 0x3F84_7AE1_47AE_147B;

/// The bits of 0.02.
pub const R_0_02: u64 = 0x3F94_7AE1_47AE_147B;

/// The bits of 0.05.
pub const R_0_05: u64 = 0x3FA9_9999_9999_999A;

/// The bits of 0.1.
pub const R_0_1: u64 = 0x3FB9_9999_9999_999A;

/// The bits of 0.15.
pub const R_0_15: u64 = 0x3FC3_3333_3333_3333;

/// The bits of 0.25.
pub const R_0_25: u64 = 0x3FD0_0000_0000_0000;

/// The bits of 0.3.
pub const R_0_3: u64 = 0x3FD3_3333_3333_3333;

/// The bits of 0.49.
pub const R_0_49: u64 = 0x3FDF_5C28_F5C2_8F5C;

/// The bits of 0.5.
pub const R_0_5: u64 = 0x3FE0_0000_0000_0000;

/// The bits of 0.7.
pub const R_0_7: u64 = 0x3FE6_6666_6666_6666;

/// The bits of 0.8.
pub const R_0_8: u64 = 0x3FE9_9999_9999_999A;

/// The bits of 0.9.
pub const R_0_9: u64 = 0x3FEC_CCCC_CCCC_CCCD;

/// The bits of 0.95.
pub const R_0_95: u64 = 0x3FEE_6666_6666_6666;

/// The bits of 0.99.
pub const R_0_99: u64 = 0x3FEF_AE14_7AE1_47AE;

/// The bits of 0.999.
pub const R_0_999: u64 = 0x3FEF_F7CE_D916_872B;

/// The bits of 2.
pub const R_2_0: u64 = 0x4000_0000_0000_0000;

/// The bits of 2.5.
pub const R_2_5: u64 = 0x4004_0000_0000_0000;

/// The bits of 5.
pub const R_5_0: u64 = 0x4014_0000_0000_0000;

/// The bits of 10.
pub const R_10_0: u64 = 0x4024_0000_0000_0000;

/// The bits of 100.
pub const R_100_0: u64 = 0x4059_0000_0000_0000;

/// The bits of 200.
pub const R_200_0: u64 = 0x4069_0000_0000_0000;

/// The bits of 604800.
pub const R_604800_0: u64 = 0x4122_7500_0000_0000;

/// The bits of 1e+06.
pub const R_1000000_0: u64 = 0x412E_8480_0000_0000;

} // verus!
