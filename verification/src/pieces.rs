//! The pieces of the accuracy proof: 128 ranges that cover two neighbouring
//! binades of inputs, each with bounds of twelve digits for the input, for
//! the initial estimate and for every step of the Newton step.
use crate::interval::{lemma_piece, within_two_percent, Piece};
use crate::binary32::Binary32;
use vstd::arithmetic::power2::{lemma2_to64, lemma2_to64_rest};
use vstd::prelude::*;

verus! {

/// The normal input `y` has the pattern `a * 2^24 + rest` with `rest` from
/// `lo` to `hi`.
pub open spec fn in_range_of(y: Binary32, a: nat, lo: nat, hi: nat) -> bool {
    &&& 1 <= 2 * a + lo / 0x80_0000
    &&& 2 * a + hi / 0x80_0000 <= 254
    &&& a * 0x100_0000 + lo <= y.bits <= a * 0x100_0000 + hi
}


/// The pieces from `0x0` to `0xf_ffff`.
proof fn lemma_pieces_0(y: Binary32, a: nat)
    requires
        in_range_of(y, a, 0x0, 0xf_ffff),
    ensures
        within_two_percent(y),
{
    lemma2_to64();
    lemma2_to64_rest();
    let rest = y.bits - a * 0x100_0000;
    if rest <= 0x1_ffff {
        lemma_piece(
            y,
            a,
            Piece {
                lo: 0x0, hi: 0x1_ffff,
                y_hi: 2080, y_hi_k: 12, y_lo: 2048, y_lo_k: 12,
                z_hi: 2934, z_hi_k: 12, z_lo: 2917, z_lo_k: 12,
                u_hi: 2980, u_hi_k: 11, u_lo: 2917, u_lo_k: 11,
                t_hi: 2135, t_hi_k: 12, t_lo: 2077, t_lo_k: 12,
                d_hi: 4067, d_hi_k: 0, d_lo: 4009, d_lo_k: 0,
                r_hi: 11932578, r_lo: 11694253,
                q_hi: 142386417726084, q_lo: 136755553228009,
            },
        );
    } else if rest <= 0x3_ffff {
        lemma_piece(
            y,
            a,
            Piece {
                lo: 0x2_0000, hi: 0x3_ffff,
                y_hi: 2112, y_hi_k: 12, y_lo: 2080, y_lo_k: 12,
                z_hi: 2918, z_hi_k: 12, z_lo: 2901, z_lo_k: 12,
                u_hi: 3010, u_hi_k: 11, u_lo: 2946, u_lo_k: 11,
                t_hi: 2145, t_hi_k: 12, t_lo: 2086, t_lo_k: 12,
                d_hi: 4058, d_hi_k: 0, d_lo: 3999, d_lo_k: 0,
                r_hi: 11841244, r_lo: 11601099,
                q_hi: 140215059467536, q_lo: 134585498007801,
            },
        );
    } else if rest <= 0x5_ffff {
        lemma_piece(
            y,
            a,
            Piece {
                lo: 0x4_0000, hi: 0x5_ffff,
                y_hi: 2144, y_hi_k: 12, y_lo: 2112, y_lo_k: 12,
                z_hi: 2902, z_hi_k: 12, z_lo: 2885, z_lo_k: 12,
                u_hi: 3039, u_hi_k: 11, u_lo: 2975, u_lo_k: 11,
                t_hi: 2154, t_hi_k: 12, t_lo: 2095, t_lo_k: 12,
                d_hi: 4049, d_hi_k: 0, d_lo: 3990, d_lo_k: 0,
                r_hi: 11750198, r_lo: 11511150,
                q_hi: 138067153039204, q_lo: 132506574322500,
            },
        );
    } else if rest <= 0x7_ffff {
        lemma_piece(
            y,
            a,
            Piece {
                lo: 0x6_0000, hi: 0x7_ffff,
                y_hi: 2176, y_hi_k: 12, y_lo: 2144, y_lo_k: 12,
                z_hi: 2886, z_hi_k: 12, z_lo: 2869, z_lo_k: 12,
                u_hi: 3067, u_hi_k: 11, u_lo: 3003, u_lo_k: 11,
                t_hi: 2161, t_hi_k: 12, t_lo: 2103, t_lo_k: 12,
                d_hi: 4041, d_hi_k: 0, d_lo: 3983, d_lo_k: 0,
                r_hi: 11662326, r_lo: 11427227,
                q_hi: 136009847730276, q_lo: 130581516909529,
            },
        );
    } else if rest <= 0x9_ffff {
        lemma_piece(
            y,
            a,
            Piece {
                lo: 0x8_0000, hi: 0x9_ffff,
                y_hi: 2208, y_hi_k: 12, y_lo: 2176, y_lo_k: 12,
                z_hi: 2870, z_hi_k: 12, z_lo: 2853, z_lo_k: 12,
                u_hi: 3095, u_hi_k: 11, u_lo: 3031, u_lo_k: 11,
                t_hi: 2169, t_hi_k: 12, t_lo: 2111, t_lo_k: 12,
                d_hi: 4033, d_hi_k: 0, d_lo: 3975, d_lo_k: 0,
                r_hi: 11574710, r_lo: 11340675,
                q_hi: 133973911584100, q_lo: 128610909455625,
            },
        );
    } else if rest <= 0xb_ffff {
        lemma_piece(
            y,
            a,
            Piece {
                lo: 0xa_0000, hi: 0xb_ffff,
                y_hi: 2240, y_hi_k: 12, y_lo: 2208, y_lo_k: 12,
                z_hi: 2854, z_hi_k: 12, z_lo: 2837, z_lo_k: 12,
                u_hi: 3122, u_hi_k: 11, u_lo: 3058, u_lo_k: 11,
                t_hi: 2176, t_hi_k: 12, t_lo: 2118, t_lo_k: 12,
                d_hi: 4026, d_hi_k: 0, d_lo: 3968, d_lo_k: 0,
                r_hi: 11490204, r_lo: 11257216,
                q_hi: 132024787961616, q_lo: 126724912070656,
            },
        );
    } else if rest <= 0xd_ffff {
        lemma_piece(
            y,
            a,
            Piece {
                lo: 0xc_0000, hi: 0xd_ffff,
                y_hi: 2272, y_hi_k: 12, y_lo: 2240, y_lo_k: 12,
                z_hi: 2838, z_hi_k: 12, z_lo: 2821, z_lo_k: 12,
                u_hi: 3149, u_hi_k: 11, u_lo: 3085, u_lo_k: 11,
                t_hi: 2182, t_hi_k: 12, t_lo: 2124, t_lo_k: 12,
                d_hi: 4020, d_hi_k: 0, d_lo: 3962, d_lo_k: 0,
                r_hi: 11408760, r_lo: 11176802,
                q_hi: 130159804737600, q_lo: 124920902947204,
            },
        );
    } else {
        lemma_piece(
            y,
            a,
            Piece {
                lo: 0xe_0000, hi: 0xf_ffff,
                y_hi: 2304, y_hi_k: 12, y_lo: 2272, y_lo_k: 12,
                z_hi: 2822, z_hi_k: 12, z_lo: 2805, z_lo_k: 12,
                u_hi: 3175, u_hi_k: 11, u_lo: 3111, u_lo_k: 11,
                t_hi: 2188, t_hi_k: 12, t_lo: 2130, t_lo_k: 12,
                d_hi: 4014, d_hi_k: 0, d_lo: 3956, d_lo_k: 0,
                r_hi: 11327508, r_lo: 11096580,
                q_hi: 128312437490064, q_lo: 123134087696400,
            },
        );
    }
}

/// The pieces from `0x10_0000` to `0x1f_ffff`.
proof fn lemma_pieces_1(y: Binary32, a: nat)
    requires
        in_range_of(y, a, 0x10_0000, 0x1f_ffff),
    ensures
        within_two_percent(y),
{
    lemma2_to64();
    lemma2_to64_rest();
    let rest = y.bits - a * 0x100_0000;
    if rest <= 0x11_ffff {
        lemma_piece(
            y,
            a,
            Piece {
                lo: 0x10_0000, hi: 0x11_ffff,
                y_hi: 2336, y_hi_k: 12, y_lo: 2304, y_lo_k: 12,
                z_hi: 2806, z_hi_k: 12, z_lo: 2789, z_lo_k: 12,
                u_hi: 3201, u_hi_k: 11, u_lo: 3137, u_lo_k: 11,
                t_hi: 2193, t_hi_k: 12, t_lo: 2136, t_lo_k: 12,
                d_hi: 4008, d_hi_k: 0, d_lo: 3951, d_lo_k: 0,
                r_hi: 11246448, r_lo: 11019339,
                q_hi: 126482592616704, q_lo: 121425831996921,
            },
        );
    } else if rest <= 0x13_ffff {
        lemma_piece(
            y,
            a,
            Piece {
                lo: 0x12_0000, hi: 0x13_ffff,
                y_hi: 2368, y_hi_k: 12, y_lo: 2336, y_lo_k: 12,
                z_hi: 2790, z_hi_k: 12, z_lo: 2773, z_lo_k: 12,
                u_hi: 3226, u_hi_k: 11, u_lo: 3162, u_lo_k: 11,
                t_hi: 2198, t_hi_k: 12, t_lo: 2140, t_lo_k: 12,
                d_hi: 4004, d_hi_k: 0, d_lo: 3946, d_lo_k: 0,
                r_hi: 11171160, r_lo: 10942258,
                q_hi: 124794815745600, q_lo: 119733010138564,
            },
        );
    } else if rest <= 0x15_ffff {
        lemma_piece(
            y,
            a,
            Piece {
                lo: 0x14_0000, hi: 0x15_ffff,
                y_hi: 2400, y_hi_k: 12, y_lo: 2368, y_lo_k: 12,
                z_hi: 2774, z_hi_k: 12, z_lo: 2757, z_lo_k: 12,
                u_hi: 3251, u_hi_k: 11, u_lo: 3187, u_lo_k: 11,
                t_hi: 2202, t_hi_k: 12, t_lo: 2145, t_lo_k: 12,
                d_hi: 3999, d_hi_k: 0, d_lo: 3942, d_lo_k: 0,
                r_hi: 11093226, r_lo: 10868094,
                q_hi: 123059663087076, q_lo: 118115467192836,
            },
        );
    } else if rest <= 0x17_ffff {
        lemma_piece(
            y,
            a,
            Piece {
                lo: 0x16_0000, hi: 0x17_ffff,
                y_hi: 2432, y_hi_k: 12, y_lo: 2400, y_lo_k: 12,
                z_hi: 2758, z_hi_k: 12, z_lo: 2741, z_lo_k: 12,
                u_hi: 3276, u_hi_k: 11, u_lo: 3212, u_lo_k: 11,
                t_hi: 2206, t_hi_k: 12, t_lo: 2149, t_lo_k: 12,
                d_hi: 3995, d_hi_k: 0, d_lo: 3938, d_lo_k: 0,
                r_hi: 11018210, r_lo: 10794058,
                q_hi: 121400951604100, q_lo: 116511688107364,
            },
        );
    } else if rest <= 0x19_ffff {
        lemma_piece(
            y,
            a,
            Piece {
                lo: 0x18_0000, hi: 0x19_ffff,
                y_hi: 2464, y_hi_k: 12, y_lo: 2432, y_lo_k: 12,
                z_hi: 2742, z_hi_k: 12, z_lo: 2725, z_lo_k: 12,
                u_hi: 3299, u_hi_k: 11, u_lo: 3235, u_lo_k: 11,
                t_hi: 2209, t_hi_k: 12, t_lo: 2152, t_lo_k: 12,
                d_hi: 3992, d_hi_k: 0, d_lo: 3935, d_lo_k: 0,
                r_hi: 10946064, r_lo: 10722875,
                q_hi: 119816317092096, q_lo: 114980048265625,
            },
        );
    } else if rest <= 0x1b_ffff {
        lemma_piece(
            y,
            a,
            Piece {
                lo: 0x1a_0000, hi: 0x1b_ffff,
                y_hi: 2496, y_hi_k: 12, y_lo: 2464, y_lo_k: 12,
                z_hi: 2726, z_hi_k: 12, z_lo: 2709, z_lo_k: 12,
                u_hi: 3323, u_hi_k: 11, u_lo: 3259, u_lo_k: 11,
                t_hi: 2212, t_hi_k: 12, t_lo: 2155, t_lo_k: 12,
                d_hi: 3989, d_hi_k: 0, d_lo: 3932, d_lo_k: 0,
                r_hi: 10874014, r_lo: 10651788,
                q_hi: 118244180472196, q_lo: 113460587596944,
            },
        );
    } else if rest <= 0x1d_ffff {
        lemma_piece(
            y,
            a,
            Piece {
                lo: 0x1c_0000, hi: 0x1d_ffff,
                y_hi: 2528, y_hi_k: 12, y_lo: 2496, y_lo_k: 12,
                z_hi: 2710, z_hi_k: 12, z_lo: 2693, z_lo_k: 12,
                u_hi: 3346, u_hi_k: 11, u_lo: 3282, u_lo_k: 11,
                t_hi: 2214, t_hi_k: 12, t_lo: 2157, t_lo_k: 12,
                d_hi: 3987, d_hi_k: 0, d_lo: 3930, d_lo_k: 0,
                r_hi: 10804770, r_lo: 10583490,
                q_hi: 116743054752900, q_lo: 112010260580100,
            },
        );
    } else {
        lemma_piece(
            y,
            a,
            Piece {
                lo: 0x1e_0000, hi: 0x1f_ffff,
                y_hi: 2560, y_hi_k: 12, y_lo: 2528, y_lo_k: 12,
                z_hi: 2694, z_hi_k: 12, z_lo: 2677, z_lo_k: 12,
                u_hi: 3368, u_hi_k: 11, u_lo: 3304, u_lo_k: 11,
                t_hi: 2216, t_hi_k: 12, t_lo: 2159, t_lo_k: 12,
                d_hi: 3985, d_hi_k: 0, d_lo: 3928, d_lo_k: 0,
                r_hi: 10735590, r_lo: 10515256,
                q_hi: 115252892648100, q_lo: 110570608745536,
            },
        );
    }
}

/// The pieces from `0x20_0000` to `0x2f_ffff`.
proof fn lemma_pieces_2(y: Binary32, a: nat)
    requires
        in_range_of(y, a, 0x20_0000, 0x2f_ffff),
    ensures
        within_two_percent(y),
{
    lemma2_to64();
    lemma2_to64_rest();
    let rest = y.bits - a * 0x100_0000;
    if rest <= 0x21_ffff {
        lemma_piece(
            y,
            a,
            Piece {
                lo: 0x20_0000, hi: 0x21_ffff,
                y_hi: 2592, y_hi_k: 12, y_lo: 2560, y_lo_k: 12,
                z_hi: 2678, z_hi_k: 12, z_lo: 2661, z_lo_k: 12,
                u_hi: 3390, u_hi_k: 11, u_lo: 3326, u_lo_k: 11,
                t_hi: 2217, t_hi_k: 12, t_lo: 2160, t_lo_k: 12,
                d_hi: 3984, d_hi_k: 0, d_lo: 3927, d_lo_k: 0,
                r_hi: 10669152, r_lo: 10449747,
                q_hi: 113830804399104, q_lo: 109197212364009,
            },
        );
    } else if rest <= 0x23_ffff {
        lemma_piece(
            y,
            a,
            Piece {
                lo: 0x22_0000, hi: 0x23_ffff,
                y_hi: 2624, y_hi_k: 12, y_lo: 2592, y_lo_k: 12,
                z_hi: 2662, z_hi_k: 12, z_lo: 2645, z_lo_k: 12,
                u_hi: 3411, u_hi_k: 11, u_lo: 3347, u_lo_k: 11,
                t_hi: 2217, t_hi_k: 12, t_lo: 2161, t_lo_k: 12,
                d_hi: 3983, d_hi_k: 0, d_lo: 3927, d_lo_k: 0,
                r_hi: 10602746, r_lo: 10386915,
                q_hi: 112418222740516, q_lo: 107888003217225,
            },
        );
    } else if rest <= 0x25_ffff {
        lemma_piece(
            y,
            a,
            Piece {
                lo: 0x24_0000, hi: 0x25_ffff,
                y_hi: 2656, y_hi_k: 12, y_lo: 2624, y_lo_k: 12,
                z_hi: 2646, z_hi_k: 12, z_lo: 2629, z_lo_k: 12,
                u_hi: 3432, u_hi_k: 11, u_lo: 3368, u_lo_k: 11,
                t_hi: 2218, t_hi_k: 12, t_lo: 2161, t_lo_k: 12,
                d_hi: 3983, d_hi_k: 0, d_lo: 3926, d_lo_k: 0,
                r_hi: 10539018, r_lo: 10321454,
                q_hi: 111070900404324, q_lo: 106532412674116,
            },
        );
    } else if rest <= 0x27_ffff {
        lemma_piece(
            y,
            a,
            Piece {
                lo: 0x26_0000, hi: 0x27_ffff,
                y_hi: 2688, y_hi_k: 12, y_lo: 2656, y_lo_k: 12,
                z_hi: 2630, z_hi_k: 12, z_lo: 2613, z_lo_k: 12,
                u_hi: 3452, u_hi_k: 11, u_lo: 3388, u_lo_k: 11,
                t_hi: 2217, t_hi_k: 12, t_lo: 2161, t_lo_k: 12,
                d_hi: 3983, d_hi_k: 0, d_lo: 3927, d_lo_k: 0,
                r_hi: 10475290, r_lo: 10261251,
                q_hi: 109731700584100, q_lo: 105293272085001,
            },
        );
    } else if rest <= 0x29_ffff {
        lemma_piece(
            y,
            a,
            Piece {
                lo: 0x28_0000, hi: 0x29_ffff,
                y_hi: 2720, y_hi_k: 12, y_lo: 2688, y_lo_k: 12,
                z_hi: 2614, z_hi_k: 12, z_lo: 2597, z_lo_k: 12,
                u_hi: 3472, u_hi_k: 11, u_lo: 3408, u_lo_k: 11,
                t_hi: 2216, t_hi_k: 12, t_lo: 2160, t_lo_k: 12,
                d_hi: 3984, d_hi_k: 0, d_lo: 3928, d_lo_k: 0,
                r_hi: 10414176, r_lo: 10201016,
                q_hi: 108455061758976, q_lo: 104060727432256,
            },
        );
    } else if rest <= 0x2b_ffff {
        lemma_piece(
            y,
            a,
            Piece {
                lo: 0x2a_0000, hi: 0x2b_ffff,
                y_hi: 2752, y_hi_k: 12, y_lo: 2720, y_lo_k: 12,
                z_hi: 2598, z_hi_k: 12, z_lo: 2581, z_lo_k: 12,
                u_hi: 3492, u_hi_k: 11, u_lo: 3427, u_lo_k: 11,
                t_hi: 2215, t_hi_k: 12, t_lo: 2159, t_lo_k: 12,
                d_hi: 3985, d_hi_k: 0, d_lo: 3929, d_lo_k: 0,
                r_hi: 10353030, r_lo: 10140749,
                q_hi: 107185230180900, q_lo: 102834790281001,
            },
        );
    } else if rest <= 0x2d_ffff {
        lemma_piece(
            y,
            a,
            Piece {
                lo: 0x2c_0000, hi: 0x2d_ffff,
                y_hi: 2784, y_hi_k: 12, y_lo: 2752, y_lo_k: 12,
                z_hi: 2582, z_hi_k: 12, z_lo: 2565, z_lo_k: 12,
                u_hi: 3510, u_hi_k: 11, u_lo: 3446, u_lo_k: 11,
                t_hi: 2213, t_hi_k: 12, t_lo: 2157, t_lo_k: 12,
                d_hi: 3987, d_hi_k: 0, d_lo: 3931, d_lo_k: 0,
                r_hi: 10294434, r_lo: 10083015,
                q_hi: 105975371380356, q_lo: 101667191490225,
            },
        );
    } else {
        lemma_piece(
            y,
            a,
            Piece {
                lo: 0x2e_0000, hi: 0x2f_ffff,
                y_hi: 2816, y_hi_k: 12, y_lo: 2784, y_lo_k: 12,
                z_hi: 2566, z_hi_k: 12, z_lo: 2549, z_lo_k: 12,
                u_hi: 3529, u_hi_k: 11, u_lo: 3465, u_lo_k: 11,
                t_hi: 2211, t_hi_k: 12, t_lo: 2156, t_lo_k: 12,
                d_hi: 3988, d_hi_k: 0, d_lo: 3933, d_lo_k: 0,
                r_hi: 10233208, r_lo: 10025217,
                q_hi: 104718545971264, q_lo: 100504975897089,
            },
        );
    }
}

/// The pieces from `0x30_0000` to `0x3f_ffff`.
proof fn lemma_pieces_3(y: Binary32, a: nat)
    requires
        in_range_of(y, a, 0x30_0000, 0x3f_ffff),
    ensures
        within_two_percent(y),
{
    lemma2_to64();
    lemma2_to64_rest();
    let rest = y.bits - a * 0x100_0000;
    if rest <= 0x31_ffff {
        lemma_piece(
            y,
            a,
            Piece {
                lo: 0x30_0000, hi: 0x31_ffff,
                y_hi: 2848, y_hi_k: 12, y_lo: 2816, y_lo_k: 12,
                z_hi: 2550, z_hi_k: 12, z_lo: 2533, z_lo_k: 12,
                u_hi: 3547, u_hi_k: 11, u_lo: 3482, u_lo_k: 11,
                t_hi: 2209, t_hi_k: 12, t_lo: 2153, t_lo_k: 12,
                d_hi: 3991, d_hi_k: 0, d_lo: 3935, d_lo_k: 0,
                r_hi: 10177050, r_lo: 9967355,
                q_hi: 103572346702500, q_lo: 99348165696025,
            },
        );
    } else if rest <= 0x33_ffff {
        lemma_piece(
            y,
            a,
            Piece {
                lo: 0x32_0000, hi: 0x33_ffff,
                y_hi: 2880, y_hi_k: 12, y_lo: 2848, y_lo_k: 12,
                z_hi: 2534, z_hi_k: 12, z_lo: 2517, z_lo_k: 12,
                u_hi: 3564, u_hi_k: 11, u_lo: 3500, u_lo_k: 11,
                t_hi: 2205, t_hi_k: 12, t_lo: 2150, t_lo_k: 12,
                d_hi: 3994, d_hi_k: 0, d_lo: 3939, d_lo_k: 0,
                r_hi: 10120796, r_lo: 9914463,
                q_hi: 102430511673616, q_lo: 98296576578369,
            },
        );
    } else if rest <= 0x35_ffff {
        lemma_piece(
            y,
            a,
            Piece {
                lo: 0x34_0000, hi: 0x35_ffff,
                y_hi: 2912, y_hi_k: 12, y_lo: 2880, y_lo_k: 12,
                z_hi: 2518, z_hi_k: 12, z_lo: 2501, z_lo_k: 12,
                u_hi: 3581, u_hi_k: 11, u_lo: 3517, u_lo_k: 11,
                t_hi: 2202, t_hi_k: 12, t_lo: 2147, t_lo_k: 12,
                d_hi: 3997, d_hi_k: 0, d_lo: 3942, d_lo_k: 0,
                r_hi: 10064446, r_lo: 9858942,
                q_hi: 101293073286916, q_lo: 97198737359364,
            },
        );
    } else if rest <= 0x37_ffff {
        lemma_piece(
            y,
            a,
            Piece {
                lo: 0x36_0000, hi: 0x37_ffff,
                y_hi: 2944, y_hi_k: 12, y_lo: 2912, y_lo_k: 12,
                z_hi: 2502, z_hi_k: 12, z_lo: 2485, z_lo_k: 12,
                u_hi: 3597, u_hi_k: 11, u_lo: 3533, u_lo_k: 11,
                t_hi: 2198, t_hi_k: 12, t_lo: 2143, t_lo_k: 12,
                d_hi: 4001, d_hi_k: 0, d_lo: 3946, d_lo_k: 0,
                r_hi: 10010502, r_lo: 9805810,
                q_hi: 100210150292004, q_lo: 96153909756100,
            },
        );
    } else if rest <= 0x39_ffff {
        lemma_piece(
            y,
            a,
            Piece {
                lo: 0x38_0000, hi: 0x39_ffff,
                y_hi: 2976, y_hi_k: 12, y_lo: 2944, y_lo_k: 12,
                z_hi: 2486, z_hi_k: 12, z_lo: 2469, z_lo_k: 12,
                u_hi: 3613, u_hi_k: 11, u_lo: 3549, u_lo_k: 11,
                t_hi: 2193, t_hi_k: 12, t_lo: 2139, t_lo_k: 12,
                d_hi: 4005, d_hi_k: 0, d_lo: 3951, d_lo_k: 0,
                r_hi: 9956430, r_lo: 9755019,
                q_hi: 99130498344900, q_lo: 95160395690361,
            },
        );
    } else if rest <= 0x3b_ffff {
        lemma_piece(
            y,
            a,
            Piece {
                lo: 0x3a_0000, hi: 0x3b_ffff,
                y_hi: 3008, y_hi_k: 12, y_lo: 2976, y_lo_k: 12,
                z_hi: 2470, z_hi_k: 12, z_lo: 2453, z_lo_k: 12,
                u_hi: 3628, u_hi_k: 11, u_lo: 3564, u_lo_k: 11,
                t_hi: 2188, t_hi_k: 12, t_lo: 2134, t_lo_k: 12,
                d_hi: 4010, d_hi_k: 0, d_lo: 3956, d_lo_k: 0,
                r_hi: 9904700, r_lo: 9704068,
                q_hi: 98103082090000, q_lo: 94168935748624,
            },
        );
    } else if rest <= 0x3d_ffff {
        lemma_piece(
            y,
            a,
            Piece {
                lo: 0x3c_0000, hi: 0x3d_ffff,
                y_hi: 3040, y_hi_k: 12, y_lo: 3008, y_lo_k: 12,
                z_hi: 2454, z_hi_k: 12, z_lo: 2437, z_lo_k: 12,
                u_hi: 3643, u_hi_k: 11, u_lo: 3579, u_lo_k: 11,
                t_hi: 2183, t_hi_k: 12, t_lo: 2129, t_lo_k: 12,
                d_hi: 4015, d_hi_k: 0, d_lo: 3961, d_lo_k: 0,
                r_hi: 9852810, r_lo: 9652957,
                q_hi: 97077864896100, q_lo: 93179578843849,
            },
        );
    } else {
        lemma_piece(
            y,
            a,
            Piece {
                lo: 0x3e_0000, hi: 0x3f_ffff,
                y_hi: 3072, y_hi_k: 12, y_lo: 3040, y_lo_k: 12,
                z_hi: 2438, z_hi_k: 12, z_lo: 2421, z_lo_k: 12,
                u_hi: 3657, u_hi_k: 11, u_lo: 3593, u_lo_k: 11,
                t_hi: 2177, t_hi_k: 12, t_lo: 2123, t_lo_k: 12,
                d_hi: 4021, d_hi_k: 0, d_lo: 3967, d_lo_k: 0,
                r_hi: 9803198, r_lo: 9604107,
                q_hi: 96102691027204, q_lo: 92238871267449,
            },
        );
    }
}

/// The pieces from `0x40_0000` to `0x4f_ffff`.
proof fn lemma_pieces_4(y: Binary32, a: nat)
    requires
        in_range_of(y, a, 0x40_0000, 0x4f_ffff),
    ensures
        within_two_percent(y),
{
    lemma2_to64();
    lemma2_to64_rest();
    let rest = y.bits - a * 0x100_0000;
    if rest <= 0x41_ffff {
        lemma_piece(
            y,
            a,
            Piece {
                lo: 0x40_0000, hi: 0x41_ffff,
                y_hi: 3104, y_hi_k: 12, y_lo: 3072, y_lo_k: 12,
                z_hi: 2422, z_hi_k: 12, z_lo: 2405, z_lo_k: 12,
                u_hi: 3671, u_hi_k: 11, u_lo: 3607, u_lo_k: 11,
                t_hi: 2171, t_hi_k: 12, t_lo: 2117, t_lo_k: 12,
                d_hi: 4027, d_hi_k: 0, d_lo: 3973, d_lo_k: 0,
                r_hi: 9753394, r_lo: 9555065,
                q_hi: 95128694519236, q_lo: 91299267154225,
            },
        );
    } else if rest <= 0x43_ffff {
        lemma_piece(
            y,
            a,
            Piece {
                lo: 0x42_0000, hi: 0x43_ffff,
                y_hi: 3136, y_hi_k: 12, y_lo: 3104, y_lo_k: 12,
                z_hi: 2406, z_hi_k: 12, z_lo: 2389, z_lo_k: 12,
                u_hi: 3685, u_hi_k: 11, u_lo: 3620, u_lo_k: 11,
                t_hi: 2165, t_hi_k: 12, t_lo: 2111, t_lo_k: 12,
                d_hi: 4033, d_hi_k: 0, d_lo: 3979, d_lo_k: 0,
                r_hi: 9703398, r_lo: 9505831,
                q_hi: 94155932746404, q_lo: 90360823000561,
            },
        );
    } else if rest <= 0x45_ffff {
        lemma_piece(
            y,
            a,
            Piece {
                lo: 0x44_0000, hi: 0x45_ffff,
                y_hi: 3168, y_hi_k: 12, y_lo: 3136, y_lo_k: 12,
                z_hi: 2390, z_hi_k: 12, z_lo: 2373, z_lo_k: 12,
                u_hi: 3698, u_hi_k: 11, u_lo: 3633, u_lo_k: 11,
                t_hi: 2158, t_hi_k: 12, t_lo: 2104, t_lo_k: 12,
                d_hi: 4040, d_hi_k: 0, d_lo: 3986, d_lo_k: 0,
                r_hi: 9655600, r_lo: 9458778,
                q_hi: 93230611360000, q_lo: 89468481253284,
            },
        );
    } else if rest <= 0x47_ffff {
        lemma_piece(
            y,
            a,
            Piece {
                lo: 0x46_0000, hi: 0x47_ffff,
                y_hi: 3200, y_hi_k: 12, y_lo: 3168, y_lo_k: 12,
                z_hi: 2374, z_hi_k: 12, z_lo: 2357, z_lo_k: 12,
                u_hi: 3710, u_hi_k: 11, u_lo: 3645, u_lo_k: 11,
                t_hi: 2151, t_hi_k: 12, t_lo: 2097, t_lo_k: 12,
                d_hi: 4047, d_hi_k: 0, d_lo: 3993, d_lo_k: 0,
                r_hi: 9607578, r_lo: 9411501,
                q_hi: 92305555026084, q_lo: 88576351073001,
            },
        );
    } else if rest <= 0x49_ffff {
        lemma_piece(
            y,
            a,
            Piece {
                lo: 0x48_0000, hi: 0x49_ffff,
                y_hi: 3232, y_hi_k: 12, y_lo: 3200, y_lo_k: 12,
                z_hi: 2358, z_hi_k: 12, z_lo: 2341, z_lo_k: 12,
                u_hi: 3722, u_hi_k: 11, u_lo: 3657, u_lo_k: 11,
                t_hi: 2143, t_hi_k: 12, t_lo: 2090, t_lo_k: 12,
                d_hi: 4054, d_hi_k: 0, d_lo: 4001, d_lo_k: 0,
                r_hi: 9559332, r_lo: 9366341,
                q_hi: 91380828286224, q_lo: 87728343728281,
            },
        );
    } else if rest <= 0x4b_ffff {
        lemma_piece(
            y,
            a,
            Piece {
                lo: 0x4a_0000, hi: 0x4b_ffff,
                y_hi: 3264, y_hi_k: 12, y_lo: 3232, y_lo_k: 12,
                z_hi: 2342, z_hi_k: 12, z_lo: 2325, z_lo_k: 12,
                u_hi: 3733, u_hi_k: 11, u_lo: 3669, u_lo_k: 11,
                t_hi: 2135, t_hi_k: 12, t_lo: 2082, t_lo_k: 12,
                d_hi: 4062, d_hi_k: 0, d_lo: 4009, d_lo_k: 0,
                r_hi: 9513204, r_lo: 9320925,
                q_hi: 90501050345616, q_lo: 86879642855625,
            },
        );
    } else if rest <= 0x4d_ffff {
        lemma_piece(
            y,
            a,
            Piece {
                lo: 0x4c_0000, hi: 0x4d_ffff,
                y_hi: 3296, y_hi_k: 12, y_lo: 3264, y_lo_k: 12,
                z_hi: 2326, z_hi_k: 12, z_lo: 2309, z_lo_k: 12,
                u_hi: 3744, u_hi_k: 11, u_lo: 3679, u_lo_k: 11,
                t_hi: 2127, t_hi_k: 12, t_lo: 2073, t_lo_k: 12,
                d_hi: 4071, d_hi_k: 0, d_lo: 4017, d_lo_k: 0,
                r_hi: 9469146, r_lo: 9275253,
                q_hi: 89664725969316, q_lo: 86030318214009,
            },
        );
    } else {
        lemma_piece(
            y,
            a,
            Piece {
                lo: 0x4e_0000, hi: 0x4f_ffff,
                y_hi: 3328, y_hi_k: 12, y_lo: 3296, y_lo_k: 12,
                z_hi: 2310, z_hi_k: 12, z_lo: 2293, z_lo_k: 12,
                u_hi: 3754, u_hi_k: 11, u_lo: 3690, u_lo_k: 11,
                t_hi: 2118, t_hi_k: 12, t_lo: 2065, t_lo_k: 12,
                d_hi: 4079, d_hi_k: 0, d_lo: 4026, d_lo_k: 0,
                r_hi: 9422490, r_lo: 9231618,
                q_hi: 88783317800100, q_lo: 85222770897924,
            },
        );
    }
}

/// The pieces from `0x50_0000` to `0x5f_ffff`.
proof fn lemma_pieces_5(y: Binary32, a: nat)
    requires
        in_range_of(y, a, 0x50_0000, 0x5f_ffff),
    ensures
        within_two_percent(y),
{
    lemma2_to64();
    lemma2_to64_rest();
    let rest = y.bits - a * 0x100_0000;
    if rest <= 0x51_ffff {
        lemma_piece(
            y,
            a,
            Piece {
                lo: 0x50_0000, hi: 0x51_ffff,
                y_hi: 3360, y_hi_k: 12, y_lo: 3328, y_lo_k: 12,
                z_hi: 2294, z_hi_k: 12, z_lo: 2277, z_lo_k: 12,
                u_hi: 3764, u_hi_k: 11, u_lo: 3700, u_lo_k: 11,
                t_hi: 2109, t_hi_k: 12, t_lo: 2056, t_lo_k: 12,
                d_hi: 4088, d_hi_k: 0, d_lo: 4035, d_lo_k: 0,
                r_hi: 9377872, r_lo: 9187695,
                q_hi: 87944483248384, q_lo: 84413739413025,
            },
        );
    } else if rest <= 0x53_ffff {
        lemma_piece(
            y,
            a,
            Piece {
                lo: 0x52_0000, hi: 0x53_ffff,
                y_hi: 3392, y_hi_k: 12, y_lo: 3360, y_lo_k: 12,
                z_hi: 2278, z_hi_k: 12, z_lo: 2261, z_lo_k: 12,
                u_hi: 3773, u_hi_k: 11, u_lo: 3709, u_lo_k: 11,
                t_hi: 2099, t_hi_k: 12, t_lo: 4094, t_lo_k: 11,
                d_hi: 2049, d_hi_k: 2, d_lo: 4045, d_lo_k: 0,
                r_hi: 4667622, r_lo: 9145745,
                q_hi: 21786695134884, q_lo: 83644651605025,
            },
        );
    } else if rest <= 0x55_ffff {
        lemma_piece(
            y,
            a,
            Piece {
                lo: 0x54_0000, hi: 0x55_ffff,
                y_hi: 3424, y_hi_k: 12, y_lo: 3392, y_lo_k: 12,
                z_hi: 2262, z_hi_k: 12, z_lo: 2245, z_lo_k: 12,
                u_hi: 3782, u_hi_k: 11, u_lo: 3718, u_lo_k: 11,
                t_hi: 2089, t_hi_k: 12, t_lo: 4075, t_lo_k: 11,
                d_hi: 2054, d_hi_k: 2, d_lo: 4055, d_lo_k: 0,
                r_hi: 4646148, r_lo: 9103475,
                q_hi: 21586691237904, q_lo: 82873257075625,
            },
        );
    } else if rest <= 0x57_ffff {
        lemma_piece(
            y,
            a,
            Piece {
                lo: 0x56_0000, hi: 0x57_ffff,
                y_hi: 3456, y_hi_k: 12, y_lo: 3424, y_lo_k: 12,
                z_hi: 2246, z_hi_k: 12, z_lo: 2229, z_lo_k: 12,
                u_hi: 3791, u_hi_k: 11, u_lo: 3726, u_lo_k: 11,
                t_hi: 2079, t_hi_k: 12, t_lo: 4055, t_lo_k: 11,
                d_hi: 2059, d_hi_k: 2, d_lo: 4065, d_lo_k: 0,
                r_hi: 4624514, r_lo: 9060885,
                q_hi: 21386129736196, q_lo: 82099636983225,
            },
        );
    } else if rest <= 0x59_ffff {
        lemma_piece(
            y,
            a,
            Piece {
                lo: 0x58_0000, hi: 0x59_ffff,
                y_hi: 3488, y_hi_k: 12, y_lo: 3456, y_lo_k: 12,
                z_hi: 2230, z_hi_k: 12, z_lo: 2213, z_lo_k: 12,
                u_hi: 3798, u_hi_k: 11, u_lo: 3734, u_lo_k: 11,
                t_hi: 2068, t_hi_k: 12, t_lo: 4034, t_lo_k: 11,
                d_hi: 2064, d_hi_k: 2, d_lo: 4076, d_lo_k: 0,
                r_hi: 4602720, r_lo: 9020188,
                q_hi: 21185031398400, q_lo: 81363791555344,
            },
        );
    } else if rest <= 0x5b_ffff {
        lemma_piece(
            y,
            a,
            Piece {
                lo: 0x5a_0000, hi: 0x5b_ffff,
                y_hi: 3520, y_hi_k: 12, y_lo: 3488, y_lo_k: 12,
                z_hi: 2214, z_hi_k: 12, z_lo: 2197, z_lo_k: 12,
                u_hi: 3806, u_hi_k: 11, u_lo: 3741, u_lo_k: 11,
                t_hi: 2058, t_hi_k: 12, t_lo: 4013, t_lo_k: 11,
                d_hi: 2069, d_hi_k: 2, d_lo: 4086, d_lo_k: 0,
                r_hi: 4580766, r_lo: 8976942,
                q_hi: 20983417146756, q_lo: 80585487671364,
            },
        );
    } else if rest <= 0x5d_ffff {
        lemma_piece(
            y,
            a,
            Piece {
                lo: 0x5c_0000, hi: 0x5d_ffff,
                y_hi: 3552, y_hi_k: 12, y_lo: 3520, y_lo_k: 12,
                z_hi: 2198, z_hi_k: 12, z_lo: 2181, z_lo_k: 12,
                u_hi: 3813, u_hi_k: 11, u_lo: 3748, u_lo_k: 11,
                t_hi: 4093, t_hi_k: 11, t_lo: 3991, t_lo_k: 11,
                d_hi: 2075, d_hi_k: 2, d_lo: 2048, d_lo_k: 2,
                r_hi: 4560850, r_lo: 4466688,
                q_hi: 20801352722500, q_lo: 19951301689344,
            },
        );
    } else {
        lemma_piece(
            y,
            a,
            Piece {
                lo: 0x5e_0000, hi: 0x5f_ffff,
                y_hi: 3584, y_hi_k: 12, y_lo: 3552, y_lo_k: 12,
                z_hi: 2182, z_hi_k: 12, z_lo: 2165, z_lo_k: 12,
                u_hi: 3819, u_hi_k: 11, u_lo: 3754, u_lo_k: 11,
                t_hi: 4069, t_hi_k: 11, t_lo: 3968, t_lo_k: 11,
                d_hi: 2080, d_hi_k: 2, d_lo: 2054, d_lo_k: 2,
                r_hi: 4538560, r_lo: 4446910,
                q_hi: 20598526873600, q_lo: 19775008548100,
            },
        );
    }
}

/// The pieces from `0x60_0000` to `0x6f_ffff`.
proof fn lemma_pieces_6(y: Binary32, a: nat)
    requires
        in_range_of(y, a, 0x60_0000, 0x6f_ffff),
    ensures
        within_two_percent(y),
{
    lemma2_to64();
    lemma2_to64_rest();
    let rest = y.bits - a * 0x100_0000;
    if rest <= 0x61_ffff {
        lemma_piece(
            y,
            a,
            Piece {
                lo: 0x60_0000, hi: 0x61_ffff,
                y_hi: 3616, y_hi_k: 12, y_lo: 3584, y_lo_k: 12,
                z_hi: 2166, z_hi_k: 12, z_lo: 2149, z_lo_k: 12,
                u_hi: 3825, u_hi_k: 11, u_lo: 3760, u_lo_k: 11,
                t_hi: 4046, t_hi_k: 11, t_lo: 3945, t_lo_k: 11,
                d_hi: 2086, d_hi_k: 2, d_lo: 2060, d_lo_k: 2,
                r_hi: 4518276, r_lo: 4426940,
                q_hi: 20414818012176, q_lo: 19597797763600,
            },
        );
    } else if rest <= 0x63_ffff {
        lemma_piece(
            y,
            a,
            Piece {
                lo: 0x62_0000, hi: 0x63_ffff,
                y_hi: 3648, y_hi_k: 12, y_lo: 3616, y_lo_k: 12,
                z_hi: 2150, z_hi_k: 12, z_lo: 2133, z_lo_k: 12,
                u_hi: 3830, u_hi_k: 11, u_lo: 3766, u_lo_k: 11,
                t_hi: 4021, t_hi_k: 11, t_lo: 3922, t_lo_k: 11,
                d_hi: 2092, d_hi_k: 2, d_lo: 2066, d_lo_k: 2,
                r_hi: 4497800, r_lo: 4406778,
                q_hi: 20230204840000, q_lo: 19419692341284,
            },
        );
    } else if rest <= 0x65_ffff {
        lemma_piece(
            y,
            a,
            Piece {
                lo: 0x64_0000, hi: 0x65_ffff,
                y_hi: 3680, y_hi_k: 12, y_lo: 3648, y_lo_k: 12,
                z_hi: 2134, z_hi_k: 12, z_lo: 2117, z_lo_k: 12,
                u_hi: 3835, u_hi_k: 11, u_lo: 3770, u_lo_k: 11,
                t_hi: 3997, t_hi_k: 11, t_lo: 3897, t_lo_k: 11,
                d_hi: 2098, d_hi_k: 2, d_lo: 2072, d_lo_k: 2,
                r_hi: 4477132, r_lo: 4386424,
                q_hi: 20044710945424, q_lo: 19240715507776,
            },
        );
    } else if rest <= 0x67_ffff {
        lemma_piece(
            y,
            a,
            Piece {
                lo: 0x66_0000, hi: 0x67_ffff,
                y_hi: 3712, y_hi_k: 12, y_lo: 3680, y_lo_k: 12,
                z_hi: 2118, z_hi_k: 12, z_lo: 2101, z_lo_k: 12,
                u_hi: 3839, u_hi_k: 11, u_lo: 3775, u_lo_k: 11,
                t_hi: 3971, t_hi_k: 11, t_lo: 3872, t_lo_k: 11,
                d_hi: 2104, d_hi_k: 2, d_lo: 2079, d_lo_k: 2,
                r_hi: 4456272, r_lo: 4367979,
                q_hi: 19858360137984, q_lo: 19079240544441,
            },
        );
    } else if rest <= 0x69_ffff {
        lemma_piece(
            y,
            a,
            Piece {
                lo: 0x68_0000, hi: 0x69_ffff,
                y_hi: 3744, y_hi_k: 12, y_lo: 3712, y_lo_k: 12,
                z_hi: 2102, z_hi_k: 12, z_lo: 2085, z_lo_k: 12,
                u_hi: 3843, u_hi_k: 11, u_lo: 3779, u_lo_k: 11,
                t_hi: 3945, t_hi_k: 11, t_lo: 3847, t_lo_k: 11,
                d_hi: 2111, d_hi_k: 2, d_lo: 2085, d_lo_k: 2,
                r_hi: 4437322, r_lo: 4347225,
                q_hi: 19689826531684, q_lo: 18898365200625,
            },
        );
    } else if rest <= 0x6b_ffff {
        lemma_piece(
            y,
            a,
            Piece {
                lo: 0x6a_0000, hi: 0x6b_ffff,
                y_hi: 3776, y_hi_k: 12, y_lo: 3744, y_lo_k: 12,
                z_hi: 2086, z_hi_k: 12, z_lo: 2069, z_lo_k: 12,
                u_hi: 3847, u_hi_k: 11, u_lo: 3782, u_lo_k: 11,
                t_hi: 3919, t_hi_k: 11, t_lo: 3820, t_lo_k: 11,
                d_hi: 2117, d_hi_k: 2, d_lo: 2092, d_lo_k: 2,
                r_hi: 4416062, r_lo: 4328348,
                q_hi: 19501603587844, q_lo: 18734596409104,
            },
        );
    } else if rest <= 0x6d_ffff {
        lemma_piece(
            y,
            a,
            Piece {
                lo: 0x6c_0000, hi: 0x6d_ffff,
                y_hi: 3808, y_hi_k: 12, y_lo: 3776, y_lo_k: 12,
                z_hi: 2070, z_hi_k: 12, z_lo: 2053, z_lo_k: 12,
                u_hi: 3849, u_hi_k: 11, u_lo: 3785, u_lo_k: 11,
                t_hi: 3891, t_hi_k: 11, t_lo: 3794, t_lo_k: 11,
                d_hi: 2124, d_hi_k: 2, d_lo: 2099, d_lo_k: 2,
                r_hi: 4396680, r_lo: 4309247,
                q_hi: 19330795022400, q_lo: 18569609707009,
            },
        );
    } else {
        lemma_piece(
            y,
            a,
            Piece {
                lo: 0x6e_0000, hi: 0x6f_ffff,
                y_hi: 3840, y_hi_k: 12, y_lo: 3808, y_lo_k: 12,
                z_hi: 2054, z_hi_k: 12, z_lo: 4085, z_lo_k: 12,
                u_hi: 3852, u_hi_k: 11, u_lo: 3797, u_lo_k: 12,
                t_hi: 3864, t_hi_k: 11, t_lo: 3786, t_lo_k: 12,
                d_hi: 2126, d_hi_k: 2, d_lo: 2106, d_lo_k: 2,
                r_hi: 4366804, r_lo: 8603010,
                q_hi: 19068977174416, q_lo: 74011781060100,
            },
        );
    }
}

/// The pieces from `0x70_0000` to `0x7f_ffff`.
proof fn lemma_pieces_7(y: Binary32, a: nat)
    requires
        in_range_of(y, a, 0x70_0000, 0x7f_ffff),
    ensures
        within_two_percent(y),
{
    lemma2_to64();
    lemma2_to64_rest();
    let rest = y.bits - a * 0x100_0000;
    if rest <= 0x71_ffff {
        lemma_piece(
            y,
            a,
            Piece {
                lo: 0x70_0000, hi: 0x71_ffff,
                y_hi: 3872, y_hi_k: 12, y_lo: 3840, y_lo_k: 12,
                z_hi: 4086, z_hi_k: 12, z_lo: 4069, z_lo_k: 12,
                u_hi: 3863, u_hi_k: 12, u_lo: 3814, u_lo_k: 12,
                t_hi: 3854, t_hi_k: 12, t_lo: 3788, t_lo_k: 12,
                d_hi: 2125, d_hi_k: 2, d_lo: 2108, d_lo_k: 2,
                r_hi: 8682750, r_lo: 8577452,
                q_hi: 75390147562500, q_lo: 73572682812304,
            },
        );
    } else if rest <= 0x73_ffff {
        lemma_piece(
            y,
            a,
            Piece {
                lo: 0x72_0000, hi: 0x73_ffff,
                y_hi: 3904, y_hi_k: 12, y_lo: 3872, y_lo_k: 12,
                z_hi: 4070, z_hi_k: 12, z_lo: 4053, z_lo_k: 12,
                u_hi: 3880, u_hi_k: 12, u_lo: 3831, u_lo_k: 12,
                t_hi: 3856, t_hi_k: 12, t_lo: 3790, t_lo_k: 12,
                d_hi: 2125, d_hi_k: 2, d_lo: 2108, d_lo_k: 2,
                r_hi: 8648750, r_lo: 8543724,
                q_hi: 74800876562500, q_lo: 72995219788176,
            },
        );
    } else if rest <= 0x75_ffff {
        lemma_piece(
            y,
            a,
            Piece {
                lo: 0x74_0000, hi: 0x75_ffff,
                y_hi: 3936, y_hi_k: 12, y_lo: 3904, y_lo_k: 12,
                z_hi: 4054, z_hi_k: 12, z_lo: 4037, z_lo_k: 12,
                u_hi: 3896, u_hi_k: 12, u_lo: 3847, u_lo_k: 12,
                t_hi: 3857, t_hi_k: 12, t_lo: 3791, t_lo_k: 12,
                d_hi: 2125, d_hi_k: 2, d_lo: 2107, d_lo_k: 2,
                r_hi: 8614750, r_lo: 8505959,
                q_hi: 74213917562500, q_lo: 72351338509681,
            },
        );
    } else if rest <= 0x77_ffff {
        lemma_piece(
            y,
            a,
            Piece {
                lo: 0x76_0000, hi: 0x77_ffff,
                y_hi: 3968, y_hi_k: 12, y_lo: 3936, y_lo_k: 12,
                z_hi: 4038, z_hi_k: 12, z_lo: 4021, z_lo_k: 12,
                u_hi: 3912, u_hi_k: 12, u_lo: 3863, u_lo_k: 12,
                t_hi: 3857, t_hi_k: 12, t_lo: 3792, t_lo_k: 12,
                d_hi: 2124, d_hi_k: 2, d_lo: 2107, d_lo_k: 2,
                r_hi: 8576712, r_lo: 8472247,
                q_hi: 73559988730944, q_lo: 71778969229009,
            },
        );
    } else if rest <= 0x79_ffff {
        lemma_piece(
            y,
            a,
            Piece {
                lo: 0x78_0000, hi: 0x79_ffff,
                y_hi: 4000, y_hi_k: 12, y_lo: 3968, y_lo_k: 12,
                z_hi: 4022, z_hi_k: 12, z_lo: 4005, z_lo_k: 12,
                u_hi: 3928, u_hi_k: 12, u_lo: 3879, u_lo_k: 12,
                t_hi: 3858, t_hi_k: 12, t_lo: 3792, t_lo_k: 12,
                d_hi: 2124, d_hi_k: 2, d_lo: 2107, d_lo_k: 2,
                r_hi: 8542728, r_lo: 8438535,
                q_hi: 72978201681984, q_lo: 71208872946225,
            },
        );
    } else if rest <= 0x7b_ffff {
        lemma_piece(
            y,
            a,
            Piece {
                lo: 0x7a_0000, hi: 0x7b_ffff,
                y_hi: 4032, y_hi_k: 12, y_lo: 4000, y_lo_k: 12,
                z_hi: 4006, z_hi_k: 12, z_lo: 3989, z_lo_k: 12,
                u_hi: 3944, u_hi_k: 12, u_lo: 3895, u_lo_k: 12,
                t_hi: 3858, t_hi_k: 12, t_lo: 3793, t_lo_k: 12,
                d_hi: 2124, d_hi_k: 2, d_lo: 2107, d_lo_k: 2,
                r_hi: 8508744, r_lo: 8404823,
                q_hi: 72398724457536, q_lo: 70641049661329,
            },
        );
    } else if rest <= 0x7d_ffff {
        lemma_piece(
            y,
            a,
            Piece {
                lo: 0x7c_0000, hi: 0x7d_ffff,
                y_hi: 4064, y_hi_k: 12, y_lo: 4032, y_lo_k: 12,
                z_hi: 3990, z_hi_k: 12, z_lo: 3973, z_lo_k: 12,
                u_hi: 3959, u_hi_k: 12, u_lo: 3910, u_lo_k: 12,
                t_hi: 3857, t_hi_k: 12, t_lo: 3792, t_lo_k: 12,
                d_hi: 2124, d_hi_k: 2, d_lo: 2107, d_lo_k: 2,
                r_hi: 8474760, r_lo: 8371111,
                q_hi: 71821557057600, q_lo: 70075499374321,
            },
        );
    } else {
        lemma_piece(
            y,
            a,
            Piece {
                lo: 0x7e_0000, hi: 0x7f_ffff,
                y_hi: 4096, y_hi_k: 12, y_lo: 4064, y_lo_k: 12,
                z_hi: 3974, z_hi_k: 12, z_lo: 3957, z_lo_k: 12,
                u_hi: 3974, u_hi_k: 12, u_lo: 3926, u_lo_k: 12,
                t_hi: 3856, t_hi_k: 12, t_lo: 3792, t_lo_k: 12,
                d_hi: 2124, d_hi_k: 2, d_lo: 2108, d_lo_k: 2,
                r_hi: 8440776, r_lo: 8341356,
                q_hi: 71246699482176, q_lo: 69578219918736,
            },
        );
    }
}

/// The pieces from `0x80_0000` to `0x8f_ffff`.
proof fn lemma_pieces_8(y: Binary32, a: nat)
    requires
        in_range_of(y, a, 0x80_0000, 0x8f_ffff),
    ensures
        within_two_percent(y),
{
    lemma2_to64();
    lemma2_to64_rest();
    let rest = y.bits - a * 0x100_0000;
    if rest <= 0x81_ffff {
        lemma_piece(
            y,
            a,
            Piece {
                lo: 0x80_0000, hi: 0x81_ffff,
                y_hi: 2080, y_hi_k: 12, y_lo: 2048, y_lo_k: 12,
                z_hi: 3958, z_hi_k: 12, z_lo: 3941, z_lo_k: 12,
                u_hi: 4020, u_hi_k: 11, u_lo: 3941, u_lo_k: 11,
                t_hi: 3885, t_hi_k: 12, t_lo: 3791, t_lo_k: 12,
                d_hi: 2125, d_hi_k: 2, d_lo: 2100, d_lo_k: 2,
                r_hi: 8410750, r_lo: 8276100,
                q_hi: 70740715562500, q_lo: 68493831210000,
            },
        );
    } else if rest <= 0x83_ffff {
        lemma_piece(
            y,
            a,
            Piece {
                lo: 0x82_0000, hi: 0x83_ffff,
                y_hi: 2112, y_hi_k: 12, y_lo: 2080, y_lo_k: 12,
                z_hi: 3942, z_hi_k: 12, z_lo: 3925, z_lo_k: 12,
                u_hi: 4066, u_hi_k: 11, u_lo: 3986, u_lo_k: 11,
                t_hi: 3914, t_hi_k: 12, t_lo: 3819, t_lo_k: 12,
                d_hi: 2118, d_hi_k: 2, d_lo: 2093, d_lo_k: 2,
                r_hi: 8349156, r_lo: 8215025,
                q_hi: 69708405912336, q_lo: 67486635750625,
            },
        );
    } else if rest <= 0x85_ffff {
        lemma_piece(
            y,
            a,
            Piece {
                lo: 0x84_0000, hi: 0x85_ffff,
                y_hi: 2144, y_hi_k: 12, y_lo: 2112, y_lo_k: 12,
                z_hi: 3926, z_hi_k: 12, z_lo: 3909, z_lo_k: 12,
                u_hi: 2056, u_hi_k: 12, u_lo: 4031, u_lo_k: 11,
                t_hi: 3942, t_hi_k: 11, t_lo: 3846, t_lo_k: 12,
                d_hi: 2111, d_hi_k: 2, d_lo: 2086, d_lo_k: 2,
                r_hi: 8287786, r_lo: 8154174,
                q_hi: 68687396781796, q_lo: 66490553622276,
            },
        );
    } else if rest <= 0x87_ffff {
        lemma_piece(
            y,
            a,
            Piece {
                lo: 0x86_0000, hi: 0x87_ffff,
                y_hi: 2176, y_hi_k: 12, y_lo: 2144, y_lo_k: 12,
                z_hi: 3910, z_hi_k: 12, z_lo: 3893, z_lo_k: 12,
                u_hi: 2078, u_hi_k: 12, u_lo: 4075, u_lo_k: 11,
                t_hi: 3968, t_hi_k: 11, t_lo: 3873, t_lo_k: 12,
                d_hi: 2104, d_hi_k: 2, d_lo: 2080, d_lo_k: 2,
                r_hi: 8226640, r_lo: 8097440,
                q_hi: 67677605689600, q_lo: 65568534553600,
            },
        );
    } else if rest <= 0x89_ffff {
        lemma_piece(
            y,
            a,
            Piece {
                lo: 0x88_0000, hi: 0x89_ffff,
                y_hi: 2208, y_hi_k: 12, y_lo: 2176, y_lo_k: 12,
                z_hi: 3894, z_hi_k: 12, z_lo: 3877, z_lo_k: 12,
                u_hi: 2100, u_hi_k: 12, u_lo: 2059, u_lo_k: 12,
                t_hi: 3993, t_hi_k: 11, t_lo: 3897, t_lo_k: 11,
                d_hi: 2098, d_hi_k: 2, d_lo: 2073, d_lo_k: 2,
                r_hi: 8169612, r_lo: 8037021,
                q_hi: 66742560230544, q_lo: 64593706554441,
            },
        );
    } else if rest <= 0x8b_ffff {
        lemma_piece(
            y,
            a,
            Piece {
                lo: 0x8a_0000, hi: 0x8b_ffff,
                y_hi: 2240, y_hi_k: 12, y_lo: 2208, y_lo_k: 12,
                z_hi: 3878, z_hi_k: 12, z_lo: 3861, z_lo_k: 12,
                u_hi: 2121, u_hi_k: 12, u_lo: 2081, u_lo_k: 12,
                t_hi: 4017, t_hi_k: 11, t_lo: 3923, t_lo_k: 11,
                d_hi: 2092, d_hi_k: 2, d_lo: 2067, d_lo_k: 2,
                r_hi: 8112776, r_lo: 7980687,
                q_hi: 65817134426176, q_lo: 63691364991969,
            },
        );
    } else if rest <= 0x8d_ffff {
        lemma_piece(
            y,
            a,
            Piece {
                lo: 0x8c_0000, hi: 0x8d_ffff,
                y_hi: 2272, y_hi_k: 12, y_lo: 2240, y_lo_k: 12,
                z_hi: 3862, z_hi_k: 12, z_lo: 3845, z_lo_k: 12,
                u_hi: 2143, u_hi_k: 12, u_lo: 2102, u_lo_k: 12,
                t_hi: 4042, t_hi_k: 11, t_lo: 3946, t_lo_k: 11,
                d_hi: 2086, d_hi_k: 2, d_lo: 2061, d_lo_k: 2,
                r_hi: 8056132, r_lo: 7924545,
                q_hi: 64901262801424, q_lo: 62798413457025,
            },
        );
    } else {
        lemma_piece(
            y,
            a,
            Piece {
                lo: 0x8e_0000, hi: 0x8f_ffff,
                y_hi: 2304, y_hi_k: 12, y_lo: 2272, y_lo_k: 12,
                z_hi: 3846, z_hi_k: 12, z_lo: 3829, z_lo_k: 12,
                u_hi: 2164, u_hi_k: 12, u_lo: 2123, u_lo_k: 12,
                t_hi: 4064, t_hi_k: 11, t_lo: 3969, t_lo_k: 11,
                d_hi: 2080, d_hi_k: 2, d_lo: 2056, d_lo_k: 2,
                r_hi: 7999680, r_lo: 7872424,
                q_hi: 63994880102400, q_lo: 61975059635776,
            },
        );
    }
}

/// The pieces from `0x90_0000` to `0x9f_ffff`.
proof fn lemma_pieces_9(y: Binary32, a: nat)
    requires
        in_range_of(y, a, 0x90_0000, 0x9f_ffff),
    ensures
        within_two_percent(y),
{
    lemma2_to64();
    lemma2_to64_rest();
    let rest = y.bits - a * 0x100_0000;
    if rest <= 0x91_ffff {
        lemma_piece(
            y,
            a,
            Piece {
                lo: 0x90_0000, hi: 0x91_ffff,
                y_hi: 2336, y_hi_k: 12, y_lo: 2304, y_lo_k: 12,
                z_hi: 3830, z_hi_k: 12, z_lo: 3813, z_lo_k: 12,
                u_hi: 2185, u_hi_k: 12, u_lo: 2144, u_lo_k: 12,
                t_hi: 4087, t_hi_k: 11, t_lo: 3991, t_lo_k: 11,
                d_hi: 2075, d_hi_k: 2, d_lo: 2050, d_lo_k: 2,
                r_hi: 7947250, r_lo: 7816650,
                q_hi: 63158782562500, q_lo: 61100017222500,
            },
        );
    } else if rest <= 0x93_ffff {
        lemma_piece(
            y,
            a,
            Piece {
                lo: 0x92_0000, hi: 0x93_ffff,
                y_hi: 2368, y_hi_k: 12, y_lo: 2336, y_lo_k: 12,
                z_hi: 3814, z_hi_k: 12, z_lo: 3797, z_lo_k: 12,
                u_hi: 2205, u_hi_k: 12, u_lo: 2165, u_lo_k: 12,
                t_hi: 2054, t_hi_k: 12, t_lo: 4013, t_lo_k: 11,
                d_hi: 2069, d_hi_k: 2, d_lo: 4090, d_lo_k: 0,
                r_hi: 7891166, r_lo: 15529730,
                q_hi: 62270500839556, q_lo: 241172513872900,
            },
        );
    } else if rest <= 0x95_ffff {
        lemma_piece(
            y,
            a,
            Piece {
                lo: 0x94_0000, hi: 0x95_ffff,
                y_hi: 2400, y_hi_k: 12, y_lo: 2368, y_lo_k: 12,
                z_hi: 3798, z_hi_k: 12, z_lo: 3781, z_lo_k: 12,
                u_hi: 2226, u_hi_k: 12, u_lo: 2185, u_lo_k: 12,
                t_hi: 2065, t_hi_k: 12, t_lo: 4033, t_lo_k: 11,
                d_hi: 2064, d_hi_k: 2, d_lo: 4079, d_lo_k: 0,
                r_hi: 7839072, r_lo: 15422699,
                q_hi: 61451049821184, q_lo: 237859644444601,
            },
        );
    } else if rest <= 0x97_ffff {
        lemma_piece(
            y,
            a,
            Piece {
                lo: 0x96_0000, hi: 0x97_ffff,
                y_hi: 2432, y_hi_k: 12, y_lo: 2400, y_lo_k: 12,
                z_hi: 3782, z_hi_k: 12, z_lo: 3765, z_lo_k: 12,
                u_hi: 2246, u_hi_k: 12, u_lo: 2206, u_lo_k: 12,
                t_hi: 2074, t_hi_k: 12, t_lo: 4055, t_lo_k: 11,
                d_hi: 2059, d_hi_k: 2, d_lo: 4070, d_lo_k: 0,
                r_hi: 7787138, r_lo: 15323550,
                q_hi: 60639518231044, q_lo: 234811184602500,
            },
        );
    } else if rest <= 0x99_ffff {
        lemma_piece(
            y,
            a,
            Piece {
                lo: 0x98_0000, hi: 0x99_ffff,
                y_hi: 2464, y_hi_k: 12, y_lo: 2432, y_lo_k: 12,
                z_hi: 3766, z_hi_k: 12, z_lo: 3749, z_lo_k: 12,
                u_hi: 2266, u_hi_k: 12, u_lo: 2225, u_lo_k: 12,
                t_hi: 2084, t_hi_k: 12, t_lo: 4073, t_lo_k: 11,
                d_hi: 2054, d_hi_k: 2, d_lo: 4060, d_lo_k: 0,
                r_hi: 7735364, r_lo: 15220940,
                q_hi: 59835856212496, q_lo: 231677014483600,
            },
        );
    } else if rest <= 0x9b_ffff {
        lemma_piece(
            y,
            a,
            Piece {
                lo: 0x9a_0000, hi: 0x9b_ffff,
                y_hi: 2496, y_hi_k: 12, y_lo: 2464, y_lo_k: 12,
                z_hi: 3750, z_hi_k: 12, z_lo: 3733, z_lo_k: 12,
                u_hi: 2286, u_hi_k: 12, u_lo: 2245, u_lo_k: 12,
                t_hi: 2093, t_hi_k: 12, t_lo: 4092, t_lo_k: 11,
                d_hi: 2049, d_hi_k: 2, d_lo: 4051, d_lo_k: 0,
                r_hi: 7683750, r_lo: 15122383,
                q_hi: 59040014062500, q_lo: 228686467598689,
            },
        );
    } else if rest <= 0x9d_ffff {
        lemma_piece(
            y,
            a,
            Piece {
                lo: 0x9c_0000, hi: 0x9d_ffff,
                y_hi: 2528, y_hi_k: 12, y_lo: 2496, y_lo_k: 12,
                z_hi: 3734, z_hi_k: 12, z_lo: 3717, z_lo_k: 12,
                u_hi: 2305, u_hi_k: 12, u_lo: 2265, u_lo_k: 12,
                t_hi: 2102, t_hi_k: 12, t_lo: 2055, t_lo_k: 12,
                d_hi: 4089, d_hi_k: 0, d_lo: 4042, d_lo_k: 0,
                r_hi: 15268326, r_lo: 15024114,
                q_hi: 233121778842276, q_lo: 225724001484996,
            },
        );
    } else {
        lemma_piece(
            y,
            a,
            Piece {
                lo: 0x9e_0000, hi: 0x9f_ffff,
                y_hi: 2560, y_hi_k: 12, y_lo: 2528, y_lo_k: 12,
                z_hi: 3718, z_hi_k: 12, z_lo: 3701, z_lo_k: 12,
                u_hi: 2324, u_hi_k: 12, u_lo: 2284, u_lo_k: 12,
                t_hi: 2110, t_hi_k: 12, t_lo: 2063, t_lo_k: 12,
                d_hi: 4081, d_hi_k: 0, d_lo: 4034, d_lo_k: 0,
                r_hi: 15173158, r_lo: 14929834,
                q_hi: 230224723692964, q_lo: 222899943267556,
            },
        );
    }
}

/// The pieces from `0xa0_0000` to `0xaf_ffff`.
proof fn lemma_pieces_10(y: Binary32, a: nat)
    requires
        in_range_of(y, a, 0xa0_0000, 0xaf_ffff),
    ensures
        within_two_percent(y),
{
    lemma2_to64();
    lemma2_to64_rest();
    let rest = y.bits - a * 0x100_0000;
    if rest <= 0xa1_ffff {
        lemma_piece(
            y,
            a,
            Piece {
                lo: 0xa0_0000, hi: 0xa1_ffff,
                y_hi: 2592, y_hi_k: 12, y_lo: 2560, y_lo_k: 12,
                z_hi: 3702, z_hi_k: 12, z_lo: 3685, z_lo_k: 12,
                u_hi: 2343, u_hi_k: 12, u_lo: 2303, u_lo_k: 12,
                t_hi: 2118, t_hi_k: 12, t_lo: 2071, t_lo_k: 12,
                d_hi: 4073, d_hi_k: 0, d_lo: 4026, d_lo_k: 0,
                r_hi: 15078246, r_lo: 14835810,
                q_hi: 227353502436516, q_lo: 220101258356100,
            },
        );
    } else if rest <= 0xa3_ffff {
        lemma_piece(
            y,
            a,
            Piece {
                lo: 0xa2_0000, hi: 0xa3_ffff,
                y_hi: 2624, y_hi_k: 12, y_lo: 2592, y_lo_k: 12,
                z_hi: 3686, z_hi_k: 12, z_lo: 3669, z_lo_k: 12,
                u_hi: 2362, u_hi_k: 12, u_lo: 2321, u_lo_k: 12,
                t_hi: 2126, t_hi_k: 12, t_lo: 2079, t_lo_k: 12,
                d_hi: 4065, d_hi_k: 0, d_lo: 4018, d_lo_k: 0,
                r_hi: 14983590, r_lo: 14742042,
                q_hi: 224507969288100, q_lo: 217327802329764,
            },
        );
    } else if rest <= 0xa5_ffff {
        lemma_piece(
            y,
            a,
            Piece {
                lo: 0xa4_0000, hi: 0xa5_ffff,
                y_hi: 2656, y_hi_k: 12, y_lo: 2624, y_lo_k: 12,
                z_hi: 3670, z_hi_k: 12, z_lo: 3653, z_lo_k: 12,
                u_hi: 2380, u_hi_k: 12, u_lo: 2340, u_lo_k: 12,
                t_hi: 2133, t_hi_k: 12, t_lo: 2086, t_lo_k: 12,
                d_hi: 4058, d_hi_k: 0, d_lo: 4011, d_lo_k: 0,
                r_hi: 14892860, r_lo: 14652183,
                q_hi: 221797278979600, q_lo: 214686466665489,
            },
        );
    } else if rest <= 0xa7_ffff {
        lemma_piece(
            y,
            a,
            Piece {
                lo: 0xa6_0000, hi: 0xa7_ffff,
                y_hi: 2688, y_hi_k: 12, y_lo: 2656, y_lo_k: 12,
                z_hi: 3654, z_hi_k: 12, z_lo: 3637, z_lo_k: 12,
                u_hi: 2398, u_hi_k: 12, u_lo: 2358, u_lo_k: 12,
                t_hi: 2140, t_hi_k: 12, t_lo: 2093, t_lo_k: 12,
                d_hi: 4051, d_hi_k: 0, d_lo: 4004, d_lo_k: 0,
                r_hi: 14802354, r_lo: 14562548,
                q_hi: 219109683941316, q_lo: 212067804252304,
            },
        );
    } else if rest <= 0xa9_ffff {
        lemma_piece(
            y,
            a,
            Piece {
                lo: 0xa8_0000, hi: 0xa9_ffff,
                y_hi: 2720, y_hi_k: 12, y_lo: 2688, y_lo_k: 12,
                z_hi: 3638, z_hi_k: 12, z_lo: 3621, z_lo_k: 12,
                u_hi: 2416, u_hi_k: 12, u_lo: 2376, u_lo_k: 12,
                t_hi: 2146, t_hi_k: 12, t_lo: 2100, t_lo_k: 12,
                d_hi: 4044, d_hi_k: 0, d_lo: 3998, d_lo_k: 0,
                r_hi: 14712072, r_lo: 14476758,
                q_hi: 216445062533184, q_lo: 209576522190564,
            },
        );
    } else if rest <= 0xab_ffff {
        lemma_piece(
            y,
            a,
            Piece {
                lo: 0xaa_0000, hi: 0xab_ffff,
                y_hi: 2752, y_hi_k: 12, y_lo: 2720, y_lo_k: 12,
                z_hi: 3622, z_hi_k: 12, z_lo: 3605, z_lo_k: 12,
                u_hi: 2434, u_hi_k: 12, u_lo: 2393, u_lo_k: 12,
                t_hi: 2153, t_hi_k: 12, t_lo: 2106, t_lo_k: 12,
                d_hi: 4038, d_hi_k: 0, d_lo: 3991, d_lo_k: 0,
                r_hi: 14625636, r_lo: 14387555,
                q_hi: 213909228404496, q_lo: 207001738878025,
            },
        );
    } else if rest <= 0xad_ffff {
        lemma_piece(
            y,
            a,
            Piece {
                lo: 0xac_0000, hi: 0xad_ffff,
                y_hi: 2784, y_hi_k: 12, y_lo: 2752, y_lo_k: 12,
                z_hi: 3606, z_hi_k: 12, z_lo: 3589, z_lo_k: 12,
                u_hi: 2451, u_hi_k: 12, u_lo: 2411, u_lo_k: 12,
                t_hi: 2158, t_hi_k: 12, t_lo: 2112, t_lo_k: 12,
                d_hi: 4032, d_hi_k: 0, d_lo: 3986, d_lo_k: 0,
                r_hi: 14539392, r_lo: 14305754,
                q_hi: 211393919729664, q_lo: 204654597508516,
            },
        );
    } else {
        lemma_piece(
            y,
            a,
            Piece {
                lo: 0xae_0000, hi: 0xaf_ffff,
                y_hi: 2816, y_hi_k: 12, y_lo: 2784, y_lo_k: 12,
                z_hi: 3590, z_hi_k: 12, z_lo: 3573, z_lo_k: 12,
                u_hi: 2469, u_hi_k: 12, u_lo: 2428, u_lo_k: 12,
                t_hi: 2164, t_hi_k: 12, t_lo: 2117, t_lo_k: 12,
                d_hi: 4027, d_hi_k: 0, d_lo: 3980, d_lo_k: 0,
                r_hi: 14456930, r_lo: 14220540,
                q_hi: 209002825024900, q_lo: 202223757891600,
            },
        );
    }
}

/// The pieces from `0xb0_0000` to `0xbf_ffff`.
proof fn lemma_pieces_11(y: Binary32, a: nat)
    requires
        in_range_of(y, a, 0xb0_0000, 0xbf_ffff),
    ensures
        within_two_percent(y),
{
    lemma2_to64();
    lemma2_to64_rest();
    let rest = y.bits - a * 0x100_0000;
    if rest <= 0xb1_ffff {
        lemma_piece(
            y,
            a,
            Piece {
                lo: 0xb0_0000, hi: 0xb1_ffff,
                y_hi: 2848, y_hi_k: 12, y_lo: 2816, y_lo_k: 12,
                z_hi: 3574, z_hi_k: 12, z_lo: 3557, z_lo_k: 12,
                u_hi: 2486, u_hi_k: 12, u_lo: 2445, u_lo_k: 12,
                t_hi: 2170, t_hi_k: 12, t_lo: 2123, t_lo_k: 12,
                d_hi: 4021, d_hi_k: 0, d_lo: 3974, d_lo_k: 0,
                r_hi: 14371054, r_lo: 14135518,
                q_hi: 206527193070916, q_lo: 199812869128324,
            },
        );
    } else if rest <= 0xb3_ffff {
        lemma_piece(
            y,
            a,
            Piece {
                lo: 0xb2_0000, hi: 0xb3_ffff,
                y_hi: 2880, y_hi_k: 12, y_lo: 2848, y_lo_k: 12,
                z_hi: 3558, z_hi_k: 12, z_lo: 3541, z_lo_k: 12,
                u_hi: 2502, u_hi_k: 12, u_lo: 2462, u_lo_k: 12,
                t_hi: 2174, t_hi_k: 12, t_lo: 2128, t_lo_k: 12,
                d_hi: 4016, d_hi_k: 0, d_lo: 3970, d_lo_k: 0,
                r_hi: 14288928, r_lo: 14057770,
                q_hi: 204173463389184, q_lo: 197620897372900,
            },
        );
    } else if rest <= 0xb5_ffff {
        lemma_piece(
            y,
            a,
            Piece {
                lo: 0xb4_0000, hi: 0xb5_ffff,
                y_hi: 2912, y_hi_k: 12, y_lo: 2880, y_lo_k: 12,
                z_hi: 3542, z_hi_k: 12, z_lo: 3525, z_lo_k: 12,
                u_hi: 2519, u_hi_k: 12, u_lo: 2478, u_lo_k: 12,
                t_hi: 2179, t_hi_k: 12, t_lo: 2132, t_lo_k: 12,
                d_hi: 4012, d_hi_k: 0, d_lo: 3965, d_lo_k: 0,
                r_hi: 14210504, r_lo: 13976625,
                q_hi: 201938423934016, q_lo: 195346046390625,
            },
        );
    } else if rest <= 0xb7_ffff {
        lemma_piece(
            y,
            a,
            Piece {
                lo: 0xb6_0000, hi: 0xb7_ffff,
                y_hi: 2944, y_hi_k: 12, y_lo: 2912, y_lo_k: 12,
                z_hi: 3526, z_hi_k: 12, z_lo: 3509, z_lo_k: 12,
                u_hi: 2535, u_hi_k: 12, u_lo: 2494, u_lo_k: 12,
                t_hi: 2183, t_hi_k: 12, t_lo: 2136, t_lo_k: 12,
                d_hi: 4008, d_hi_k: 0, d_lo: 3961, d_lo_k: 0,
                r_hi: 14132208, r_lo: 13899149,
                q_hi: 199719302955264, q_lo: 193186342924201,
            },
        );
    } else if rest <= 0xb9_ffff {
        lemma_piece(
            y,
            a,
            Piece {
                lo: 0xb8_0000, hi: 0xb9_ffff,
                y_hi: 2976, y_hi_k: 12, y_lo: 2944, y_lo_k: 12,
                z_hi: 3510, z_hi_k: 12, z_lo: 3493, z_lo_k: 12,
                u_hi: 2551, u_hi_k: 12, u_lo: 2510, u_lo_k: 12,
                t_hi: 2187, t_hi_k: 12, t_lo: 2140, t_lo_k: 12,
                d_hi: 4004, d_hi_k: 0, d_lo: 3957, d_lo_k: 0,
                r_hi: 14054040, r_lo: 13821801,
                q_hi: 197516040321600, q_lo: 191042182883601,
            },
        );
    } else if rest <= 0xbb_ffff {
        lemma_piece(
            y,
            a,
            Piece {
                lo: 0xba_0000, hi: 0xbb_ffff,
                y_hi: 3008, y_hi_k: 12, y_lo: 2976, y_lo_k: 12,
                z_hi: 3494, z_hi_k: 12, z_lo: 3477, z_lo_k: 12,
                u_hi: 2566, u_hi_k: 12, u_lo: 2526, u_lo_k: 12,
                t_hi: 2189, t_hi_k: 12, t_lo: 2144, t_lo_k: 12,
                d_hi: 4000, d_hi_k: 0, d_lo: 3955, d_lo_k: 0,
                r_hi: 13976000, r_lo: 13751535,
                q_hi: 195328576000000, q_lo: 189104714856225,
            },
        );
    } else if rest <= 0xbd_ffff {
        lemma_piece(
            y,
            a,
            Piece {
                lo: 0xbc_0000, hi: 0xbd_ffff,
                y_hi: 3040, y_hi_k: 12, y_lo: 3008, y_lo_k: 12,
                z_hi: 3478, z_hi_k: 12, z_lo: 3461, z_lo_k: 12,
                u_hi: 2582, u_hi_k: 12, u_lo: 2541, u_lo_k: 12,
                t_hi: 2193, t_hi_k: 12, t_lo: 2147, t_lo_k: 12,
                d_hi: 3997, d_hi_k: 0, d_lo: 3951, d_lo_k: 0,
                r_hi: 13901566, r_lo: 13674411,
                q_hi: 193253537252356, q_lo: 186989516196921,
            },
        );
    } else {
        lemma_piece(
            y,
            a,
            Piece {
                lo: 0xbe_0000, hi: 0xbf_ffff,
                y_hi: 3072, y_hi_k: 12, y_lo: 3040, y_lo_k: 12,
                z_hi: 3462, z_hi_k: 12, z_lo: 3445, z_lo_k: 12,
                u_hi: 2597, u_hi_k: 12, u_lo: 2556, u_lo_k: 12,
                t_hi: 2196, t_hi_k: 12, t_lo: 2149, t_lo_k: 12,
                d_hi: 3995, d_hi_k: 0, d_lo: 3948, d_lo_k: 0,
                r_hi: 13830690, r_lo: 13600860,
                q_hi: 191287985876100, q_lo: 184983392739600,
            },
        );
    }
}

/// The pieces from `0xc0_0000` to `0xcf_ffff`.
proof fn lemma_pieces_12(y: Binary32, a: nat)
    requires
        in_range_of(y, a, 0xc0_0000, 0xcf_ffff),
    ensures
        within_two_percent(y),
{
    lemma2_to64();
    lemma2_to64_rest();
    let rest = y.bits - a * 0x100_0000;
    if rest <= 0xc1_ffff {
        lemma_piece(
            y,
            a,
            Piece {
                lo: 0xc0_0000, hi: 0xc1_ffff,
                y_hi: 3104, y_hi_k: 12, y_lo: 3072, y_lo_k: 12,
                z_hi: 3446, z_hi_k: 12, z_lo: 3429, z_lo_k: 12,
                u_hi: 2612, u_hi_k: 12, u_lo: 2571, u_lo_k: 12,
                t_hi: 2198, t_hi_k: 12, t_lo: 2152, t_lo_k: 12,
                d_hi: 3992, d_hi_k: 0, d_lo: 3946, d_lo_k: 0,
                r_hi: 13756432, r_lo: 13530834,
                q_hi: 189239421370624, q_lo: 183083468735556,
            },
        );
    } else if rest <= 0xc3_ffff {
        lemma_piece(
            y,
            a,
            Piece {
                lo: 0xc2_0000, hi: 0xc3_ffff,
                y_hi: 3136, y_hi_k: 12, y_lo: 3104, y_lo_k: 12,
                z_hi: 3430, z_hi_k: 12, z_lo: 3413, z_lo_k: 12,
                u_hi: 2627, u_hi_k: 12, u_lo: 2586, u_lo_k: 12,
                t_hi: 2200, t_hi_k: 12, t_lo: 2154, t_lo_k: 12,
                d_hi: 3990, d_hi_k: 0, d_lo: 3944, d_lo_k: 0,
                r_hi: 13685700, r_lo: 13460872,
                q_hi: 187298384490000, q_lo: 181195075000384,
            },
        );
    } else if rest <= 0xc5_ffff {
        lemma_piece(
            y,
            a,
            Piece {
                lo: 0xc4_0000, hi: 0xc5_ffff,
                y_hi: 3168, y_hi_k: 12, y_lo: 3136, y_lo_k: 12,
                z_hi: 3414, z_hi_k: 12, z_lo: 3397, z_lo_k: 12,
                u_hi: 2641, u_hi_k: 12, u_lo: 2600, u_lo_k: 12,
                t_hi: 2202, t_hi_k: 12, t_lo: 2156, t_lo_k: 12,
                d_hi: 3988, d_hi_k: 0, d_lo: 3942, d_lo_k: 0,
                r_hi: 13615032, r_lo: 13390974,
                q_hi: 185369096361024, q_lo: 179318184668676,
            },
        );
    } else if rest <= 0xc7_ffff {
        lemma_piece(
            y,
            a,
            Piece {
                lo: 0xc6_0000, hi: 0xc7_ffff,
                y_hi: 3200, y_hi_k: 12, y_lo: 3168, y_lo_k: 12,
                z_hi: 3398, z_hi_k: 12, z_lo: 3381, z_lo_k: 12,
                u_hi: 2655, u_hi_k: 12, u_lo: 2614, u_lo_k: 12,
                t_hi: 2203, t_hi_k: 12, t_lo: 2157, t_lo_k: 12,
                d_hi: 3987, d_hi_k: 0, d_lo: 3941, d_lo_k: 0,
                r_hi: 13547826, r_lo: 13324521,
                q_hi: 183543589326276, q_lo: 177542859879441,
            },
        );
    } else if rest <= 0xc9_ffff {
        lemma_piece(
            y,
            a,
            Piece {
                lo: 0xc8_0000, hi: 0xc9_ffff,
                y_hi: 3232, y_hi_k: 12, y_lo: 3200, y_lo_k: 12,
                z_hi: 3382, z_hi_k: 12, z_lo: 3365, z_lo_k: 12,
                u_hi: 2669, u_hi_k: 12, u_lo: 2628, u_lo_k: 12,
                t_hi: 2204, t_hi_k: 12, t_lo: 2158, t_lo_k: 12,
                d_hi: 3986, d_hi_k: 0, d_lo: 3940, d_lo_k: 0,
                r_hi: 13480652, r_lo: 13258100,
                q_hi: 181727978345104, q_lo: 175777215610000,
            },
        );
    } else if rest <= 0xcb_ffff {
        lemma_piece(
            y,
            a,
            Piece {
                lo: 0xca_0000, hi: 0xcb_ffff,
                y_hi: 3264, y_hi_k: 12, y_lo: 3232, y_lo_k: 12,
                z_hi: 3366, z_hi_k: 12, z_lo: 3349, z_lo_k: 12,
                u_hi: 2683, u_hi_k: 12, u_lo: 2642, u_lo_k: 12,
                t_hi: 2205, t_hi_k: 12, t_lo: 2160, t_lo_k: 12,
                d_hi: 3984, d_hi_k: 0, d_lo: 3939, d_lo_k: 0,
                r_hi: 13410144, r_lo: 13191711,
                q_hi: 179831962100736, q_lo: 174021239107521,
            },
        );
    } else if rest <= 0xcd_ffff {
        lemma_piece(
            y,
            a,
            Piece {
                lo: 0xcc_0000, hi: 0xcd_ffff,
                y_hi: 3296, y_hi_k: 12, y_lo: 3264, y_lo_k: 12,
                z_hi: 3350, z_hi_k: 12, z_lo: 3333, z_lo_k: 12,
                u_hi: 2696, u_hi_k: 12, u_lo: 2655, u_lo_k: 12,
                t_hi: 2205, t_hi_k: 12, t_lo: 2160, t_lo_k: 12,
                d_hi: 3984, d_hi_k: 0, d_lo: 3939, d_lo_k: 0,
                r_hi: 13346400, r_lo: 13128687,
                q_hi: 178126392960000, q_lo: 172362422343969,
            },
        );
    } else {
        lemma_piece(
            y,
            a,
            Piece {
                lo: 0xce_0000, hi: 0xcf_ffff,
                y_hi: 3328, y_hi_k: 12, y_lo: 3296, y_lo_k: 12,
                z_hi: 3334, z_hi_k: 12, z_lo: 3317, z_lo_k: 12,
                u_hi: 2709, u_hi_k: 12, u_lo: 2669, u_lo_k: 12,
                t_hi: 2206, t_hi_k: 12, t_lo: 2161, t_lo_k: 12,
                d_hi: 3983, d_hi_k: 0, d_lo: 3938, d_lo_k: 0,
                r_hi: 13279322, r_lo: 13062346,
                q_hi: 176340392779684, q_lo: 170624883023716,
            },
        );
    }
}

/// The pieces from `0xd0_0000` to `0xdf_ffff`.
proof fn lemma_pieces_13(y: Binary32, a: nat)
    requires
        in_range_of(y, a, 0xd0_0000, 0xdf_ffff),
    ensures
        within_two_percent(y),
{
    lemma2_to64();
    lemma2_to64_rest();
    let rest = y.bits - a * 0x100_0000;
    if rest <= 0xd1_ffff {
        lemma_piece(
            y,
            a,
            Piece {
                lo: 0xd0_0000, hi: 0xd1_ffff,
                y_hi: 3360, y_hi_k: 12, y_lo: 3328, y_lo_k: 12,
                z_hi: 3318, z_hi_k: 12, z_lo: 3301, z_lo_k: 12,
                u_hi: 2722, u_hi_k: 12, u_lo: 2682, u_lo_k: 12,
                t_hi: 2205, t_hi_k: 12, t_lo: 2161, t_lo_k: 12,
                d_hi: 3983, d_hi_k: 0, d_lo: 3939, d_lo_k: 0,
                r_hi: 13215594, r_lo: 13002639,
                q_hi: 174651924772836, q_lo: 169068620964321,
            },
        );
    } else if rest <= 0xd3_ffff {
        lemma_piece(
            y,
            a,
            Piece {
                lo: 0xd2_0000, hi: 0xd3_ffff,
                y_hi: 3392, y_hi_k: 12, y_lo: 3360, y_lo_k: 12,
                z_hi: 3302, z_hi_k: 12, z_lo: 3285, z_lo_k: 12,
                u_hi: 2735, u_hi_k: 12, u_lo: 2694, u_lo_k: 12,
                t_hi: 2205, t_hi_k: 12, t_lo: 2160, t_lo_k: 12,
                d_hi: 3984, d_hi_k: 0, d_lo: 3939, d_lo_k: 0,
                r_hi: 13155168, r_lo: 12939615,
                q_hi: 173058445108224, q_lo: 167433636348225,
            },
        );
    } else if rest <= 0xd5_ffff {
        lemma_piece(
            y,
            a,
            Piece {
                lo: 0xd4_0000, hi: 0xd5_ffff,
                y_hi: 3424, y_hi_k: 12, y_lo: 3392, y_lo_k: 12,
                z_hi: 3286, z_hi_k: 12, z_lo: 3269, z_lo_k: 12,
                u_hi: 2747, u_hi_k: 12, u_lo: 2707, u_lo_k: 12,
                t_hi: 2204, t_hi_k: 12, t_lo: 2160, t_lo_k: 12,
                d_hi: 3984, d_hi_k: 0, d_lo: 3940, d_lo_k: 0,
                r_hi: 13091424, r_lo: 12879860,
                q_hi: 171385382347776, q_lo: 165890793619600,
            },
        );
    } else if rest <= 0xd7_ffff {
        lemma_piece(
            y,
            a,
            Piece {
                lo: 0xd6_0000, hi: 0xd7_ffff,
                y_hi: 3456, y_hi_k: 12, y_lo: 3424, y_lo_k: 12,
                z_hi: 3270, z_hi_k: 12, z_lo: 3253, z_lo_k: 12,
                u_hi: 2760, u_hi_k: 12, u_lo: 2719, u_lo_k: 12,
                t_hi: 2204, t_hi_k: 12, t_lo: 2159, t_lo_k: 12,
                d_hi: 3985, d_hi_k: 0, d_lo: 3940, d_lo_k: 0,
                r_hi: 13030950, r_lo: 12816820,
                q_hi: 169805657902500, q_lo: 164270874912400,
            },
        );
    } else if rest <= 0xd9_ffff {
        lemma_piece(
            y,
            a,
            Piece {
                lo: 0xd8_0000, hi: 0xd9_ffff,
                y_hi: 3488, y_hi_k: 12, y_lo: 3456, y_lo_k: 12,
                z_hi: 3254, z_hi_k: 12, z_lo: 3237, z_lo_k: 12,
                u_hi: 2771, u_hi_k: 12, u_lo: 2731, u_lo_k: 12,
                t_hi: 2202, t_hi_k: 12, t_lo: 2158, t_lo_k: 12,
                d_hi: 3986, d_hi_k: 0, d_lo: 3942, d_lo_k: 0,
                r_hi: 12970444, r_lo: 12760254,
                q_hi: 168232417557136, q_lo: 162824082144516,
            },
        );
    } else if rest <= 0xdb_ffff {
        lemma_piece(
            y,
            a,
            Piece {
                lo: 0xda_0000, hi: 0xdb_ffff,
                y_hi: 3520, y_hi_k: 12, y_lo: 3488, y_lo_k: 12,
                z_hi: 3238, z_hi_k: 12, z_lo: 3221, z_lo_k: 12,
                u_hi: 2783, u_hi_k: 12, u_lo: 2742, u_lo_k: 12,
                t_hi: 2201, t_hi_k: 12, t_lo: 2156, t_lo_k: 12,
                d_hi: 3988, d_hi_k: 0, d_lo: 3943, d_lo_k: 0,
                r_hi: 12913144, r_lo: 12700403,
                q_hi: 166749287964736, q_lo: 161300236362409,
            },
        );
    } else if rest <= 0xdd_ffff {
        lemma_piece(
            y,
            a,
            Piece {
                lo: 0xdc_0000, hi: 0xdd_ffff,
                y_hi: 3552, y_hi_k: 12, y_lo: 3520, y_lo_k: 12,
                z_hi: 3222, z_hi_k: 12, z_lo: 3205, z_lo_k: 12,
                u_hi: 2795, u_hi_k: 12, u_lo: 2754, u_lo_k: 12,
                t_hi: 2199, t_hi_k: 12, t_lo: 2154, t_lo_k: 12,
                d_hi: 3990, d_hi_k: 0, d_lo: 3945, d_lo_k: 0,
                r_hi: 12855780, r_lo: 12643725,
                q_hi: 165271079408400, q_lo: 159863781875625,
            },
        );
    } else {
        lemma_piece(
            y,
            a,
            Piece {
                lo: 0xde_0000, hi: 0xdf_ffff,
                y_hi: 3584, y_hi_k: 12, y_lo: 3552, y_lo_k: 12,
                z_hi: 3206, z_hi_k: 12, z_lo: 3189, z_lo_k: 12,
                u_hi: 2806, u_hi_k: 12, u_lo: 2765, u_lo_k: 12,
                t_hi: 2197, t_hi_k: 12, t_lo: 2152, t_lo_k: 12,
                d_hi: 3992, d_hi_k: 0, d_lo: 3947, d_lo_k: 0,
                r_hi: 12798352, r_lo: 12586983,
                q_hi: 163797813915904, q_lo: 158432141042289,
            },
        );
    }
}

/// The pieces from `0xe0_0000` to `0xef_ffff`.
proof fn lemma_pieces_14(y: Binary32, a: nat)
    requires
        in_range_of(y, a, 0xe0_0000, 0xef_ffff),
    ensures
        within_two_percent(y),
{
    lemma2_to64();
    lemma2_to64_rest();
    let rest = y.bits - a * 0x100_0000;
    if rest <= 0xe1_ffff {
        lemma_piece(
            y,
            a,
            Piece {
                lo: 0xe0_0000, hi: 0xe1_ffff,
                y_hi: 3616, y_hi_k: 12, y_lo: 3584, y_lo_k: 12,
                z_hi: 3190, z_hi_k: 12, z_lo: 3173, z_lo_k: 12,
                u_hi: 2817, u_hi_k: 12, u_lo: 2776, u_lo_k: 12,
                t_hi: 2194, t_hi_k: 12, t_lo: 2150, t_lo_k: 12,
                d_hi: 3994, d_hi_k: 0, d_lo: 3950, d_lo_k: 0,
                r_hi: 12740860, r_lo: 12533350,
                q_hi: 162329513539600, q_lo: 157084862222500,
            },
        );
    } else if rest <= 0xe3_ffff {
        lemma_piece(
            y,
            a,
            Piece {
                lo: 0xe2_0000, hi: 0xe3_ffff,
                y_hi: 3648, y_hi_k: 12, y_lo: 3616, y_lo_k: 12,
                z_hi: 3174, z_hi_k: 12, z_lo: 3157, z_lo_k: 12,
                u_hi: 2827, u_hi_k: 12, u_lo: 2787, u_lo_k: 12,
                t_hi: 2191, t_hi_k: 12, t_lo: 2148, t_lo_k: 12,
                d_hi: 3996, d_hi_k: 0, d_lo: 3953, d_lo_k: 0,
                r_hi: 12683304, r_lo: 12479621,
                q_hi: 160866200356416, q_lo: 155740940303641,
            },
        );
    } else if rest <= 0xe5_ffff {
        lemma_piece(
            y,
            a,
            Piece {
                lo: 0xe4_0000, hi: 0xe5_ffff,
                y_hi: 3680, y_hi_k: 12, y_lo: 3648, y_lo_k: 12,
                z_hi: 3158, z_hi_k: 12, z_lo: 3141, z_lo_k: 12,
                u_hi: 2838, u_hi_k: 12, u_lo: 2797, u_lo_k: 12,
                t_hi: 2189, t_hi_k: 12, t_lo: 2144, t_lo_k: 12,
                d_hi: 4000, d_hi_k: 0, d_lo: 3955, d_lo_k: 0,
                r_hi: 12632000, r_lo: 12422655,
                q_hi: 159567424000000, q_lo: 154322357249025,
            },
        );
    } else if rest <= 0xe7_ffff {
        lemma_piece(
            y,
            a,
            Piece {
                lo: 0xe6_0000, hi: 0xe7_ffff,
                y_hi: 3712, y_hi_k: 12, y_lo: 3680, y_lo_k: 12,
                z_hi: 3142, z_hi_k: 12, z_lo: 3125, z_lo_k: 12,
                u_hi: 2848, u_hi_k: 12, u_lo: 2807, u_lo_k: 12,
                t_hi: 2185, t_hi_k: 12, t_lo: 2141, t_lo_k: 12,
                d_hi: 4003, d_hi_k: 0, d_lo: 3959, d_lo_k: 0,
                r_hi: 12577426, r_lo: 12371875,
                q_hi: 158191644785476, q_lo: 153063291015625,
            },
        );
    } else if rest <= 0xe9_ffff {
        lemma_piece(
            y,
            a,
            Piece {
                lo: 0xe8_0000, hi: 0xe9_ffff,
                y_hi: 3744, y_hi_k: 12, y_lo: 3712, y_lo_k: 12,
                z_hi: 3126, z_hi_k: 12, z_lo: 3109, z_lo_k: 12,
                u_hi: 2858, u_hi_k: 12, u_lo: 2817, u_lo_k: 12,
                t_hi: 2182, t_hi_k: 12, t_lo: 2138, t_lo_k: 12,
                d_hi: 4006, d_hi_k: 0, d_lo: 3962, d_lo_k: 0,
                r_hi: 12522756, r_lo: 12317858,
                q_hi: 156819417835536, q_lo: 151729625708164,
            },
        );
    } else if rest <= 0xeb_ffff {
        lemma_piece(
            y,
            a,
            Piece {
                lo: 0xea_0000, hi: 0xeb_ffff,
                y_hi: 3776, y_hi_k: 12, y_lo: 3744, y_lo_k: 12,
                z_hi: 3110, z_hi_k: 12, z_lo: 3093, z_lo_k: 12,
                u_hi: 2868, u_hi_k: 12, u_lo: 2827, u_lo_k: 12,
                t_hi: 2178, t_hi_k: 12, t_lo: 2134, t_lo_k: 12,
                d_hi: 4010, d_hi_k: 0, d_lo: 3966, d_lo_k: 0,
                r_hi: 12471100, r_lo: 12266838,
                q_hi: 155528335210000, q_lo: 150475314518244,
            },
        );
    } else if rest <= 0xed_ffff {
        lemma_piece(
            y,
            a,
            Piece {
                lo: 0xec_0000, hi: 0xed_ffff,
                y_hi: 3808, y_hi_k: 12, y_lo: 3776, y_lo_k: 12,
                z_hi: 3094, z_hi_k: 12, z_lo: 3077, z_lo_k: 12,
                u_hi: 2877, u_hi_k: 12, u_lo: 2836, u_lo_k: 12,
                t_hi: 2174, t_hi_k: 12, t_lo: 2130, t_lo_k: 12,
                d_hi: 4014, d_hi_k: 0, d_lo: 3970, d_lo_k: 0,
                r_hi: 12419316, r_lo: 12215690,
                q_hi: 154239409907856, q_lo: 149223082176100,
            },
        );
    } else {
        lemma_piece(
            y,
            a,
            Piece {
                lo: 0xee_0000, hi: 0xef_ffff,
                y_hi: 3840, y_hi_k: 12, y_lo: 3808, y_lo_k: 12,
                z_hi: 3078, z_hi_k: 12, z_lo: 3061, z_lo_k: 12,
                u_hi: 2886, u_hi_k: 12, u_lo: 2845, u_lo_k: 12,
                t_hi: 2169, t_hi_k: 12, t_lo: 2126, t_lo_k: 12,
                d_hi: 4018, d_hi_k: 0, d_lo: 3975, d_lo_k: 0,
                r_hi: 12367404, r_lo: 12167475,
                q_hi: 152952681699216, q_lo: 148047447875625,
            },
        );
    }
}

/// The pieces from `0xf0_0000` to `0xff_ffff`.
proof fn lemma_pieces_15(y: Binary32, a: nat)
    requires
        in_range_of(y, a, 0xf0_0000, 0xff_ffff),
    ensures
        within_two_percent(y),
{
    lemma2_to64();
    lemma2_to64_rest();
    let rest = y.bits - a * 0x100_0000;
    if rest <= 0xf1_ffff {
        lemma_piece(
            y,
            a,
            Piece {
                lo: 0xf0_0000, hi: 0xf1_ffff,
                y_hi: 3872, y_hi_k: 12, y_lo: 3840, y_lo_k: 12,
                z_hi: 3062, z_hi_k: 12, z_lo: 3045, z_lo_k: 12,
                u_hi: 2895, u_hi_k: 12, u_lo: 2854, u_lo_k: 12,
                t_hi: 2165, t_hi_k: 12, t_lo: 2121, t_lo_k: 12,
                d_hi: 4023, d_hi_k: 0, d_lo: 3979, d_lo_k: 0,
                r_hi: 12318426, r_lo: 12116055,
                q_hi: 151743619117476, q_lo: 146798788763025,
            },
        );
    } else if rest <= 0xf3_ffff {
        lemma_piece(
            y,
            a,
            Piece {
                lo: 0xf2_0000, hi: 0xf3_ffff,
                y_hi: 3904, y_hi_k: 12, y_lo: 3872, y_lo_k: 12,
                z_hi: 3046, z_hi_k: 12, z_lo: 3029, z_lo_k: 12,
                u_hi: 2904, u_hi_k: 12, u_lo: 2863, u_lo_k: 12,
                t_hi: 2160, t_hi_k: 12, t_lo: 2117, t_lo_k: 12,
                d_hi: 4027, d_hi_k: 0, d_lo: 3984, d_lo_k: 0,
                r_hi: 12266242, r_lo: 12067536,
                q_hi: 150460692802564, q_lo: 145625425111296,
            },
        );
    } else if rest <= 0xf5_ffff {
        lemma_piece(
            y,
            a,
            Piece {
                lo: 0xf4_0000, hi: 0xf5_ffff,
                y_hi: 3936, y_hi_k: 12, y_lo: 3904, y_lo_k: 12,
                z_hi: 3030, z_hi_k: 12, z_lo: 3013, z_lo_k: 12,
                u_hi: 2912, u_hi_k: 12, u_lo: 2871, u_lo_k: 12,
                t_hi: 2155, t_hi_k: 12, t_lo: 2111, t_lo_k: 12,
                d_hi: 4033, d_hi_k: 0, d_lo: 3989, d_lo_k: 0,
                r_hi: 12219990, r_lo: 12018857,
                q_hi: 149328155600100, q_lo: 144452923586449,
            },
        );
    } else if rest <= 0xf7_ffff {
        lemma_piece(
            y,
            a,
            Piece {
                lo: 0xf6_0000, hi: 0xf7_ffff,
                y_hi: 3968, y_hi_k: 12, y_lo: 3936, y_lo_k: 12,
                z_hi: 3014, z_hi_k: 12, z_lo: 2997, z_lo_k: 12,
                u_hi: 2920, u_hi_k: 12, u_lo: 2879, u_lo_k: 12,
                t_hi: 2149, t_hi_k: 12, t_lo: 2106, t_lo_k: 12,
                d_hi: 4038, d_hi_k: 0, d_lo: 3995, d_lo_k: 0,
                r_hi: 12170532, r_lo: 11973015,
                q_hi: 148121849163024, q_lo: 143353088190225,
            },
        );
    } else if rest <= 0xf9_ffff {
        lemma_piece(
            y,
            a,
            Piece {
                lo: 0xf8_0000, hi: 0xf9_ffff,
                y_hi: 4000, y_hi_k: 12, y_lo: 3968, y_lo_k: 12,
                z_hi: 2998, z_hi_k: 12, z_lo: 2981, z_lo_k: 12,
                u_hi: 2928, u_hi_k: 12, u_lo: 2887, u_lo_k: 12,
                t_hi: 2144, t_hi_k: 12, t_lo: 2101, t_lo_k: 12,
                d_hi: 4043, d_hi_k: 0, d_lo: 4000, d_lo_k: 0,
                r_hi: 12120914, r_lo: 11924000,
                q_hi: 146916556195396, q_lo: 142181776000000,
            },
        );
    } else if rest <= 0xfb_ffff {
        lemma_piece(
            y,
            a,
            Piece {
                lo: 0xfa_0000, hi: 0xfb_ffff,
                y_hi: 4032, y_hi_k: 12, y_lo: 4000, y_lo_k: 12,
                z_hi: 2982, z_hi_k: 12, z_lo: 2965, z_lo_k: 12,
                u_hi: 2936, u_hi_k: 12, u_lo: 2895, u_lo_k: 12,
                t_hi: 2138, t_hi_k: 12, t_lo: 2095, t_lo_k: 12,
                d_hi: 4049, d_hi_k: 0, d_lo: 4006, d_lo_k: 0,
                r_hi: 12074118, r_lo: 11877790,
                q_hi: 145784325477924, q_lo: 141081895284100,
            },
        );
    } else if rest <= 0xfd_ffff {
        lemma_piece(
            y,
            a,
            Piece {
                lo: 0xfc_0000, hi: 0xfd_ffff,
                y_hi: 4064, y_hi_k: 12, y_lo: 4032, y_lo_k: 12,
                z_hi: 2966, z_hi_k: 12, z_lo: 2949, z_lo_k: 12,
                u_hi: 2943, u_hi_k: 12, u_lo: 2902, u_lo_k: 12,
                t_hi: 2132, t_hi_k: 12, t_lo: 2089, t_lo_k: 12,
                d_hi: 4055, d_hi_k: 0, d_lo: 4012, d_lo_k: 0,
                r_hi: 12027130, r_lo: 11831388,
                q_hi: 144651856036900, q_lo: 139981742006544,
            },
        );
    } else {
        lemma_piece(
            y,
            a,
            Piece {
                lo: 0xfe_0000, hi: 0xff_ffff,
                y_hi: 4096, y_hi_k: 12, y_lo: 4064, y_lo_k: 12,
                z_hi: 2950, z_hi_k: 12, z_lo: 2933, z_lo_k: 12,
                u_hi: 2950, u_hi_k: 12, u_lo: 2910, u_lo_k: 12,
                t_hi: 2125, t_hi_k: 12, t_lo: 2083, t_lo_k: 12,
                d_hi: 4061, d_hi_k: 0, d_lo: 4019, d_lo_k: 0,
                r_hi: 11979950, r_lo: 11787727,
                q_hi: 143519202002500, q_lo: 138950507826529,
            },
        );
    }
}

/// Every positive normal input lies in one of the pieces.
pub proof fn lemma_every_piece(y: Binary32)
    requires
        0x80_0000 <= y.bits <= 0x7f7f_ffff,
    ensures
        within_two_percent(y),
{
    let a = (y.bits / 0x100_0000) as nat;
    let rest = y.bits % 0x100_0000;
    if rest <= 0xf_ffff {
        lemma_pieces_0(y, a);
    } else if rest <= 0x1f_ffff {
        lemma_pieces_1(y, a);
    } else if rest <= 0x2f_ffff {
        lemma_pieces_2(y, a);
    } else if rest <= 0x3f_ffff {
        lemma_pieces_3(y, a);
    } else if rest <= 0x4f_ffff {
        lemma_pieces_4(y, a);
    } else if rest <= 0x5f_ffff {
        lemma_pieces_5(y, a);
    } else if rest <= 0x6f_ffff {
        lemma_pieces_6(y, a);
    } else if rest <= 0x7f_ffff {
        lemma_pieces_7(y, a);
    } else if rest <= 0x8f_ffff {
        lemma_pieces_8(y, a);
    } else if rest <= 0x9f_ffff {
        lemma_pieces_9(y, a);
    } else if rest <= 0xaf_ffff {
        lemma_pieces_10(y, a);
    } else if rest <= 0xbf_ffff {
        lemma_pieces_11(y, a);
    } else if rest <= 0xcf_ffff {
        lemma_pieces_12(y, a);
    } else if rest <= 0xdf_ffff {
        lemma_pieces_13(y, a);
    } else if rest <= 0xef_ffff {
        lemma_pieces_14(y, a);
    } else {
        lemma_pieces_15(y, a);
    }
}

} // verus!
