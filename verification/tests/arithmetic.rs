use quake_inverse_sqrt::qsqrt::{estimate, refine};
use quake_inverse_sqrt::rounding::{divide_round_u64, round_to_magnitude};
use quake_inverse_sqrt::{Binary32, Binary64, QSqrt};

/// A small deterministic generator (xorshift64*).
struct Gen(u64);

impl Gen {
    fn next(&mut self) -> u64 {
        self.0 ^= self.0 >> 12;
        self.0 ^= self.0 << 25;
        self.0 ^= self.0 >> 27;
        self.0.wrapping_mul(0x2545_f491_4f6c_dd1d)
    }

    /// Patterns that favour edges: specials, subnormals, exponents near one.
    fn pattern32(&mut self) -> u32 {
        const EDGES: [u32; 16] = [
            0, 0x8000_0000, 0x7f80_0000, 0xff80_0000, 0x7fc0_0000, 1, 0x7f7f_ffff, 0x0080_0000,
            0x007f_ffff, 0x3f80_0000, 0x3f00_0000, 0x3fc0_0000, 0x4b00_0000, 0x3380_0000,
            0x7f80_0001, 0x8000_0001,
        ];
        let r = self.next();
        match r % 8 {
            0 => EDGES[((r >> 8) % 16) as usize],
            1 | 2 => (r >> 16) as u32,
            3 => (((r >> 8) & 1) as u32) << 31 | ((r >> 16) as u32 & 0x00ff_ffff),
            _ => {
                let e = 100 + ((r >> 8) % 61) as u32;
                let f = match (r >> 20) % 5 {
                    0 => 0,
                    1 => 1,
                    2 => 0x7f_ffff,
                    3 => 0x40_0000,
                    _ => (r >> 32) as u32 & 0x7f_ffff,
                };
                ((((r >> 16) & 1) as u32) << 31) | (e << 23) | f
            }
        }
    }
}

fn same(ours: Binary32, theirs: f32) -> bool {
    let got = f32::from_bits(ours.bits);
    (got.is_nan() && theirs.is_nan()) || ours.bits == theirs.to_bits()
}

fn native_inverse_sqrt(y: f32) -> f32 {
    let x2 = y * 0.5;
    let i = 0x5f37_59dfu32.wrapping_sub(y.to_bits() >> 1);
    let y0 = f32::from_bits(i);
    y0 * (1.5 - (x2 * y0 * y0))
}

#[test]
fn multiply_matches_native_product() {
    let mut g = Gen(0x9e37_79b9_7f4a_7c15);
    for _ in 0..200_000 {
        let (a, b) = (g.pattern32(), g.pattern32());
        let ours = Binary32 { bits: a }.multiply(Binary32 { bits: b });
        assert!(same(ours, f32::from_bits(a) * f32::from_bits(b)), "{:#x} * {:#x}", a, b);
    }
}

#[test]
fn subtract_matches_native_difference() {
    let mut g = Gen(0x0123_4567_89ab_cdef);
    for _ in 0..200_000 {
        let (a, b) = (g.pattern32(), g.pattern32());
        let ours = Binary32 { bits: a }.subtract(Binary32 { bits: b });
        assert!(same(ours, f32::from_bits(a) - f32::from_bits(b)), "{:#x} - {:#x}", a, b);
    }
}

#[test]
fn subtract_matches_native_difference_of_neighbours() {
    let mut g = Gen(0xfeed_face_cafe_beef);
    for _ in 0..100_000 {
        let a = g.pattern32();
        let b = a.wrapping_add((g.next() % 7) as u32).wrapping_sub(3);
        let ours = Binary32 { bits: a }.subtract(Binary32 { bits: b });
        assert!(same(ours, f32::from_bits(a) - f32::from_bits(b)), "{:#x} - {:#x}", a, b);
    }
}

#[test]
fn subtract_handles_every_exponent_gap() {
    for ea in 0..255u32 {
        for eb in 0..255u32 {
            for (fa, fb) in [(0u32, 0u32), (0, 1), (1, 0), (0x7f_ffff, 0x7f_ffff), (0, 0x7f_ffff), (0x40_0000, 1)] {
                for sign in [0u32, 0x8000_0000] {
                    let a = (ea << 23) | fa;
                    let b = sign | (eb << 23) | fb;
                    let ours = Binary32 { bits: a }.subtract(Binary32 { bits: b });
                    assert!(same(ours, f32::from_bits(a) - f32::from_bits(b)), "{:#x} - {:#x}", a, b);
                }
            }
        }
    }
}

#[test]
fn subtract_signs_of_zero() {
    let pz = Binary32 { bits: 0 };
    let nz = Binary32 { bits: 0x8000_0000 };
    assert_eq!(pz.subtract(pz).bits, 0);
    assert_eq!(pz.subtract(nz).bits, 0);
    assert_eq!(nz.subtract(nz).bits, 0);
    assert_eq!(nz.subtract(pz).bits, 0x8000_0000);
    let x = Binary32 { bits: 0x4049_0fdb };
    assert_eq!(x.subtract(x).bits, 0);
}

#[test]
fn invalid_operations_give_the_quiet_nan() {
    let inf = Binary32 { bits: 0x7f80_0000 };
    let zero = Binary32 { bits: 0 };
    let nan = Binary32 { bits: 0x7f80_0001 };
    assert_eq!(inf.multiply(zero).bits, 0x7fc0_0000);
    assert_eq!(inf.subtract(inf).bits, 0x7fc0_0000);
    assert_eq!(nan.multiply(zero).bits, 0x7fc0_0000);
    assert_eq!(zero.subtract(nan).bits, 0x7fc0_0000);
}

#[test]
fn from_u64_matches_native_conversion() {
    let mut g = Gen(0x1357_9bdf_0246_8ace);
    for _ in 0..200_000 {
        let n = g.next() >> (g.next() % 64);
        assert_eq!(Binary32::from_u64(n).bits, (n as f32).to_bits(), "{}", n);
    }
    for n in [0u64, 1, 4, 0xff_ffff, 0x100_0000, 0x100_0001, 0x100_0002, 0x100_0003, u64::MAX, u64::MAX - 1, 1 << 63] {
        assert_eq!(Binary32::from_u64(n).bits, (n as f32).to_bits(), "{}", n);
    }
}

#[test]
fn from_i64_matches_native_conversion() {
    let mut g = Gen(0x0f0f_f0f0_1234_4321);
    for _ in 0..200_000 {
        let n = (g.next() as i64) >> (g.next() % 64);
        assert_eq!(Binary32::from_i64(n).bits, (n as f32).to_bits(), "{}", n);
    }
    for n in [0i64, -1, 1, -4, i64::MIN, i64::MAX, i64::MIN + 1, -0x100_0001, -0x100_0003] {
        assert_eq!(Binary32::from_i64(n).bits, (n as f32).to_bits(), "{}", n);
    }
}

#[test]
fn narrow_matches_native_narrowing() {
    let mut g = Gen(0x2468_ace0_1357_9bdf);
    for _ in 0..200_000 {
        let r = g.next();
        let bits = match r % 4 {
            0 => g.next(),
            1 => {
                let e = 1023 - 160 + (g.next() % 291);
                (r & (1 << 63)) | (e << 52) | (g.next() & 0xf_ffff_ffff_ffff)
            }
            2 => {
                let e = 1023 - 160 + (g.next() % 291);
                let f = [0u64, 1 << 28, (1 << 28) + 1, (1 << 29) - 1, 3 << 28, 0xf_ffff_ffff_ffff, 0xff_fffe << 28][(g.next() % 7) as usize];
                (r & (1 << 63)) | (e << 52) | f
            }
            _ => 0x47ef_ffff_e000_0000u64.wrapping_add(g.next() % 5).wrapping_sub(2) | (r & (1 << 63)),
        };
        let x = f64::from_bits(bits);
        assert!(same(Binary64 { bits }.narrow(), x as f32), "{:#x}", bits);
    }
}

#[test]
fn range_check_matches_native_comparison() {
    let mut g = Gen(0x5555_aaaa_3333_cccc);
    for _ in 0..200_000 {
        let r = g.next();
        let bits = if r % 2 == 0 {
            g.next()
        } else {
            (0x47ef_ffff_e000_0000u64.wrapping_add(g.next() % 9).wrapping_sub(4)) | (r & (1 << 63))
        };
        let x = f64::from_bits(bits);
        let native = x >= f64::from(f32::MIN) && x <= f64::from(f32::MAX);
        assert_eq!(Binary64 { bits }.in_binary32_range(), native, "{:#x}", bits);
    }
}

#[test]
fn inverse_sqrt_matches_native_formula() {
    let mut g = Gen(0xdead_beef_0bad_f00d);
    for _ in 0..200_000 {
        let bits = g.pattern32();
        let ours = Binary32 { bits }.fast_inverse_sqrt().unwrap();
        assert!(same(ours, native_inverse_sqrt(f32::from_bits(bits))), "{:#x}", bits);
    }
}

#[test]
fn inverse_sqrt_matches_native_formula_on_a_positive_sweep() {
    let mut bits = 1u32;
    while bits < 0x7f80_0000 {
        let ours = Binary32 { bits }.fast_inverse_sqrt().unwrap();
        let native = native_inverse_sqrt(f32::from_bits(bits));
        assert_eq!(ours.bits, native.to_bits(), "{:#x}", bits);
        assert!(native.is_finite() && native > 0.0);
        bits += 0x3039;
    }
}

#[test]
fn estimate_subtracts_half_the_pattern() {
    assert_eq!(estimate(Binary32 { bits: 0 }).bits, 0x5f37_59df);
    assert_eq!(estimate(Binary32 { bits: 0x4080_0000 }).bits, 0x5f37_59df - 0x2040_0000);
    assert_eq!(estimate(Binary32 { bits: 0x3f80_0001 }).bits, 0x5f37_59df - 0x1fc0_0000);
    assert_eq!(estimate(Binary32 { bits: 0xbf80_0000 }).bits, 0xff77_59df);
}

#[test]
fn refine_is_one_newton_step() {
    let y = 4.0f32;
    let y0 = 0.48f32;
    let expected = y0 * (1.5 - (y * 0.5 * y0 * y0));
    let got = refine(Binary32 { bits: y.to_bits() }, Binary32 { bits: y0.to_bits() });
    assert_eq!(got.bits, expected.to_bits());
}

#[test]
fn rounding_ties_go_to_even() {
    assert_eq!(divide_round_u64(5, 0), 5);
    assert_eq!(divide_round_u64(5, 1), 2);
    assert_eq!(divide_round_u64(7, 1), 4);
    assert_eq!(divide_round_u64(6, 2), 2);
    assert_eq!(divide_round_u64(10, 2), 2);
    assert_eq!(divide_round_u64(11, 2), 3);
    assert_eq!(divide_round_u64(u64::MAX, 64), 1);
    assert_eq!(divide_round_u64(1 << 63, 64), 0);
    assert_eq!(divide_round_u64(u64::MAX, 65), 0);
    assert_eq!(round_to_magnitude(0x100_0001, 0), 0x4b80_0000);
    assert_eq!(round_to_magnitude(0x100_0003, 0), 0x4b80_0002);
    assert_eq!(round_to_magnitude(1, -150), 0);
    assert_eq!(round_to_magnitude(3, -150), 2);
    assert_eq!(round_to_magnitude(1, -149), 1);
    assert_eq!(round_to_magnitude(1, 128), 0x7f80_0000);
    assert_eq!(round_to_magnitude(0xff_ffff, 104), 0x7f7f_ffff);
    assert_eq!(round_to_magnitude(0x1ff_ffff, 103), 0x7f80_0000);
    assert_eq!(round_to_magnitude(1, i32::MAX), 0x7f80_0000);
    assert_eq!(round_to_magnitude(u64::MAX, i32::MIN), 0);
}
