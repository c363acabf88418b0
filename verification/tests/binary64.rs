use hypemeter::binary64::{count_bits, power_of_two, round_to_nearest, Binary64};

fn b(x: f64) -> Binary64 {
    Binary64::from_bits(x.to_bits())
}

fn same(ours: Binary64, theirs: f64) -> bool {
    let got = f64::from_bits(ours.bits);
    (got.is_nan() && theirs.is_nan()) || ours.bits == theirs.to_bits()
}

struct Random(u64);

impl Random {
    fn next(&mut self) -> u64 {
        self.0 ^= self.0 << 13;
        self.0 ^= self.0 >> 7;
        self.0 ^= self.0 << 17;
        self.0
    }

    /// A pattern: any at all, or one near a round number, or a special one.
    fn pattern(&mut self) -> u64 {
        let r = self.next();
        match r % 8 {
            0 => self.next(),
            1 => (self.next() % 2000) as f64 as u64 as f64 as u64,
            2 => ((self.next() % 1_000_000) as f64 / 1000.0).to_bits(),
            3 => ((self.next() % 100) as f64 / 100.0).to_bits(),
            4 => (self.next() as f64).to_bits(),
            5 => self.next() & 0x800F_FFFF_FFFF_FFFF,
            6 => [0u64, 1 << 63, 0x7FF0 << 48, 0xFFF0 << 48, 0x7FF8 << 48, 1, 0x3FF0 << 48, 0x7FEF_FFFF_FFFF_FFFF]
                [(self.next() % 8) as usize],
            _ => ((self.next() % 4096) << 52) | (self.next() & ((1 << 52) - 1)),
        }
    }
}

fn samples() -> Vec<f64> {
    vec![
        0.0,
        -0.0,
        1.0,
        -1.0,
        0.1,
        0.7,
        0.9,
        0.01,
        1000.0,
        1e15,
        1e300,
        1e-300,
        5e-324,
        -5e-324,
        f64::MIN_POSITIVE,
        f64::MAX,
        f64::MIN,
        f64::INFINITY,
        f64::NEG_INFINITY,
        f64::NAN,
        f64::EPSILON,
        1.0 + f64::EPSILON,
        1.0 - f64::EPSILON / 2.0,
        9007199254740992.0,
        9007199254740993.0,
        18446744073709551615.0,
        4.9406564584124654e-324,
        2.2250738585072009e-308,
        1.7976931348623157e308,
    ]
}

#[test]
fn bits_are_counted() {
    assert_eq!(count_bits(0), 0);
    assert_eq!(count_bits(1), 1);
    assert_eq!(count_bits(2), 2);
    assert_eq!(count_bits(3), 2);
    assert_eq!(count_bits(255), 8);
    assert_eq!(count_bits(256), 9);
    assert_eq!(count_bits(u128::MAX), 128);
    assert_eq!(power_of_two(0), 1);
    assert_eq!(power_of_two(127), 1 << 127);
}

#[test]
fn rounding_keeps_53_digits() {
    assert_eq!(round_to_nearest(1, 0), 1.0f64.to_bits());
    assert_eq!(round_to_nearest(3, -1), 1.5f64.to_bits());
    assert_eq!(round_to_nearest(1, -1074), 1);
    assert_eq!(round_to_nearest(1, -1075), 0);
    assert_eq!(round_to_nearest(3, -1076), 1);
    assert_eq!(round_to_nearest(1, 1023), 2f64.powi(1023).to_bits());
    assert_eq!(round_to_nearest(1, 1024), f64::INFINITY.to_bits());
    assert_eq!(round_to_nearest((1 << 53) - 1, 971), f64::MAX.to_bits());
    assert_eq!(round_to_nearest((1 << 54) - 1, 970), f64::INFINITY.to_bits());
    // ties go to the even significand
    assert_eq!(round_to_nearest((1 << 53) + 1, 0), 9007199254740992.0f64.to_bits());
    assert_eq!(round_to_nearest((1 << 53) + 3, 0), 9007199254740996.0f64.to_bits());
    assert_eq!(round_to_nearest((1 << 54) + 2, 0), 18014398509481984.0f64.to_bits());
    assert_eq!(round_to_nearest((1 << 54) + 3, 0), 18014398509481988.0f64.to_bits());
}

#[test]
fn whole_numbers_are_converted_as_the_hardware_does() {
    let mut random = Random(0x1234_5678_9ABC_DEF1);
    for x in [0u64, 1, 2, 1 << 52, (1 << 53) - 1, 1 << 53, (1 << 53) + 1, (1 << 53) + 3, u64::MAX, u64::MAX - 1023, u64::MAX - 1024] {
        assert!(same(Binary64::from_u64(x), x as f64), "{}", x);
    }
    for _ in 0..20_000 {
        let shift = random.next() % 64;
        let x = random.next() >> shift;
        assert!(same(Binary64::from_u64(x), x as f64), "{}", x);
    }
}

#[test]
fn whole_parts_are_cut_as_the_hardware_does() {
    let mut random = Random(0x0BAD_CAFE_1234_5678);
    for x in samples() {
        assert_eq!(b(x).to_u64(), x as u64, "{}", x);
    }
    for _ in 0..20_000 {
        let x = f64::from_bits(random.pattern());
        assert_eq!(b(x).to_u64(), x as u64, "{}", x);
    }
}

#[test]
fn products_are_those_of_the_hardware() {
    let mut random = Random(0x9E37_79B9_7F4A_7C15);
    for x in samples() {
        for y in samples() {
            assert!(same(b(x).times(&b(y)), x * y), "{} * {}", x, y);
        }
    }
    for _ in 0..50_000 {
        let x = f64::from_bits(random.pattern());
        let y = f64::from_bits(random.pattern());
        assert!(same(b(x).times(&b(y)), x * y), "{:e} * {:e}", x, y);
    }
}

#[test]
fn the_larger_number_is_chosen() {
    let mut random = Random(0x1111_2222_3333_4444);
    let check = |x: f64, y: f64| {
        let ours = f64::from_bits(b(x).larger_of(&b(y)).bits);
        let theirs = x.max(y);
        assert!((ours.is_nan() && theirs.is_nan()) || ours == theirs, "max({}, {})", x, y);
    };
    for x in samples() {
        for y in samples() {
            check(x, y);
        }
    }
    for _ in 0..20_000 {
        check(f64::from_bits(random.pattern()), f64::from_bits(random.pattern()));
    }
    assert_eq!(b(1.0).larger_of(&b(f64::NAN)), b(1.0));
    assert_eq!(b(f64::NAN).larger_of(&b(1.0)), b(1.0));
    assert_eq!(Binary64::one(), b(1.0));
}

#[test]
fn quotients_are_those_of_the_hardware() {
    let mut random = Random(0xDEAD_BEEF_0BAD_F00D);
    for x in samples() {
        for y in samples() {
            assert!(same(b(x).over(&b(y)), x / y), "{} / {}", x, y);
        }
    }
    for _ in 0..50_000 {
        let x = f64::from_bits(random.pattern());
        let y = f64::from_bits(random.pattern());
        assert!(same(b(x).over(&b(y)), x / y), "{:e} / {:e}", x, y);
    }
    // quotients that end in a tie, and quotients next to one
    for n in 1..2000u64 {
        for d in [1u64, 3, 7, 1 << 10, (1 << 53) - 1, (1 << 52) + 1] {
            let x = (n << 40) as f64 + 1.0;
            let y = d as f64;
            assert!(same(b(x).over(&b(y)), x / y), "{} / {}", x, y);
        }
    }
}

#[test]
fn sums_and_differences_are_those_of_the_hardware() {
    let mut random = Random(0x0123_4567_89AB_CDEF);
    for x in samples() {
        for y in samples() {
            assert!(same(b(x).plus(&b(y)), x + y), "{} + {}", x, y);
            assert!(same(b(x).minus(&b(y)), x - y), "{} - {}", x, y);
        }
    }
    for _ in 0..50_000 {
        let x = f64::from_bits(random.pattern());
        let y = f64::from_bits(random.pattern());
        assert!(same(b(x).plus(&b(y)), x + y), "{:e} + {:e}", x, y);
        assert!(same(b(x).minus(&b(y)), x - y), "{:e} - {:e}", x, y);
    }
    // exponents from next to each other to far apart, around powers of two
    for gap in 0..130 {
        for x in [1.0f64, 1.0 + f64::EPSILON, 2.0 - f64::EPSILON, 1.5, 1e10] {
            for y in [1.0f64, 1.0 + f64::EPSILON, 2.0 - f64::EPSILON, 1.25] {
                let small = y * 2f64.powi(-gap);
                assert!(same(b(x).plus(&b(small)), x + small), "{:e} + {:e}", x, small);
                assert!(same(b(x).minus(&b(small)), x - small), "{:e} - {:e}", x, small);
                assert!(same(b(small).minus(&b(x)), small - x), "{:e} - {:e}", small, x);
            }
        }
    }
    assert_eq!(b(1.0).minus(&b(0.1)), b(0.9));
    assert_eq!(b(1.0).minus(&b(0.7)).bits, (1.0f64 - 0.7).to_bits());
    assert_eq!(b(1.0).negate(), b(-1.0));
    assert_eq!(b(-0.0).negate(), b(0.0));
}

#[test]
fn a_tenth_off_a_thousand_is_nine_hundred() {
    let share = Binary64::from_u64(1000).times(&Binary64::one().minus(&b(0.1)));
    assert_eq!(share.to_u64(), 900);
    assert_eq!(share.to_u64(), (1000f64 * (1.0 - 0.1)) as u64);
}
