use special::{Error, Primitive};

#[derive(Clone, Copy, Debug, PartialEq)]
struct Single(f32);

impl Primitive for Single {
    fn decimal(mantissa: i64, exponent: i32) -> Self {
        Single(format!("{}e{}", mantissa, exponent).parse().unwrap())
    }

    fn add(self, rhs: Self) -> Self {
        Single(self.0 + rhs.0)
    }

    fn sub(self, rhs: Self) -> Self {
        Single(self.0 - rhs.0)
    }

    fn mul(self, rhs: Self) -> Self {
        Single(self.0 * rhs.0)
    }

    fn div(self, rhs: Self) -> Self {
        Single(self.0 / rhs.0)
    }

    fn neg(self) -> Self {
        Single(-self.0)
    }

    fn abs(self) -> Self {
        Single(libm::fabsf(self.0))
    }

    fn min(self, rhs: Self) -> Self {
        Single(self.0.min(rhs.0))
    }

    fn lt(self, rhs: Self) -> bool {
        self.0 < rhs.0
    }

    fn le(self, rhs: Self) -> bool {
        self.0 <= rhs.0
    }

    fn eq(self, rhs: Self) -> bool {
        self.0 == rhs.0
    }

    fn truncate(self) -> i64 {
        self.0 as i64
    }

    fn ln(self) -> Self {
        Single(libm::logf(self.0))
    }

    fn exp(self) -> Self {
        Single(libm::expf(self.0))
    }

    fn sqrt(self) -> Self {
        Single(libm::sqrtf(self.0))
    }

    fn powf(self, exponent: Self) -> Self {
        Single(libm::powf(self.0, exponent.0))
    }

    fn powi(self, exponent: i32) -> Self {
        Single(libm::powf(self.0, exponent as f32))
    }

    fn lgamma(self) -> (Self, i32) {
        let (value, sign) = libm::lgammaf_r(self.0);
        (Single(value), sign)
    }

    fn erf(self) -> Self {
        Single(libm::erff(self.0))
    }

    fn erfc(self) -> Self {
        Single(libm::erfcf(self.0))
    }
}

#[test]
fn single_erfinv() {
    assert!((Single(0.0).erfinv().0 - 0.0).abs() <= 1e-6);
    assert!((Single(0.5).erfinv().0 - 0.47693628).abs() <= 1e-6);
    assert!((Single(-0.99).erfinv().0 + 1.8213864).abs() <= 1e-5);
}

#[test]
fn single_ln_beta() {
    let value = special::ln_beta(Single(0.25), Single(0.5)).0;
    assert!((value - 1.6571065).abs() <= 1e-6);
}

#[test]
fn single_inc_beta() {
    let (p, q) = (Single(2.0), Single(3.0));
    let ln_beta = special::ln_beta(p, q);
    let value = special::inc_beta(Single(0.5), p, q, ln_beta).unwrap().0;
    assert!((value - 0.6875).abs() <= 1e-6);
    assert_eq!(special::inc_beta(Single(0.0), p, q, ln_beta), Ok(Single(0.0)));
    assert_eq!(special::inc_beta(Single(1.0), p, q, ln_beta), Ok(Single(1.0)));
}

#[test]
fn single_inv_inc_beta() {
    let (p, q) = (Single(1.0), Single(2.0));
    let ln_beta = special::ln_beta(p, q);
    let value = special::inv_inc_beta(Single(0.75), p, q, ln_beta).unwrap().0;
    assert!((value - 0.5).abs() <= 1e-5);
}

#[test]
fn single_inc_gamma() {
    let series = special::inc_gamma(Single(2.0), Single(4.2)).unwrap().0;
    assert!((series - 0.1186345).abs() <= 1e-6);
    let fraction = special::inc_gamma(Single(9.5), Single(4.2)).unwrap().0;
    assert!((fraction - 0.9815063).abs() <= 1e-6);
}

#[test]
fn single_digamma() {
    let value = special::digamma(Single(1.0)).unwrap().0;
    assert!((value + 0.5772157).abs() <= 1e-6);
}
