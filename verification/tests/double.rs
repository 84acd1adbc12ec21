use special::{Error, Failure, Primitive};
use std::f64::consts::{FRAC_PI_2, LN_2};

#[derive(Clone, Copy, Debug, PartialEq)]
struct Double(f64);

impl Primitive for Double {
    fn decimal(mantissa: i64, exponent: i32) -> Self {
        Double(format!("{}e{}", mantissa, exponent).parse().unwrap())
    }

    fn add(self, rhs: Self) -> Self {
        Double(self.0 + rhs.0)
    }

    fn sub(self, rhs: Self) -> Self {
        Double(self.0 - rhs.0)
    }

    fn mul(self, rhs: Self) -> Self {
        Double(self.0 * rhs.0)
    }

    fn div(self, rhs: Self) -> Self {
        Double(self.0 / rhs.0)
    }

    fn neg(self) -> Self {
        Double(-self.0)
    }

    fn abs(self) -> Self {
        Double(libm::fabs(self.0))
    }

    fn min(self, rhs: Self) -> Self {
        Double(self.0.min(rhs.0))
    }

    fn lt(self, rhs: Self) -> bool {
        self.0 < rhs.0
    }

    fn le(self, rhs: Self) -> bool {
        self.0 <= rhs.0
    }

    fn eq(self, rhs: Self) -> bool {
        self.0 == rhs.0
    }

    fn truncate(self) -> i64 {
        self.0 as i64
    }

    fn ln(self) -> Self {
        Double(libm::log(self.0))
    }

    fn exp(self) -> Self {
        Double(libm::exp(self.0))
    }

    fn sqrt(self) -> Self {
        Double(libm::sqrt(self.0))
    }

    fn powf(self, exponent: Self) -> Self {
        Double(libm::pow(self.0, exponent.0))
    }

    fn powi(self, exponent: i32) -> Self {
        Double(libm::pow(self.0, exponent as f64))
    }

    fn lgamma(self) -> (Self, i32) {
        let (value, sign) = libm::lgamma_r(self.0);
        (Double(value), sign)
    }

    fn erf(self) -> Self {
        Double(libm::erf(self.0))
    }

    fn erfc(self) -> Self {
        Double(libm::erfc(self.0))
    }
}

fn close(x: &[f64], y: &[f64], delta: f64) {
    assert_eq!(x.len(), y.len());
    for (&x, &y) in x.iter().zip(y.iter()) {
        if x.is_finite() && y.is_finite() {
            assert!((x - y).abs() <= delta, "{:?} != {:?}", x, y);
        } else {
            assert!(x == y, "{:?} != {:?}", x, y);
        }
    }
}

#[test]
fn ln_beta() {
    let x = vec![0.25, 0.50, 0.75, 1.00];
    let y = vec![0.50, 0.75, 1.00, 1.25];
    let z = vec![
        1.6571065161914820,
        0.8739177307778084,
        0.2876820724517809,
        -0.2231435513142098,
    ];
    let w = x
        .iter()
        .zip(y.iter())
        .map(|(&x, &y)| special::ln_beta(Double(x), Double(y)).0)
        .collect::<Vec<_>>();
    close(&w, &z, 1e-14);
}

#[test]
fn inc_beta_small() {
    let (p, q) = (Double(0.1), Double(0.2));
    let ln_beta = special::ln_beta(p, q);

    let x = vec![
        0.00, 0.05, 0.10, 0.15, 0.20, 0.25, 0.30, 0.35, 0.40, 0.45, 0.50, 0.55, 0.60, 0.65, 0.70,
        0.75, 0.80, 0.85, 0.90, 0.95, 1.00,
    ];
    let y = vec![
        0.000000000000000e+00,
        5.095391215346399e-01,
        5.482400859052436e-01,
        5.732625733722232e-01,
        5.925346573554778e-01,
        6.086596697678208e-01,
        6.228433547203172e-01,
        6.357578563479236e-01,
        6.478288604374864e-01,
        6.593557133297501e-01,
        6.705707961028990e-01,
        6.816739425887479e-01,
        6.928567823206671e-01,
        7.043251807250750e-01,
        7.163269829958610e-01,
        7.291961263917867e-01,
        7.434379555965913e-01,
        7.599272566076309e-01,
        7.804880320024465e-01,
        8.104335200313719e-01,
        1.000000000000000e+00,
    ];

    let z = x
        .iter()
        .map(|&x| special::inc_beta(Double(x), p, q, ln_beta).unwrap().0)
        .collect::<Vec<_>>();
    close(&z, &y, 1e-14);
}

fn grid() -> Vec<f64> {
    vec![
        0.00, 0.05, 0.10, 0.15, 0.20, 0.25, 0.30, 0.35, 0.40, 0.45, 0.50, 0.55, 0.60, 0.65, 0.70,
        0.75, 0.80, 0.85, 0.90, 0.95, 1.00,
    ]
}

#[test]
fn inc_beta_large() {
    let (p, q) = (Double(2.0), Double(3.0));
    let ln_beta = special::ln_beta(p, q);

    let x = grid();
    let y = vec![
        0.000000000000000e+00,
        1.401875000000000e-02,
        5.230000000000002e-02,
        1.095187500000000e-01,
        1.807999999999999e-01,
        2.617187500000001e-01,
        3.483000000000000e-01,
        4.370187500000001e-01,
        5.248000000000003e-01,
        6.090187500000001e-01,
        6.875000000000000e-01,
        7.585187500000001e-01,
        8.208000000000000e-01,
        8.735187499999999e-01,
        9.163000000000000e-01,
        9.492187500000000e-01,
        9.728000000000000e-01,
        9.880187500000001e-01,
        9.963000000000000e-01,
        9.995187500000000e-01,
        1.000000000000000e+00,
    ];

    let z = x
        .iter()
        .map(|&x| special::inc_beta(Double(x), p, q, ln_beta).unwrap().0)
        .collect::<Vec<_>>();
    close(&z, &y, 1e-14);
}

#[test]
fn inv_inc_beta_small() {
    let (p, q) = (Double(0.2), Double(0.3));
    let ln_beta = special::ln_beta(p, q);

    let x = grid();
    let y = vec![
        0.000000000000000e+00,
        2.793072851850660e-06,
        8.937381711316164e-05,
        6.784491773826951e-04,
        2.855345858289119e-03,
        8.684107512129325e-03,
        2.144658503798324e-02,
        4.568556852983932e-02,
        8.683942933344659e-02,
        1.502095712585510e-01,
        2.391350361479824e-01,
        3.527066234122371e-01,
        4.840600731467657e-01,
        6.206841200371190e-01,
        7.474718280552188e-01,
        8.514539745840592e-01,
        9.257428898178934e-01,
        9.707021084050310e-01,
        9.923134416335146e-01,
        9.992341305241808e-01,
        1.000000000000000e+00,
    ];

    let z = x
        .iter()
        .map(|&x| special::inv_inc_beta(Double(x), p, q, ln_beta).unwrap().0)
        .collect::<Vec<_>>();
    close(&z, &y, 1e-14);
}

#[test]
fn inv_inc_beta_large() {
    let (p, q) = (Double(1.0), Double(2.0));
    let ln_beta = special::ln_beta(p, q);

    let x = grid();
    let y = vec![
        0.000000000000000e+00,
        0.025320565519104e+00,
        0.051316701949486e+00,
        0.078045554270711e+00,
        0.105572809000084e+00,
        0.133974596215561e+00,
        0.163339973465924e+00,
        0.193774225170145e+00,
        0.225403330758517e+00,
        0.258380151290432e+00,
        0.292893218813452e+00,
        0.329179606750063e+00,
        0.367544467966324e+00,
        0.408392021690038e+00,
        0.452277442494834e+00,
        0.500000000000000e+00,
        0.552786404500042e+00,
        0.612701665379257e+00,
        0.683772233983162e+00,
        0.776393202250021e+00,
        1.000000000000000e+00,
    ];

    let z = x
        .iter()
        .map(|&x| special::inv_inc_beta(Double(x), p, q, ln_beta).unwrap().0)
        .collect::<Vec<_>>();
    close(&z, &y, 1e-14);
}

#[test]
fn inc_gamma_small_p() {
    let p = Double(4.2);
    let x = vec![
        0.0, 0.5, 1.0, 1.5, 2.0, 2.5, 3.0, 3.5, 4.0, 4.5, 5.0, 5.5, 6.0, 6.5, 7.0, 7.5, 8.0, 8.5,
        9.0, 9.5,
    ];
    let y = vec![
        0.000000000000000e+00,
        1.118818097571853e-03,
        1.386936454406691e-02,
        5.173931341260211e-02,
        1.186345016135447e-01,
        2.092219100370761e-01,
        3.137074857845146e-01,
        4.219736975484903e-01,
        5.258832878449179e-01,
        6.200417684429613e-01,
        7.016346974530381e-01,
        7.698559854309833e-01,
        8.252531208548146e-01,
        8.691540627528154e-01,
        9.032348314835232e-01,
        9.292289044193606e-01,
        9.487539837941871e-01,
        9.632249236076943e-01,
        9.738240752336722e-01,
        9.815062931491536e-01,
    ];

    let z = x.iter().map(|&x| special::inc_gamma(Double(x), p).unwrap().0).collect::<Vec<_>>();
    close(&z, &y, 1e-14);
}

#[test]
fn inc_gamma_large_p() {
    let p = Double(1500.0);
    let x = vec![
        1400.0, 1410.0, 1420.0, 1430.0, 1440.0, 1450.0, 1460.0, 1470.0, 1480.0, 1490.0, 1500.0,
        1510.0, 1520.0, 1530.0, 1540.0, 1550.0, 1560.0, 1570.0, 1580.0, 1590.0,
    ];
    let y = vec![
        4.231080348517120e-03,
        9.056183893278287e-03,
        1.809200095269094e-02,
        3.380047876608895e-02,
        5.917825204288418e-02,
        9.731671903009434e-02,
        1.506860564044825e-01,
        2.202940362119810e-01,
        3.049926190158564e-01,
        4.012305141433336e-01,
        5.034335611603484e-01,
        6.049687028759408e-01,
        6.994146092246781e-01,
        7.817404371226420e-01,
        8.490443067241588e-01,
        9.006922020203059e-01,
        9.379249194843459e-01,
        9.631597573132408e-01,
        9.792520392189441e-01,
        9.889149370075309e-01,
    ];

    let z = x.iter().map(|&x| special::inc_gamma(Double(x), p).unwrap().0).collect::<Vec<_>>();
    close(&z, &y, 1e-12);
}

#[test]
fn digamma() {
    const EULER_MASCHERONI: f64 = 0.57721566490153286060651209008240243104215933593992;
    assert_eq!(
        -FRAC_PI_2 - 3.0 * LN_2 - EULER_MASCHERONI,
        special::digamma(Double(0.25)).unwrap().0
    );
}

#[test]
fn erfinv_of_zero_should_be_zero() {
    close(&[Double(0.0).erfinv().0], &[0.0], 1e-12);
}

#[test]
fn erfinv_positive_value_mid_domain() {
    close(&[Double(0.5).erfinv().0], &[0.47693627620446982], 1e-12);
}

#[test]
fn erfinv_positive_value_near_center() {
    close(&[Double(0.121).erfinv().0], &[0.10764782605515244], 1e-12);
}

#[test]
fn erfinv_negative_value_near_lower_bound() {
    close(&[Double(-0.99).erfinv().0], &[-1.8213863677184492], 1e-12);
}

#[test]
fn erfinv_negative_value_nearer_lower_bound() {
    close(&[Double(-0.999).erfinv().0], &[-2.3267537655135242], 1e-12);
}

fn beta(x: f64, p: f64, q: f64) -> f64 {
    let ln_beta = special::ln_beta(Double(p), Double(q));
    special::inc_beta(Double(x), Double(p), Double(q), ln_beta).unwrap().0
}

fn inverse(alpha: f64, p: f64, q: f64) -> f64 {
    let ln_beta = special::ln_beta(Double(p), Double(q));
    special::inv_inc_beta(Double(alpha), Double(p), Double(q), ln_beta).unwrap().0
}

#[test]
fn inc_beta_does_not_decrease() {
    for &(p, q) in [(0.1, 0.2), (2.0, 3.0), (0.5, 1.5), (1.0, 1.0), (30.0, 4.0)].iter() {
        let mut last = 0.0;
        for i in 0..=200 {
            let value = beta(i as f64 / 200.0, p, q);
            assert!(last <= value + 1e-15, "{} {} {}", p, q, i);
            assert!(0.0 <= value && value <= 1.0);
            last = value;
        }
    }
}

#[test]
fn inv_inc_beta_round_trip() {
    for &(p, q) in [(0.2, 0.3), (1.0, 2.0), (2.0, 3.0), (0.5, 1.5), (5.0, 5.0)].iter() {
        for i in 1..100 {
            let alpha = i as f64 / 100.0;
            let x = inverse(alpha, p, q);
            assert!((beta(x, p, q) - alpha).abs() <= 1e-10, "{} {} {}", p, q, alpha);
        }
    }
}

#[test]
fn boundaries_are_exact() {
    for &(p, q) in [(0.1, 0.2), (1.0, 1.0), (2.0, 3.0), (1500.0, 0.5)].iter() {
        assert_eq!(beta(0.0, p, q), 0.0);
        assert_eq!(beta(1.0, p, q), 1.0);
        assert_eq!(beta(-3.0, p, q), 0.0);
        assert_eq!(beta(7.5, p, q), 1.0);
        assert_eq!(inverse(0.0, p, q), 0.0);
        assert_eq!(inverse(1.0, p, q), 1.0);
        assert_eq!(inverse(-0.5, p, q), 0.0);
        assert_eq!(inverse(1.5, p, q), 1.0);
        assert_eq!(special::inc_gamma(Double(0.0), Double(p)), Ok(Double(0.0)));
    }
}

#[test]
fn inc_gamma_saturates_beyond_big_arguments() {
    assert_eq!(special::inc_gamma(Double(1.0e8), Double(0.5)), Ok(Double(1.0)));
    assert_eq!(special::inc_gamma(Double(1.5e8), Double(0.5)), Ok(Double(1.0)));
    assert_eq!(special::inc_gamma(Double(f64::INFINITY), Double(3.0)), Ok(Double(1.0)));
}

#[test]
fn inc_gamma_underflows_to_the_limits() {
    assert_eq!(special::inc_gamma(Double(1.0e-30), Double(4.0)), Ok(Double(0.0)));
    assert_eq!(special::inc_gamma(Double(200.0), Double(2.0)), Ok(Double(1.0)));
}

#[test]
fn inc_beta_is_symmetric() {
    for &(p, q) in [(0.1, 0.2), (2.0, 3.0), (0.5, 1.5), (1.0, 1.0)].iter() {
        for i in 1..20 {
            let x = i as f64 / 20.0;
            assert!((beta(x, p, q) - (1.0 - beta(1.0 - x, q, p))).abs() <= 1e-14);
        }
    }
}

#[test]
fn inc_beta_reflects_exactly_where_one_side_flips() {
    assert_eq!(beta(0.75, 2.0, 3.0), 1.0 - beta(0.25, 3.0, 2.0));
    assert_eq!(beta(0.5, 1.0, 4.0), 1.0 - beta(0.5, 4.0, 1.0));
}

#[test]
fn inc_beta_is_uniform_for_unit_shapes() {
    for i in 0..=20 {
        let x = i as f64 / 20.0;
        let value = special::inc_beta(Double(x), Double(1.0), Double(1.0), Double(0.0));
        assert!((value.unwrap().0 - x).abs() <= 1e-15);
    }
}

#[test]
fn ln_beta_is_symmetric() {
    for &(p, q) in [(0.25, 0.5), (0.1, 20.0), (3.0, 1500.0), (1.0, 1.0)].iter() {
        assert_eq!(special::ln_beta(Double(p), Double(q)), special::ln_beta(Double(q), Double(p)));
    }
}

#[test]
fn ln_gamma_carries_the_sign() {
    let (value, sign) = special::ln_gamma(Double(5.0));
    assert!((value.0 - 24.0f64.ln()).abs() <= 1e-14);
    assert_eq!(sign, 1);
    let (value, sign) = special::ln_gamma(Double(-0.5));
    assert!((value.0 - 1.2655121234846454).abs() <= 1e-14);
    assert_eq!(sign, -1);
}

#[test]
fn literal_values() {
    assert!((beta(0.5, 0.1, 0.2) - 0.6705707961028990).abs() <= 1e-9);
    assert_eq!(beta(0.5, 2.0, 3.0), 0.6875);
    assert!((inverse(0.5, 0.2, 0.3) - 0.2391350361479824).abs() <= 1e-9);
    let small = special::inc_gamma(Double(2.0), Double(4.2)).unwrap().0;
    assert!((small - 0.1186345016135447).abs() <= 1e-12);
    let large = special::inc_gamma(Double(1500.0), Double(1500.0)).unwrap().0;
    assert!((large - 0.5034335611603484).abs() <= 1e-10);
}

#[test]
fn erf_and_erfc_come_from_the_scalar() {
    assert_eq!(Error::erf(Double(0.5)), Double(libm::erf(0.5)));
    assert_eq!(Error::erfc(Double(0.5)), Double(libm::erfc(0.5)));
    assert!((Error::erf(Double(0.5).erfinv()).0 - 0.5).abs() <= 1e-15);
}

#[test]
fn digamma_of_one_is_minus_euler() {
    const EULER_MASCHERONI: f64 = 0.57721566490153286060651209008240243104215933593992;
    assert!((special::digamma(Double(1.0)).unwrap().0 + EULER_MASCHERONI).abs() < 1e-15);
}

#[test]
fn digamma_above_eight_is_the_expansion() {
    let x: f64 = 10.0;
    let exact = 2.2517525890667214;
    assert!((special::digamma(Double(x)).unwrap().0 - exact).abs() <= 1e-14);
}

#[test]
fn digamma_gives_up_where_shifting_makes_no_progress() {
    assert!(matches!(special::digamma(Double(-1.0e300)), Err(Failure::NoConvergence(_))));
}

#[test]
fn shapes_must_be_positive() {
    let nan = f64::NAN;
    for &bad in [0.0, -1.0, nan].iter() {
        assert_eq!(
            special::inc_beta(Double(0.5), Double(bad), Double(1.0), Double(0.0)),
            Err(Failure::Domain)
        );
        assert_eq!(
            special::inc_beta(Double(0.5), Double(1.0), Double(bad), Double(0.0)),
            Err(Failure::Domain)
        );
        assert_eq!(
            special::inc_beta(Double(0.0), Double(bad), Double(1.0), Double(0.0)),
            Err(Failure::Domain)
        );
        assert_eq!(
            special::inv_inc_beta(Double(0.5), Double(bad), Double(1.0), Double(0.0)),
            Err(Failure::Domain)
        );
        assert_eq!(
            special::inv_inc_beta(Double(0.5), Double(1.0), Double(bad), Double(0.0)),
            Err(Failure::Domain)
        );
        assert_eq!(special::inc_gamma(Double(1.0), Double(bad)), Err(Failure::Domain));
    }
}

#[test]
fn arguments_must_be_ordered() {
    let nan = Double(f64::NAN);
    let one = Double(1.0);
    assert_eq!(special::inc_beta(nan, one, one, Double(0.0)), Err(Failure::Domain));
    assert_eq!(special::inv_inc_beta(nan, one, one, Double(0.0)), Err(Failure::Domain));
    assert_eq!(special::inc_gamma(nan, one), Err(Failure::Domain));
    assert_eq!(special::inc_gamma(Double(-0.5), one), Err(Failure::Domain));
}

#[test]
fn inc_beta_reports_a_series_that_overflows() {
    let huge = Double(1.0e308);
    let result = special::inc_beta(Double(0.1), huge, huge, Double(0.0));
    assert!(matches!(result, Err(Failure::NoConvergence(_))));
}

#[test]
fn inv_inc_beta_reports_a_lost_estimate() {
    let result = special::inv_inc_beta(Double(0.3), Double(0.5), Double(0.5), Double(f64::NAN));
    assert!(matches!(result, Err(Failure::NoConvergence(_))));
}

#[test]
fn inv_inc_beta_mirrors_exactly() {
    assert_eq!(inverse(0.75, 0.7, 2.5), 1.0 - inverse(0.25, 2.5, 0.7));
    assert_eq!(inverse(0.875, 4.0, 6.0), 1.0 - inverse(0.125, 6.0, 4.0));
}

#[test]
fn inv_inc_beta_mirrors_high_levels() {
    let (p, q) = (0.7, 2.5);
    for i in 1..10 {
        let alpha = i as f64 / 20.0;
        assert!((inverse(1.0 - alpha, p, q) - (1.0 - inverse(alpha, q, p))).abs() <= 1e-12);
    }
}

#[test]
fn inv_inc_beta_uses_each_first_guess() {
    let carter = inverse(0.3, 4.0, 6.0);
    assert!((beta(carter, 4.0, 6.0) - 0.3).abs() <= 1e-12);
    let power = inverse(0.01, 0.5, 0.5);
    assert!((beta(power, 0.5, 0.5) - 0.01).abs() <= 1e-12);
    let linear = inverse(0.4, 0.9, 8.0);
    assert!((beta(linear, 0.9, 8.0) - 0.4).abs() <= 1e-12);
    let negative = inverse(0.45, 3.0, 0.05);
    assert!((negative - 0.9999985256057481).abs() <= 1e-12);
    assert!((beta(negative, 3.0, 0.05) - 0.45).abs() <= 1e-4);
}

#[test]
fn inv_inc_beta_reports_a_step_that_cannot_be_shortened() {
    let result =
        special::inv_inc_beta(Double(0.3), Double(2.0), Double(3.0), Double(f64::INFINITY));
    assert!(matches!(result, Err(Failure::NoConvergence(_))));
}
