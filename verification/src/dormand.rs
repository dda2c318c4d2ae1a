//! The Dormand-Prince schemes: the coefficients of two embedded Runge-Kutta
//! methods, as exact fractions.

use vstd::prelude::*;

verus! {

/// A fraction of two integers; the denominator is positive.
#[derive(Clone, Copy, Debug, PartialEq, Eq, Structural)]
pub struct Ratio {
    pub num: i64,
    pub den: i64,
}

/// The fraction of `num` over `den`.
pub open spec fn ratio(num: int, den: int) -> Ratio {
    Ratio { num: num as i64, den: den as i64 }
}

/// The sum of the fractions of `t` from place `from` up to place `to`, as a
/// multiple of the fraction one over `scale`; `scale` is to be a multiple of each
/// denominator.
pub open spec fn scaled_sum(t: Seq<Ratio>, from: int, to: int, scale: int) -> int
    decreases to - from,
{
    if from >= to {
        0
    } else {
        t[from].num * (scale / t[from].den as int) + scaled_sum(t, from + 1, to, scale)
    }
}

/// Whether `scale` is a multiple of the denominators of `t` from place `from` up to
/// place `to`.
pub open spec fn divides_all(t: Seq<Ratio>, from: int, to: int, scale: int) -> bool {
    forall|i: int| from <= i < to ==> (#[trigger] t[i]).den > 0 && scale % (t[i].den as int) == 0
}

/// The coefficients of an embedded Runge-Kutta scheme.
pub trait RK {
    /// The order of the scheme, as a spec function.
    spec fn spec_order() -> u8;

    /// The number of stages of the scheme, as a spec function.
    spec fn spec_stages() -> usize;

    /// The order of the scheme.
    fn order() -> (r: u8)
        ensures
            r == Self::spec_order(),
    ;

    /// The number of stages of the scheme.
    fn stages() -> (r: usize)
        ensures
            r == Self::spec_stages(),
    ;

    /// The coefficients by which the earlier stages enter each stage, one row after
    /// the other: one for the second stage, two for the third, and so on.
    fn a_coeffs() -> (r: Vec<Ratio>)
        ensures
            2 * r@.len() == Self::spec_stages() * (Self::spec_stages() - 1),
            forall|i: int| 0 <= i < r@.len() ==> (#[trigger] r@[i]).den > 0,
    ;

    /// The weights of the stages in the result: those of the scheme's own order,
    /// then those of the embedded scheme.
    fn b_coeffs() -> (r: Vec<Ratio>)
        ensures
            r@.len() == 2 * Self::spec_stages(),
            forall|i: int| 0 <= i < r@.len() ==> (#[trigger] r@[i]).den > 0,
    ;
}

/// The Dormand-Prince scheme of order five with an embedded scheme of order four.
pub struct Dormand45 {}

/// The Dormand-Prince scheme of order eight with an embedded scheme of order seven.
pub struct Dormand78 {}

/// The stage coefficients of `Dormand45`.
pub open spec fn dormand45_a() -> Seq<Ratio> {
    seq![
        ratio(1, 5),
        ratio(3, 40),
        ratio(9, 40),
        ratio(44, 45),
        ratio(-56, 15),
        ratio(32, 9),
        ratio(19_372, 6_561),
        ratio(-25_360, 2_187),
        ratio(64_448, 6_561),
        ratio(-212, 729),
        ratio(9_017, 3_168),
        ratio(-355, 33),
        ratio(46_732, 5_247),
        ratio(49, 176),
        ratio(-5_103, 18_656),
        ratio(35, 384),
        ratio(0, 1),
        ratio(500, 1_113),
        ratio(125, 192),
        ratio(-2_187, 6_784),
        ratio(11, 84),
    ]
}

/// The weights of `Dormand45`.
pub open spec fn dormand45_b() -> Seq<Ratio> {
    seq![
        ratio(35, 384),
        ratio(0, 1),
        ratio(500, 1_113),
        ratio(125, 192),
        ratio(-2_187, 6_784),
        ratio(11, 84),
        ratio(0, 1),
        ratio(5_179, 57_600),
        ratio(0, 1),
        ratio(7_571, 16_695),
        ratio(393, 640),
        ratio(-92_097, 339_200),
        ratio(187, 2_100),
        ratio(1, 40),
    ]
}

/// The stage coefficients of `Dormand78`.
pub open spec fn dormand78_a() -> Seq<Ratio> {
    seq![
        ratio(1, 18),
        ratio(1, 48),
        ratio(1, 16),
        ratio(1, 32),
        ratio(0, 1),
        ratio(3, 32),
        ratio(5, 16),
        ratio(0, 1),
        ratio(-75, 64),
        ratio(75, 64),
        ratio(3, 80),
        ratio(0, 1),
        ratio(0, 1),
        ratio(3, 16),
        ratio(3, 20),
        ratio(29_443_841, 614_563_906),
        ratio(0, 1),
        ratio(0, 1),
        ratio(77_736_538, 692_538_347),
        ratio(-28_693_883, 1_125_000_000),
        ratio(23_124_283, 1_800_000_000),
        ratio(16_016_141, 946_692_911),
        ratio(0, 1),
        ratio(0, 1),
        ratio(61_564_180, 158_732_637),
        ratio(22_789_713, 633_445_777),
        ratio(545_815_736, 2_771_057_229),
        ratio(-180_193_667, 1_043_307_555),
        ratio(39_632_708, 573_591_083),
        ratio(0, 1),
        ratio(0, 1),
        ratio(-433_636_366, 683_701_615),
        ratio(-421_739_975, 2_616_292_301),
        ratio(100_302_831, 723_423_059),
        ratio(790_204_164, 839_813_087),
        ratio(800_635_310, 3_783_071_287),
        ratio(246_121_993, 1_340_847_787),
        ratio(0, 1),
        ratio(0, 1),
        ratio(-37_695_042_795, 15_268_766_246),
        ratio(-309_121_744, 1_061_227_803),
        ratio(-12_992_083, 490_766_935),
        ratio(6_005_943_493, 2_108_947_869),
        ratio(393_006_217, 1_396_673_457),
        ratio(123_872_331, 1_001_029_789),
        ratio(-1_028_468_189, 846_180_014),
        ratio(0, 1),
        ratio(0, 1),
        ratio(8_478_235_783, 508_512_852),
        ratio(1_311_729_495, 1_432_422_823),
        ratio(-10_304_129_995, 1_701_304_382),
        ratio(-48_777_925_059, 3_047_939_560),
        ratio(15_336_726_248, 1_032_824_649),
        ratio(-45_442_868_181, 3_398_467_696),
        ratio(3_065_993_473, 597_172_653),
        ratio(185_892_177, 718_116_043),
        ratio(0, 1),
        ratio(0, 1),
        ratio(-3_185_094_517, 667_107_341),
        ratio(-477_755_414, 1_098_053_517),
        ratio(-703_635_378, 230_739_211),
        ratio(5_731_566_787, 1_027_545_527),
        ratio(5_232_866_602, 850_066_563),
        ratio(-4_093_664_535, 808_688_257),
        ratio(3_962_137_247, 1_805_957_418),
        ratio(65_686_358, 487_910_083),
        ratio(403_863_854, 491_063_109),
        ratio(0, 1),
        ratio(0, 1),
        ratio(-5_068_492_393, 434_740_067),
        ratio(-411_421_997, 543_043_805),
        ratio(652_783_627, 914_296_604),
        ratio(11_173_962_825, 925_320_556),
        ratio(-13_158_990_841, 6_184_727_034),
        ratio(3_936_647_629, 1_978_049_680),
        ratio(-160_528_059, 685_178_525),
        ratio(248_638_103, 1_413_531_060),
        ratio(0, 1),
    ]
}

/// The weights of `Dormand78`.
pub open spec fn dormand78_b() -> Seq<Ratio> {
    seq![
        ratio(14_005_451, 335_480_064),
        ratio(0, 1),
        ratio(0, 1),
        ratio(0, 1),
        ratio(0, 1),
        ratio(-59_238_493, 1_068_277_825),
        ratio(181_606_767, 758_867_731),
        ratio(561_292_985, 797_845_732),
        ratio(-1_041_891_430, 1_371_343_529),
        ratio(760_417_239, 1_151_165_299),
        ratio(118_820_643, 751_138_087),
        ratio(-528_747_749, 2_220_607_170),
        ratio(1, 4),
        ratio(13_451_932, 455_176_623),
        ratio(0, 1),
        ratio(0, 1),
        ratio(0, 1),
        ratio(0, 1),
        ratio(-808_719_846, 976_000_145),
        ratio(1_757_004_468, 5_645_159_321),
        ratio(656_045_339, 265_891_186),
        ratio(-3_867_574_721, 1_518_517_206),
        ratio(465_885_868, 322_736_535),
        ratio(53_011_238, 667_516_719),
        ratio(2, 45),
        ratio(0, 1),
    ]
}

impl RK for Dormand45 {
    open spec fn spec_order() -> u8 {
        5
    }

    open spec fn spec_stages() -> usize {
        7
    }

    fn order() -> (r: u8) {
        5
    }

    fn stages() -> (r: usize) {
        7
    }

    fn a_coeffs() -> (r: Vec<Ratio>)
        ensures
            r@ == dormand45_a(),
    {
        let r = vec![
            Ratio { num: 1, den: 5 },
            Ratio { num: 3, den: 40 },
            Ratio { num: 9, den: 40 },
            Ratio { num: 44, den: 45 },
            Ratio { num: -56, den: 15 },
            Ratio { num: 32, den: 9 },
            Ratio { num: 19_372, den: 6_561 },
            Ratio { num: -25_360, den: 2_187 },
            Ratio { num: 64_448, den: 6_561 },
            Ratio { num: -212, den: 729 },
            Ratio { num: 9_017, den: 3_168 },
            Ratio { num: -355, den: 33 },
            Ratio { num: 46_732, den: 5_247 },
            Ratio { num: 49, den: 176 },
            Ratio { num: -5_103, den: 18_656 },
            Ratio { num: 35, den: 384 },
            Ratio { num: 0, den: 1 },
            Ratio { num: 500, den: 1_113 },
            Ratio { num: 125, den: 192 },
            Ratio { num: -2_187, den: 6_784 },
            Ratio { num: 11, den: 84 },
        ];
        assert(r@ =~= dormand45_a());
        r
    }

    fn b_coeffs() -> (r: Vec<Ratio>)
        ensures
            r@ == dormand45_b(),
    {
        let r = vec![
            Ratio { num: 35, den: 384 },
            Ratio { num: 0, den: 1 },
            Ratio { num: 500, den: 1_113 },
            Ratio { num: 125, den: 192 },
            Ratio { num: -2_187, den: 6_784 },
            Ratio { num: 11, den: 84 },
            Ratio { num: 0, den: 1 },
            Ratio { num: 5_179, den: 57_600 },
            Ratio { num: 0, den: 1 },
            Ratio { num: 7_571, den: 16_695 },
            Ratio { num: 393, den: 640 },
            Ratio { num: -92_097, den: 339_200 },
            Ratio { num: 187, den: 2_100 },
            Ratio { num: 1, den: 40 },
        ];
        assert(r@ =~= dormand45_b());
        r
    }
}

impl RK for Dormand78 {
    open spec fn spec_order() -> u8 {
        8
    }

    open spec fn spec_stages() -> usize {
        13
    }

    fn order() -> (r: u8) {
        8
    }

    fn stages() -> (r: usize) {
        13
    }

    fn a_coeffs() -> (r: Vec<Ratio>)
        ensures
            r@ == dormand78_a(),
    {
        let r = vec![
            Ratio { num: 1, den: 18 },
            Ratio { num: 1, den: 48 },
            Ratio { num: 1, den: 16 },
            Ratio { num: 1, den: 32 },
            Ratio { num: 0, den: 1 },
            Ratio { num: 3, den: 32 },
            Ratio { num: 5, den: 16 },
            Ratio { num: 0, den: 1 },
            Ratio { num: -75, den: 64 },
            Ratio { num: 75, den: 64 },
            Ratio { num: 3, den: 80 },
            Ratio { num: 0, den: 1 },
            Ratio { num: 0, den: 1 },
            Ratio { num: 3, den: 16 },
            Ratio { num: 3, den: 20 },
            Ratio { num: 29_443_841, den: 614_563_906 },
            Ratio { num: 0, den: 1 },
            Ratio { num: 0, den: 1 },
            Ratio { num: 77_736_538, den: 692_538_347 },
            Ratio { num: -28_693_883, den: 1_125_000_000 },
            Ratio { num: 23_124_283, den: 1_800_000_000 },
            Ratio { num: 16_016_141, den: 946_692_911 },
            Ratio { num: 0, den: 1 },
            Ratio { num: 0, den: 1 },
            Ratio { num: 61_564_180, den: 158_732_637 },
            Ratio { num: 22_789_713, den: 633_445_777 },
            Ratio { num: 545_815_736, den: 2_771_057_229 },
            Ratio { num: -180_193_667, den: 1_043_307_555 },
            Ratio { num: 39_632_708, den: 573_591_083 },
            Ratio { num: 0, den: 1 },
            Ratio { num: 0, den: 1 },
            Ratio { num: -433_636_366, den: 683_701_615 },
            Ratio { num: -421_739_975, den: 2_616_292_301 },
            Ratio { num: 100_302_831, den: 723_423_059 },
            Ratio { num: 790_204_164, den: 839_813_087 },
            Ratio { num: 800_635_310, den: 3_783_071_287 },
            Ratio { num: 246_121_993, den: 1_340_847_787 },
            Ratio { num: 0, den: 1 },
            Ratio { num: 0, den: 1 },
            Ratio { num: -37_695_042_795, den: 15_268_766_246 },
            Ratio { num: -309_121_744, den: 1_061_227_803 },
            Ratio { num: -12_992_083, den: 490_766_935 },
            Ratio { num: 6_005_943_493, den: 2_108_947_869 },
            Ratio { num: 393_006_217, den: 1_396_673_457 },
            Ratio { num: 123_872_331, den: 1_001_029_789 },
            Ratio { num: -1_028_468_189, den: 846_180_014 },
            Ratio { num: 0, den: 1 },
            Ratio { num: 0, den: 1 },
            Ratio { num: 8_478_235_783, den: 508_512_852 },
            Ratio { num: 1_311_729_495, den: 1_432_422_823 },
            Ratio { num: -10_304_129_995, den: 1_701_304_382 },
            Ratio { num: -48_777_925_059, den: 3_047_939_560 },
            Ratio { num: 15_336_726_248, den: 1_032_824_649 },
            Ratio { num: -45_442_868_181, den: 3_398_467_696 },
            Ratio { num: 3_065_993_473, den: 597_172_653 },
            Ratio { num: 185_892_177, den: 718_116_043 },
            Ratio { num: 0, den: 1 },
            Ratio { num: 0, den: 1 },
            Ratio { num: -3_185_094_517, den: 667_107_341 },
            Ratio { num: -477_755_414, den: 1_098_053_517 },
            Ratio { num: -703_635_378, den: 230_739_211 },
            Ratio { num: 5_731_566_787, den: 1_027_545_527 },
            Ratio { num: 5_232_866_602, den: 850_066_563 },
            Ratio { num: -4_093_664_535, den: 808_688_257 },
            Ratio { num: 3_962_137_247, den: 1_805_957_418 },
            Ratio { num: 65_686_358, den: 487_910_083 },
            Ratio { num: 403_863_854, den: 491_063_109 },
            Ratio { num: 0, den: 1 },
            Ratio { num: 0, den: 1 },
            Ratio { num: -5_068_492_393, den: 434_740_067 },
            Ratio { num: -411_421_997, den: 543_043_805 },
            Ratio { num: 652_783_627, den: 914_296_604 },
            Ratio { num: 11_173_962_825, den: 925_320_556 },
            Ratio { num: -13_158_990_841, den: 6_184_727_034 },
            Ratio { num: 3_936_647_629, den: 1_978_049_680 },
            Ratio { num: -160_528_059, den: 685_178_525 },
            Ratio { num: 248_638_103, den: 1_413_531_060 },
            Ratio { num: 0, den: 1 },
        ];
        assert(r@ =~= dormand78_a());
        r
    }

    fn b_coeffs() -> (r: Vec<Ratio>)
        ensures
            r@ == dormand78_b(),
    {
        let r = vec![
            Ratio { num: 14_005_451, den: 335_480_064 },
            Ratio { num: 0, den: 1 },
            Ratio { num: 0, den: 1 },
            Ratio { num: 0, den: 1 },
            Ratio { num: 0, den: 1 },
            Ratio { num: -59_238_493, den: 1_068_277_825 },
            Ratio { num: 181_606_767, den: 758_867_731 },
            Ratio { num: 561_292_985, den: 797_845_732 },
            Ratio { num: -1_041_891_430, den: 1_371_343_529 },
            Ratio { num: 760_417_239, den: 1_151_165_299 },
            Ratio { num: 118_820_643, den: 751_138_087 },
            Ratio { num: -528_747_749, den: 2_220_607_170 },
            Ratio { num: 1, den: 4 },
            Ratio { num: 13_451_932, den: 455_176_623 },
            Ratio { num: 0, den: 1 },
            Ratio { num: 0, den: 1 },
            Ratio { num: 0, den: 1 },
            Ratio { num: 0, den: 1 },
            Ratio { num: -808_719_846, den: 976_000_145 },
            Ratio { num: 1_757_004_468, den: 5_645_159_321 },
            Ratio { num: 656_045_339, den: 265_891_186 },
            Ratio { num: -3_867_574_721, den: 1_518_517_206 },
            Ratio { num: 465_885_868, den: 322_736_535 },
            Ratio { num: 53_011_238, den: 667_516_719 },
            Ratio { num: 2, den: 45 },
            Ratio { num: 0, den: 1 },
        ];
        assert(r@ =~= dormand78_b());
        r
    }
}

/// The weights of order five of `Dormand45` add up to one: the scheme gives a
/// constant derivative its due.
pub proof fn lemma_dormand45_weights()
    ensures
        divides_all(dormand45_b(), 0, 7, 142_464),
        scaled_sum(dormand45_b(), 0, 7, 142_464) == 142_464,
{
    let b = dormand45_b();
    assert(scaled_sum(b, 7, 7, 142_464) == 0);
    assert(b[6] == ratio(0, 1));
    assert(142_464int % 1int == 0 && 142_464int / 1int == 142_464);
    assert(b[6].num * (142_464int / (b[6].den as int)) == 0) by (nonlinear_arith)
        requires
            b[6].num == 0,
            b[6].den == 1,
    {
    }
    assert(scaled_sum(b, 6, 7, 142_464) == 0);
    assert(b[5] == ratio(11, 84));
    assert(142_464int % 84int == 0 && 142_464int / 84int == 1_696);
    assert(b[5].num * (142_464int / (b[5].den as int)) == 18_656) by (nonlinear_arith)
        requires
            b[5].num == 11,
            b[5].den == 84,
    {
    }
    assert(scaled_sum(b, 5, 7, 142_464) == 18_656);
    assert(b[4] == ratio(-2_187, 6_784));
    assert(142_464int % 6_784int == 0 && 142_464int / 6_784int == 21);
    assert(b[4].num * (142_464int / (b[4].den as int)) == -45_927) by (nonlinear_arith)
        requires
            b[4].num == -2_187,
            b[4].den == 6_784,
    {
    }
    assert(scaled_sum(b, 4, 7, 142_464) == -27_271);
    assert(b[3] == ratio(125, 192));
    assert(142_464int % 192int == 0 && 142_464int / 192int == 742);
    assert(b[3].num * (142_464int / (b[3].den as int)) == 92_750) by (nonlinear_arith)
        requires
            b[3].num == 125,
            b[3].den == 192,
    {
    }
    assert(scaled_sum(b, 3, 7, 142_464) == 65_479);
    assert(b[2] == ratio(500, 1_113));
    assert(142_464int % 1_113int == 0 && 142_464int / 1_113int == 128);
    assert(b[2].num * (142_464int / (b[2].den as int)) == 64_000) by (nonlinear_arith)
        requires
            b[2].num == 500,
            b[2].den == 1_113,
    {
    }
    assert(scaled_sum(b, 2, 7, 142_464) == 129_479);
    assert(b[1] == ratio(0, 1));
    assert(142_464int % 1int == 0 && 142_464int / 1int == 142_464);
    assert(b[1].num * (142_464int / (b[1].den as int)) == 0) by (nonlinear_arith)
        requires
            b[1].num == 0,
            b[1].den == 1,
    {
    }
    assert(scaled_sum(b, 1, 7, 142_464) == 129_479);
    assert(b[0] == ratio(35, 384));
    assert(142_464int % 384int == 0 && 142_464int / 384int == 371);
    assert(b[0].num * (142_464int / (b[0].den as int)) == 12_985) by (nonlinear_arith)
        requires
            b[0].num == 35,
            b[0].den == 384,
    {
    }
    assert(scaled_sum(b, 0, 7, 142_464) == 142_464);
}

/// The weights of the embedded scheme of order four of `Dormand45` add up to one.
pub proof fn lemma_dormand45_embedded_weights()
    ensures
        divides_all(dormand45_b(), 7, 14, 21_369_600),
        scaled_sum(dormand45_b(), 7, 14, 21_369_600) == 21_369_600,
{
    let b = dormand45_b();
    assert(scaled_sum(b, 14, 14, 21_369_600) == 0);
    assert(b[13] == ratio(1, 40));
    assert(21_369_600int % 40int == 0 && 21_369_600int / 40int == 534_240);
    assert(b[13].num * (21_369_600int / (b[13].den as int)) == 534_240) by (nonlinear_arith)
        requires
            b[13].num == 1,
            b[13].den == 40,
    {
    }
    assert(scaled_sum(b, 13, 14, 21_369_600) == 534_240);
    assert(b[12] == ratio(187, 2_100));
    assert(21_369_600int % 2_100int == 0 && 21_369_600int / 2_100int == 10_176);
    assert(b[12].num * (21_369_600int / (b[12].den as int)) == 1_902_912) by (nonlinear_arith)
        requires
            b[12].num == 187,
            b[12].den == 2_100,
    {
    }
    assert(scaled_sum(b, 12, 14, 21_369_600) == 2_437_152);
    assert(b[11] == ratio(-92_097, 339_200));
    assert(21_369_600int % 339_200int == 0 && 21_369_600int / 339_200int == 63);
    assert(b[11].num * (21_369_600int / (b[11].den as int)) == -5_802_111) by (nonlinear_arith)
        requires
            b[11].num == -92_097,
            b[11].den == 339_200,
    {
    }
    assert(scaled_sum(b, 11, 14, 21_369_600) == -3_364_959);
    assert(b[10] == ratio(393, 640));
    assert(21_369_600int % 640int == 0 && 21_369_600int / 640int == 33_390);
    assert(b[10].num * (21_369_600int / (b[10].den as int)) == 13_122_270) by (nonlinear_arith)
        requires
            b[10].num == 393,
            b[10].den == 640,
    {
    }
    assert(scaled_sum(b, 10, 14, 21_369_600) == 9_757_311);
    assert(b[9] == ratio(7_571, 16_695));
    assert(21_369_600int % 16_695int == 0 && 21_369_600int / 16_695int == 1_280);
    assert(b[9].num * (21_369_600int / (b[9].den as int)) == 9_690_880) by (nonlinear_arith)
        requires
            b[9].num == 7_571,
            b[9].den == 16_695,
    {
    }
    assert(scaled_sum(b, 9, 14, 21_369_600) == 19_448_191);
    assert(b[8] == ratio(0, 1));
    assert(21_369_600int % 1int == 0 && 21_369_600int / 1int == 21_369_600);
    assert(b[8].num * (21_369_600int / (b[8].den as int)) == 0) by (nonlinear_arith)
        requires
            b[8].num == 0,
            b[8].den == 1,
    {
    }
    assert(scaled_sum(b, 8, 14, 21_369_600) == 19_448_191);
    assert(b[7] == ratio(5_179, 57_600));
    assert(21_369_600int % 57_600int == 0 && 21_369_600int / 57_600int == 371);
    assert(b[7].num * (21_369_600int / (b[7].den as int)) == 1_921_409) by (nonlinear_arith)
        requires
            b[7].num == 5_179,
            b[7].den == 57_600,
    {
    }
    assert(scaled_sum(b, 7, 14, 21_369_600) == 21_369_600);
}

} // verus!
