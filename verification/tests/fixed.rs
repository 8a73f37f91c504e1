//! The fixed-point scalar, and the chain over it.

use chord::fixed::{ONE, PI};
use chord::{Chord, Dot, Fixed, Scalar, Vect};

fn whole(n: u16) -> Fixed {
    Fixed::from_count(n)
}

fn raw(raw: i64) -> Fixed {
    Fixed { raw }
}

fn vect(x: i64, y: i64) -> Vect<Fixed> {
    Vect { x: raw(x), y: raw(y) }
}

fn xy(v: Vect<Fixed>) -> (i64, i64) {
    (v.x.raw, v.y.raw)
}

fn positions(c: &Chord<Fixed>) -> Vec<(i64, i64)> {
    c.chord.iter().map(|d| xy(d.pos)).collect()
}

#[test]
fn constants_are_what_they_stand_for() {
    assert_eq!(ONE, 1i64 << 32);
    assert_eq!(PI, (std::f64::consts::PI * ONE as f64).floor() as i64);
    assert_eq!(Fixed::zero(), raw(0));
    assert_eq!(Fixed::pi(), raw(13493037704));
    assert_eq!(whole(0), raw(0));
    assert_eq!(whole(3), raw(3 * ONE));
    assert_eq!(whole(u16::MAX), raw(65535 * ONE));
}

#[test]
fn whole_numbers_of_machine_size_saturate() {
    assert_eq!(Fixed::from_isize(-7), raw(-7 * ONE));
    assert_eq!(Fixed::from_isize(700), raw(700 * ONE));
    assert_eq!(Fixed::from_isize(isize::MAX), raw(i64::MAX));
    assert_eq!(Fixed::from_isize(isize::MIN), raw(i64::MIN));
    assert_eq!(Fixed::from_usize(81), raw(81 * ONE));
    assert_eq!(Fixed::from_usize((1usize << 31) - 1), raw(((1i64 << 31) - 1) * ONE));
    assert_eq!(Fixed::from_usize(1usize << 31), raw(i64::MAX));
    assert_eq!(Fixed::from_usize(usize::MAX), raw(i64::MAX));
}

#[test]
fn sums_and_differences_are_exact_until_they_saturate() {
    assert_eq!(raw(5).add(raw(-7)), raw(-2));
    assert_eq!(raw(5).sub(raw(-7)), raw(12));
    assert_eq!(raw(i64::MAX).add(raw(1)), raw(i64::MAX));
    assert_eq!(raw(i64::MIN).add(raw(-1)), raw(i64::MIN));
    assert_eq!(raw(i64::MIN).sub(raw(1)), raw(i64::MIN));
    assert_eq!(raw(i64::MAX).sub(raw(-1)), raw(i64::MAX));
    assert_eq!(raw(0).sub(raw(i64::MIN)), raw(i64::MAX));
    assert_eq!(raw(i64::MAX).add(raw(i64::MIN)), raw(-1));
}

#[test]
fn products_round_towards_zero() {
    assert_eq!(raw(3 * ONE / 2).mul(raw(5 * ONE / 2)), raw(15 * ONE / 4));
    assert_eq!(raw(-3 * ONE / 2).mul(raw(5 * ONE / 2)), raw(-15 * ONE / 4));
    assert_eq!(raw(-3 * ONE / 2).mul(raw(-5 * ONE / 2)), raw(15 * ONE / 4));
    assert_eq!(raw(1).mul(raw(1)), raw(0));
    assert_eq!(raw(3).mul(raw(ONE / 2)), raw(1));
    assert_eq!(raw(-3).mul(raw(ONE / 2)), raw(-1));
    assert_eq!(raw(3).mul(raw(-ONE / 2)), raw(-1));
    assert_eq!(raw(-1).mul(raw(ONE / 2)), raw(0));
    assert_eq!(raw(-5).mul(raw(0)), raw(0));
    assert_eq!(whole(7).mul(whole(1)), whole(7));
}

#[test]
fn products_saturate() {
    assert_eq!(whole(u16::MAX).mul(whole(u16::MAX)), raw(i64::MAX));
    assert_eq!(raw(-65535 * ONE).mul(whole(u16::MAX)), raw(i64::MIN));
    assert_eq!(raw(i64::MIN).mul(raw(i64::MIN)), raw(i64::MAX));
    assert_eq!(raw(i64::MIN).mul(raw(i64::MAX)), raw(i64::MIN));
    assert_eq!(raw(i64::MIN).mul(whole(1)), raw(i64::MIN));
    assert_eq!(raw(i64::MIN).mul(raw(-ONE)), raw(i64::MAX));
    assert_eq!(whole(46340).mul(whole(46340)), raw(2147395600 * ONE));
}

#[test]
fn quotients_round_towards_zero() {
    assert_eq!(whole(3).div(whole(8)), raw(1610612736));
    assert_eq!(whole(1).div(whole(3)), raw(1431655765));
    assert_eq!(raw(-ONE).div(whole(3)), raw(-1431655765));
    assert_eq!(whole(7).div(raw(-2 * ONE)), raw(-15032385536));
    assert_eq!(raw(-7 * ONE).div(raw(-2 * ONE)), raw(15032385536));
    assert_eq!(raw(0).div(raw(-5)), raw(0));
    assert_eq!(raw(1).div(whole(2)), raw(0));
    assert_eq!(raw(-1).div(whole(2)), raw(0));
}

#[test]
fn quotients_saturate_and_division_by_zero_is_defined() {
    assert_eq!(whole(1).div(raw(0)), raw(i64::MAX));
    assert_eq!(raw(-1).div(raw(0)), raw(i64::MIN));
    assert_eq!(raw(0).div(raw(0)), raw(0));
    assert_eq!(whole(u16::MAX).div(raw(1)), raw(i64::MAX));
    assert_eq!(whole(u16::MAX).div(raw(-1)), raw(i64::MIN));
    assert_eq!(raw(i64::MIN).div(raw(-ONE)), raw(i64::MAX));
    assert_eq!(raw(i64::MIN).div(whole(1)), raw(i64::MIN));
}

#[test]
fn roots_round_down() {
    assert_eq!(whole(25).sqrt(), whole(5));
    assert_eq!(whole(2).sqrt(), raw(6074000999));
    assert_eq!(raw(ONE / 4).sqrt(), raw(ONE / 2));
    assert_eq!(raw(1).sqrt(), raw(65536));
    assert_eq!(raw(i64::MAX).sqrt(), raw(199032864766430));
    assert_eq!(raw(0).sqrt(), raw(0));
    assert_eq!(raw(-1).sqrt(), raw(0));
    assert_eq!(raw(i64::MIN).sqrt(), raw(0));
}

#[test]
fn sines_follow_the_quotient() {
    assert_eq!(raw(0).sin(), raw(0));
    assert_eq!(Fixed::pi().div(whole(2)).sin(), raw(ONE));
    assert_eq!(raw(PI / 2).sin(), raw(ONE));
    assert_eq!(raw(-PI / 2).sin(), raw(-ONE));
    assert_eq!(Fixed::pi().sin(), raw(0));
    assert_eq!(raw(3 * PI / 2).sin(), raw(-ONE));
    assert_eq!(raw(-3 * PI / 2).sin(), raw(ONE));
    assert_eq!(raw(2 * PI).sin(), raw(0));
    assert_eq!(Fixed::pi().div(whole(6)).sin(), raw(2147483647));
    assert_eq!(raw(PI / 4).sin(), raw(3031741620));
    assert_eq!(whole(1).sin(), raw(3608709346));
    assert_eq!(raw(-ONE).sin(), raw(-3608709346));
    assert_eq!(whole(100).sin(), raw(-2174616320));
    assert_eq!(raw(i64::MAX).sin(), raw(-4070063214));
    assert_eq!(raw(i64::MIN).sin(), raw(4070063214));
}

#[test]
fn sines_stay_near_the_true_sine() {
    let mut x = -8 * ONE;
    while x < 8 * ONE {
        let got = raw(x).sin().raw as f64 / ONE as f64;
        let want = (x as f64 / ONE as f64).sin();
        assert!((got - want).abs() < 0.002, "{} {} {}", x, got, want);
        assert!(raw(x).sin().raw.abs() <= ONE);
        x += ONE / 64 + 12345;
    }
}

#[test]
fn pixels_are_the_nearest_whole_number_in_range() {
    assert_eq!(raw(0).to_pixel(), 0);
    assert_eq!(raw(ONE / 2 - 1).to_pixel(), 0);
    assert_eq!(raw(ONE / 2).to_pixel(), 1);
    assert_eq!(raw(3 * ONE / 2 - 1).to_pixel(), 1);
    assert_eq!(raw(3 * ONE / 2).to_pixel(), 2);
    assert_eq!(whole(741).to_pixel(), 741);
    assert_eq!(raw(-1).to_pixel(), 0);
    assert_eq!(raw(-5 * ONE).to_pixel(), 0);
    assert_eq!(raw(i64::MIN).to_pixel(), 0);
    assert_eq!(whole(u16::MAX).to_pixel(), u16::MAX);
    assert_eq!(raw(65535 * ONE + ONE / 2).to_pixel(), u16::MAX);
    assert_eq!(raw(i64::MAX).to_pixel(), u16::MAX);
    assert_eq!(raw(65534 * ONE + ONE / 2).to_pixel(), u16::MAX);
    assert_eq!(raw(65534 * ONE + ONE / 2 - 1).to_pixel(), 65534);
}

#[test]
fn size_of_fixed_vectors() {
    assert_eq!(vect(0, 0).size(), raw(0));
    assert_eq!(vect(3 * ONE, 4 * ONE).size(), whole(5));
    assert_eq!(vect(-3 * ONE, -4 * ONE).size(), whole(5));
    assert_eq!(vect(ONE, ONE).size(), raw(6074000999));
}

#[test]
fn fixed_vectors_add_subtract_and_scale() {
    assert_eq!(xy(vect(1, 2).add(vect(10, 20))), (11, 22));
    assert_eq!(xy(vect(1, 2).sub(vect(10, 20))), (-9, -18));
    let mut v = vect(3 * ONE, -4 * ONE);
    v.scale(raw(ONE / 4));
    assert_eq!(xy(v), (3 * ONE / 4, -ONE));
    assert_eq!(xy(Vect::<Fixed>::zero()), (0, 0));
}

#[test]
fn linear_chain_of_four_segments_in_fixed_point() {
    let c = Chord::new(4, raw(ONE / 10)).unwrap();
    assert_eq!(
        positions(&c),
        vec![
            (0, 0),
            (ONE, 3 * ONE / 8),
            (2 * ONE, 3 * ONE / 4),
            (3 * ONE, 3 * ONE / 8),
            (4 * ONE, 0)
        ]
    );
    let pinned: Vec<bool> = c.chord.iter().map(|d| d.fixed).collect();
    assert_eq!(pinned, vec![true, false, false, false, true]);
}

#[test]
fn sine_chain_of_two_segments_in_fixed_point() {
    let c = Chord::new_sine(2, raw(ONE / 4)).unwrap();
    assert_eq!(positions(&c), vec![(0, 0), (ONE, 5 * ONE), (2 * ONE, 0)]);
}

#[test]
fn sine_chain_of_seven_segments_in_fixed_point() {
    let c = Chord::new_sine(7, raw(ONE / 4)).unwrap();
    let heights: Vec<i64> = c.chord.iter().map(|d| d.pos.y.raw).collect();
    assert_eq!(
        heights,
        vec![0, 9328435750, 16760847980, 20929789865, 20929789865, 16760847985, 9328435755, 0]
    );
}

#[test]
fn one_tick_on_the_sine_chain_in_fixed_point() {
    let mut c = Chord::new_sine(2, raw(ONE / 4)).unwrap();
    c.tick();
    assert_eq!(xy(c.chord[1].acc), (0, -5 * ONE / 2));
    assert_eq!(xy(c.chord[1].vel), (0, -5 * ONE / 2));
    assert_eq!(xy(c.chord[1].pos), (ONE, 5 * ONE / 2));
    assert_eq!(xy(c.chord[0].acc), (ONE / 4, 5 * ONE / 4));
    assert_eq!(xy(c.chord[0].pos), (0, 0));
    assert_eq!(xy(c.chord[2].acc), (-ONE / 4, 5 * ONE / 4));
    assert_eq!(xy(c.chord[2].pos), (2 * ONE, 0));
}

#[test]
fn a_straight_fixed_point_chain_stays_as_it_is() {
    let mut dots = Vec::new();
    for i in 0..9i64 {
        dots.push(Dot::new(raw(i * 12345 - 7), raw(1000 - i * 333), i == 0 || i == 8));
    }
    let mut c = Chord { k: raw(i64::MAX), chord: dots };
    let before = positions(&c);
    for _ in 0..20 {
        c.tick();
        for i in 1..8 {
            assert_eq!(xy(c.chord[i].acc), (0, 0));
            assert_eq!(xy(c.chord[i].vel), (0, 0));
        }
        assert_eq!(positions(&c), before);
    }
}

#[test]
fn a_straight_chain_across_the_whole_range_is_balanced() {
    let dots = vec![
        Dot::new(raw(i64::MIN), raw(i64::MAX), true),
        Dot::new(raw(0), raw(0), false),
        Dot::new(raw(i64::MAX), raw(i64::MIN), true),
    ];
    let mut c = Chord { k: whole(3), chord: dots };
    c.chord[2].pos = vect(i64::MAX - 1, i64::MIN + 2);
    c.chord[0].pos = vect(-(i64::MAX - 1), -(i64::MIN + 2));
    c.tick();
    assert_eq!(xy(c.chord[1].acc), (0, 0));
    assert_eq!(xy(c.chord[1].pos), (0, 0));
}

#[test]
fn pinned_fixed_point_dots_never_move() {
    let mut c = Chord::new(12, raw(ONE / 64)).unwrap();
    for _ in 0..300 {
        c.tick();
    }
    assert_eq!(xy(c.chord[0].pos), (0, 0));
    assert_eq!(xy(c.chord[0].vel), (0, 0));
    assert_eq!(xy(c.chord[12].pos), (12 * ONE, 0));
    assert_eq!(xy(c.chord[12].vel), (0, 0));
    assert!(c.chord[0].fixed && c.chord[12].fixed);
    assert_ne!(xy(c.chord[6].pos), (6 * ONE, 6 * 3 * ONE / 8));
}
