use fixed::types::I16F16;
use trenchcoat::forth::cell_data::{CellData, ONE_BITS, PI2_BITS};

const SAMPLES: [i32; 12] = [
    0,
    1,
    -1,
    0x1_0000,
    -0x1_0000,
    0x8000,
    0x2_4000,
    -0x2_4000,
    0x7fff_ffff,
    i32::MIN,
    123_456_789,
    -987_654,
];

fn cd(bits: i32) -> CellData {
    CellData::from_bits(bits)
}

#[test]
fn constants() {
    assert_eq!(ONE_BITS, I16F16::ONE.to_bits());
    assert_eq!(PI2_BITS, "6.283185307179586".parse::<I16F16>().unwrap().to_bits());
    assert_eq!(CellData::max_value().to_bits(), I16F16::MAX.to_bits());
    assert_eq!(CellData::one().to_bits(), 65536);
    assert_eq!(CellData::zero().to_bits(), 0);
    assert_eq!(CellData::from_bool(true), CellData::one());
    assert_eq!(CellData::from_bool(false), CellData::zero());
}

#[test]
fn from_num_and_back() {
    assert_eq!(CellData::from_num(3).to_bits(), 3 << 16);
    assert_eq!(CellData::from_num(-3).to_bits(), -3 * 65536);
    assert_eq!(CellData::checked_from_num(32767), Some(cd(32767 << 16)));
    assert_eq!(CellData::checked_from_num(-32768), Some(cd(i32::MIN)));
    assert_eq!(CellData::checked_from_num(32768), None);
    assert_eq!(CellData::checked_from_num(-32769), None);
    assert_eq!(cd(0x2_8000).to_num(), 2);
    assert_eq!(cd(-0x2_8000).to_num(), -3);
    for &a in SAMPLES.iter() {
        assert_eq!(cd(a).to_num(), I16F16::from_bits(a).to_num::<i32>());
    }
}

#[test]
fn exact_values() {
    assert_eq!(cd(0x1_8000).wrapping_add(cd(0x8000)), cd(0x2_0000));
    assert_eq!(cd(0x7fff_ffff).wrapping_add(cd(1)), cd(i32::MIN));
    assert_eq!(cd(0).wrapping_sub(cd(1)), cd(-1));
    assert_eq!(cd(i32::MIN).wrapping_sub(cd(1)), cd(i32::MAX));
    assert_eq!(cd(0x1_8000).wrapping_mul(cd(0x2_0000)), cd(0x3_0000));
    assert_eq!(cd(-1).wrapping_mul(cd(1)), cd(-1));
    assert_eq!(cd(1).wrapping_mul(cd(1)), cd(0));
    assert_eq!(cd(0x3_0000).checked_div(cd(0x2_0000)), Some(cd(0x1_8000)));
    assert_eq!(cd(-0x1_0000).checked_div(cd(0x3_0000)), Some(cd(-21845)));
    assert_eq!(cd(0x3_0000).checked_div(cd(0)), None);
    assert_eq!(cd(0x7_8000).checked_rem(cd(0x2_0000)), Some(cd(0x1_8000)));
    assert_eq!(cd(-0x7_8000).checked_rem(cd(0x2_0000)), Some(cd(-0x1_8000)));
    assert_eq!(cd(5).checked_rem(cd(0)), None);
    assert_eq!(cd(-0x5_0000).abs(), cd(0x5_0000));
    assert_eq!(cd(i32::MIN).abs(), cd(i32::MIN));
    assert_eq!(cd(0x2_4000).frac(), cd(0x4000));
    assert_eq!(cd(-0x2_4000).frac(), cd(0xc000));
    assert_eq!(cd(6).bitand(cd(3)), cd(2));
    assert_eq!(cd(6).bitor(cd(3)), cd(7));
}

#[test]
fn operations_are_those_of_the_fixed_point_library() {
    for &a in SAMPLES.iter() {
        let x = I16F16::from_bits(a);
        assert_eq!(cd(a).abs().to_bits(), x.wrapping_abs().to_bits());
        assert_eq!(cd(a).frac().to_bits(), x.frac().to_bits());
        for &b in SAMPLES.iter() {
            let y = I16F16::from_bits(b);
            assert_eq!(cd(a).wrapping_add(cd(b)).to_bits(), x.wrapping_add(y).to_bits());
            assert_eq!(cd(a).wrapping_sub(cd(b)).to_bits(), x.wrapping_sub(y).to_bits());
            assert_eq!(cd(a).wrapping_mul(cd(b)).to_bits(), x.wrapping_mul(y).to_bits());
            if b != 0 {
                assert_eq!(cd(a).checked_div(cd(b)).unwrap().to_bits(), x.wrapping_div(y).to_bits());
            }
            assert_eq!(cd(a).checked_rem(cd(b)).map(|v| v.to_bits()), x.checked_rem(y).map(|v| v.to_bits()));
        }
    }
}

#[test]
fn sine_is_that_of_the_cordic_library() {
    for &a in [0, 6554, 0x1_0000, 102944, -102944, 411775, 0x10_0000, -0x20_0000, i32::MAX, i32::MIN].iter() {
        assert_eq!(cd(a).sin().to_bits(), cordic::sin(I16F16::from_bits(a)).to_bits());
    }
    let half_pi = cd(102944).sin().to_bits();
    assert!((half_pi - 65536).abs() < 64);
    assert!(cd(0).sin().to_bits().abs() < 64);
}
