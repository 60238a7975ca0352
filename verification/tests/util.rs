use trenchcoat::forth::frame::{frames, next_frame};
use trenchcoat::forth::util::{pack, unpack, unpack_str, StackSliceError};
use trenchcoat::forth::vm::{Cell, CellData, Op};
use trenchcoat::vanillajs::runtime::VanillaJSFFI;

type C = Cell<VanillaJSFFI>;

#[test]
fn test_empty() {
    let s = "";
    let stack: Vec<C> = pack(s.as_bytes());
    let v = unpack(&stack, 32).unwrap();
    let de = std::str::from_utf8(v.as_slice()).unwrap();
    assert_eq!(de, s);
}

#[test]
fn util_test_str() {
    let s = "∆ohai∆";
    let stack: Vec<C> = pack(s.as_bytes());
    let v = unpack(&stack, 32).unwrap();
    let de = std::str::from_utf8(v.as_slice()).unwrap();
    assert_eq!(de, s);
}

#[test]
fn pack_gives_little_endian_words_and_the_length() {
    let cells: Vec<C> = pack(b"abcde");
    assert_eq!(
        cells,
        vec![
            Cell::Raw(i32::from_le_bytes(*b"abcd")),
            Cell::Raw(i32::from_le_bytes([b'e', 0, 0, 0])),
            Cell::Val(CellData::from_num(5)),
        ]
    );
    let cells: Vec<C> = pack(&[0xff, 0xff, 0xff, 0xff]);
    assert_eq!(cells, vec![Cell::Raw(-1), Cell::Val(CellData::from_num(4))]);
    let cells: Vec<C> = pack(b"");
    assert_eq!(cells, vec![Cell::Val(CellData::from_num(0))]);
}

#[test]
fn round_trip_of_every_length() {
    let text: Vec<u8> = (0u8..=40).map(|i| i.wrapping_mul(37).wrapping_add(200)).collect();
    for n in 0..=40 {
        let cells: Vec<C> = pack(&text[..n]);
        assert_eq!(cells.len(), (n + 3) / 4 + 1);
        assert_eq!(unpack(&cells, 64), Ok(text[..n].to_vec()));
    }
}

#[test]
fn unpack_errors() {
    let empty: Vec<C> = vec![];
    assert_eq!(unpack(&empty, 32), Err(StackSliceError::InvalidContent));
    let cells: Vec<C> = pack(&[b'x'; 33]);
    assert_eq!(unpack(&cells, 32), Err(StackSliceError::OverCapacity));
    assert_eq!(unpack(&cells, 33), Ok(vec![b'x'; 33]));
    let no_marker: Vec<C> = vec![Cell::Raw(1), Cell::Raw(2)];
    assert_eq!(unpack(&no_marker, 32), Err(StackSliceError::InvalidContent));
    let fractional: Vec<C> = vec![Cell::Raw(1), Cell::Val(CellData::from_bits(0x1_8000))];
    assert_eq!(unpack(&fractional, 32), Err(StackSliceError::InvalidContent));
    let negative: Vec<C> = vec![Cell::Raw(1), Cell::Val(CellData::from_num(-1))];
    assert_eq!(unpack(&negative, 32), Err(StackSliceError::InvalidContent));
    let too_few: Vec<C> = vec![Cell::Raw(1), Cell::Val(CellData::from_num(5))];
    assert_eq!(unpack(&too_few, 32), Err(StackSliceError::InvalidContent));
    let too_many: Vec<C> = vec![Cell::Raw(1), Cell::Raw(1), Cell::Val(CellData::from_num(4))];
    assert_eq!(unpack(&too_many, 32), Err(StackSliceError::InvalidContent));
    let not_raw: Vec<C> = vec![Cell::Op(Op::Add), Cell::Val(CellData::from_num(4))];
    assert_eq!(unpack(&not_raw, 32), Err(StackSliceError::InvalidContent));
}

#[test]
fn unpack_str_wants_valid_utf8() {
    let cells: Vec<C> = pack("grüße".as_bytes());
    assert_eq!(unpack_str(&cells, 32), Some("grüße".to_string()));
    let cells: Vec<C> = pack(&[0xff, 0xfe]);
    assert_eq!(unpack_str(&cells, 32), None);
    assert_eq!(unpack(&cells, 32), Ok(vec![0xff, 0xfe]));
}

#[test]
fn frames_end_at_zeros() {
    let stream = [3, 1, 2, 0, 9, 9, 0, 0, 5, 5];
    assert_eq!(next_frame(&stream, 0), Some((0, 4)));
    assert_eq!(next_frame(&stream, 2), Some((2, 4)));
    assert_eq!(next_frame(&stream, 4), Some((4, 7)));
    assert_eq!(next_frame(&stream, 7), Some((7, 8)));
    assert_eq!(next_frame(&stream, 8), None);
    assert_eq!(next_frame(&stream, 10), None);
    assert_eq!(frames(&stream), vec![(0, 4), (4, 7), (7, 8)]);
    assert_eq!(frames(&[]), vec![]);
    assert_eq!(frames(&[1, 2, 3]), vec![]);
    assert_eq!(frames(&[0]), vec![(0, 1)]);
}

#[test]
fn framed_payloads_are_found_between_junk() {
    let first = postcard::to_allocvec_cobs(&(1u32, 0u8, 300u16)).unwrap();
    let second = postcard::to_allocvec_cobs(&vec![0u8, 0, 7]).unwrap();
    let mut stream = vec![0xaa, 0xbb, 0x00];
    stream.extend_from_slice(&first);
    stream.extend_from_slice(&second);
    stream.extend_from_slice(&[0x11, 0x22]);
    let found = frames(&stream);
    assert_eq!(found.len(), 3);
    let (a, b) = found[1];
    let mut frame = stream[a..b].to_vec();
    assert_eq!(postcard::from_bytes_cobs::<(u32, u8, u16)>(&mut frame), Ok((1, 0, 300)));
    let (a, b) = found[2];
    let mut frame = stream[a..b].to_vec();
    assert_eq!(postcard::from_bytes_cobs::<Vec<u8>>(&mut frame), Ok(vec![0, 0, 7]));
}
