//! Packed strings: a byte string on the data stack, four bytes to a raw word,
//! little-endian, with its length in bytes as a number on top.

use crate::forth::cell::{Cell, CellView, FFIError, FFIOps, Param, VMError};
use crate::forth::cell_data::CellData;
use vstd::prelude::*;

verus! {

/// Longest byte string that can be packed: its length must be a number.
pub const MAX_PACKED_LEN: usize = 32767;

/// Why a run of cells is not a packed string that fits.
#[derive(Clone, Copy, Debug, PartialEq, Eq, Structural)]
pub enum StackSliceError {
    /// The string is longer than the capacity allows.
    OverCapacity,
    /// The cells do not have the shape of a packed string.
    InvalidContent,
}

/// The byte at `j`, or zero past the end.
pub open spec fn pad_byte(bytes: Seq<u8>, j: int) -> int {
    if 0 <= j < bytes.len() {
        bytes[j] as int
    } else {
        0
    }
}

/// The `i`-th group of four bytes as an unsigned little-endian number.
pub open spec fn word_value(bytes: Seq<u8>, i: int) -> int {
    pad_byte(bytes, 4 * i) + 0x100 * pad_byte(bytes, 4 * i + 1) + 0x1_0000 * pad_byte(
        bytes,
        4 * i + 2,
    ) + 0x100_0000 * pad_byte(bytes, 4 * i + 3)
}

/// The 32-bit pattern `w` read as a signed word.
pub open spec fn to_signed(w: int) -> i32 {
    if w >= 0x8000_0000 {
        (w - 0x1_0000_0000) as i32
    } else {
        w as i32
    }
}

/// The signed word `x` read as a 32-bit pattern.
pub open spec fn to_unsigned(x: i32) -> int {
    if x < 0 {
        x + 0x1_0000_0000
    } else {
        x as int
    }
}

/// Byte `k` (0 to 3, lowest first) of the word `x`.
pub open spec fn word_byte(x: i32, k: int) -> u8 {
    let w = to_unsigned(x);
    if k == 0 {
        (w % 0x100) as u8
    } else if k == 1 {
        ((w / 0x100) % 0x100) as u8
    } else if k == 2 {
        ((w / 0x1_0000) % 0x100) as u8
    } else {
        ((w / 0x100_0000) % 0x100) as u8
    }
}

/// Number of raw words that hold `len` bytes.
pub open spec fn words_needed(len: int) -> int {
    (len + 3) / 4
}

/// The length marker of a string of `len` bytes.
pub open spec fn len_marker<FFI>(len: int) -> CellView<FFI> {
    CellView::Val(CellData { bits: (len * 0x1_0000) as i32 })
}

/// The packed form of `bytes`: the raw words, then the length marker.
pub open spec fn pack_spec<FFI>(bytes: Seq<u8>) -> Seq<CellView<FFI>> {
    Seq::new(
        words_needed(bytes.len() as int) as nat,
        |i: int| CellView::Raw(to_signed(word_value(bytes, i))),
    ).push(len_marker(bytes.len() as int))
}

/// The length that the marker `c` states, if it is a marker: a number that is
/// a non-negative integer.
pub open spec fn marker_len<FFI>(c: CellView<FFI>) -> Option<int> {
    match c {
        CellView::Val(v) => if v.bits >= 0 && v.bits % 0x1_0000 == 0 {
            Some(v.bits as int / 0x1_0000)
        } else {
            None
        },
        _ => None,
    }
}

/// Whether every cell is a raw word.
pub open spec fn all_raw<FFI>(cells: Seq<CellView<FFI>>) -> bool {
    forall|i: int| 0 <= i < cells.len() ==> #[trigger] cells[i] is Raw
}

/// The bytes of a packed string: `len` bytes out of the raw words.
pub open spec fn unpack_bytes<FFI>(words: Seq<CellView<FFI>>, len: int) -> Seq<u8> {
    Seq::new(len as nat, |j: int| word_byte(words[j / 4]->Raw_0, j % 4))
}

/// What [`unpack`] returns for `cells` under the given capacity.
///
/// The top cell must be a length marker and the cells below it raw words, as
/// many as the length needs and no more: else the content is invalid. A
/// string longer than the capacity is over capacity.
pub open spec fn unpack_spec<FFI>(cells: Seq<CellView<FFI>>, capacity: int) -> Result<
    Seq<u8>,
    StackSliceError,
> {
    if cells.len() == 0 {
        Err(StackSliceError::InvalidContent)
    } else {
        match marker_len(cells.last()) {
            None => Err(StackSliceError::InvalidContent),
            Some(len) => {
                let words = cells.drop_last();
                if !all_raw(words) || words.len() != words_needed(len) {
                    Err(StackSliceError::InvalidContent)
                } else if len > capacity {
                    Err(StackSliceError::OverCapacity)
                } else {
                    Ok(unpack_bytes(words, len))
                }
            },
        }
    }
}

/// Number of cells of the packed string whose marker is `c`: the words and
/// the marker itself.
pub open spec fn packed_cells<FFI>(c: CellView<FFI>) -> Option<int> {
    match marker_len(c) {
        Some(len) => Some(words_needed(len) + 1),
        None => None,
    }
}

/// Packing then unpacking gives the bytes back, whenever the capacity admits
/// them.
pub proof fn lemma_pack_unpack<FFI>(bytes: Seq<u8>, capacity: int)
    requires
        bytes.len() <= MAX_PACKED_LEN,
        bytes.len() <= capacity,
    ensures
        unpack_spec(pack_spec::<FFI>(bytes), capacity) == Ok::<Seq<u8>, StackSliceError>(bytes),
{
    let len = bytes.len() as int;
    let packed = pack_spec::<FFI>(bytes);
    let words = packed.drop_last();
    assert(packed.last() == len_marker::<FFI>(len));
    assert(marker_len(packed.last()) == Some(len)) by {
        assert((len * 0x1_0000) as i32 == len * 0x1_0000);
    }
    assert(words.len() == words_needed(len));
    assert(all_raw(words));
    assert(unpack_bytes(words, len) =~= bytes) by {
        assert forall|j: int| 0 <= j < len implies unpack_bytes(words, len)[j] == bytes[j] by {
            lemma_word_byte(bytes, j / 4, j % 4);
        }
    }
}

/// The digits of a number written in base 256 with four digits.
proof fn lemma_digits(b0: int, b1: int, b2: int, b3: int)
    requires
        0 <= b0 < 0x100,
        0 <= b1 < 0x100,
        0 <= b2 < 0x100,
        0 <= b3 < 0x100,
    ensures
        ({
            let w = b0 + 0x100 * b1 + 0x1_0000 * b2 + 0x100_0000 * b3;
            &&& 0 <= w < 0x1_0000_0000
            &&& w % 0x100 == b0
            &&& (w / 0x100) % 0x100 == b1
            &&& (w / 0x1_0000) % 0x100 == b2
            &&& (w / 0x100_0000) % 0x100 == b3
        }),
{
    let w = b0 + 0x100 * b1 + 0x1_0000 * b2 + 0x100_0000 * b3;
    let t1 = b1 + 0x100 * b2 + 0x1_0000 * b3;
    let t2 = b2 + 0x100 * b3;
    assert(w == b0 + 0x100 * t1);
    assert(w / 0x100 == t1 && w % 0x100 == b0);
    assert(w == (b0 + 0x100 * b1) + 0x1_0000 * t2);
    assert(w / 0x1_0000 == t2);
    assert(t1 % 0x100 == b1);
    assert(t2 % 0x100 == b2);
    assert(w == (b0 + 0x100 * b1 + 0x1_0000 * b2) + 0x100_0000 * b3);
    assert(w / 0x100_0000 == b3);
}

/// Byte `k` of the `i`-th packed word is the byte at `4 * i + k`.
pub proof fn lemma_word_byte(bytes: Seq<u8>, i: int, k: int)
    requires
        0 <= k < 4,
        0 <= i,
    ensures
        word_byte(to_signed(word_value(bytes, i)), k) as int == pad_byte(bytes, 4 * i + k),
{
    let w = word_value(bytes, i);
    lemma_digits(
        pad_byte(bytes, 4 * i),
        pad_byte(bytes, 4 * i + 1),
        pad_byte(bytes, 4 * i + 2),
        pad_byte(bytes, 4 * i + 3),
    );
    assert(to_unsigned(to_signed(w)) == w);
}

/// The word made of four bytes, lowest first.
fn word_from_bytes(b0: u8, b1: u8, b2: u8, b3: u8) -> (r: i32)
    ensures
        r == to_signed(b0 as int + 0x100 * b1 as int + 0x1_0000 * b2 as int + 0x100_0000 * b3 as int),
{
    let w: u32 = b0 as u32 + 0x100 * (b1 as u32) + 0x1_0000 * (b2 as u32) + 0x100_0000 * (b3 as u32);
    if w >= 0x8000_0000 {
        let low: u32 = w - 0x8000_0000;
        (low as i32) + i32::MIN
    } else {
        w as i32
    }
}

/// Byte `k` of the word `x`, lowest first.
fn byte_of_word(x: i32, k: usize) -> (r: u8)
    requires
        k < 4,
    ensures
        r == word_byte(x, k as int),
{
    let w: u32 = if x < 0 {
        ((x - i32::MIN) as u32) + 0x8000_0000
    } else {
        x as u32
    };
    if k == 0 {
        (w % 0x100) as u8
    } else if k == 1 {
        ((w / 0x100) % 0x100) as u8
    } else if k == 2 {
        ((w / 0x1_0000) % 0x100) as u8
    } else {
        ((w / 0x100_0000) % 0x100) as u8
    }
}

/// The byte at `j`, or zero past the end.
fn byte_or_zero(slice: &[u8], j: usize) -> (r: u8)
    ensures
        r as int == pad_byte(slice@, j as int),
{
    if j < slice.len() {
        slice[j]
    } else {
        0
    }
}

/// Packs `slice` into cells: one raw word for every four bytes, the last one
/// padded with zeros, then the length in bytes.
pub fn pack<FFI>(slice: &[u8]) -> (cells: Vec<Cell<FFI>>)
    requires
        slice.len() <= MAX_PACKED_LEN,
    ensures
        crate::forth::cell::cells_view(cells@) == pack_spec::<FFI>(slice@),
{
    let len = slice.len();
    let words = (len + 3) / 4;
    let mut cells: Vec<Cell<FFI>> = Vec::new();
    let mut i: usize = 0;
    while i < words
        invariant
            i <= words,
            words == words_needed(len as int),
            len == slice.len(),
            len <= MAX_PACKED_LEN,
            cells.len() == i,
            forall|k: int|
                0 <= k < i ==> (#[trigger] cells[k])@ == CellView::<FFI>::Raw(
                    to_signed(word_value(slice@, k)),
                ),
        decreases words - i,
    {
        let b0 = byte_or_zero(slice, 4 * i);
        let b1 = byte_or_zero(slice, 4 * i + 1);
        let b2 = byte_or_zero(slice, 4 * i + 2);
        let b3 = byte_or_zero(slice, 4 * i + 3);
        cells.push(Cell::Raw(word_from_bytes(b0, b1, b2, b3)));
        i += 1;
    }
    let marker = CellData::from_num(len as i32);
    cells.push(Cell::Val(marker));
    proof {
        assert((len * 0x1_0000) as i32 == len * 0x1_0000);
        assert(crate::forth::cell::cells_view(cells@) =~= pack_spec::<FFI>(slice@));
    }
    cells
}

/// Unpacks the bytes of the packed string that `cells` holds, its length
/// marker last.
pub fn unpack<FFI>(cells: &[Cell<FFI>], capacity: usize) -> (r: Result<Vec<u8>, StackSliceError>)
    ensures
        match unpack_spec(crate::forth::cell::cells_view(cells@), capacity as int) {
            Ok(bytes) => r is Ok && r->Ok_0@ == bytes,
            Err(e) => r == Err::<Vec<u8>, StackSliceError>(e),
        },
{
    let ghost view = crate::forth::cell::cells_view(cells@);
    let n = cells.len();
    if n == 0 {
        return Err(StackSliceError::InvalidContent);
    }
    let len: usize = match &cells[n - 1] {
        Cell::Val(v) => {
            let bits = v.to_bits();
            if bits >= 0 && bits % 0x1_0000 == 0 {
                (bits / 0x1_0000) as usize
            } else {
                return Err(StackSliceError::InvalidContent);
            }
        },
        _ => {
            return Err(StackSliceError::InvalidContent);
        },
    };
    assert(marker_len(view.last()) == Some(len as int));
    let ghost words = view.drop_last();
    let mut i: usize = 0;
    while i < n - 1
        invariant
            i <= n - 1,
            n == cells.len(),
            view == crate::forth::cell::cells_view(cells@),
            words == view.drop_last(),
            forall|k: int| 0 <= k < i ==> #[trigger] words[k] is Raw,
        decreases n - 1 - i,
    {
        match &cells[i] {
            Cell::Raw(_) => {},
            _ => {
                assert(!(words[i as int] is Raw));
                return Err(StackSliceError::InvalidContent);
            },
        }
        i += 1;
    }
    assert(all_raw(words));
    if n - 1 != (len + 3) / 4 {
        return Err(StackSliceError::InvalidContent);
    }
    if len > capacity {
        return Err(StackSliceError::OverCapacity);
    }
    let mut bytes: Vec<u8> = Vec::new();
    let mut j: usize = 0;
    while j < len
        invariant
            j <= len,
            n == cells.len(),
            n - 1 == words_needed(len as int),
            view == crate::forth::cell::cells_view(cells@),
            words == view.drop_last(),
            all_raw(words),
            bytes.len() == j,
            forall|k: int| 0 <= k < j ==> #[trigger] bytes[k] == unpack_bytes(words, len as int)[k],
        decreases len - j,
    {
        assert(words[(j / 4) as int] is Raw);
        let w = cells[j / 4].unwrap_raw();
        bytes.push(byte_of_word(w, j % 4));
        j += 1;
    }
    assert(bytes@ =~= unpack_bytes(words, len as int));
    Ok(bytes)
}

/// `String::from_utf8` of the standard library: the string whose UTF-8
/// encoding the bytes are, or `None` when they are no valid UTF-8.
#[verifier::external_body]
fn string_from_utf8(bytes: Vec<u8>) -> (r: Option<String>)
    ensures
        r is Some <==> vstd::utf8::valid_utf8(bytes@),
        r is Some ==> r->Some_0@ == vstd::utf8::decode_utf8(bytes@),
{
    String::from_utf8(bytes).ok()
}

/// The text of the packed string that `cells` holds: `None` when the cells
/// are no packed string within the capacity, or its bytes no valid UTF-8.
pub open spec fn unpack_str_spec<FFI>(cells: Seq<CellView<FFI>>, capacity: int) -> Option<Seq<char>> {
    match unpack_spec(cells, capacity) {
        Err(_) => None,
        Ok(bytes) => if vstd::utf8::valid_utf8(bytes) {
            Some(vstd::utf8::decode_utf8(bytes))
        } else {
            None
        },
    }
}

/// Unpacks the text of the packed string that `cells` holds.
pub fn unpack_str<FFI>(cells: &[Cell<FFI>], capacity: usize) -> (r: Option<String>)
    ensures
        match unpack_str_spec(crate::forth::cell::cells_view(cells@), capacity as int) {
            Some(text) => r is Some && r->Some_0@ == text,
            None => r is None,
        },
{
    match unpack(cells, capacity) {
        Err(_) => None,
        Ok(bytes) => string_from_utf8(bytes),
    }
}

/// A runtime that does nothing: the plug of a machine that is built to be
/// shipped, not run.
#[derive(Clone, Copy, Debug, PartialEq, Eq, Default)]
pub struct MockRuntime;

/// A host that offers nothing.
pub trait NoRuntime {

}

impl NoRuntime for MockRuntime {

}

/// No foreign operation: a call of the one value of this type fails with
/// `FunctionNotFound`, whatever the parameters, and leaves the runtime alone.
#[derive(Clone, Copy, Debug, PartialEq, Eq, Structural)]
pub struct NoFFI;

impl<RT: NoRuntime> FFIOps<RT> for NoFFI {
    open spec fn call_info_spec(&self) -> Seq<Param> {
        Seq::empty()
    }

    fn call_info(&self) -> (info: Vec<Param>) {
        Vec::new()
    }

    fn dispatch(&self, rt: &mut RT, params: &Vec<Cell<Self>>) -> (r: Result<Cell<Self>, VMError>)
        ensures
            r == Err::<Cell<NoFFI>, VMError>(VMError::FFI(FFIError::FunctionNotFound)),
            *final(rt) == *old(rt),
    {
        Err(VMError::FFI(FFIError::FunctionNotFound))
    }

    open spec fn allows(&self, params: Seq<CellView<Self>>, answer: Result<CellView<Self>, VMError>) -> bool {
        answer == Err::<CellView<NoFFI>, VMError>(VMError::FFI(FFIError::FunctionNotFound))
    }
}

} // verus!
