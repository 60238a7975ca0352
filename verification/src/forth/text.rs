//! Text of and from numbers, for messages and tokens.

use vstd::prelude::*;
use vstd::string::StrSliceExecFns;

verus! {

/// The character of a decimal digit.
pub open spec fn digit_char(d: nat) -> char {
    (0x30 + d % 10) as u8 as char
}

/// The decimal digits of a number, without leading zeros; `"0"` for zero.
pub open spec fn digits_text(n: nat) -> Seq<char>
    decreases n,
{
    if n < 10 {
        seq![digit_char(n)]
    } else {
        digits_text(n / 10).push(digit_char(n % 10))
    }
}

/// The decimal text of an integer: its digits, after a minus sign if it is
/// negative.
pub open spec fn decimal_text(n: int) -> Seq<char> {
    if n < 0 {
        seq!['-'] + digits_text((-n) as nat)
    } else {
        digits_text(n as nat)
    }
}

/// The number that a text of decimal digits stands for; `None` for the
/// empty text and where a character is no digit from `0` to `9`.
pub open spec fn digits_value(text: Seq<char>) -> Option<nat>
    decreases text.len(),
{
    if text.len() == 0 {
        None
    } else {
        let c = text.last() as u32;
        if c < 0x30 || c > 0x39 {
            None
        } else if text.len() == 1 {
            Some((c - 0x30) as nat)
        } else {
            match digits_value(text.drop_last()) {
                None => None,
                Some(v) => Some(v * 10 + (c - 0x30) as nat),
            }
        }
    }
}

/// The `i32` that a text stands for: one sign, `+` or `-`, may come first,
/// then at least one decimal digit and nothing else, and the number is in
/// the range of `i32`. `None` for any other text.
pub open spec fn parsed_i32(text: Seq<char>) -> Option<i32> {
    let signed = text.len() > 0 && (text[0] == '-' || text[0] == '+');
    let digits = if signed {
        text.skip(1)
    } else {
        text
    };
    match digits_value(digits) {
        None => None,
        Some(v) => {
            let n = if signed && text[0] == '-' {
                -(v as int)
            } else {
                v as int
            };
            if i32::MIN <= n <= i32::MAX {
                Some(n as i32)
            } else {
                None
            }
        },
    }
}

/// `i128::to_string` of the standard library: the decimal text of the
/// number, [`decimal_text`].
#[verifier::external_body]
pub(crate) fn int_to_string(n: i128) -> (r: String)
    ensures
        r@ == decimal_text(n as int),
{
    n.to_string()
}

/// `str::parse::<i32>` of the standard library: the number that the text
/// stands for, or `None` where it reports an error; see [`parsed_i32`] for
/// the texts that it takes.
#[verifier::external_body]
pub(crate) fn parse_i32(text: &str) -> (r: Option<i32>)
    ensures
        r == parsed_i32(text@),
{
    text.parse::<i32>().ok()
}

/// The text `a` followed by the text `b`.
pub fn join(a: &str, b: &str) -> (r: String)
    ensures
        r@ == a@ + b@,
{
    let mut r = a.to_owned();
    vstd::string::StringExecFns::append(&mut r, b);
    r
}

/// The text `a`, then `b`, then `c`.
pub fn join3(a: &str, b: &str, c: &str) -> (r: String)
    ensures
        r@ == a@ + b@ + c@,
{
    let mut r = a.to_owned();
    vstd::string::StringExecFns::append(&mut r, b);
    vstd::string::StringExecFns::append(&mut r, c);
    r
}

/// The text of a string as the standard library writes it for debugging: in
/// double quotes, with what needs it escaped.
pub uninterp spec fn quoted_text(text: Seq<char>) -> Seq<char>;

/// Whether a character is white space: whether it has the property
/// `White_Space` of Unicode.
pub open spec fn whitespace(c: char) -> bool {
    let n = c as u32;
    0x09 <= n <= 0x0D || n == 0x20 || n == 0x85 || n == 0xA0 || n == 0x1680 || 0x2000 <= n
        <= 0x200A || n == 0x2028 || n == 0x2029 || n == 0x202F || n == 0x205F || n == 0x3000
}

/// The debug formatting of a `str` by the standard library. The text is a
/// function of the string alone, and is given the name [`quoted_text`].
#[verifier::external_body]
pub(crate) fn quoted(text: &str) -> (r: String)
    ensures
        r@ == quoted_text(text@),
{
    format!("{:?}", text)
}

/// `char::is_whitespace` of the standard library: whether the character has
/// the property `White_Space` of Unicode, [`whitespace`].
#[verifier::external_body]
pub(crate) fn is_whitespace(c: char) -> (r: bool)
    ensures
        r == whitespace(c),
{
    c.is_whitespace()
}

/// `String::from` of the standard library on the character with the code
/// `c`: the text of that one character.
#[verifier::external_body]
pub(crate) fn char_text(c: u8) -> (r: String)
    ensures
        r@ == seq![c as char],
{
    String::from(c as char)
}

/// The texts with `", "` between them.
pub open spec fn separated(items: Seq<Seq<char>>) -> Seq<char>
    decreases items.len(),
{
    if items.len() == 0 {
        Seq::empty()
    } else if items.len() == 1 {
        items[0]
    } else {
        separated(items.drop_last()) + ", "@ + items.last()
    }
}

/// A list as it is written for debugging: the items in square brackets.
pub open spec fn list_text(items: Seq<Seq<char>>) -> Seq<char> {
    "["@ + separated(items) + "]"@
}

/// The texts of numbers.
pub open spec fn decimal_texts(items: Seq<i32>) -> Seq<Seq<char>> {
    items.map_values(|n: i32| decimal_text(n as int))
}

/// The quoted texts of words.
pub open spec fn quoted_texts(items: Seq<Seq<char>>) -> Seq<Seq<char>> {
    items.map_values(|w: Seq<char>| quoted_text(w))
}

/// Appends `item` to a text that holds the `n` items before it, separated.
pub fn append_separated(text: &mut String, n: usize, item: &str)
    ensures
        final(text)@ == if n == 0 {
            old(text)@ + item@
        } else {
            old(text)@ + ", "@ + item@
        },
{
    if n > 0 {
        vstd::string::StringExecFns::append(text, ", ");
    }
    vstd::string::StringExecFns::append(text, item);
}

/// A vector of numbers as it is written for debugging.
pub fn ints_text(items: &Vec<i32>) -> (r: String)
    ensures
        r@ == list_text(decimal_texts(items@)),
{
    let mut text = "[".to_owned();
    let ghost texts = decimal_texts(items@);
    let mut i: usize = 0;
    assert(separated(texts.take(0)) =~= Seq::<char>::empty());
    assert("["@ + Seq::<char>::empty() =~= "["@);
    while i < items.len()
        invariant
            i <= items.len(),
            texts == decimal_texts(items@),
            text@ == "["@ + separated(texts.take(i as int)),
        decreases items.len() - i,
    {
        let item = int_to_string(items[i] as i128);
        proof {
            let now = texts.take(i as int + 1);
            assert(now.drop_last() =~= texts.take(i as int));
            assert(now.last() == item@);
            if i == 0 {
                assert("["@ + Seq::<char>::empty() + item@ =~= "["@ + item@);
            } else {
                assert("["@ + separated(texts.take(i as int)) + ", "@ + item@ =~= "["@ + (separated(
                    texts.take(i as int),
                ) + ", "@ + item@));
            }
        }
        append_separated(&mut text, i, item.as_str());
        i += 1;
    }
    assert(texts.take(items@.len() as int) =~= texts);
    vstd::string::StringExecFns::append(&mut text, "]");
    text
}

/// A vector of words as it is written for debugging.
pub fn words_text(items: &Vec<String>) -> (r: String)
    ensures
        r@ == list_text(quoted_texts(items.deep_view())),
{
    let mut text = "[".to_owned();
    let ghost texts = quoted_texts(items.deep_view());
    let mut i: usize = 0;
    assert(separated(texts.take(0)) =~= Seq::<char>::empty());
    assert("["@ + Seq::<char>::empty() =~= "["@);
    while i < items.len()
        invariant
            i <= items.len(),
            texts == quoted_texts(items.deep_view()),
            text@ == "["@ + separated(texts.take(i as int)),
        decreases items.len() - i,
    {
        let item = quoted(items[i].as_str());
        proof {
            let now = texts.take(i as int + 1);
            assert(now.drop_last() =~= texts.take(i as int));
            assert(items.deep_view()[i as int] == items@[i as int]@);
            assert(now.last() == item@);
            if i == 0 {
                assert("["@ + Seq::<char>::empty() + item@ =~= "["@ + item@);
            } else {
                assert("["@ + separated(texts.take(i as int)) + ", "@ + item@ =~= "["@ + (separated(
                    texts.take(i as int),
                ) + ", "@ + item@));
            }
        }
        append_separated(&mut text, i, item.as_str());
        i += 1;
    }
    assert(texts.take(items@.len() as int) =~= texts);
    vstd::string::StringExecFns::append(&mut text, "]");
    text
}

/// The position of the first white space character at or after `from`, or
/// the length when there is none.
pub open spec fn first_kept(text: Seq<char>, from: int) -> int
    decreases text.len() - from,
{
    if from < 0 || from >= text.len() || !whitespace(text[from]) {
        from
    } else {
        first_kept(text, from + 1)
    }
}

/// The end of the text without the white space at its end, but not before
/// `floor`.
pub open spec fn last_kept(text: Seq<char>, floor: int, to: int) -> int
    decreases to - floor,
{
    if to <= floor || to > text.len() || !whitespace(text[to - 1]) {
        to
    } else {
        last_kept(text, floor, to - 1)
    }
}

/// The text without the white space at its two ends.
pub open spec fn trim_spec(text: Seq<char>) -> Seq<char> {
    let from = first_kept(text, 0);
    text.subrange(from, last_kept(text, from, text.len() as int))
}

/// The text without the white space at its two ends.
pub fn trim(text: &str) -> (r: String)
    ensures
        r@ == trim_spec(text@),
{
    let n = text.unicode_len();
    let mut from: usize = 0;
    while from < n && is_whitespace(text.get_char(from))
        invariant
            n == text@.len(),
            from <= n,
            first_kept(text@, 0) == first_kept(text@, from as int),
        decreases n - from,
    {
        from += 1;
    }
    let mut to: usize = n;
    while to > from && is_whitespace(text.get_char(to - 1))
        invariant
            n == text@.len(),
            from <= to <= n,
            last_kept(text@, from as int, n as int) == last_kept(text@, from as int, to as int),
        decreases to,
    {
        to -= 1;
    }
    text.substring_char(from, to).to_owned()
}

/// The position of the first space at or after `from`, or the length when
/// there is none.
pub open spec fn first_space(text: Seq<char>, from: int) -> int
    decreases text.len() - from,
{
    if from < 0 || from >= text.len() || text[from] == ' ' {
        from
    } else {
        first_space(text, from + 1)
    }
}

/// The pieces between the spaces of the text from `from` on. Two spaces in
/// a row have an empty piece between them.
pub open spec fn pieces_from(text: Seq<char>, from: int) -> Seq<Seq<char>>
    decreases text.len() - from,
{
    if from < 0 || from > text.len() {
        Seq::empty()
    } else {
        let to = first_space(text, from);
        if to >= text.len() || to < from {
            seq![text.subrange(from, text.len() as int)]
        } else {
            seq![text.subrange(from, to)] + pieces_from(text, to + 1)
        }
    }
}

/// The tokens of a line: the pieces between its spaces, each without the
/// white space at its ends.
pub open spec fn tokens_spec(text: Seq<char>) -> Seq<Seq<char>> {
    pieces_from(text, 0).map_values(|piece: Seq<char>| trim_spec(piece))
}

/// The first space is where it is looked for, when nothing but non-spaces
/// lies before it.
pub proof fn lemma_first_space(text: Seq<char>, from: int, at: int)
    requires
        0 <= from <= at <= text.len(),
        forall|k: int| from <= k < at ==> text[k] != ' ',
        at < text.len() ==> text[at] == ' ',
    ensures
        first_space(text, from) == at,
    decreases at - from,
{
    if from < at {
        lemma_first_space(text, from + 1, at);
    }
}

/// The tokens of a line; see [`tokens_spec`].
pub fn tokens(text: &str) -> (r: Vec<String>)
    ensures
        r.deep_view() == tokens_spec(text@),
{
    let n = text.unicode_len();
    let mut out: Vec<String> = Vec::new();
    let mut from: usize = 0;
    let mut at: usize = 0;
    let ghost all = tokens_spec(text@);
    assert(out.deep_view() =~= Seq::<Seq<char>>::empty());
    assert(Seq::<Seq<char>>::empty() + pieces_from(text@, 0).map_values(
        |piece: Seq<char>| trim_spec(piece),
    ) =~= all);
    while at < n
        invariant
            n == text@.len(),
            from <= at <= n,
            forall|k: int| from <= k < at ==> text@[k] != ' ',
            all == tokens_spec(text@),
            out.deep_view() + pieces_from(text@, from as int).map_values(
                |piece: Seq<char>| trim_spec(piece),
            ) == all,
        decreases n - at,
    {
        if text.get_char(at) == ' ' {
            let piece = trim(text.substring_char(from, at));
            proof {
                lemma_first_space(text@, from as int, at as int);
                assert(first_space(text@, from as int) == at);
                let rest = pieces_from(text@, at as int + 1);
                let f = |piece: Seq<char>| trim_spec(piece);
                assert(pieces_from(text@, from as int) =~= seq![
                    text@.subrange(from as int, at as int),
                ] + rest);
                assert((seq![text@.subrange(from as int, at as int)] + rest).map_values(f) =~= seq![
                    piece@,
                ] + rest.map_values(f));
                assert(out.deep_view().push(piece@) + rest.map_values(f) =~= out.deep_view() + (
                seq![piece@] + rest.map_values(f)));
            }
            let ghost before = out.deep_view();
            out.push(piece);
            assert(out.deep_view() =~= before.push(piece@));
            from = at + 1;
        }
        at += 1;
    }
    let piece = trim(text.substring_char(from, n));
    proof {
        lemma_first_space(text@, from as int, n as int);
        let f = |piece: Seq<char>| trim_spec(piece);
        assert(pieces_from(text@, from as int) =~= seq![text@.subrange(from as int, n as int)]);
        assert(seq![text@.subrange(from as int, n as int)].map_values(f) =~= seq![piece@]);
    }
    let ghost before = out.deep_view();
    out.push(piece);
    assert(out.deep_view() =~= before.push(piece@));
    assert(before.push(piece@) =~= before + seq![piece@]);
    out
}

/// Whether the two texts are equal.
pub fn same(a: &str, b: &str) -> (r: bool)
    ensures
        r == (a@ == b@),
{
    a.to_owned() == b.to_owned()
}

} // verus!
