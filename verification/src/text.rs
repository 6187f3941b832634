//! Text as sequences of characters: decimal numbers, splitting, joining, searching and
//! comparing.
use vstd::prelude::*;
use vstd::utf8::{decode_utf8, encode_utf8, valid_utf8};

verus! {

// ---------------------------------------------------------------------------------------
// Outside calls
// ---------------------------------------------------------------------------------------
/// `String::push`: appends one character to the end of the string.
pub assume_specification[ String::push ](string: &mut String, c: char)
    ensures
        final(string)@ == old(string)@.push(c),
;

/// `char::is_whitespace`: whether the character has the Unicode property `White_Space`.
pub assume_specification[ char::is_whitespace ](c: char) -> (white: bool)
    ensures
        white == white_space(c),
;

/// What `String::from_utf8_lossy` makes of bytes that are not valid UTF-8: the valid parts
/// decoded, every invalid part replaced by U+FFFD.
pub uninterp spec fn utf8_replaced(bytes: Seq<u8>) -> Seq<char>;

/// `String::from_utf8_lossy`: valid UTF-8 is decoded as it stands. Of other input the result
/// is only named. Whatever the input, an ASCII byte is a valid sequence of its own and is kept,
/// and nothing else becomes an ASCII character: the ASCII characters of the text are the ASCII
/// bytes of the input, in their order.
#[verifier::external_body]
pub(crate) fn lossy_string(bytes: &[u8]) -> (string: String)
    ensures
        string@ == (if valid_utf8(bytes@) {
            decode_utf8(bytes@)
        } else {
            utf8_replaced(bytes@)
        }),
        ascii_chars(string@) == ascii_part(bytes@),
{
    String::from_utf8_lossy(bytes).into_owned()
}

/// The message of the `ParseIntError` that `str::parse::<u32>` returns for a text that is no
/// `u32`.
pub uninterp spec fn u32_parse_error(text: Seq<char>) -> Seq<char>;

/// `str::parse::<u32>`: an optional `+`, then one or more ASCII digits, with a value of at
/// most `u32::MAX`. The message of the error is only named.
#[verifier::external_body]
pub(crate) fn parse_u32(text: &str) -> (parsed: Result<u32, String>)
    ensures
        match parsed {
            Ok(number) => u32_value(text@) == Some(number),
            Err(message) => u32_value(text@) is None && message@ == u32_parse_error(text@),
        },
{
    text.parse::<u32>().map_err(|e| e.to_string())
}

// ---------------------------------------------------------------------------------------
// Sequences of texts
// ---------------------------------------------------------------------------------------
/// The texts that a list of strings holds.
pub open spec fn texts(strings: Seq<String>) -> Seq<Seq<char>> {
    strings.map_values(|s: String| s@)
}

/// The text that an optional string holds.
pub open spec fn optional_text(string: Option<String>) -> Option<Seq<char>> {
    match string {
        Some(s) => Some(s@),
        None => None,
    }
}

/// What the lossy decoding of bytes yields.
pub open spec fn lossy_text(bytes: Seq<u8>) -> Seq<char> {
    if valid_utf8(bytes) {
        decode_utf8(bytes)
    } else {
        utf8_replaced(bytes)
    }
}

/// Whether a character is ASCII.
pub open spec fn is_ascii_char(c: char) -> bool {
    c <= '\u{7f}'
}

/// The ASCII characters of a text, in their order.
pub open spec fn ascii_chars(s: Seq<char>) -> Seq<char> {
    s.filter(|c: char| is_ascii_char(c))
}

/// The characters that the ASCII bytes among some bytes stand for, in their order.
pub open spec fn ascii_part(bytes: Seq<u8>) -> Seq<char>
    decreases bytes.len(),
{
    if bytes.len() == 0 {
        Seq::empty()
    } else if bytes.last() <= 0x7f {
        ascii_part(bytes.drop_last()).push(bytes.last() as char)
    } else {
        ascii_part(bytes.drop_last())
    }
}

/// How often a character stands in a text.
pub open spec fn times(s: Seq<char>, c: char) -> nat
    decreases s.len(),
{
    if s.len() == 0 {
        0
    } else if s.last() == c {
        times(s.drop_last(), c) + 1
    } else {
        times(s.drop_last(), c)
    }
}

/// How often a byte stands among some bytes.
pub open spec fn byte_times(bytes: Seq<u8>, b: u8) -> nat
    decreases bytes.len(),
{
    if bytes.len() == 0 {
        0
    } else if bytes.last() == b {
        byte_times(bytes.drop_last(), b) + 1
    } else {
        byte_times(bytes.drop_last(), b)
    }
}

proof fn ascii_chars_keep_times(s: Seq<char>, c: char)
    requires
        is_ascii_char(c),
    ensures
        times(ascii_chars(s), c) == times(s, c),
    decreases s.len(),
{
    reveal(Seq::filter);
    if s.len() > 0 {
        ascii_chars_keep_times(s.drop_last(), c);
        let before = ascii_chars(s.drop_last());
        assert(before.push(s.last()).drop_last() =~= before);
    }
}

proof fn ascii_part_keeps_times(bytes: Seq<u8>, b: u8)
    requires
        b <= 0x7f,
    ensures
        times(ascii_part(bytes), b as char) == byte_times(bytes, b),
    decreases bytes.len(),
{
    if bytes.len() > 0 {
        ascii_part_keeps_times(bytes.drop_last(), b);
        let before = ascii_part(bytes.drop_last());
        let last = bytes.last();
        assert(before.push(last as char).drop_last() =~= before);
    }
}

/// A character stands in a text exactly where it stands there at least once.
proof fn times_and_contains(s: Seq<char>, c: char)
    ensures
        s.contains(c) <==> times(s, c) > 0,
    decreases s.len(),
{
    if s.len() > 0 {
        times_and_contains(s.drop_last(), c);
        if s.contains(c) && s.last() != c {
            let i = choose|i: int| 0 <= i < s.len() && s[i] == c;
            assert(s.drop_last()[i] == c);
        }
        if s.drop_last().contains(c) {
            let i = choose|i: int| 0 <= i < s.len() - 1 && s.drop_last()[i] == c;
            assert(s[i] == c);
        }
        assert(s[s.len() - 1] == s.last());
    }
}

/// A byte stands among some bytes exactly where it stands there at least once.
proof fn byte_times_and_contains(bytes: Seq<u8>, b: u8)
    ensures
        bytes.contains(b) <==> byte_times(bytes, b) > 0,
    decreases bytes.len(),
{
    if bytes.len() > 0 {
        byte_times_and_contains(bytes.drop_last(), b);
        if bytes.contains(b) && bytes.last() != b {
            let i = choose|i: int| 0 <= i < bytes.len() && bytes[i] == b;
            assert(bytes.drop_last()[i] == b);
        }
        if bytes.drop_last().contains(b) {
            let i = choose|i: int| 0 <= i < bytes.len() - 1 && bytes.drop_last()[i] == b;
            assert(bytes[i] == b);
        }
        assert(bytes[bytes.len() - 1] == bytes.last());
    }
}

/// A text with the ASCII characters of some bytes holds each of them as often as the bytes do.
pub proof fn ascii_is_kept(s: Seq<char>, bytes: Seq<u8>, b: u8)
    requires
        ascii_chars(s) == ascii_part(bytes),
        b <= 0x7f,
    ensures
        times(s, b as char) == byte_times(bytes, b),
        s.contains(b as char) <==> bytes.contains(b),
{
    ascii_chars_keep_times(s, b as char);
    ascii_part_keeps_times(bytes, b);
    times_and_contains(s, b as char);
    byte_times_and_contains(bytes, b);
}

/// The characters of a text, as a vector.
pub fn chars_of(text: &str) -> (chars: Vec<char>)
    ensures
        chars@ == text@,
{
    let mut chars: Vec<char> = Vec::new();
    for c in it: text.chars()
        invariant
            chars@ == it.seq().take(it.index() as int),
            it.seq() == text@,
    {
        chars.push(c);
    }
    chars
}

/// The text made of the characters from `from` (included) to `to` (excluded).
pub fn string_between(chars: &Vec<char>, from: usize, to: usize) -> (text: String)
    requires
        from <= to <= chars@.len(),
    ensures
        text@ == chars@.subrange(from as int, to as int),
{
    let mut text = String::new();
    let mut i: usize = from;
    while i < to
        invariant
            from <= i <= to <= chars@.len(),
            text@ == chars@.subrange(from as int, i as int),
        decreases to - i,
    {
        text.push(chars[i]);
        i += 1;
    }
    text
}

/// Whether two texts are the same.
pub fn same_text(a: &str, b: &str) -> (same: bool)
    ensures
        same == (a@ == b@),
{
    let left = chars_of(a);
    let right = chars_of(b);
    if left.len() != right.len() {
        return false;
    }
    let mut i: usize = 0;
    while i < left.len()
        invariant
            i <= left@.len() == right@.len(),
            left@ == a@,
            right@ == b@,
            forall|j: int| 0 <= j < i ==> left@[j] == right@[j],
        decreases left@.len() - i,
    {
        if left[i] != right[i] {
            return false;
        }
        i += 1;
    }
    assert(a@ =~= b@);
    true
}

/// The UTF-8 bytes of a text.
pub fn utf8_bytes(text: &str) -> (bytes: Vec<u8>)
    ensures
        bytes@ == encode_utf8(text@),
{
    text.as_bytes_vec()
}

/// Two texts, one after the other.
pub fn concat(head: &str, tail: &str) -> (text: String)
    ensures
        text@ == head@ + tail@,
{
    let mut text = head.to_owned();
    text.append(tail);
    text
}

/// A copy of an optional string.
pub fn copy_optional(string: &Option<String>) -> (copy: Option<String>)
    ensures
        copy == *string,
{
    match string {
        Some(s) => Some(s.clone()),
        None => None,
    }
}

/// A copy of a list of strings.
pub fn copy_texts(strings: &[String]) -> (copies: Vec<String>)
    ensures
        copies@ == strings@,
{
    let mut copies: Vec<String> = Vec::new();
    for i in 0..strings.len()
        invariant
            copies@ == strings@.take(i as int),
    {
        copies.push(strings[i].clone());
    }
    copies
}

/// Whether a text stands in a list.
pub fn list_contains(strings: &[String], text: &str) -> (found: bool)
    ensures
        found == texts(strings@).contains(text@),
{
    for i in 0..strings.len()
        invariant
            forall|j: int| 0 <= j < i ==> #[trigger] strings@[j]@ != text@,
    {
        if same_text(strings[i].as_str(), text) {
            assert(texts(strings@)[i as int] == text@);
            return true;
        }
    }
    false
}

// ---------------------------------------------------------------------------------------
// Decimal numbers
// ---------------------------------------------------------------------------------------
/// The digit for a number below ten.
pub open spec fn digit_char(d: nat) -> char {
    (d + 48) as char
}

/// A number written in decimal, without leading zeros.
pub open spec fn decimal(n: nat) -> Seq<char>
    decreases n,
{
    if n < 10 {
        seq![digit_char(n)]
    } else {
        decimal(n / 10).push(digit_char(n % 10))
    }
}

/// An integer written in decimal, with a leading minus sign where it is negative.
pub open spec fn signed_decimal(n: int) -> Seq<char> {
    if n < 0 {
        seq!['-'] + decimal((-n) as nat)
    } else {
        decimal(n as nat)
    }
}

/// Whether a character is an ASCII digit.
pub open spec fn is_digit(c: char) -> bool {
    '0' <= c <= '9'
}

/// Whether a text is made of ASCII digits only.
pub open spec fn all_digits(s: Seq<char>) -> bool {
    forall|i: int| 0 <= i < s.len() ==> is_digit(#[trigger] s[i])
}

/// The number that a sequence of decimal digits stands for.
pub open spec fn decimal_value(s: Seq<char>) -> nat
    decreases s.len(),
{
    if s.len() == 0 {
        0
    } else {
        decimal_value(s.drop_last()) * 10 + (s.last() as nat - 48) as nat
    }
}

/// The `u32` that a text stands for: an optional plus sign and one or more digits.
pub open spec fn u32_value(s: Seq<char>) -> Option<u32> {
    let digits = if s.len() > 0 && s[0] == '+' {
        s.skip(1)
    } else {
        s
    };
    if digits.len() > 0 && all_digits(digits) && decimal_value(digits) <= u32::MAX {
        Some(decimal_value(digits) as u32)
    } else {
        None
    }
}

/// A number in decimal.
pub fn decimal_text(n: u64) -> (text: String)
    ensures
        text@ == decimal(n as nat),
    decreases n,
{
    let digit: char = (48u8 + (n % 10) as u8) as char;
    let mut text = if n < 10 {
        String::new()
    } else {
        decimal_text(n / 10)
    };
    text.push(digit);
    assert(n < 10 ==> text@ =~= decimal(n as nat));
    text
}

/// An integer in decimal.
pub fn signed_text(n: i64) -> (text: String)
    ensures
        text@ == signed_decimal(n as int),
{
    if n < 0 {
        let magnitude: u64 = (-(n as i128)) as u64;
        let digits = decimal_text(magnitude);
        let mut text = String::new();
        text.push('-');
        text.append(digits.as_str());
        text
    } else {
        decimal_text(n as u64)
    }
}

/// Every decimal text is made of digits and stands for the number it was made from.
pub proof fn decimal_roundtrip(n: nat)
    ensures
        decimal(n).len() > 0,
        all_digits(decimal(n)),
        decimal_value(decimal(n)) == n,
        n <= u32::MAX ==> u32_value(decimal(n)) == Some(n as u32),
    decreases n,
{
    if n < 10 {
        reveal_with_fuel(decimal_value, 2);
        assert(decimal(n).drop_last() =~= Seq::<char>::empty());
    } else {
        decimal_roundtrip(n / 10);
        assert(decimal(n).drop_last() =~= decimal(n / 10));
        assert(decimal(n).last() == digit_char(n % 10));
    }
    assert(is_digit(decimal(n)[0]));
}

// ---------------------------------------------------------------------------------------
// Splitting and joining
// ---------------------------------------------------------------------------------------
/// The pieces between the separators of a text; a text without a separator is one piece.
pub open spec fn split(s: Seq<char>, separator: char) -> Seq<Seq<char>>
    decreases s.len(),
{
    if s.len() == 0 {
        seq![Seq::<char>::empty()]
    } else {
        let pieces = split(s.drop_last(), separator);
        if s.last() == separator {
            pieces.push(Seq::<char>::empty())
        } else {
            pieces.update(pieces.len() - 1, pieces.last().push(s.last()))
        }
    }
}

/// A text has one piece more than it has separators.
pub proof fn pieces_are_counted(s: Seq<char>, separator: char)
    ensures
        split(s, separator).len() == times(s, separator) + 1,
    decreases s.len(),
{
    if s.len() > 0 {
        pieces_are_counted(s.drop_last(), separator);
    }
}

/// Pieces put one after the other, with a separator between each two.
pub open spec fn join(pieces: Seq<Seq<char>>, separator: char) -> Seq<char>
    decreases pieces.len(),
{
    if pieces.len() == 0 {
        Seq::<char>::empty()
    } else if pieces.len() == 1 {
        pieces[0]
    } else {
        join(pieces.drop_last(), separator).push(separator) + pieces.last()
    }
}

/// Splits a text at every separator.
pub fn split_text(text: &str, separator: char) -> (pieces: Vec<String>)
    ensures
        texts(pieces@) == split(text@, separator),
{
    let chars = chars_of(text);
    let mut pieces: Vec<String> = Vec::new();
    let mut piece = String::new();
    assert(texts(pieces@).push(piece@) =~= split(chars@.take(0), separator));
    for i in 0..chars.len()
        invariant
            chars@ == text@,
            texts(pieces@).push(piece@) == split(chars@.take(i as int), separator),
    {
        let c = chars[i];
        let ghost before = split(chars@.take(i as int), separator);
        assert(chars@.take(i + 1).drop_last() =~= chars@.take(i as int));
        if c == separator {
            let ghost done = pieces@;
            pieces.push(piece);
            piece = String::new();
            assert(texts(pieces@) =~= texts(done).push(pieces@.last()@));
            assert(texts(pieces@).push(piece@) =~= before.push(Seq::<char>::empty()));
        } else {
            piece.push(c);
            assert(texts(pieces@).push(piece@) =~= before.update(
                before.len() - 1,
                before.last().push(c),
            ));
        }
    }
    assert(chars@.take(chars@.len() as int) =~= text@);
    let ghost done = pieces@;
    pieces.push(piece);
    assert(texts(pieces@) =~= texts(done).push(pieces@.last()@));
    pieces
}

/// Joins texts with a separator between each two.
pub fn join_texts(pieces: &Vec<String>, separator: char) -> (text: String)
    ensures
        text@ == join(texts(pieces@), separator),
{
    let mut text = String::new();
    for i in 0..pieces.len()
        invariant
            text@ == join(texts(pieces@).take(i as int), separator),
    {
        let ghost all = texts(pieces@);
        assert(all.take(i + 1).drop_last() =~= all.take(i as int));
        assert(all.take(i + 1).last() == pieces@[i as int]@);
        if i > 0 {
            text.push(separator);
        } else {
            assert(all.take(0) =~= Seq::<Seq<char>>::empty());
        }
        text.append(pieces[i].as_str());
        assert(text@ =~= join(all.take(i + 1), separator));
    }
    assert(texts(pieces@).take(pieces@.len() as int) =~= texts(pieces@));
    text
}

/// A piece without a separator, put behind a separator, is the last piece of the split.
proof fn split_appended(head: Seq<char>, tail: Seq<char>, separator: char)
    requires
        !tail.contains(separator),
    ensures
        split(head.push(separator) + tail, separator) == split(head, separator).push(tail),
    decreases tail.len(),
{
    let whole = head.push(separator) + tail;
    if tail.len() == 0 {
        assert(whole =~= head.push(separator));
        assert(whole.drop_last() =~= head);
        assert(tail =~= Seq::<char>::empty());
    } else {
        assert forall|i: int| 0 <= i < tail.drop_last().len() implies tail.drop_last()[i]
            != separator by {
            assert(tail.contains(tail[i]));
        }
        split_appended(head, tail.drop_last(), separator);
        assert(whole.drop_last() =~= head.push(separator) + tail.drop_last());
        assert(tail.contains(tail.last()));
        assert(whole.last() == tail.last());
        let pieces = split(whole.drop_last(), separator);
        assert(pieces.last() =~= tail.drop_last());
        assert(tail.drop_last().push(tail.last()) =~= tail);
        assert(pieces.update(pieces.len() - 1, tail) =~= split(head, separator).push(tail));
    }
}

/// A text without a separator is its own only piece.
proof fn split_single(s: Seq<char>, separator: char)
    requires
        !s.contains(separator),
    ensures
        split(s, separator) == seq![s],
    decreases s.len(),
{
    if s.len() == 0 {
        assert(s =~= Seq::<char>::empty());
    } else {
        assert forall|i: int| 0 <= i < s.drop_last().len() implies s.drop_last()[i]
            != separator by {
            assert(s.contains(s[i]));
        }
        split_single(s.drop_last(), separator);
        assert(s.contains(s.last()));
        assert(s.drop_last().push(s.last()) =~= s);
        assert(seq![s.drop_last()].update(0, s) =~= seq![s]);
    }
}

/// Splitting undoes joining, for one or more pieces none of which holds the separator.
pub proof fn split_undoes_join(pieces: Seq<Seq<char>>, separator: char)
    requires
        pieces.len() > 0,
        forall|i: int| 0 <= i < pieces.len() ==> !(#[trigger] pieces[i]).contains(separator),
    ensures
        split(join(pieces, separator), separator) == pieces,
    decreases pieces.len(),
{
    if pieces.len() == 1 {
        split_single(pieces[0], separator);
        assert(seq![pieces[0]] =~= pieces);
    } else {
        split_undoes_join(pieces.drop_last(), separator);
        split_appended(join(pieces.drop_last(), separator), pieces.last(), separator);
        assert(pieces.drop_last().push(pieces.last()) =~= pieces);
    }
}

/// What stands before the first separator is the first piece, and what stands behind it is split
/// on its own; a text without a separator is one piece.
pub proof fn first_piece_is_cut_off(head: Seq<char>, tail: Seq<char>, separator: char)
    requires
        !head.contains(separator),
    ensures
        split(head, separator) == seq![head],
        split(head.push(separator) + tail, separator) == seq![head] + split(tail, separator),
    decreases tail.len(),
{
    split_single(head, separator);
    let whole = head.push(separator) + tail;
    if tail.len() == 0 {
        assert(whole.drop_last() =~= head);
        assert(split(whole, separator) =~= seq![head] + split(tail, separator));
    } else {
        let less = tail.drop_last();
        first_piece_is_cut_off(head, less, separator);
        assert(whole.drop_last() =~= head.push(separator) + less);
        pieces_are_counted(less, separator);
        assert(split(whole, separator) =~= seq![head] + split(tail, separator));
    }
}

/// Joining undoes splitting, and no piece holds the separator.
pub proof fn join_undoes_split(s: Seq<char>, separator: char)
    ensures
        join(split(s, separator), separator) == s,
        forall|i: int|
            0 <= i < split(s, separator).len() ==> !(#[trigger] split(s, separator)[i]).contains(
                separator,
            ),
    decreases s.len(),
{
    pieces_are_counted(s, separator);
    let pieces = split(s, separator);
    if s.len() == 0 {
        assert(join(pieces, separator) =~= s);
    } else {
        let less = s.drop_last();
        join_undoes_split(less, separator);
        pieces_are_counted(less, separator);
        let before = split(less, separator);
        if s.last() == separator {
            assert(pieces.drop_last() =~= before);
            assert(join(pieces, separator) =~= s);
        } else {
            assert forall|i: int| 0 <= i < pieces.len() implies !(#[trigger] pieces[i]).contains(
                separator,
            ) by {
                assert(!before[i].contains(separator));
                if i == pieces.len() - 1 {
                    assert forall|j: int| 0 <= j < pieces[i].len() implies pieces[i][j]
                        != separator by {
                        if j < before[i].len() {
                            assert(before[i].contains(before[i][j]));
                        }
                    }
                }
            }
            assert(pieces.drop_last() =~= before.drop_last());
            assert(pieces.last() == before.last().push(s.last()));
            assert(less.push(s.last()) =~= s);
            if before.len() == 1 {
                assert(pieces[0] =~= s);
            } else {
                let head = join(before.drop_last(), separator).push(separator);
                assert(less == head + before.last());
                assert(join(pieces, separator) == head + pieces.last());
                assert(head + pieces.last() =~= s);
            }
        }
    }
}

// ---------------------------------------------------------------------------------------
// Searching
// ---------------------------------------------------------------------------------------
/// Whether `needle` stands at place `at` of `hay`.
pub open spec fn stands_at(hay: Seq<char>, needle: Seq<char>, at: int) -> bool {
    0 <= at && at + needle.len() <= hay.len() && hay.subrange(at, at + needle.len()) == needle
}

/// Whether `needle` occurs in `hay`.
pub open spec fn occurs(hay: Seq<char>, needle: Seq<char>) -> bool {
    exists|at: int| #[trigger] stands_at(hay, needle, at)
}

/// Whether `needle` stands at place `at` of `hay`.
pub fn is_at(hay: &Vec<char>, needle: &Vec<char>, at: usize) -> (found: bool)
    requires
        at <= hay@.len(),
    ensures
        found == stands_at(hay@, needle@, at as int),
{
    let size: usize = hay.len();
    if size - at < needle.len() {
        return false;
    }
    for i in 0..needle.len()
        invariant
            at + needle@.len() <= hay@.len() == size,
            forall|j: int| 0 <= j < i ==> #[trigger] needle@[j] == hay@[at + j],
    {
        if hay[at + i] != needle[i] {
            assert(hay@.subrange(at as int, at + needle@.len())[i as int] == hay@[at + i]);
            return false;
        }
    }
    assert(hay@.subrange(at as int, at + needle@.len()) =~= needle@);
    true
}

/// Whether a text begins with another.
pub fn begins_with(text: &str, prefix: &str) -> (found: bool)
    ensures
        found == prefix@.is_prefix_of(text@),
{
    let found = is_at(&chars_of(text), &chars_of(prefix), 0);
    assert(stands_at(text@, prefix@, 0) == prefix@.is_prefix_of(text@));
    found
}

/// Whether a text occurs in another.
pub fn contains_text(text: &str, needle: &str) -> (found: bool)
    ensures
        found == occurs(text@, needle@),
{
    let hay = chars_of(text);
    let sought = chars_of(needle);
    let mut at: usize = 0;
    loop
        invariant
            hay@ == text@,
            sought@ == needle@,
            at <= hay@.len(),
            forall|j: int| 0 <= j < at ==> !#[trigger] stands_at(hay@, sought@, j),
        decreases hay@.len() - at,
    {
        if is_at(&hay, &sought, at) {
            return true;
        }
        if at == hay.len() {
            return false;
        }
        at += 1;
    }
}

/// The first place at or after `from` where `needle` stands, or one behind the length where
/// there is none.
pub open spec fn first_place(hay: Seq<char>, needle: Seq<char>, from: int) -> int
    decreases hay.len() + 1 - from,
{
    if 0 <= from <= hay.len() && !stands_at(hay, needle, from) {
        first_place(hay, needle, from + 1)
    } else {
        from
    }
}

/// The first place where `needle` stands.
pub fn find_text(hay: &Vec<char>, needle: &Vec<char>) -> (place: Option<usize>)
    ensures
        match place {
            Some(at) => at == first_place(hay@, needle@, 0) && stands_at(
                hay@,
                needle@,
                at as int,
            ),
            None => first_place(hay@, needle@, 0) == hay@.len() + 1,
        },
{
    let mut at: usize = 0;
    loop
        invariant
            at <= hay@.len(),
            first_place(hay@, needle@, 0) == first_place(hay@, needle@, at as int),
        decreases hay@.len() - at,
    {
        if is_at(hay, needle, at) {
            return Some(at);
        }
        if at == hay.len() {
            assert(first_place(hay@, needle@, at as int) == first_place(hay@, needle@, at + 1));
            return None;
        }
        at += 1;
    }
}

/// Where `needle` stands first, where it is known that it stands at no earlier place.
pub proof fn first_place_is(hay: Seq<char>, needle: Seq<char>, from: int, place: int)
    requires
        0 <= from <= place <= hay.len(),
        stands_at(hay, needle, place),
        forall|j: int| from <= j < place ==> !#[trigger] stands_at(hay, needle, j),
    ensures
        first_place(hay, needle, from) == place,
    decreases place - from,
{
    if from < place {
        assert(!stands_at(hay, needle, from));
        first_place_is(hay, needle, from + 1, place);
    }
}

/// The place of the first `c` at or after `from`, or the length where there is none.
pub open spec fn first_from(s: Seq<char>, c: char, from: int) -> int
    decreases s.len() - from,
{
    if 0 <= from < s.len() && s[from] != c {
        first_from(s, c, from + 1)
    } else {
        from
    }
}

/// The place of the first `c` at or after `from`, or the length where there is none.
pub fn find_from(chars: &Vec<char>, c: char, from: usize) -> (place: usize)
    requires
        from <= chars@.len(),
    ensures
        place == first_from(chars@, c, from as int),
        from <= place <= chars@.len(),
        forall|j: int| from <= j < place ==> chars@[j] != c,
        place < chars@.len() ==> chars@[place as int] == c,
{
    let mut place: usize = from;
    while place < chars.len() && chars[place] != c
        invariant
            from <= place <= chars@.len(),
            first_from(chars@, c, from as int) == first_from(chars@, c, place as int),
            forall|j: int| from <= j < place ==> chars@[j] != c,
        decreases chars@.len() - place,
    {
        place += 1;
    }
    place
}

/// Where the first `c` stands, where it is known that none stands before `place`.
pub proof fn first_is(s: Seq<char>, c: char, from: int, place: int)
    requires
        0 <= from <= place <= s.len(),
        forall|j: int| from <= j < place ==> s[j] != c,
        place < s.len() ==> s[place] == c,
    ensures
        first_from(s, c, from) == place,
    decreases place - from,
{
    if from < place {
        first_is(s, c, from + 1, place);
    }
}

/// Before the first `c` there is none, and there is one at its place.
pub proof fn first_is_a_place(s: Seq<char>, c: char, from: int)
    requires
        0 <= from <= s.len(),
    ensures
        from <= first_from(s, c, from) <= s.len(),
        forall|j: int| from <= j < first_from(s, c, from) ==> s[j] != c,
        first_from(s, c, from) < s.len() ==> s[first_from(s, c, from)] == c,
    decreases s.len() - from,
{
    if from < s.len() && s[from] != c {
        first_is_a_place(s, c, from + 1);
    }
}

// ---------------------------------------------------------------------------------------
// White space
// ---------------------------------------------------------------------------------------
/// Whether a character has the Unicode property `White_Space`: one of 25 characters.
pub open spec fn white_space(c: char) -> bool {
    ||| '\u{9}' <= c <= '\u{d}'
    ||| c == ' ' || c == '\u{85}' || c == '\u{a0}' || c == '\u{1680}'
    ||| '\u{2000}' <= c <= '\u{200a}'
    ||| c == '\u{2028}' || c == '\u{2029}' || c == '\u{202f}' || c == '\u{205f}'
    ||| c == '\u{3000}'
}

/// A text without its leading white space.
pub open spec fn trim_start(s: Seq<char>) -> Seq<char>
    decreases s.len(),
{
    if s.len() > 0 && white_space(s[0]) {
        trim_start(s.skip(1))
    } else {
        s
    }
}

/// A text without its trailing white space.
pub open spec fn trim_end(s: Seq<char>) -> Seq<char>
    decreases s.len(),
{
    if s.len() > 0 && white_space(s.last()) {
        trim_end(s.drop_last())
    } else {
        s
    }
}

/// A text without its leading and trailing white space.
pub open spec fn trim(s: Seq<char>) -> Seq<char> {
    trim_end(trim_start(s))
}

/// A text without its leading and trailing white space.
pub fn trimmed(text: &str) -> (inner: String)
    ensures
        inner@ == trim(text@),
{
    let chars = chars_of(text);
    let mut from: usize = 0;
    assert(chars@.skip(0) =~= chars@);
    while from < chars.len() && chars[from].is_whitespace()
        invariant
            from <= chars@.len(),
            trim_start(chars@) == trim_start(chars@.skip(from as int)),
        decreases chars@.len() - from,
    {
        assert(chars@.skip(from as int).skip(1) =~= chars@.skip(from + 1));
        from += 1;
    }
    let mut to: usize = chars.len();
    assert(chars@.subrange(from as int, to as int) =~= chars@.skip(from as int));
    while to > from && chars[to - 1].is_whitespace()
        invariant
            from <= to <= chars@.len(),
            trim(chars@) == trim_end(chars@.subrange(from as int, to as int)),
        decreases to,
    {
        assert(chars@.subrange(from as int, to as int).drop_last() =~= chars@.subrange(
            from as int,
            to - 1,
        ));
        to -= 1;
    }
    string_between(&chars, from, to)
}

/// Whether nothing but white space stands in a text.
pub fn is_blank(text: &str) -> (blank: bool)
    ensures
        blank == (trim(text@).len() == 0),
{
    let inner = trimmed(text);
    chars_of(inner.as_str()).len() == 0
}

/// A text is blank exactly where it holds nothing but white space.
pub proof fn blank_is_all_white(s: Seq<char>)
    ensures
        trim(s).len() == 0 <==> forall|i: int| 0 <= i < s.len() ==> white_space(#[trigger] s[i]),
{
    start_is_trimmed(s);
    end_is_trimmed(trim_start(s));
    let inner = trim_start(s);
    let cut = s.len() - inner.len();
    if trim(s).len() == 0 {
        assert forall|i: int| 0 <= i < s.len() implies white_space(#[trigger] s[i]) by {
            if i >= cut {
                assert(inner[i - cut] == s[i]);
            }
        }
    } else {
        assert(inner[0] == s[cut]);
    }
}

/// What is cut off the beginning of a text is white space, and what is left does not begin with
/// any.
proof fn start_is_trimmed(s: Seq<char>)
    ensures
        trim_start(s).len() <= s.len(),
        trim_start(s) == s.skip(s.len() - trim_start(s).len()),
        forall|i: int| 0 <= i < s.len() - trim_start(s).len() ==> white_space(#[trigger] s[i]),
        trim_start(s).len() > 0 ==> !white_space(trim_start(s)[0]),
    decreases s.len(),
{
    if s.len() > 0 && white_space(s[0]) {
        let rest = s.skip(1);
        start_is_trimmed(rest);
        let size = trim_start(s).len();
        assert(rest.skip(rest.len() - size) =~= s.skip(s.len() - size));
        assert forall|i: int| 0 <= i < s.len() - size implies white_space(#[trigger] s[i]) by {
            if i > 0 {
                assert(rest[i - 1] == s[i]);
            }
        }
    } else {
        assert(s.skip(0) =~= s);
    }
}

/// What is cut off the end of a text is white space, and what is left does not end with any.
proof fn end_is_trimmed(s: Seq<char>)
    ensures
        trim_end(s).len() <= s.len(),
        trim_end(s) == s.take(trim_end(s).len() as int),
        forall|i: int| trim_end(s).len() <= i < s.len() ==> white_space(#[trigger] s[i]),
        trim_end(s).len() > 0 ==> !white_space(trim_end(s).last()),
    decreases s.len(),
{
    if s.len() > 0 && white_space(s.last()) {
        let less = s.drop_last();
        end_is_trimmed(less);
        let size = trim_end(s).len() as int;
        assert(less.take(size) =~= s.take(size));
        assert forall|i: int| size <= i < s.len() implies white_space(#[trigger] s[i]) by {
            if i < s.len() - 1 {
                assert(less[i] == s[i]);
            }
        }
    } else {
        assert(s.take(s.len() as int) =~= s);
    }
}

/// What stands between white space is what is left, where it neither begins nor ends with any.
pub proof fn white_space_is_cut_off(before: Seq<char>, inner: Seq<char>, behind: Seq<char>)
    requires
        forall|i: int| 0 <= i < before.len() ==> white_space(#[trigger] before[i]),
        forall|i: int| 0 <= i < behind.len() ==> white_space(#[trigger] behind[i]),
        inner.len() > 0,
        !white_space(inner[0]),
        !white_space(inner.last()),
    ensures
        trim(before + inner + behind) == inner,
{
    let s = before + inner + behind;
    start_is_trimmed(s);
    let rest = trim_start(s);
    let cut = s.len() - rest.len();
    assert(s[before.len() as int] == inner[0]);
    assert(cut <= before.len());
    if cut < before.len() {
        assert(rest[0] == s[cut as int]);
        assert(s[cut as int] == before[cut as int]);
    }
    assert(rest =~= inner + behind);
    end_is_trimmed(rest);
    let left = trim_end(rest);
    assert(rest[inner.len() - 1] == inner.last());
    assert(left.len() >= inner.len());
    if left.len() > inner.len() {
        let k = left.len() - 1;
        assert(left.last() == rest[k]);
        assert(rest[k] == behind[k - inner.len()]);
    }
    assert(left =~= inner);
}

// ---------------------------------------------------------------------------------------
// ASCII case
// ---------------------------------------------------------------------------------------
/// An ASCII capital letter in lower case; every other character as it is.
pub open spec fn lower_char(c: char) -> char {
    if 'A' <= c <= 'Z' {
        (c as u32 + 32) as char
    } else {
        c
    }
}

/// An ASCII lower-case letter as a capital; every other character as it is.
pub open spec fn upper_char(c: char) -> char {
    if 'a' <= c <= 'z' {
        (c as u32 - 32) as char
    } else {
        c
    }
}

/// A text with its ASCII letters in lower case.
pub open spec fn lower(s: Seq<char>) -> Seq<char> {
    s.map_values(|c: char| lower_char(c))
}

/// A text with its ASCII letters in capitals.
pub open spec fn upper(s: Seq<char>) -> Seq<char> {
    s.map_values(|c: char| upper_char(c))
}

fn lowered(c: char) -> (l: char)
    ensures
        l == lower_char(c),
{
    if 'A' <= c && c <= 'Z' {
        (c as u8 + 32) as char
    } else {
        c
    }
}

/// A text with its ASCII letters in lower case.
pub fn lower_text(text: &str) -> (low: String)
    ensures
        low@ == lower(text@),
{
    let chars = chars_of(text);
    let mut low = String::new();
    for i in 0..chars.len()
        invariant
            low@ == lower(chars@.take(i as int)),
    {
        low.push(lowered(chars[i]));
        assert(low@ =~= lower(chars@.take(i + 1)));
    }
    assert(chars@.take(chars@.len() as int) =~= text@);
    low
}

/// A text with its ASCII letters in capitals.
pub fn upper_text(text: &str) -> (high: String)
    ensures
        high@ == upper(text@),
{
    let chars = chars_of(text);
    let mut high = String::new();
    for i in 0..chars.len()
        invariant
            high@ == upper(chars@.take(i as int)),
    {
        let c = chars[i];
        if 'a' <= c && c <= 'z' {
            high.push((c as u8 - 32) as char);
        } else {
            high.push(c);
        }
        assert(high@ =~= upper(chars@.take(i + 1)));
    }
    assert(chars@.take(chars@.len() as int) =~= text@);
    high
}

/// Whether two characters are the same, or the same ASCII letter once as a capital and once not.
pub open spec fn same_letter(a: char, b: char) -> bool {
    ||| a == b
    ||| 'A' <= a <= 'Z' && b as u32 == a as u32 + 32
    ||| 'A' <= b <= 'Z' && a as u32 == b as u32 + 32
}

/// Whether two texts are the same but for the case of ASCII letters.
pub open spec fn same_but_case(a: Seq<char>, b: Seq<char>) -> bool {
    a.len() == b.len() && forall|i: int| 0 <= i < a.len() ==> same_letter(#[trigger] a[i], b[i])
}

/// Two texts in lower case are the same exactly where the texts are the same but for the case
/// of ASCII letters.
pub proof fn lower_forgets_case_alone(a: Seq<char>, b: Seq<char>)
    ensures
        lower(a) == lower(b) <==> same_but_case(a, b),
{
    if lower(a) == lower(b) {
        assert(lower(a).len() == a.len() && lower(b).len() == b.len());
        assert forall|i: int| 0 <= i < a.len() implies same_letter(#[trigger] a[i], b[i]) by {
            assert(lower(a)[i] == lower_char(a[i]));
            assert(lower(b)[i] == lower_char(b[i]));
        }
    }
    if same_but_case(a, b) {
        assert forall|i: int| 0 <= i < a.len() implies lower(a)[i] == lower(b)[i] by {
            assert(same_letter(a[i], b[i]));
        }
        assert(lower(a) =~= lower(b));
    }
}

/// In lower case no ASCII capital is left, in capitals no ASCII lower-case letter, and nothing
/// changes but the case of ASCII letters.
pub proof fn case_is_changed_alone(s: Seq<char>)
    ensures
        same_but_case(s, lower(s)),
        same_but_case(s, upper(s)),
        forall|i: int| 0 <= i < s.len() ==> !('A' <= #[trigger] lower(s)[i] <= 'Z'),
        forall|i: int| 0 <= i < s.len() ==> !('a' <= #[trigger] upper(s)[i] <= 'z'),
{
}

// ---------------------------------------------------------------------------------------
// Order
// ---------------------------------------------------------------------------------------
/// Whether a text comes before another in the order of their characters' code points.
pub open spec fn precedes(a: Seq<char>, b: Seq<char>) -> bool
    decreases a.len(),
{
    if b.len() == 0 {
        false
    } else if a.len() == 0 {
        true
    } else if a[0] == b[0] {
        precedes(a.skip(1), b.skip(1))
    } else {
        a[0] < b[0]
    }
}

/// Whether a text comes before another.
pub fn text_precedes(a: &str, b: &str) -> (before: bool)
    ensures
        before == precedes(a@, b@),
{
    let left = chars_of(a);
    let right = chars_of(b);
    let mut i: usize = 0;
    assert(a@.skip(0) =~= a@);
    assert(b@.skip(0) =~= b@);
    while i < left.len() && i < right.len() && left[i] == right[i]
        invariant
            i <= left@.len(),
            i <= right@.len(),
            left@ == a@,
            right@ == b@,
            precedes(a@, b@) == precedes(a@.skip(i as int), b@.skip(i as int)),
        decreases left@.len() - i,
    {
        assert(a@.skip(i as int).skip(1) =~= a@.skip(i + 1));
        assert(b@.skip(i as int).skip(1) =~= b@.skip(i + 1));
        i += 1;
    }
    if i == right.len() {
        false
    } else if i == left.len() {
        true
    } else {
        left[i] < right[i]
    }
}

/// The first character in which two texts differ decides which comes first; a text comes before
/// all that it is the beginning of.
pub proof fn first_difference_decides(common: Seq<char>, a: Seq<char>, b: Seq<char>)
    ensures
        a.len() > 0 && b.len() > 0 && a[0] != b[0] ==> (precedes(common + a, common + b) <==> a[0]
            < b[0]),
        b.len() > 0 ==> precedes(common, common + b),
        !precedes(common + a, common),
    decreases common.len(),
{
    if common.len() > 0 {
        let rest = common.skip(1);
        first_difference_decides(rest, a, b);
        assert((common + a).skip(1) =~= rest + a);
        assert((common + b).skip(1) =~= rest + b);
    } else {
        assert(common + a =~= a);
        assert(common + b =~= b);
    }
}

/// No text comes before itself, and of two different texts exactly one comes first.
pub proof fn precedes_is_total(a: Seq<char>, b: Seq<char>)
    ensures
        precedes(a, b) && precedes(b, a) ==> false,
        !precedes(a, b) && !precedes(b, a) <==> a == b,
    decreases a.len(),
{
    if a.len() > 0 && b.len() > 0 && a[0] == b[0] {
        precedes_is_total(a.skip(1), b.skip(1));
        if a.skip(1) == b.skip(1) {
            assert(a =~= seq![a[0]] + a.skip(1));
            assert(b =~= seq![b[0]] + b.skip(1));
        }
    } else if a.len() == 0 && b.len() == 0 {
        assert(a =~= b);
    }
}

/// What comes before a text comes before everything behind that text.
pub proof fn precedes_is_transitive(a: Seq<char>, b: Seq<char>, c: Seq<char>)
    requires
        precedes(a, b),
        precedes(b, c),
    ensures
        precedes(a, c),
    decreases a.len(),
{
    if a.len() > 0 && b.len() > 0 && c.len() > 0 && a[0] == b[0] && b[0] == c[0] {
        precedes_is_transitive(a.skip(1), b.skip(1), c.skip(1));
    }
}

} // verus!
