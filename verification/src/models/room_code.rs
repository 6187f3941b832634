//! Room codes: `U/XXXX-XXXX-XXXX-XXXX`.
//!
//! The first two groups name the virtual network, the last two are its secret. A group is
//! made of the ten digits and the capital letters without `I` and `O`, 34 characters in all.
//! Codes that are generated carry a checksum in each half: the alternating sum of the
//! characters' values is a multiple of seven.
use vstd::prelude::*;

use crate::error::{ErrorView, ScaffoldingError};
use crate::text;

verus! {

// ---------------------------------------------------------------------------------------
// The form of a code
// ---------------------------------------------------------------------------------------
/// Whether a character can stand in a group.
pub open spec fn is_code_char(c: char) -> bool {
    '0' <= c <= '9' || 'A' <= c <= 'H' || 'J' <= c <= 'N' || 'P' <= c <= 'Z'
}

/// Whether the four characters from `at` on are a group.
pub open spec fn group_at(s: Seq<char>, at: int) -> bool {
    is_code_char(s[at]) && is_code_char(s[at + 1]) && is_code_char(s[at + 2]) && is_code_char(
        s[at + 3],
    )
}

/// Whether a text has the form of a room code.
pub open spec fn well_formed(s: Seq<char>) -> bool {
    &&& s.len() == 21
    &&& s[0] == 'U' && s[1] == '/'
    &&& group_at(s, 2) && s[6] == '-'
    &&& group_at(s, 7) && s[11] == '-'
    &&& group_at(s, 12) && s[16] == '-'
    &&& group_at(s, 17)
}

/// The part of a code that names the network: its first two groups.
pub open spec fn network_part(code: Seq<char>) -> Seq<char> {
    code.subrange(2, 11)
}

/// The part of a code that is the network's secret: its last two groups.
pub open spec fn secret_half(code: Seq<char>) -> Seq<char> {
    code.subrange(12, 21)
}

// ---------------------------------------------------------------------------------------
// The checksum
// ---------------------------------------------------------------------------------------
/// The value of a character of a group, from 0 to 33.
pub open spec fn code_digit(c: char) -> nat {
    if c <= '9' {
        (c as nat - 48) as nat
    } else if c <= 'H' {
        (c as nat - 55) as nat
    } else if c <= 'N' {
        (c as nat - 56) as nat
    } else {
        (c as nat - 57) as nat
    }
}

/// The character with a value from 0 to 33.
pub open spec fn code_char(d: nat) -> char {
    if d < 10 {
        (d + 48) as char
    } else if d < 18 {
        (d + 55) as char
    } else if d < 23 {
        (d + 56) as char
    } else {
        (d + 57) as char
    }
}

/// The values of the characters, added and subtracted in turn.
pub open spec fn alternating_sum(s: Seq<char>) -> int
    decreases s.len(),
{
    if s.len() == 0 {
        0
    } else if s.len() % 2 == 1 {
        alternating_sum(s.drop_last()) + code_digit(s.last())
    } else {
        alternating_sum(s.drop_last()) - code_digit(s.last())
    }
}

/// Whether a text is made of code characters only.
pub open spec fn all_code_chars(s: Seq<char>) -> bool {
    forall|i: int| 0 <= i < s.len() ==> is_code_char(#[trigger] s[i])
}

/// Whether a text passes the checksum.
pub open spec fn passes_checksum(s: Seq<char>) -> bool {
    all_code_chars(s) && alternating_sum(s) % 7 == 0
}

/// Bytes as code characters: each stands for its remainder by 34.
pub open spec fn encoded(bytes: Seq<u8>) -> Seq<char> {
    bytes.map_values(|b: u8| code_char((b % 34) as nat))
}

/// The code made of two halves of eight characters each.
pub open spec fn code_of_halves(network: Seq<char>, secret: Seq<char>) -> Seq<char> {
    seq!['U', '/'] + network.take(4) + seq!['-'] + network.skip(4) + seq!['-'] + secret.take(4)
        + seq!['-'] + secret.skip(4)
}

/// The eight characters of one half of a code, without the dash between its groups.
pub open spec fn half_chars(half: Seq<char>) -> Seq<char> {
    half.take(4) + half.skip(5)
}

fn code_char_at(chars: &Vec<char>, at: usize) -> (is: bool)
    requires
        at < chars@.len(),
    ensures
        is == is_code_char(chars@[at as int]),
{
    let c = chars[at];
    ('0' <= c && c <= '9') || ('A' <= c && c <= 'H') || ('J' <= c && c <= 'N') || ('P' <= c && c
        <= 'Z')
}

fn has_group_at(chars: &Vec<char>, at: usize) -> (is: bool)
    requires
        at + 4 <= chars@.len() == 21,
    ensures
        is == group_at(chars@, at as int),
{
    code_char_at(chars, at) && code_char_at(chars, at + 1) && code_char_at(chars, at + 2)
        && code_char_at(chars, at + 3)
}

fn has_code_form(chars: &Vec<char>) -> (is: bool)
    ensures
        is == well_formed(chars@),
{
    chars.len() == 21 && chars[0] == 'U' && chars[1] == '/' && has_group_at(chars, 2) && chars[6]
        == '-' && has_group_at(chars, 7) && chars[11] == '-' && has_group_at(chars, 12)
        && chars[16] == '-' && has_group_at(chars, 17)
}

fn digit_of(c: char) -> (digit: u64)
    requires
        is_code_char(c),
    ensures
        digit == code_digit(c),
        digit < 34,
{
    if c <= '9' {
        c as u64 - 48
    } else if c <= 'H' {
        c as u64 - 55
    } else if c <= 'N' {
        c as u64 - 56
    } else {
        c as u64 - 57
    }
}

/// The remainder by seven of a sum follows from the remainder of what it is made of.
proof fn remainder_of_step(sum: int, digit: int)
    ensures
        (sum % 7 + digit) % 7 == (sum + digit) % 7,
        (sum % 7 + 35 - digit) % 7 == (sum - digit) % 7,
{
}

/// Whether a text is made of code characters whose alternating sum is a multiple of seven.
pub fn validate_checksum(part: &str) -> (valid: bool)
    ensures
        valid == passes_checksum(part@),
{
    let chars = text::chars_of(part);
    let mut sum: u64 = 0;
    let mut adds = true;
    for i in 0..chars.len()
        invariant
            chars@ == part@,
            all_code_chars(chars@.take(i as int)),
            adds == (i % 2 == 0),
            sum == alternating_sum(chars@.take(i as int)) % 7,
    {
        if !code_char_at(&chars, i) {
            return false;
        }
        let c = chars[i];
        let digit: u64 = digit_of(c);
        assert(chars@.take(i + 1).drop_last() =~= chars@.take(i as int));
        assert(chars@.take(i + 1).last() == c);
        proof {
            remainder_of_step(alternating_sum(chars@.take(i as int)), digit as int);
        }
        sum = if adds {
            (sum + digit) % 7
        } else {
            (sum + 35 - digit) % 7
        };
        adds = !adds;
    }
    assert(chars@.take(chars@.len() as int) =~= part@);
    sum == 0
}

fn encode(bytes: &[u8]) -> (part: String)
    ensures
        part@ == encoded(bytes@),
{
    let mut part = String::new();
    for i in 0..bytes.len()
        invariant
            part@ == encoded(bytes@.take(i as int)),
    {
        let d: u8 = bytes[i] % 34;
        let code: u8 = if d < 10 {
            d + 48
        } else if d < 18 {
            d + 55
        } else if d < 23 {
            d + 56
        } else {
            d + 57
        };
        part.push(code as char);
        assert(part@ =~= encoded(bytes@.take(i + 1)));
    }
    assert(bytes@.take(bytes@.len() as int) =~= bytes@);
    part
}

/// One half of a code from random bytes, or nothing where its checksum does not hold.
pub fn half_from_bytes(bytes: &[u8]) -> (half: Option<String>)
    ensures
        half is Some <==> passes_checksum(encoded(bytes@)),
        half matches Some(chars) ==> chars@ == encoded(bytes@),
{
    let part = encode(bytes);
    if validate_checksum(part.as_str()) {
        Some(part)
    } else {
        None
    }
}

/// `rand::Rng::fill` on the generator of `rand::thread_rng`: eight random bytes, of which
/// nothing is known.
#[verifier::external_body]
fn random_bytes() -> (bytes: [u8; 8]) {
    let mut bytes = [0u8; 8];
    rand::Rng::fill(&mut rand::thread_rng(), &mut bytes);
    bytes
}

/// A random half of a code, drawn until its checksum holds. One draw in seven does; the
/// number of draws is bounded only so that the loop is known to end. Behind the last of them
/// stands a half that passes as well.
fn random_half() -> (half: String)
    ensures
        half@.len() == 8,
        passes_checksum(half@),
{
    let mut draws: u64 = 0;
    while draws < u64::MAX
        decreases u64::MAX - draws,
    {
        let bytes = random_bytes();
        if let Some(half) = half_from_bytes(bytes.as_slice()) {
            return half;
        }
        draws += 1;
    }
    proof {
        reveal_strlit("00000000");
        reveal_with_fuel(alternating_sum, 9);
        let s = "00000000"@;
        assert(all_code_chars(s));
        assert(alternating_sum(s) == 0);
    }
    "00000000".to_owned()
}

// ---------------------------------------------------------------------------------------
// Room codes
// ---------------------------------------------------------------------------------------
/// A room code of the right form.
#[derive(Debug)]
pub struct RoomCode {
    raw: String,
    network_name_part: String,
    secret_part: String,
}

impl View for RoomCode {
    type V = Seq<char>;

    /// The code as it is written.
    closed spec fn view(&self) -> Seq<char> {
        self.raw@
    }
}

impl Clone for RoomCode {
    fn clone(&self) -> (copy: Self)
        ensures
            copy@ == self@,
    {
        proof {
            use_type_invariant(self);
        }
        RoomCode {
            raw: self.raw.clone(),
            network_name_part: self.network_name_part.clone(),
            secret_part: self.secret_part.clone(),
        }
    }
}

impl RoomCode {
    #[verifier::type_invariant]
    spec fn consistent(self) -> bool {
        &&& well_formed(self.raw@)
        &&& self.network_name_part@ == network_part(self.raw@)
        &&& self.secret_part@ == secret_half(self.raw@)
    }

    /// The code as it is written.
    pub fn raw(&self) -> (raw: &str)
        ensures
            raw@ == self@,
            well_formed(self@),
    {
        proof {
            use_type_invariant(self);
        }
        self.raw.as_str()
    }

    /// The first two groups, with the dash between them.
    pub fn network_name_part(&self) -> (part: &str)
        ensures
            part@ == network_part(self@),
    {
        proof {
            use_type_invariant(self);
        }
        self.network_name_part.as_str()
    }

    /// The last two groups, with the dash between them.
    pub fn secret_part(&self) -> (part: &str)
        ensures
            part@ == secret_half(self@),
    {
        proof {
            use_type_invariant(self);
        }
        self.secret_part.as_str()
    }

    /// The name of the virtual network that the room lives in.
    pub fn easy_tier_network_name(&self) -> (name: String)
        ensures
            name@ == "scaffolding-mc-"@ + network_part(self@),
    {
        text::concat("scaffolding-mc-", self.network_name_part())
    }

    /// The secret of the virtual network that the room lives in.
    pub fn easy_tier_network_secret(&self) -> (secret: &str)
        ensures
            secret@ == secret_half(self@),
    {
        self.secret_part()
    }

    /// Reads a room code. Only its form is looked at, not its checksum.
    pub fn parse(code: &str) -> (parsed: Result<RoomCode, ScaffoldingError>)
        ensures
            match parsed {
                Ok(room_code) => well_formed(code@) && room_code@ == code@,
                Err(error) => !well_formed(code@) && error@ == ErrorView::RoomCodeInvalid(
                    "无效的房间码格式: "@ + code@,
                ),
            },
    {
        let chars = text::chars_of(code);
        if has_code_form(&chars) {
            Ok(
                RoomCode {
                    raw: code.to_owned(),
                    network_name_part: text::string_between(&chars, 2, 11),
                    secret_part: text::string_between(&chars, 12, 21),
                },
            )
        } else {
            Err(ScaffoldingError::RoomCodeInvalid(text::concat("无效的房间码格式: ", code)))
        }
    }

    /// The code made of two halves.
    pub fn from_halves(network: &str, secret: &str) -> (code: RoomCode)
        requires
            network@.len() == 8,
            secret@.len() == 8,
            all_code_chars(network@),
            all_code_chars(secret@),
        ensures
            code@ == code_of_halves(network@, secret@),
            half_chars(network_part(code@)) == network@,
            half_chars(secret_half(code@)) == secret@,
    {
        let first = text::chars_of(network);
        let second = text::chars_of(secret);
        let mut raw = "U/".to_owned();
        raw.append(text::string_between(&first, 0, 4).as_str());
        raw.push('-');
        raw.append(text::string_between(&first, 4, 8).as_str());
        raw.push('-');
        raw.append(text::string_between(&second, 0, 4).as_str());
        raw.push('-');
        raw.append(text::string_between(&second, 4, 8).as_str());
        proof {
            reveal_strlit("U/");
            let s = raw@;
            assert(s =~= code_of_halves(network@, secret@));
            assert(half_chars(network_part(s)) =~= network@);
            assert(half_chars(secret_half(s)) =~= secret@);
            assert(forall|i: int| 2 <= i < 6 ==> s[i] == network@[i - 2]);
            assert(forall|i: int| 7 <= i < 11 ==> s[i] == network@[i - 3]);
            assert(forall|i: int| 12 <= i < 16 ==> s[i] == secret@[i - 12]);
            assert(forall|i: int| 17 <= i < 21 ==> s[i] == secret@[i - 13]);
        }
        let chars = text::chars_of(raw.as_str());
        RoomCode {
            network_name_part: text::string_between(&chars, 2, 11),
            secret_part: text::string_between(&chars, 12, 21),
            raw,
        }
    }

    /// A random room code. Both of its halves pass the checksum.
    pub fn generate() -> (code: RoomCode)
        ensures
            well_formed(code@),
            passes_checksum(half_chars(network_part(code@))),
            passes_checksum(half_chars(secret_half(code@))),
    {
        let network = random_half();
        let secret = random_half();
        let code = RoomCode::from_halves(network.as_str(), secret.as_str());
        proof {
            use_type_invariant(&code);
        }
        code
    }
}

// ---------------------------------------------------------------------------------------
// Laws
// ---------------------------------------------------------------------------------------
/// The value of a character and the character of a value undo each other.
pub proof fn digits_and_chars_agree(c: char, d: nat)
    ensures
        is_code_char(c) ==> code_digit(c) < 34 && code_char(code_digit(c)) == c,
        d < 34 ==> is_code_char(code_char(d)) && code_digit(code_char(d)) == d,
{
}

/// The name part and the secret part determine the code.
pub proof fn parts_determine_the_code(a: Seq<char>, b: Seq<char>)
    requires
        well_formed(a),
        well_formed(b),
        network_part(a) == network_part(b),
        secret_half(a) == secret_half(b),
    ensures
        a == b,
{
    assert forall|i: int| 0 <= i < 21 implies a[i] == b[i] by {
        if 2 <= i < 11 {
            assert(network_part(a)[i - 2] == a[i] && network_part(b)[i - 2] == b[i]);
        } else if 12 <= i {
            assert(secret_half(a)[i - 12] == a[i] && secret_half(b)[i - 12] == b[i]);
        } else {
            assert(i == 0 || i == 1 || i == 11);
        }
    }
    assert(a =~= b);
}

/// Two codes made of different halves are different: no half is lost in a code.
pub proof fn halves_are_kept(
    network: Seq<char>,
    secret: Seq<char>,
    other_network: Seq<char>,
    other_secret: Seq<char>,
)
    requires
        network.len() == 8,
        secret.len() == 8,
        other_network.len() == 8,
        other_secret.len() == 8,
        code_of_halves(network, secret) == code_of_halves(other_network, other_secret),
    ensures
        network == other_network,
        secret == other_secret,
{
    let a = code_of_halves(network, secret);
    let b = code_of_halves(other_network, other_secret);
    assert(half_chars(network_part(a)) =~= network);
    assert(half_chars(network_part(b)) =~= other_network);
    assert(half_chars(secret_half(a)) =~= secret);
    assert(half_chars(secret_half(b)) =~= other_secret);
}

/// The characters of a group, each at the place of its value.
pub open spec fn alphabet() -> Seq<char> {
    "0123456789ABCDEFGHJKLMNPQRSTUVWXYZ"@
}

/// A character can stand in a group exactly where it is one of the 34, and its value is its
/// place among them.
pub proof fn values_are_places(c: char, d: nat)
    ensures
        alphabet().len() == 34,
        is_code_char(c) <==> alphabet().contains(c),
        is_code_char(c) ==> alphabet()[code_digit(c) as int] == c,
        d < 34 ==> code_char(d) == alphabet()[d as int],
{
    reveal_strlit("0123456789ABCDEFGHJKLMNPQRSTUVWXYZ");
    let all = alphabet();
    assert(forall|i: int| 0 <= i < 34 ==> is_code_char(#[trigger] all[i]));
    if is_code_char(c) {
        assert(0 <= code_digit(c) < 34);
        assert(all[code_digit(c) as int] == c);
    }
}

/// Whether a character stands at a place of a code where it may.
pub open spec fn may_stand_at(c: char, i: int) -> bool {
    if i == 0 {
        c == 'U'
    } else if i == 1 {
        c == '/'
    } else if i == 6 || i == 11 || i == 16 {
        c == '-'
    } else {
        alphabet().contains(c)
    }
}

/// A text is a room code exactly where it is 21 characters long, begins with `U/`, has a dash
/// behind each of its first three groups, and one of the 34 characters everywhere else.
pub proof fn form_is_place_by_place(s: Seq<char>)
    ensures
        well_formed(s) <==> s.len() == 21 && forall|i: int|
            0 <= i < 21 ==> may_stand_at(#[trigger] s[i], i),
{
    assert forall|i: int| 0 <= i < s.len() implies is_code_char(#[trigger] s[i])
        == alphabet().contains(s[i]) by {
        values_are_places(s[i], 0);
    }
    if s.len() == 21 && forall|i: int| 0 <= i < 21 ==> may_stand_at(#[trigger] s[i], i) {
        assert(s[0] == 'U' && s[1] == '/' && s[6] == '-' && s[11] == '-' && s[16] == '-');
        assert(is_code_char(s[2]) && is_code_char(s[3]) && is_code_char(s[4]) && is_code_char(s[5]));
        assert(is_code_char(s[7]) && is_code_char(s[8]) && is_code_char(s[9]) && is_code_char(
            s[10],
        ));
        assert(is_code_char(s[12]) && is_code_char(s[13]) && is_code_char(s[14]) && is_code_char(
            s[15],
        ));
        assert(is_code_char(s[17]) && is_code_char(s[18]) && is_code_char(s[19]) && is_code_char(
            s[20],
        ));
    }
}

/// The name part of a code is what stands from its third to its eleventh character, the secret
/// what stands from its thirteenth on: two groups each, with the dash between them.
pub proof fn parts_are_the_two_halves(code: Seq<char>, i: int)
    requires
        code.len() == 21,
        0 <= i < 9,
    ensures
        network_part(code).len() == 9,
        secret_half(code).len() == 9,
        network_part(code)[i] == code[2 + i],
        secret_half(code)[i] == code[12 + i],
        code == seq!['U', '/'] + network_part(code) + seq!['-'] + secret_half(code) <==> code[0]
            == 'U' && code[1] == '/' && code[11] == '-',
{
    let made = seq!['U', '/'] + network_part(code) + seq!['-'] + secret_half(code);
    assert(made.len() == 21);
    if code[0] == 'U' && code[1] == '/' && code[11] == '-' {
        assert(made =~= code);
    } else {
        assert(made[0] == 'U' && made[1] == '/' && made[11] == '-');
    }
}

/// A code that is made of two halves of eight code characters is one, and its parts are the
/// halves, each with a dash behind its fourth character.
pub proof fn code_holds_its_halves(network: Seq<char>, secret: Seq<char>)
    requires
        network.len() == 8,
        secret.len() == 8,
        all_code_chars(network),
        all_code_chars(secret),
    ensures
        well_formed(code_of_halves(network, secret)),
        network_part(code_of_halves(network, secret)) == network.take(4) + seq!['-'] + network.skip(
            4,
        ),
        secret_half(code_of_halves(network, secret)) == secret.take(4) + seq!['-'] + secret.skip(4),
        half_chars(network.take(4) + seq!['-'] + network.skip(4)) == network,
{
    let code = code_of_halves(network, secret);
    assert(network_part(code) =~= network.take(4) + seq!['-'] + network.skip(4));
    assert(secret_half(code) =~= secret.take(4) + seq!['-'] + secret.skip(4));
    assert(half_chars(network.take(4) + seq!['-'] + network.skip(4)) =~= network);
    assert(forall|i: int| 2 <= i < 6 ==> code[i] == #[trigger] network[i - 2]);
    assert(forall|i: int| 7 <= i < 11 ==> code[i] == #[trigger] network[i - 3]);
    assert(forall|i: int| 12 <= i < 16 ==> code[i] == #[trigger] secret[i - 12]);
    assert(forall|i: int| 17 <= i < 21 ==> code[i] == #[trigger] secret[i - 13]);
    assert(code[2] == network[0] && code[3] == network[1] && code[4] == network[2] && code[5]
        == network[3]);
    assert(code[7] == network[4] && code[8] == network[5] && code[9] == network[6] && code[10]
        == network[7]);
    assert(code[12] == secret[0] && code[13] == secret[1] && code[14] == secret[2] && code[15]
        == secret[3]);
    assert(code[17] == secret[4] && code[18] == secret[5] && code[19] == secret[6] && code[20]
        == secret[7]);
}

/// In the checksum every value counts once, those at even places added and those at odd places
/// subtracted: two characters more change the sum by the first one's value less the second
/// one's.
pub proof fn values_alternate(s: Seq<char>, a: char, b: char)
    requires
        s.len() % 2 == 0,
    ensures
        alternating_sum(Seq::<char>::empty()) == 0,
        alternating_sum(s.push(a)) == alternating_sum(s) + code_digit(a),
        alternating_sum(s.push(a).push(b)) == alternating_sum(s) + code_digit(a) - code_digit(b),
{
    assert(s.push(a).drop_last() =~= s);
    assert(s.push(a).push(b).drop_last() =~= s.push(a));
    assert(alternating_sum(s.push(a)) == alternating_sum(s) + code_digit(a));
    assert(s.push(a).push(b).len() % 2 == 0);
    assert(alternating_sum(s.push(a).push(b)) == alternating_sum(s.push(a)) - code_digit(b));
}

/// A text passes the checksum exactly where it is made of the 34 characters and its sum is seven
/// times a number.
pub proof fn checksum_is_a_multiple_of_seven(s: Seq<char>, k: int)
    ensures
        alternating_sum(s) == 7 * k ==> (passes_checksum(s) <==> forall|i: int|
            0 <= i < s.len() ==> alphabet().contains(#[trigger] s[i])),
        passes_checksum(s) ==> alternating_sum(s) == 7 * (alternating_sum(s) / 7),
{
    assert forall|i: int| 0 <= i < s.len() implies is_code_char(#[trigger] s[i])
        == alphabet().contains(s[i]) by {
        values_are_places(s[i], 0);
    }
}

/// A byte becomes the character at the place of its remainder by 34.
pub proof fn bytes_become_characters(bytes: Seq<u8>, i: int)
    requires
        0 <= i < bytes.len(),
    ensures
        encoded(bytes).len() == bytes.len(),
        encoded(bytes)[i] == alphabet()[(bytes[i] % 34) as int],
{
    values_are_places('0', (bytes[i] % 34) as nat);
}

} // verus!
