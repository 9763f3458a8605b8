use vstd::prelude::*;

verus! {

pub open spec fn is_hex_digit(c: char) -> bool {
    ||| ('0' as u32) <= (c as u32) <= ('9' as u32)
    ||| ('a' as u32) <= (c as u32) <= ('f' as u32)
    ||| ('A' as u32) <= (c as u32) <= ('F' as u32)
}

/// The value of a hex digit.
pub open spec fn digit_value(c: char) -> int {
    if (c as u32) <= ('9' as u32) {
        c as u32 - '0' as u32
    } else if (c as u32) <= ('F' as u32) {
        c as u32 - 'A' as u32 + 10
    } else {
        c as u32 - 'a' as u32 + 10
    }
}

/// A token without its leading `#`, if it has one.
pub open spec fn hex_body(t: Seq<char>) -> Seq<char> {
    if t.len() > 0 && t[0] == '#' {
        t.drop_first()
    } else {
        t
    }
}

/// An optional `#` and then three or six hex digits.
pub open spec fn is_hex_color(t: Seq<char>) -> bool {
    let b = hex_body(t);
    &&& b.len() == 3 || b.len() == 6
    &&& forall|i: int| 0 <= i < b.len() ==> is_hex_digit(#[trigger] b[i])
}

/// The red, green and blue bytes that a hex colour literal denotes: one digit
/// per channel stands for that digit twice (`f` is `ff`), two digits are the
/// byte itself.
pub open spec fn hex_rgb(t: Seq<char>) -> (u8, u8, u8) {
    let b = hex_body(t);
    if b.len() == 3 {
        (
            (17 * digit_value(b[0])) as u8,
            (17 * digit_value(b[1])) as u8,
            (17 * digit_value(b[2])) as u8,
        )
    } else {
        (
            (16 * digit_value(b[0]) + digit_value(b[1])) as u8,
            (16 * digit_value(b[2]) + digit_value(b[3])) as u8,
            (16 * digit_value(b[4]) + digit_value(b[5])) as u8,
        )
    }
}

fn hex_digit(c: char) -> (r: bool)
    ensures
        r == is_hex_digit(c),
{
    let u = c as u32;
    ('0' as u32 <= u && u <= '9' as u32) || ('a' as u32 <= u && u <= 'f' as u32) || ('A' as u32
        <= u && u <= 'F' as u32)
}

/// Whether `t` is a hex colour literal, as [`is_hex_color`] states.
pub fn check_hex_color(t: &str) -> (r: bool)
    ensures
        r == is_hex_color(t@),
{
    let n = t.unicode_len();
    let from: usize = if n > 0 && t.get_char(0) == '#' {
        1
    } else {
        0
    };
    let ghost b = hex_body(t@);
    assert(b == t@.subrange(from as int, n as int));
    let len = n - from;
    if len != 3 && len != 6 {
        return false;
    }
    let mut i: usize = from;
    while i < n
        invariant
            from <= i <= n,
            n == t@.len(),
            b == t@.subrange(from as int, n as int),
            b == hex_body(t@),
            len == n - from,
            len == 3 || len == 6,
            forall|j: int| 0 <= j < i - from ==> is_hex_digit(#[trigger] b[j]),
        decreases n - i,
    {
        let c = t.get_char(i);
        if !hex_digit(c) {
            assert(b[i - from] == c);
            assert(!is_hex_digit(hex_body(t@)[i - from]));
            assert(!is_hex_color(t@));
            return false;
        }
        i = i + 1;
    }
    true
}

/// Relies on palette's `FromStr` for `Srgb<u8>`: it strips one leading `#`,
/// then reads three hex digits as one digit per channel scaled by 17, or six
/// as two digits per channel.
#[verifier::external_body]
fn parse_hex(t: &str) -> (r: Option<(u8, u8, u8)>)
    requires
        is_hex_color(t@),
    ensures
        r == Some(hex_rgb(t@)),
{
    <palette::Srgb<u8> as std::str::FromStr>::from_str(t).ok().map(|c| (c.red, c.green, c.blue))
}

/// Reads a hex colour literal: an optional `#` and three or six hex digits,
/// in either case. `None` where `t` is not one.
pub fn read_hex_color(t: &str) -> (r: Option<(u8, u8, u8)>)
    ensures
        r is Some <==> is_hex_color(t@),
        r matches Some(c) ==> c == hex_rgb(t@),
{
    if !check_hex_color(t) {
        return None;
    }
    parse_hex(t)
}

} // verus!
