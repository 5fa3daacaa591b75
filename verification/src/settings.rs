//! The server settings: the default ports and the checks that the settings
//! form applies before it changes them.

use vstd::prelude::*;

verus! {

/// The port on which motion and scroll datagrams arrive unless configured
/// otherwise.
pub const DEFAULT_UDP_PORT: u16 = 8001;

/// The port on which click and command messages arrive unless configured
/// otherwise.
pub const DEFAULT_TCP_PORT: u16 = 8002;

/// Whether `c` is an ASCII decimal digit.
pub open spec fn is_digit(c: char) -> bool {
    '0' <= c <= '9'
}

/// The number that the decimal digits `t` write.
pub open spec fn digits_value(t: Seq<char>) -> nat
    decreases t.len(),
{
    if t.len() == 0 {
        0
    } else {
        digits_value(t.drop_last()) * 10 + ((t.last() as u32) - ('0' as u32)) as nat
    }
}

/// `t` without one leading `+`.
pub open spec fn unsigned_digits(t: Seq<char>) -> Seq<char> {
    if t.len() > 0 && t[0] == '+' {
        t.drop_first()
    } else {
        t
    }
}

/// The port that `t` names, as `u16`'s `FromStr` reads it: an optional `+`
/// and at least one decimal digit, with a value that fits in 16 bits.
pub open spec fn port_of(t: Seq<char>) -> Option<u16> {
    let d = unsigned_digits(t);
    if d.len() > 0 && (forall|i: int| 0 <= i < d.len() ==> is_digit(#[trigger] d[i]))
        && digits_value(d) <= 65535 {
        Some(digits_value(d) as u16)
    } else {
        None
    }
}

/// `<u16 as FromStr>::from_str` in base 10: the value of an optional `+`
/// followed by decimal digits, or `None` for any other text or a value
/// that does not fit.
#[verifier::external_body]
fn parse_u16(text: &str) -> (r: Option<u16>)
    ensures
        r == port_of(text@),
{
    text.parse::<u16>().ok()
}

/// What the settings form applies: both ports and the sensitivity, when
/// both port texts name ports and the sensitivity was read; otherwise
/// nothing, and the settings stay as they were.
pub fn settings_to_apply<S>(udp_text: &str, tcp_text: &str, sensitivity: Option<S>) -> (r: Option<
    (u16, u16, S),
>)
    ensures
        r == match (port_of(udp_text@), port_of(tcp_text@), sensitivity) {
            (Some(u), Some(t), Some(s)) => Some((u, t, s)),
            _ => None,
        },
{
    let udp_port = parse_u16(udp_text);
    let tcp_port = parse_u16(tcp_text);
    match (udp_port, tcp_port, sensitivity) {
        (Some(u), Some(t), Some(s)) => Some((u, t, s)),
        _ => None,
    }
}

} // verus!
