//! The two wire formats.
//!
//! UDP datagrams carry pointer motion as `M,<dx>,<dy>` and scrolling as
//! `S,<dx>,<dy>`; TCP messages carry one command name such as `left_click`.
//! Both are UTF-8 text and may be surrounded by whitespace.

use vstd::prelude::*;
use vstd::utf8::encode_utf8;
use vstd::string::StringExecFns;
use crate::text::{
    all_white_space, decode_text, field, find_sep, lemma_find_sep_after,
    lemma_find_sep_none, lemma_payload_text_of_encoding, lemma_split_step,
    lemma_trim_after_trim_end, lemma_trim_end_append, lemma_trim_end_prefix,
    lemma_trim_end_skips, lemma_trim_padded, payload_text, same_text, split3, str_trim, trim,
    trim_end, trim_start,
};

verus! {

/// A command received on the TCP channel.
#[derive(Debug, Clone, Copy, PartialEq, Eq, Structural)]
pub enum TcpCommand {
    LeftClick,
    RightClick,
    DoubleClick,
    AltTabStart,
    AltTabEnd,
    VolumeUp,
    VolumeDown,
}

/// Which gesture a UDP datagram reports.
#[derive(Debug, Clone, Copy, PartialEq, Eq, Structural)]
pub enum UdpKind {
    Move,
    Scroll,
}

/// A decoded UDP datagram; `D` is the type that the deltas are read into.
#[derive(Debug, PartialEq)]
pub enum UdpPacket<D> {
    Move { dx: D, dy: D },
    Scroll { dx: D, dy: D },
}

/// Why a payload was refused.
#[derive(Debug, PartialEq, Eq)]
pub enum ProtocolError {
    /// The bytes are not UTF-8.
    InvalidUtf8,
    /// The first field of a UDP datagram names no gesture; it is kept here.
    UnsupportedUdpPacket(String),
    /// The trimmed TCP message names no command; it is kept here.
    UnsupportedTcpCommand(String),
    /// A UDP datagram lacks a delta field.
    MissingDelta,
    /// A UDP delta field could not be read as a number.
    InvalidDelta,
}

/// The mathematical value of a `ProtocolError`.
pub enum ProtocolFault {
    InvalidUtf8,
    UnsupportedUdpPacket(Seq<char>),
    UnsupportedTcpCommand(Seq<char>),
    MissingDelta,
    InvalidDelta,
}

impl View for ProtocolError {
    type V = ProtocolFault;

    open spec fn view(&self) -> ProtocolFault {
        match self {
            ProtocolError::InvalidUtf8 => ProtocolFault::InvalidUtf8,
            ProtocolError::UnsupportedUdpPacket(s) => ProtocolFault::UnsupportedUdpPacket(s@),
            ProtocolError::UnsupportedTcpCommand(s) => ProtocolFault::UnsupportedTcpCommand(s@),
            ProtocolError::MissingDelta => ProtocolFault::MissingDelta,
            ProtocolError::InvalidDelta => ProtocolFault::InvalidDelta,
        }
    }
}

/// The text by which each refusal is reported.
pub open spec fn fault_text(f: ProtocolFault) -> Seq<char> {
    match f {
        ProtocolFault::InvalidUtf8 => "invalid utf-8 payload"@,
        ProtocolFault::UnsupportedUdpPacket(t) => "unsupported UDP packet: "@ + t,
        ProtocolFault::UnsupportedTcpCommand(t) => "unsupported TCP command: "@ + t,
        ProtocolFault::MissingDelta => "missing delta value"@,
        ProtocolFault::InvalidDelta => "invalid delta value"@,
    }
}

impl ProtocolError {
    /// The text by which this refusal is reported.
    pub fn message(&self) -> (r: String)
        ensures
            r@ == fault_text(self@),
    {
        match self {
            ProtocolError::InvalidUtf8 => "invalid utf-8 payload".to_owned(),
            ProtocolError::UnsupportedUdpPacket(t) => {
                let mut m = "unsupported UDP packet: ".to_owned();
                m.append(t.as_str());
                m
            },
            ProtocolError::UnsupportedTcpCommand(t) => {
                let mut m = "unsupported TCP command: ".to_owned();
                m.append(t.as_str());
                m
            },
            ProtocolError::MissingDelta => "missing delta value".to_owned(),
            ProtocolError::InvalidDelta => "invalid delta value".to_owned(),
        }
    }
}

/// A result with its error taken by value.
pub open spec fn fault_of<T>(r: Result<T, ProtocolError>) -> Result<T, ProtocolFault> {
    match r {
        Ok(v) => Ok(v),
        Err(e) => Err(e@),
    }
}

/// The name by which the TCP channel sends each command.
pub open spec fn command_text(c: TcpCommand) -> Seq<char> {
    match c {
        TcpCommand::LeftClick => "left_click"@,
        TcpCommand::RightClick => "right_click"@,
        TcpCommand::DoubleClick => "double_click"@,
        TcpCommand::AltTabStart => "alt_tab_start"@,
        TcpCommand::AltTabEnd => "alt_tab_end"@,
        TcpCommand::VolumeUp => "volume_up"@,
        TcpCommand::VolumeDown => "volume_down"@,
    }
}

/// The command whose name is `t`, if any.
pub open spec fn command_named(t: Seq<char>) -> Option<TcpCommand> {
    if t == "left_click"@ {
        Some(TcpCommand::LeftClick)
    } else if t == "right_click"@ {
        Some(TcpCommand::RightClick)
    } else if t == "double_click"@ {
        Some(TcpCommand::DoubleClick)
    } else if t == "alt_tab_start"@ {
        Some(TcpCommand::AltTabStart)
    } else if t == "alt_tab_end"@ {
        Some(TcpCommand::AltTabEnd)
    } else if t == "volume_up"@ {
        Some(TcpCommand::VolumeUp)
    } else if t == "volume_down"@ {
        Some(TcpCommand::VolumeDown)
    } else {
        None
    }
}

/// What a TCP message means: the command named by its trimmed text.
pub open spec fn tcp_command_of(bytes: Seq<u8>) -> Result<TcpCommand, ProtocolFault> {
    match payload_text(bytes) {
        None => Err(ProtocolFault::InvalidUtf8),
        Some(text) => match command_named(trim(text)) {
            Some(c) => Ok(c),
            None => Err(ProtocolFault::UnsupportedTcpCommand(trim(text))),
        },
    }
}

/// Reads a TCP message as a command.
pub fn parse_tcp_payload(payload: &[u8]) -> (r: Result<TcpCommand, ProtocolError>)
    ensures
        fault_of(r) == tcp_command_of(payload@),
{
    let text = match decode_text(payload) {
        Some(text) => text,
        None => return Err(ProtocolError::InvalidUtf8),
    };
    let t = str_trim(text);
    if same_text(t, "left_click") {
        Ok(TcpCommand::LeftClick)
    } else if same_text(t, "right_click") {
        Ok(TcpCommand::RightClick)
    } else if same_text(t, "double_click") {
        Ok(TcpCommand::DoubleClick)
    } else if same_text(t, "alt_tab_start") {
        Ok(TcpCommand::AltTabStart)
    } else if same_text(t, "alt_tab_end") {
        Ok(TcpCommand::AltTabEnd)
    } else if same_text(t, "volume_up") {
        Ok(TcpCommand::VolumeUp)
    } else if same_text(t, "volume_down") {
        Ok(TcpCommand::VolumeDown)
    } else {
        Err(ProtocolError::UnsupportedTcpCommand(t.to_owned()))
    }
}

/// The gesture whose tag is `t`, if any.
pub open spec fn kind_named(t: Seq<char>) -> Option<UdpKind> {
    if t == "M"@ {
        Some(UdpKind::Move)
    } else if t == "S"@ {
        Some(UdpKind::Scroll)
    } else {
        None
    }
}

/// `t` trimmed, when there is a `t`.
pub open spec fn trim_field(t: Option<Seq<char>>) -> Option<Seq<char>> {
    match t {
        Some(f) => Some(trim(f)),
        None => None,
    }
}

/// The fields of a UDP datagram: the gesture named by the first
/// comma-separated piece of the trimmed text, and the second and third
/// pieces, trimmed, where they exist. Further pieces are ignored.
pub open spec fn udp_fields_of(bytes: Seq<u8>) -> Result<
    (UdpKind, Option<Seq<char>>, Option<Seq<char>>),
    ProtocolFault,
> {
    match payload_text(bytes) {
        None => Err(ProtocolFault::InvalidUtf8),
        Some(text) => {
            let t = trim(text);
            let head = field(t, ',', 0).unwrap();
            match kind_named(head) {
                None => Err(ProtocolFault::UnsupportedUdpPacket(head)),
                Some(k) => Ok((k, trim_field(field(t, ',', 1)), trim_field(field(t, ',', 2)))),
            }
        },
    }
}

/// The packet of gesture `kind` with deltas `dx` and `dy`.
pub open spec fn packet_with<D>(kind: UdpKind, dx: D, dy: D) -> UdpPacket<D> {
    match kind {
        UdpKind::Move => UdpPacket::Move { dx, dy },
        UdpKind::Scroll => UdpPacket::Scroll { dx, dy },
    }
}

/// The packet that a datagram of gesture `kind` gives, from what reading
/// each delta gave: `None` where the field is absent, `Some(None)` where it
/// could not be read, `Some(Some(v))` where it was read as `v`. The
/// horizontal delta is looked at first.
pub open spec fn packet_of<D>(
    kind: UdpKind,
    dx: Option<Option<D>>,
    dy: Option<Option<D>>,
) -> Result<UdpPacket<D>, ProtocolFault> {
    match dx {
        None => Err(ProtocolFault::MissingDelta),
        Some(None) => Err(ProtocolFault::InvalidDelta),
        Some(Some(x)) => match dy {
            None => Err(ProtocolFault::MissingDelta),
            Some(None) => Err(ProtocolFault::InvalidDelta),
            Some(Some(y)) => Ok(packet_with(kind, x, y)),
        },
    }
}

/// The text of an optional field.
pub open spec fn text_of(t: Option<&str>) -> Option<Seq<char>> {
    match t {
        Some(s) => Some(s@),
        None => None,
    }
}

/// The fields of a UDP datagram before its deltas are read.
pub struct UdpFields<'a> {
    pub kind: UdpKind,
    /// The horizontal delta's text, trimmed.
    pub dx: Option<&'a str>,
    /// The vertical delta's text, trimmed.
    pub dy: Option<&'a str>,
}

impl<'a> UdpFields<'a> {
    pub open spec fn parts(&self) -> (UdpKind, Option<Seq<char>>, Option<Seq<char>>) {
        (self.kind, text_of(self.dx), text_of(self.dy))
    }
}

/// Splits a UDP datagram into its gesture and delta texts.
pub fn split_udp_payload(payload: &[u8]) -> (r: Result<UdpFields<'_>, ProtocolError>)
    ensures
        match r {
            Ok(f) => udp_fields_of(payload@) == Ok::<_, ProtocolFault>(f.parts()),
            Err(e) => udp_fields_of(payload@) == Err::<
                (UdpKind, Option<Seq<char>>, Option<Seq<char>>),
                _,
            >(e@),
        },
{
    let text = match decode_text(payload) {
        Some(text) => text,
        None => return Err(ProtocolError::InvalidUtf8),
    };
    let t = str_trim(text);
    let (head, dx, dy) = split3(t, ',');
    let kind = if same_text(head, "M") {
        UdpKind::Move
    } else if same_text(head, "S") {
        UdpKind::Scroll
    } else {
        return Err(ProtocolError::UnsupportedUdpPacket(head.to_owned()));
    };
    let dx = match dx {
        Some(s) => Some(str_trim(s)),
        None => None,
    };
    let dy = match dy {
        Some(s) => Some(str_trim(s)),
        None => None,
    };
    Ok(UdpFields { kind, dx, dy })
}

/// Builds the packet of gesture `kind` from what reading its deltas gave
/// (see `packet_of`).
pub fn assemble_udp_packet<D>(
    kind: UdpKind,
    dx: Option<Option<D>>,
    dy: Option<Option<D>>,
) -> (r: Result<UdpPacket<D>, ProtocolError>)
    ensures
        fault_of(r) == packet_of(kind, dx, dy),
{
    match dx {
        None => Err(ProtocolError::MissingDelta),
        Some(None) => Err(ProtocolError::InvalidDelta),
        Some(Some(x)) => match dy {
            None => Err(ProtocolError::MissingDelta),
            Some(None) => Err(ProtocolError::InvalidDelta),
            Some(Some(y)) => match kind {
                UdpKind::Move => Ok(UdpPacket::Move { dx: x, dy: y }),
                UdpKind::Scroll => Ok(UdpPacket::Scroll { dx: x, dy: y }),
            },
        },
    }
}

/// Whether `o` is what reading the optional delta text `t` with `read`
/// can give: nothing where there is no text, otherwise one of the values
/// that `read` may return on it.
pub open spec fn delta_read<D, F: Fn(&str) -> Option<D>>(
    read: F,
    t: Option<Seq<char>>,
    o: Option<Option<D>>,
) -> bool {
    match t {
        None => o is None,
        Some(text) => o matches Some(v) && exists|s: &str|
            #![trigger call_ensures(read, (s,), v)]
            s@ == text && call_ensures(read, (s,), v),
    }
}

/// Reads a UDP datagram, reading each delta text with `read_delta`. The
/// horizontal delta is read first, and the vertical one only when the
/// horizontal one was read.
pub fn parse_udp_payload<D, F: Fn(&str) -> Option<D>>(
    payload: &[u8],
    read_delta: F,
) -> (r: Result<UdpPacket<D>, ProtocolError>)
    requires
        forall|s: &str| call_requires(read_delta, (s,)),
    ensures
        match udp_fields_of(payload@) {
            Err(e) => fault_of(r) == Err::<UdpPacket<D>, _>(e),
            Ok((kind, dx, dy)) => exists|ox: Option<Option<D>>, oy: Option<Option<D>>|
                #![trigger packet_of(kind, ox, oy)]
                {
                    &&& delta_read(read_delta, dx, ox)
                    &&& (ox matches Some(Some(_)) ==> delta_read(read_delta, dy, oy))
                    &&& fault_of(r) == packet_of(kind, ox, oy)
                },
        },
{
    let fields = match split_udp_payload(payload) {
        Ok(f) => f,
        Err(e) => return Err(e),
    };
    let ox: Option<Option<D>> = match fields.dx {
        Some(s) => {
            let v = read_delta(s);
            assert(call_ensures(read_delta, (s,), v));
            Some(v)
        },
        None => None,
    };
    let oy: Option<Option<D>> = match (&ox, fields.dy) {
        (Some(Some(_)), Some(s)) => {
            let v = read_delta(s);
            assert(call_ensures(read_delta, (s,), v));
            Some(v)
        },
        _ => None,
    };
    let r = assemble_udp_packet(fields.kind, ox, oy);
    assert(packet_of(fields.kind, ox, oy) == fault_of(r));
    r
}

/// The tag by which the UDP channel names each gesture.
pub open spec fn kind_text(k: UdpKind) -> Seq<char> {
    match k {
        UdpKind::Move => "M"@,
        UdpKind::Scroll => "S"@,
    }
}

/// Whitespace around a payload does not change what it means, on either
/// channel.
pub proof fn lemma_padding_ignored(pre: Seq<char>, t: Seq<char>, post: Seq<char>)
    requires
        all_white_space(pre),
        all_white_space(post),
    ensures
        tcp_command_of(encode_utf8(pre + t + post)) == tcp_command_of(encode_utf8(t)),
        udp_fields_of(encode_utf8(pre + t + post)) == udp_fields_of(encode_utf8(t)),
{
    lemma_payload_text_of_encoding(pre + t + post);
    lemma_payload_text_of_encoding(t);
    lemma_trim_padded(pre, t, post);
}

/// Each command's name is read back as that command.
pub proof fn lemma_tcp_command_round_trip(c: TcpCommand)
    ensures
        tcp_command_of(encode_utf8(command_text(c))) == Ok::<_, ProtocolFault>(c),
{
    reveal_strlit("left_click");
    reveal_strlit("right_click");
    reveal_strlit("double_click");
    reveal_strlit("alt_tab_start");
    reveal_strlit("alt_tab_end");
    reveal_strlit("volume_up");
    reveal_strlit("volume_down");
    let t = command_text(c);
    lemma_payload_text_of_encoding(t);
    assert(trim_start(t) == t);
    assert(trim_end(t) == t);
}

/// A datagram made of a gesture's tag and two comma-free delta texts,
/// separated by commas, is read back as that gesture with those texts,
/// trimmed.
pub proof fn lemma_udp_round_trip(k: UdpKind, x: Seq<char>, y: Seq<char>)
    requires
        !x.contains(','),
        !y.contains(','),
    ensures
        udp_fields_of(encode_utf8(kind_text(k) + seq![','] + x + seq![','] + y)) == Ok::<
            _,
            ProtocolFault,
        >((k, Some(trim(x)), Some(trim(y)))),
{
    reveal_strlit("M");
    reveal_strlit("S");
    let tag = kind_text(k);
    let p = tag + seq![','] + x + seq![','];
    let text = p + y;
    assert(text =~= tag + seq![','] + x + seq![','] + y);
    lemma_payload_text_of_encoding(text);
    // Trimming leaves the tag in front and cuts only the end of `y`.
    assert(text[0] == tag[0]);
    assert(trim_start(text) == text);
    let y2 = trim_end(y);
    assert(p.last() == ',');
    if all_white_space(y) {
        lemma_trim_end_skips(p, y);
        lemma_trim_end_prefix(y);
        assert(trim_end(p) == p);
        assert(p + y2 =~= p);
    } else {
        lemma_trim_end_append(p, y);
    }
    assert(trim(text) == p + y2);
    lemma_trim_end_prefix(y);
    assert(!y2.contains(',')) by {
        if y2.contains(',') {
            let i = choose|i: int| 0 <= i < y2.len() && y2[i] == ',';
            assert(y[i] == y2[i]);
        }
    }
    // The pieces are the tag, `x` and what is left of `y`.
    let t = p + y2;
    assert(!tag.contains(','));
    assert(t =~= tag + seq![','] + (x + seq![','] + y2));
    lemma_find_sep_after(tag, ',', x + seq![','] + y2);
    lemma_split_step(t, ',', 0);
    lemma_split_step(t, ',', 1);
    let t2 = t.skip(find_sep(t, ',') + 1);
    assert(t2 =~= x + seq![','] + y2);
    assert(t.take(find_sep(t, ',')) =~= tag);
    lemma_find_sep_after(x, ',', y2);
    lemma_split_step(t2, ',', 0);
    lemma_split_step(t2, ',', 1);
    assert(t2.take(find_sep(t2, ',')) =~= x);
    let t3 = t2.skip(find_sep(t2, ',') + 1);
    assert(t3 =~= y2);
    lemma_find_sep_none(y2, ',');
    lemma_split_step(t3, ',', 0);
    assert(t3.take(find_sep(t3, ',')) =~= y2);
    lemma_trim_after_trim_end(y);
}

} // verus!
