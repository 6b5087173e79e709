//! Remote control: messages that arrive as datagrams, the addresses they
//! are matched against, and what a matching message does to the console.
//!
//! A message acts where its address equals a bound address exactly. The
//! master volume takes a single-precision number from 0 to 1.5, or a
//! percentage from 0 to 150 as an integer, a long integer or a
//! double-precision number. The master dimmer takes the same kinds up to
//! 1.0 and 100. An executor's fader takes a single-precision number from
//! 0 to 1.0 and only while the executor has cues. Arguments of another
//! kind or outside their range are passed over; of several that fit, the
//! last one stands.

use crate::executor::{now_millis, Executor};
use crate::ieee::{
    f32_level, f32_times, f32_within, f64_level, f64_times, f64_within, lemma_f32_level_bound,
    lemma_f64_level_bound, F32_ONE, F32_ONE_AND_HALF, F64_HUNDRED, F64_HUNDRED_FIFTY,
};
use crate::search::{first_match, is_first, lemma_first_match_none, lemma_first_match_some};
use crate::text::{
    collect_chars, decimal_digits, decimal_string, number_in, parse_number, split_words, words,
};
use crate::ui::ConsoleState;
use vstd::prelude::*;
use vstd::string::*;

verus! {

/// The addresses that bind remote messages to the console. An executor's
/// address is `executor_identifier`, the executor's number counted from 1,
/// and one of the three endings.
#[derive(Clone, Debug)]
pub struct OSCNaming {
    pub master_volume: String,
    pub master_dmx: String,
    pub executor_identifier: String,
    pub executor_dimmer: String,
    pub executor_go: String,
    pub executor_go_back: String,
}

impl Default for OSCNaming {
    fn default() -> (n: OSCNaming)
        ensures
            n.master_volume@ == "/MasterVolume"@,
            n.master_dmx@ == "/MasterDMX"@,
            n.executor_identifier@ == "/Executor"@,
            n.executor_dimmer@ == "/Dimmer"@,
            n.executor_go@ == "/Go"@,
            n.executor_go_back@ == "/GoBack"@,
    {
        OSCNaming {
            master_volume: String::from_str("/MasterVolume"),
            master_dmx: String::from_str("/MasterDMX"),
            executor_identifier: String::from_str("/Executor"),
            executor_dimmer: String::from_str("/Dimmer"),
            executor_go: String::from_str("/Go"),
            executor_go_back: String::from_str("/GoBack"),
        }
    }
}

/// One argument of a message, as far as the console reads it. Numbers
/// in binary floating point are held as their bit patterns.
#[derive(Clone, Copy, Debug, PartialEq, Eq, Structural)]
pub enum OscArg {
    Int(i32),
    /// The bits of a single-precision number.
    Float(u32),
    Long(i64),
    /// The bits of a double-precision number.
    Double(u64),
    /// An argument of a kind that binds to nothing.
    Other,
}

/// A message: an address and its arguments.
#[derive(Clone, Debug)]
pub struct OscMessage {
    pub addr: String,
    pub args: Vec<OscArg>,
}

/// What a datagram holds: one message, or a bundle, which binds to
/// nothing.
#[derive(Clone, Debug)]
pub enum OscPacket {
    Message(OscMessage),
    Bundle,
}

/// A packet with its address as a sequence of characters.
pub enum OscPacketView {
    Message { addr: Seq<char>, args: Seq<OscArg> },
    Bundle,
}

impl View for OscPacket {
    type V = OscPacketView;

    open spec fn view(&self) -> OscPacketView {
        match self {
            OscPacket::Message(m) => OscPacketView::Message { addr: m.addr@, args: m.args@ },
            OscPacket::Bundle => OscPacketView::Bundle,
        }
    }
}

/// The packet of an optional packet, as a view.
pub open spec fn packet_view(p: Option<OscPacket>) -> Option<OscPacketView> {
    match p {
        Some(p) => Some(p@),
        None => None,
    }
}

/// The largest datagram that is decoded, a common size of the largest
/// packet on a local network.
pub const MAX_DATAGRAM: usize = 1536;

/// What the bytes of a datagram decode to, by `rosc::decoder::decode_udp`:
/// a packet, or nothing where the bytes are no packet.
pub uninterp spec fn decoded_packet(bytes: Seq<u8>) -> Option<OscPacketView>;

/// Decodes a datagram with `rosc::decoder::decode_udp`. The result is the
/// decoder's answer for these bytes, a failure given as `None`, a
/// message with its address and its arguments in order: 32-bit and 64-bit
/// integers as they are, floating-point numbers as their bits, all other
/// kinds as `Other`. Nothing is said of which bytes decode to what.
#[verifier::external_body]
fn decode_datagram(bytes: &[u8]) -> (r: Option<OscPacket>)
    requires
        bytes@.len() <= MAX_DATAGRAM,
    ensures
        packet_view(r) == decoded_packet(bytes@),
{
    match rosc::decoder::decode_udp(bytes) {
        Ok((_, rosc::OscPacket::Message(m))) => Some(OscPacket::Message(OscMessage {
            addr: m.addr,
            args: m.args.iter().map(|a| match a {
                rosc::OscType::Int(x) => OscArg::Int(*x),
                rosc::OscType::Float(x) => OscArg::Float(x.to_bits()),
                rosc::OscType::Long(x) => OscArg::Long(*x),
                rosc::OscType::Double(x) => OscArg::Double(x.to_bits()),
                _ => OscArg::Other,
            }).collect(),
        })),
        Ok((_, rosc::OscPacket::Bundle(_))) => Some(OscPacket::Bundle),
        Err(_) => None,
    }
}

impl OscPacket {
    /// A second packet that reads the same.
    pub fn duplicate(&self) -> (copy: OscPacket)
        ensures
            copy@ == self@,
    {
        match self {
            OscPacket::Message(m) => OscPacket::Message(
                OscMessage { addr: m.addr.clone(), args: m.args.clone() },
            ),
            OscPacket::Bundle => OscPacket::Bundle,
        }
    }
}

/// Why no remote control could be set up.
#[derive(Clone, Debug)]
pub enum Error {
    /// The text is no address of the form `a.b.c.d:port`.
    InvalidIpFormatting,
    /// The address could not be bound; the text says why.
    BindingError(String),
}

impl Error {
    /// What the error reads as.
    pub open spec fn message_text(self) -> Seq<char> {
        match self {
            Error::InvalidIpFormatting => "Invalid IP:Port formatting"@,
            Error::BindingError(why) => "Binding Error: "@ + why@,
        }
    }

    /// The sentence that tells a user of the error.
    pub fn message(&self) -> (m: String)
        ensures
            m@ == self.message_text(),
    {
        match self {
            Error::InvalidIpFormatting => String::from_str("Invalid IP:Port formatting"),
            Error::BindingError(why) => {
                let mut m = String::from_str("Binding Error: ");
                m.append(why.as_str());
                m
            },
        }
    }
}

/// The characters equal to `c`.
pub open spec fn is_char(c: char) -> spec_fn(char) -> bool {
    |x: char| x == c
}

/// The text before the first `c` and the text after it.
pub open spec fn split_once(s: Seq<char>, c: char) -> Option<(Seq<char>, Seq<char>)> {
    match first_match(s, is_char(c)) {
        Some(i) => Some((s.take(i), s.skip(i + 1))),
        None => None,
    }
}

/// The five numbers of an address, read from its five parts.
pub open spec fn five_numbers(
    a: Seq<char>,
    b: Seq<char>,
    c: Seq<char>,
    d: Seq<char>,
    port: Seq<char>,
) -> Option<(u8, u8, u8, u8, u16)> {
    match (
        number_in(a, 255),
        number_in(b, 255),
        number_in(c, 255),
        number_in(d, 255),
        number_in(port, 65535),
    ) {
        (Some(a), Some(b), Some(c), Some(d), Some(port)) => Some(
            (a as u8, b as u8, c as u8, d as u8, port as u16),
        ),
        _ => None,
    }
}

/// The numbers of an address whose first three parts are read: the rest
/// is `d:port`.
pub open spec fn dotted_last(a: Seq<char>, b: Seq<char>, c: Seq<char>, rest: Seq<char>) -> Option<
    (u8, u8, u8, u8, u16),
> {
    match split_once(rest, ':') {
        Some((d, port)) => five_numbers(a, b, c, d, port),
        None => None,
    }
}

/// The numbers of an address whose first two parts are read: the rest is
/// `c.d:port`.
pub open spec fn dotted_third(a: Seq<char>, b: Seq<char>, rest: Seq<char>) -> Option<
    (u8, u8, u8, u8, u16),
> {
    match split_once(rest, '.') {
        Some((c, rest)) => dotted_last(a, b, c, rest),
        None => None,
    }
}

/// The numbers of an address whose first part is read: the rest is
/// `b.c.d:port`.
pub open spec fn dotted_second(a: Seq<char>, rest: Seq<char>) -> Option<(u8, u8, u8, u8, u16)> {
    match split_once(rest, '.') {
        Some((b, rest)) => dotted_third(a, b, rest),
        None => None,
    }
}

/// The five numbers of an address `a.b.c.d:port`.
pub open spec fn dotted(t: Seq<char>) -> Option<(u8, u8, u8, u8, u16)> {
    match split_once(t, '.') {
        Some((a, rest)) => dotted_second(a, rest),
        None => None,
    }
}

/// The endpoint that a text names: one word `a.b.c.d:port`, blanks
/// around it aside.
pub open spec fn endpoint_of(s: Seq<char>) -> Option<(u8, u8, u8, u8, u16)> {
    if words(s).len() == 1 {
        dotted(words(s)[0])
    } else {
        None
    }
}

/// Where the characters `from..to` split at their first `c`.
fn split_span(chars: &Vec<char>, from: usize, to: usize, c: char) -> (r: Option<usize>)
    requires
        from <= to <= chars@.len(),
    ensures
        match r {
            Some(at) => from <= at < to && split_once(
                chars@.subrange(from as int, to as int),
                c,
            ) == Some(
                (chars@.subrange(from as int, at as int), chars@.subrange(at + 1, to as int)),
            ),
            None => split_once(chars@.subrange(from as int, to as int), c) is None,
        },
{
    let ghost s = chars@.subrange(from as int, to as int);
    let mut i: usize = from;
    while i < to
        invariant
            from <= i <= to <= chars@.len(),
            s == chars@.subrange(from as int, to as int),
            forall|j: int| 0 <= j < i - from ==> !is_char(c)(#[trigger] s[j]),
        decreases to - i,
    {
        assert(s[i - from] == chars@[i as int]);
        if chars[i] == c {
            proof {
                assert(is_first(s, is_char(c), i - from));
                lemma_first_match_some(s, is_char(c), i - from);
                assert(s.take(i - from) =~= chars@.subrange(from as int, i as int));
                assert(s.skip(i - from + 1) =~= chars@.subrange(i + 1, to as int));
            }
            return Some(i);
        }
        i = i + 1;
    }
    proof {
        lemma_first_match_none(s, is_char(c));
    }
    None
}

/// A stretch of characters.
struct Span {
    from: usize,
    to: usize,
}

impl Span {
    spec fn of(self, chars: Seq<char>) -> Seq<char> {
        chars.subrange(self.from as int, self.to as int)
    }

    spec fn fits(self, chars: Seq<char>) -> bool {
        self.from <= self.to <= chars.len()
    }
}

fn read_five(chars: &Vec<char>, a: Span, b: Span, c: Span, d: Span, port: Span) -> (r: Option<
    (u8, u8, u8, u8, u16),
>)
    requires
        a.fits(chars@),
        b.fits(chars@),
        c.fits(chars@),
        d.fits(chars@),
        port.fits(chars@),
    ensures
        r == five_numbers(a.of(chars@), b.of(chars@), c.of(chars@), d.of(chars@), port.of(chars@)),
{
    let a = parse_number(chars, a.from, a.to, 255);
    let b = parse_number(chars, b.from, b.to, 255);
    let c = parse_number(chars, c.from, c.to, 255);
    let d = parse_number(chars, d.from, d.to, 255);
    let port = parse_number(chars, port.from, port.to, 65535);
    match (a, b, c, d, port) {
        (Some(a), Some(b), Some(c), Some(d), Some(port)) => Some(
            (a as u8, b as u8, c as u8, d as u8, port as u16),
        ),
        _ => None,
    }
}

fn read_last(chars: &Vec<char>, a: Span, b: Span, c: Span, rest: Span) -> (r: Option<
    (u8, u8, u8, u8, u16),
>)
    requires
        a.fits(chars@),
        b.fits(chars@),
        c.fits(chars@),
        rest.fits(chars@),
    ensures
        r == dotted_last(a.of(chars@), b.of(chars@), c.of(chars@), rest.of(chars@)),
{
    match split_span(chars, rest.from, rest.to, ':') {
        Some(at) => read_five(
            chars,
            a,
            b,
            c,
            Span { from: rest.from, to: at },
            Span { from: at + 1, to: rest.to },
        ),
        None => None,
    }
}

fn read_third(chars: &Vec<char>, a: Span, b: Span, rest: Span) -> (r: Option<
    (u8, u8, u8, u8, u16),
>)
    requires
        a.fits(chars@),
        b.fits(chars@),
        rest.fits(chars@),
    ensures
        r == dotted_third(a.of(chars@), b.of(chars@), rest.of(chars@)),
{
    match split_span(chars, rest.from, rest.to, '.') {
        Some(at) => read_last(
            chars,
            a,
            b,
            Span { from: rest.from, to: at },
            Span { from: at + 1, to: rest.to },
        ),
        None => None,
    }
}

fn read_second(chars: &Vec<char>, a: Span, rest: Span) -> (r: Option<(u8, u8, u8, u8, u16)>)
    requires
        a.fits(chars@),
        rest.fits(chars@),
    ensures
        r == dotted_second(a.of(chars@), rest.of(chars@)),
{
    match split_span(chars, rest.from, rest.to, '.') {
        Some(at) => read_third(
            chars,
            a,
            Span { from: rest.from, to: at },
            Span { from: at + 1, to: rest.to },
        ),
        None => None,
    }
}

fn parse_dotted(chars: &Vec<char>, from: usize, to: usize) -> (r: Option<(u8, u8, u8, u8, u16)>)
    requires
        from <= to <= chars@.len(),
    ensures
        r == dotted(chars@.subrange(from as int, to as int)),
{
    match split_span(chars, from, to, '.') {
        Some(at) => read_second(chars, Span { from, to: at }, Span { from: at + 1, to }),
        None => None,
    }
}

/// The receiving end of the remote control: where it listens and what it
/// heard last.
#[derive(Debug)]
pub struct OSCManager {
    ip: (u8, u8, u8, u8),
    port: u16,
    osc_history: Vec<OscPacket>,
}

/// How many packets the history keeps.
pub const HISTORY_LIMIT: usize = 20;

/// The history after `packet` was heard: the packet at the end, and
/// the oldest gone where that makes more than the limit.
pub open spec fn heard(history: Seq<OscPacketView>, packet: OscPacketView) -> Seq<OscPacketView> {
    if history.len() + 1 > HISTORY_LIMIT {
        history.push(packet).drop_first()
    } else {
        history.push(packet)
    }
}

impl OSCManager {
    /// The address that is listened on: its four numbers and the port.
    pub closed spec fn endpoint(&self) -> (u8, u8, u8, u8, u16) {
        (self.ip.0, self.ip.1, self.ip.2, self.ip.3, self.port)
    }

    /// The address that is listened on.
    pub fn address(&self) -> (r: (u8, u8, u8, u8, u16))
        ensures
            r == self.endpoint(),
    {
        (self.ip.0, self.ip.1, self.ip.2, self.ip.3, self.port)
    }

    /// The packets heard last, oldest first, as views.
    pub closed spec fn history(&self) -> Seq<OscPacketView> {
        Seq::new(self.osc_history@.len(), |i: int| self.osc_history@[i]@)
    }

    /// A receiving end for the address that `address` names, with nothing
    /// heard yet.
    pub fn from(address: &str) -> (r: Result<OSCManager, Error>)
        ensures
            match r {
                Ok(m) => endpoint_of(address@) == Some(m.endpoint())
                    && m.history() == Seq::<OscPacketView>::empty(),
                Err(e) => endpoint_of(address@) is None && e == Error::InvalidIpFormatting,
            },
    {
        let chars = collect_chars(address);
        let spans = split_words(&chars);
        if spans.len() != 1 {
            return Err(Error::InvalidIpFormatting);
        }
        let span = spans[0];
        match parse_dotted(&chars, span.0, span.1) {
            Some((a, b, c, d, port)) => {
                let m = OSCManager { ip: (a, b, c, d), port, osc_history: Vec::new() };
                assert(m.history() =~= Seq::<OscPacketView>::empty());
                Ok(m)
            },
            None => Err(Error::InvalidIpFormatting),
        }
    }

    /// Takes the outcome of binding a socket to the address: the receiving
    /// end stands where that went well, and the failure is told where it
    /// did not.
    pub fn after_binding(self, failure: Option<String>) -> (r: Result<OSCManager, Error>)
        ensures
            match failure {
                None => r == Ok::<OSCManager, Error>(self),
                Some(why) => r == Err::<OSCManager, Error>(Error::BindingError(why)),
            },
    {
        match failure {
            None => Ok(self),
            Some(why) => Err(Error::BindingError(why)),
        }
    }

    /// Takes what was received, if anything was: the packet is handed
    /// back and a copy of it joins the history.
    pub fn get_osc(&mut self, received: Option<OscPacket>) -> (r: Option<OscPacket>)
        ensures
            r == received,
            final(self).endpoint() == old(self).endpoint(),
            match received {
                Some(p) => final(self).history() == heard(old(self).history(), p@),
                None => final(self).history() == old(self).history(),
            },
    {
        match received {
            Some(packet) => {
                self.osc_history.push(packet.duplicate());
                if self.osc_history.len() > HISTORY_LIMIT {
                    self.osc_history.remove(0);
                }
                assert(self.history() =~= heard(old(self).history(), packet@));
                Some(packet)
            },
            None => {
                assert(self.history() =~= old(self).history());
                None
            },
        }
    }

    /// Decodes a datagram and takes the packet it holds. A datagram that
    /// is longer than the limit, or no packet, leaves nothing.
    pub fn receive(&mut self, datagram: &[u8]) -> (r: Option<OscPacket>)
        ensures
            final(self).endpoint() == old(self).endpoint(),
            datagram@.len() > MAX_DATAGRAM ==> r is None && final(self).history() == old(
                self,
            ).history(),
            datagram@.len() <= MAX_DATAGRAM ==> packet_view(r) == decoded_packet(datagram@) && (
            match decoded_packet(datagram@) {
                Some(p) => final(self).history() == heard(old(self).history(), p),
                None => final(self).history() == old(self).history(),
            }),
    {
        if datagram.len() > MAX_DATAGRAM {
            assert(self.history() =~= old(self).history());
            return None;
        }
        let packet = decode_datagram(datagram);
        self.get_osc(packet)
    }

    /// The packets heard last, oldest first.
    pub fn get_osc_history(&self) -> (h: &Vec<OscPacket>)
        ensures
            h@.len() == self.history().len(),
            forall|i: int| 0 <= i < h@.len() ==> (#[trigger] h@[i])@ == self.history()[i],
    {
        &self.osc_history
    }
}

/// Whether `opt` holds a message for the address `addr`.
pub open spec fn addressed_to(opt: Option<OscPacket>, addr: Seq<char>) -> bool {
    match opt {
        Some(OscPacket::Message(m)) => m.addr@ == addr,
        _ => false,
    }
}

/// Whether `opt` holds a message for exactly the address `addr`.
pub fn is_osc_address(opt: &Option<OscPacket>, addr: &str) -> (r: bool)
    ensures
        r == addressed_to(*opt, addr@),
{
    match opt {
        Some(OscPacket::Message(m)) => same_text(m.addr.as_str(), addr),
        _ => false,
    }
}

fn same_text(a: &str, b: &str) -> (r: bool)
    ensures
        r == (a@ == b@),
{
    let x = String::from_str(a);
    let y = String::from_str(b);
    x == y
}

/// The level that an argument sets the master volume to, if it does.
pub open spec fn volume_of(arg: OscArg) -> Option<u32> {
    match arg {
        OscArg::Float(bits) => if f32_within(bits, F32_ONE_AND_HALF) {
            Some(f32_times(bits, 1000) as u32)
        } else {
            None
        },
        OscArg::Double(bits) => if f64_within(bits, F64_HUNDRED_FIFTY) {
            Some(f64_times(bits, 10) as u32)
        } else {
            None
        },
        OscArg::Int(x) => if 0 <= x <= 150 {
            Some((x * 10) as u32)
        } else {
            None
        },
        OscArg::Long(x) => if 0 <= x <= 150 {
            Some((x * 10) as u32)
        } else {
            None
        },
        OscArg::Other => None,
    }
}

/// The level that an argument sets the master dimmer to, if it does.
pub open spec fn dimmer_of(arg: OscArg) -> Option<u32> {
    match arg {
        OscArg::Float(bits) => if f32_within(bits, F32_ONE) {
            Some(f32_times(bits, 1000) as u32)
        } else {
            None
        },
        OscArg::Double(bits) => if f64_within(bits, F64_HUNDRED) {
            Some(f64_times(bits, 10) as u32)
        } else {
            None
        },
        OscArg::Int(x) => if 0 <= x <= 100 {
            Some((x * 10) as u32)
        } else {
            None
        },
        OscArg::Long(x) => if 0 <= x <= 100 {
            Some((x * 10) as u32)
        } else {
            None
        },
        OscArg::Other => None,
    }
}

/// The level that an argument sets an executor's fader to, if it does.
pub open spec fn fader_of(arg: OscArg) -> Option<u32> {
    match arg {
        OscArg::Float(bits) => if f32_within(bits, F32_ONE) {
            Some(f32_times(bits, 1000) as u32)
        } else {
            None
        },
        _ => None,
    }
}

/// What a control is to be read as.
#[derive(Clone, Copy, Debug, PartialEq, Eq, Structural)]
pub enum Control {
    Volume,
    Dimmer,
    Fader,
}

/// The level that `arg` sets the control `control` to, if it does.
pub open spec fn level_of(control: Control, arg: OscArg) -> Option<u32> {
    match control {
        Control::Volume => volume_of(arg),
        Control::Dimmer => dimmer_of(arg),
        Control::Fader => fader_of(arg),
    }
}

/// A control that stood at `start` after the first `count` arguments:
/// the last one that sets it stands.
pub open spec fn settled(control: Control, args: Seq<OscArg>, count: int, start: u32) -> u32
    decreases count,
{
    if count <= 0 {
        start
    } else {
        match level_of(control, args[count - 1]) {
            Some(level) => level,
            None => settled(control, args, count - 1, start),
        }
    }
}

/// The highest level that a control takes: 1.5 for the volume, full for
/// the dimmer and a fader.
pub open spec fn limit_of(control: Control) -> u32 {
    if control == Control::Volume {
        1500
    } else {
        1000
    }
}

/// A control within its limit stays there, whatever the arguments.
pub proof fn lemma_settled_within(control: Control, args: Seq<OscArg>, count: int, start: u32)
    requires
        start <= limit_of(control),
        count <= args.len(),
    ensures
        settled(control, args, count, start) <= limit_of(control),
    decreases count,
{
    if count > 0 {
        lemma_settled_within(control, args, count - 1, start);
        match args[count - 1] {
            OscArg::Float(bits) => {
                if f32_within(bits, F32_ONE_AND_HALF) {
                    lemma_f32_level_bound(bits);
                }
            },
            OscArg::Double(bits) => {
                if f64_within(bits, F64_HUNDRED_FIFTY) {
                    lemma_f64_level_bound(bits);
                }
            },
            _ => {},
        }
    }
}

/// Reads one argument for a control. Levels stay within the control's
/// range: 1500 for the volume, 1000 for the others.
pub fn read_level(control: Control, arg: OscArg) -> (r: Option<u32>)
    ensures
        r == level_of(control, arg),
        r matches Some(level) ==> level <= limit_of(control),
{
    let wide = match control {
        Control::Volume => true,
        _ => false,
    };
    match arg {
        OscArg::Float(bits) => {
            let top = if wide {
                F32_ONE_AND_HALF
            } else {
                F32_ONE
            };
            if bits <= top || bits == 0x8000_0000 {
                proof {
                    lemma_f32_level_bound(bits);
                }
                Some(f32_level(bits, 1000) as u32)
            } else {
                None
            }
        },
        OscArg::Double(bits) => {
            let top = if wide {
                F64_HUNDRED_FIFTY
            } else {
                F64_HUNDRED
            };
            match control {
                Control::Fader => None,
                _ => if bits <= top || bits == 0x8000_0000_0000_0000 {
                    proof {
                        lemma_f64_level_bound(bits);
                    }
                    Some(f64_level(bits, 10) as u32)
                } else {
                    None
                },
            }
        },
        OscArg::Int(x) => {
            let top: i32 = if wide {
                150
            } else {
                100
            };
            match control {
                Control::Fader => None,
                _ => if 0 <= x && x <= top {
                    Some((x * 10) as u32)
                } else {
                    None
                },
            }
        },
        OscArg::Long(x) => {
            let top: i64 = if wide {
                150
            } else {
                100
            };
            match control {
                Control::Fader => None,
                _ => if 0 <= x && x <= top {
                    Some((x * 10) as u32)
                } else {
                    None
                },
            }
        },
        OscArg::Other => None,
    }
}

/// Reads all arguments for a control that stands at `start`.
pub fn settle(control: Control, args: &Vec<OscArg>, start: u32) -> (r: u32)
    ensures
        r == settled(control, args@, args@.len() as int, start),
{
    let mut level = start;
    let mut i: usize = 0;
    while i < args.len()
        invariant
            i <= args@.len(),
            level == settled(control, args@, i as int, start),
        decreases args@.len() - i,
    {
        match read_level(control, args[i]) {
            Some(l) => {
                level = l;
            },
            None => {},
        }
        i = i + 1;
    }
    level
}

/// The arguments that set the control `control` to nothing.
pub open spec fn unread(control: Control) -> spec_fn(OscArg) -> bool {
    |arg: OscArg| level_of(control, arg) is None
}

/// The arguments of a message that a master passes over: those that
/// are of a kind or a size the master does not take, for the volume where
/// the address is the volume's, then for the dimmer where it is the
/// dimmer's.
pub open spec fn passed_over(naming: OSCNaming, addr: Seq<char>, args: Seq<OscArg>) -> Seq<
    (Control, OscArg),
> {
    (if addr == naming.master_volume@ {
        args.filter(unread(Control::Volume)).map_values(|arg: OscArg| (Control::Volume, arg))
    } else {
        Seq::empty()
    }) + (if addr == naming.master_dmx@ {
        args.filter(unread(Control::Dimmer)).map_values(|arg: OscArg| (Control::Dimmer, arg))
    } else {
        Seq::empty()
    })
}

fn unread_for(control: Control, args: &Vec<OscArg>, out: &mut Vec<(Control, OscArg)>)
    ensures
        final(out)@ == old(out)@ + args@.filter(unread(control)).map_values(
            |arg: OscArg| (control, arg),
        ),
{
    let ghost tag = |arg: OscArg| (control, arg);
    let mut i: usize = 0;
    proof {
        reveal(Seq::filter);
        assert(args@.take(0).filter(unread(control)).map_values(tag) =~= Seq::empty());
        assert(old(out)@ + Seq::<(Control, OscArg)>::empty() =~= old(out)@);
    }
    while i < args.len()
        invariant
            i <= args@.len(),
            tag == |arg: OscArg| (control, arg),
            out@ == old(out)@ + args@.take(i as int).filter(unread(control)).map_values(tag),
        decreases args@.len() - i,
    {
        proof {
            reveal(Seq::filter);
            assert(args@.take(i + 1).drop_last() =~= args@.take(i as int));
        }
        match read_level(control, args[i]) {
            Some(_) => {},
            None => {
                out.push((control, args[i]));
                assert(out@ =~= old(out)@ + args@.take(i + 1).filter(unread(control)).map_values(
                    tag,
                ));
            },
        }
        i = i + 1;
    }
    assert(args@.take(i as int) =~= args@);
}

/// The arguments of what was received that the masters pass over, each
/// with the master that passed it over, for the caller to make a note
/// of. Only a message has any.
pub fn ignored_arguments(opt: &Option<OscPacket>, naming: &OSCNaming) -> (r: Vec<(Control, OscArg)>)
    ensures
        r@ == match *opt {
            Some(OscPacket::Message(m)) => passed_over(*naming, m.addr@, m.args@),
            _ => Seq::empty(),
        },
{
    let mut r: Vec<(Control, OscArg)> = Vec::new();
    match opt {
        Some(OscPacket::Message(message)) => {
            if message.addr == naming.master_volume {
                unread_for(Control::Volume, &message.args, &mut r);
            }
            if message.addr == naming.master_dmx {
                unread_for(Control::Dimmer, &message.args, &mut r);
            }
            assert(r@ =~= passed_over(*naming, message.addr@, message.args@));
        },
        _ => {},
    }
    r
}

/// The address of the executor `id` for the ending `ending`.
pub open spec fn executor_address(identifier: Seq<char>, id: u32, ending: Seq<char>) -> Seq<char> {
    identifier + decimal_digits((id + 1) as nat) + ending
}

/// The executors that `addr` names with the ending `ending`.
pub open spec fn named_by(identifier: Seq<char>, ending: Seq<char>, addr: Seq<char>) -> spec_fn(
    Executor,
) -> bool {
    |e: Executor| executor_address(identifier, e.id, ending) == addr
}

/// Where the first executor lies that `addr` names with `ending`.
pub fn find_executor(executors: &Vec<Executor>, identifier: &str, ending: &str, addr: &str) -> (r:
    Option<usize>)
    ensures
        match r {
            Some(i) => i < executors@.len() && first_match(
                executors@,
                named_by(identifier@, ending@, addr@),
            ) == Some(i as int),
            None => first_match(executors@, named_by(identifier@, ending@, addr@)) is None,
        },
{
    let ghost p = named_by(identifier@, ending@, addr@);
    let wanted = String::from_str(addr);
    let mut i: usize = 0;
    while i < executors.len()
        invariant
            i <= executors@.len(),
            wanted@ == addr@,
            p == named_by(identifier@, ending@, addr@),
            forall|j: int| 0 <= j < i ==> !p(#[trigger] executors@[j]),
        decreases executors@.len() - i,
    {
        let mut name = String::from_str(identifier);
        let number = decimal_string(executors[i].id as u64 + 1);
        name.append(number.as_str());
        name.append(ending);
        if name == wanted {
            proof {
                assert(is_first(executors@, p, i as int));
                lemma_first_match_some(executors@, p, i as int);
            }
            return Some(i);
        }
        i = i + 1;
    }
    proof {
        lemma_first_match_none(executors@, p);
    }
    None
}

/// What a message does to the masters: `post` is `pre` with the volume
/// and the dimmer settled from the arguments, each where the address is
/// its own.
pub open spec fn masters_routed(
    pre: ConsoleState,
    addr: Seq<char>,
    args: Seq<OscArg>,
    post: ConsoleState,
) -> bool {
    post == (ConsoleState {
        master_volume: if addr == pre.osc_address_manager.master_volume@ {
            settled(Control::Volume, args, args.len() as int, pre.master_volume)
        } else {
            pre.master_volume
        },
        master_dimmer: if addr == pre.osc_address_manager.master_dmx@ {
            settled(Control::Dimmer, args, args.len() as int, pre.master_dimmer)
        } else {
            pre.master_dimmer
        },
        ..pre
    })
}

/// `post` are the executors `pre` with the one at `i` replaced.
pub open spec fn one_changed(pre: Seq<Executor>, post: Seq<Executor>, i: int) -> bool {
    &&& post.len() == pre.len()
    &&& forall|k: int| 0 <= k < pre.len() && k != i ==> #[trigger] post[k] == pre[k]
}

/// What a message does to the faders: the first executor that the
/// address names for the dimmer ending, if it has cues, gets its fader
/// settled from the arguments.
pub open spec fn fader_routed(
    pre: ConsoleState,
    addr: Seq<char>,
    args: Seq<OscArg>,
    post: ConsoleState,
) -> bool {
    let naming = pre.osc_address_manager;
    match first_match(
        pre.executors@,
        named_by(naming.executor_identifier@, naming.executor_dimmer@, addr),
    ) {
        Some(i) => if pre.executors@[i].cue_list@.len() > 0 {
            &&& post == (ConsoleState { executors: post.executors, ..pre })
            &&& one_changed(pre.executors@, post.executors@, i)
            &&& post.executors@[i] == (Executor {
                fader_level: settled(
                    Control::Fader,
                    args,
                    args.len() as int,
                    pre.executors@[i].fader_level,
                ),
                ..pre.executors@[i]
            })
        } else {
            post == pre
        },
        None => post == pre,
    }
}

/// `post` is `pre` gone on, or back, at the instant `now`.
pub open spec fn advanced(pre: Executor, post: Executor, back: bool, now: u64) -> bool {
    if pre.cue_list@.len() == 0 {
        post == pre
    } else {
        Executor::stepped(
            pre,
            post,
            if back {
                pre.previous_index()
            } else {
                pre.next_index()
            },
            now,
        )
    }
}

/// What a message does to the cue of an executor: the first executor
/// that the address names for the go ending, or the go-back ending, goes
/// on, or back, at the instant `now`.
pub open spec fn step_routed(
    pre: ConsoleState,
    addr: Seq<char>,
    back: bool,
    now: u64,
    post: ConsoleState,
) -> bool {
    let naming = pre.osc_address_manager;
    match first_match(
        pre.executors@,
        named_by(
            naming.executor_identifier@,
            if back {
                naming.executor_go_back@
            } else {
                naming.executor_go@
            },
            addr,
        ),
    ) {
        Some(i) => {
            &&& post == (ConsoleState { executors: post.executors, ..pre })
            &&& one_changed(pre.executors@, post.executors@, i)
            &&& advanced(pre.executors@[i], post.executors@[i], back, now)
        },
        None => post == pre,
    }
}

/// The four steps of a message, one after the other: masters, fader,
/// go, go back.
pub open spec fn routed_through(
    pre: ConsoleState,
    first: ConsoleState,
    second: ConsoleState,
    third: ConsoleState,
    post: ConsoleState,
    addr: Seq<char>,
    args: Seq<OscArg>,
    now: u64,
) -> bool {
    &&& masters_routed(pre, addr, args, first)
    &&& fader_routed(first, addr, args, second)
    &&& step_routed(second, addr, false, now, third)
    &&& step_routed(third, addr, true, now, post)
}

/// What a packet does to the console at the instant `now`. Only a
/// message does anything, and it does what its four steps do.
pub open spec fn routed(pre: ConsoleState, opt: Option<OscPacket>, now: u64, post: ConsoleState) -> bool {
    match opt {
        Some(OscPacket::Message(m)) => exists|
            first: ConsoleState,
            second: ConsoleState,
            third: ConsoleState,
        | #[trigger]
            routed_through(pre, first, second, third, post, m.addr@, m.args@, now),
        _ => post == pre,
    }
}

/// Sets the masters from a message.
pub fn route_masters(state: &mut ConsoleState, message: &OscMessage)
    ensures
        masters_routed(*old(state), message.addr@, message.args@, *final(state)),
{
    if message.addr == state.osc_address_manager.master_volume {
        state.master_volume = settle(Control::Volume, &message.args, state.master_volume);
    }
    if message.addr == state.osc_address_manager.master_dmx {
        state.master_dimmer = settle(Control::Dimmer, &message.args, state.master_dimmer);
    }
}

/// Sets an executor's fader from a message.
pub fn route_fader(state: &mut ConsoleState, message: &OscMessage)
    ensures
        fader_routed(*old(state), message.addr@, message.args@, *final(state)),
{
    let found = find_executor(
        &state.executors,
        state.osc_address_manager.executor_identifier.as_str(),
        state.osc_address_manager.executor_dimmer.as_str(),
        message.addr.as_str(),
    );
    match found {
        Some(i) => {
            if state.executors[i].cue_list.len() > 0 {
                let level = settle(Control::Fader, &message.args, state.executors[i].fader_level);
                state.executors[i].fader_level = level;
            }
        },
        None => {},
    }
}

/// Steps an executor's cue from a message at the instant `now`.
pub fn route_step(state: &mut ConsoleState, message: &OscMessage, back: bool, now: u64)
    ensures
        step_routed(*old(state), message.addr@, back, now, *final(state)),
{
    let found = if back {
        find_executor(
            &state.executors,
            state.osc_address_manager.executor_identifier.as_str(),
            state.osc_address_manager.executor_go_back.as_str(),
            message.addr.as_str(),
        )
    } else {
        find_executor(
            &state.executors,
            state.osc_address_manager.executor_identifier.as_str(),
            state.osc_address_manager.executor_go.as_str(),
            message.addr.as_str(),
        )
    };
    match found {
        Some(i) => {
            if back {
                state.executors[i].go_back_at(now);
            } else {
                state.executors[i].go_at(now);
            }
        },
        None => {},
    }
}

/// Routes what was received at the instant `now`.
pub fn handle_osc_at(opt: Option<OscPacket>, state: &mut ConsoleState, now: u64)
    ensures
        routed(*old(state), opt, now, *final(state)),
{
    match &opt {
        Some(OscPacket::Message(message)) => {
            route_masters(state, message);
            let ghost first = *state;
            route_fader(state, message);
            let ghost second = *state;
            route_step(state, message, false, now);
            let ghost third = *state;
            route_step(state, message, true, now);
            assert(routed_through(
                *old(state),
                first,
                second,
                third,
                *state,
                message.addr@,
                message.args@,
                now,
            ));
        },
        _ => {},
    }
}

/// Routes what was received now: the console is as `handle_osc_at` leaves
/// it for the instant that the clock gave, which is returned.
pub fn handle_osc(opt: Option<OscPacket>, state: &mut ConsoleState) -> (now: u64)
    ensures
        routed(*old(state), opt, now, *final(state)),
{
    let now = now_millis();
    handle_osc_at(opt, state, now);
    now
}

} // verus!
