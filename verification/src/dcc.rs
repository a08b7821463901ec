//! Transfer offers: the text that announces a file inside a private message,
//! how it is read, and how the answer to a passive offer is written.
//!
//! An offer is one control character, the word `SEND` (the protocol word `DCC`
//! may stand before it; letters of either case), the file's name, the sender's
//! address as one decimal number, the port, then optionally the file's size and
//! a transfer id, anything else, and the control character again:
//!
//! ```text
//! \x01DCC SEND <name> <address> <port>[ <size>][ <id>]...\x01
//! ```

use crate::text::{
    all_digits, chars_of, decimal_digits, decimal_value, digits_end, is_digit, is_space,
    lemma_decimal_digits, lemma_digits_end, lemma_digits_end_is, lemma_word_end,
    lemma_word_end_is, parse_decimal, push_decimal, scan_digits, scan_word, word_end,
};
use vstd::prelude::*;
use vstd::string::StrSliceExecFns;
use vstd::string::StringExecFns;

verus! {

/// The control character that brackets an offer.
pub const SOH: char = '\u{1}';

/// An IPv4 address, held as the 32-bit number that offers carry.
#[derive(Clone, Copy, Debug, PartialEq, Eq, Structural)]
pub struct Ipv4 {
    pub bits: u32,
}

/// An IPv4 address and a port. Port zero asks the receiver to listen.
#[derive(Clone, Copy, Debug, PartialEq, Eq, Structural)]
pub struct PeerAddress {
    pub ip: Ipv4,
    pub port: u16,
}

/// What the transfer of a file has moved so far.
#[derive(Clone, Copy, Debug, PartialEq, Eq, Structural)]
pub struct DownloadProgress {
    pub transferred_bytes: usize,
}

/// A parsed offer.
#[derive(Clone, Debug)]
pub struct DccSend {
    pub file_name: String,
    pub address: PeerAddress,
    pub file_size: Option<usize>,
    pub id: Option<usize>,
}

/// An offer as plain values.
pub struct OfferView {
    pub file_name: Seq<char>,
    pub ip: u32,
    pub port: u16,
    pub file_size: Option<usize>,
    pub id: Option<usize>,
}

/// Where the parts of an offer stand in a text. Each part is the half-open
/// range from its start to its end; `rest` is where the parts end.
pub struct OfferSpans {
    pub name: (int, int),
    pub address: (int, int),
    pub port: (int, int),
    pub size: Option<(int, int)>,
    pub id: Option<(int, int)>,
    pub rest: int,
}

/// The four bytes of an address, the most significant first.
pub open spec fn octets_of(bits: u32) -> Seq<u8> {
    seq![
        (bits / 0x100_0000) as u8,
        (bits / 0x1_0000 % 0x100) as u8,
        (bits / 0x100 % 0x100) as u8,
        (bits % 0x100) as u8,
    ]
}

/// The address that four bytes write, the most significant first.
pub open spec fn bits_of(octets: Seq<u8>) -> int {
    octets[0] * 0x100_0000 + octets[1] * 0x1_0000 + octets[2] * 0x100 + octets[3]
}

/// The eight bytes of a number, the most significant first.
pub open spec fn be_bytes(n: u64) -> Seq<u8> {
    seq![
        (n / 0x100_0000_0000_0000) as u8,
        (n / 0x1_0000_0000_0000 % 0x100) as u8,
        (n / 0x100_0000_0000 % 0x100) as u8,
        (n / 0x1_0000_0000 % 0x100) as u8,
        (n / 0x100_0000 % 0x100) as u8,
        (n / 0x1_0000 % 0x100) as u8,
        (n / 0x100 % 0x100) as u8,
        (n % 0x100) as u8,
    ]
}

/// `c` is the upper-case letter `upper` or its lower-case form.
pub open spec fn letter(c: char, upper: char) -> bool {
    c == upper || c as u32 == upper as u32 + 0x20
}

/// `DCC` and a space stand at `at`.
pub open spec fn dcc_at(s: Seq<char>, at: int) -> bool {
    &&& 0 <= at
    &&& at + 4 <= s.len()
    &&& letter(s[at], 'D')
    &&& letter(s[at + 1], 'C')
    &&& letter(s[at + 2], 'C')
    &&& s[at + 3] == ' '
}

/// `SEND` and a space stand at `at`.
pub open spec fn send_at(s: Seq<char>, at: int) -> bool {
    &&& 0 <= at
    &&& at + 5 <= s.len()
    &&& letter(s[at], 'S')
    &&& letter(s[at + 1], 'E')
    &&& letter(s[at + 2], 'N')
    &&& letter(s[at + 3], 'D')
    &&& s[at + 4] == ' '
}

/// Where the file name starts, if the control character and the marker stand
/// at `at`.
pub open spec fn marker_end(s: Seq<char>, at: int) -> Option<int> {
    if 0 <= at < s.len() && s[at] == SOH {
        if dcc_at(s, at + 1) && send_at(s, at + 5) {
            Some(at + 10)
        } else if send_at(s, at + 1) {
            Some(at + 6)
        } else {
            None
        }
    } else {
        None
    }
}

/// The closing control character stands at `end`, and no line break between
/// `from` and it.
pub open spec fn closed_at(s: Seq<char>, from: int, end: int) -> bool {
    &&& from <= end < s.len()
    &&& s[end] == SOH
    &&& forall|k: int| from <= k < end ==> #[trigger] s[k] != '\n'
}

/// The text from `from` on reaches a closing control character before any
/// line break.
pub open spec fn closes(s: Seq<char>, from: int) -> bool {
    exists|end: int| closed_at(s, from, end)
}

/// The parts of the offer that starts at `at`, if one does: marker, name,
/// address and port, each followed by one space but the port, then the size
/// and the id where a space and digits follow, and the closing character.
pub open spec fn spans_at(s: Seq<char>, at: int) -> Option<OfferSpans> {
    match marker_end(s, at) {
        None => None,
        Some(name) => {
            let name_end = word_end(s, name);
            let address_end = digits_end(s, name_end + 1);
            let port_end = digits_end(s, address_end + 1);
            let size_end = digits_end(s, port_end + 1);
            let has_size = port_end < s.len() && s[port_end] == ' ' && port_end + 1 < size_end;
            let id_end = digits_end(s, size_end + 1);
            let has_id = has_size && size_end < s.len() && s[size_end] == ' ' && size_end + 1
                < id_end;
            let rest = if has_id {
                id_end
            } else if has_size {
                size_end
            } else {
                port_end
            };
            let has_name = name < name_end < s.len() && s[name_end] == ' ';
            let has_address = name_end + 1 < address_end < s.len() && s[address_end] == ' ';
            let has_port = address_end + 1 < port_end;
            if has_name && has_address && has_port && closes(s, rest) {
                Some(
                    OfferSpans {
                        name: (name, name_end),
                        address: (name_end + 1, address_end),
                        port: (address_end + 1, port_end),
                        size: if has_size {
                            Some((port_end + 1, size_end))
                        } else {
                            None
                        },
                        id: if has_id {
                            Some((size_end + 1, id_end))
                        } else {
                            None
                        },
                        rest,
                    },
                )
            } else {
                None
            }
        },
    }
}

/// The number that an optional part writes, if the part is there and the
/// number fits.
pub open spec fn optional_number(s: Seq<char>, span: Option<(int, int)>) -> Option<usize> {
    match span {
        Some((from, to)) => if decimal_value(s.subrange(from, to)) <= usize::MAX {
            Some(decimal_value(s.subrange(from, to)) as usize)
        } else {
            None
        },
        None => None,
    }
}

/// The offer that the parts write: none if the address does not fit into 32
/// bits or the port into 16; a size or an id that does not fit counts as left
/// out.
pub open spec fn decode(s: Seq<char>, spans: OfferSpans) -> Option<OfferView> {
    let address = decimal_value(s.subrange(spans.address.0, spans.address.1));
    let port = decimal_value(s.subrange(spans.port.0, spans.port.1));
    if address <= u32::MAX && port <= u16::MAX {
        Some(
            OfferView {
                file_name: s.subrange(spans.name.0, spans.name.1),
                ip: address as u32,
                port: port as u16,
                file_size: optional_number(s, spans.size),
                id: optional_number(s, spans.id),
            },
        )
    } else {
        None
    }
}

/// An offer starts at `at` and none before it.
pub open spec fn is_first_offer(s: Seq<char>, at: int) -> bool {
    &&& spans_at(s, at) is Some
    &&& forall|before: int| 0 <= before < at ==> spans_at(s, before) is None
}

/// Where the first offer of a text stands.
pub open spec fn first_offer(s: Seq<char>) -> Option<OfferSpans> {
    if exists|at: int| is_first_offer(s, at) {
        spans_at(s, choose|at: int| is_first_offer(s, at))
    } else {
        None
    }
}

/// What a message offers: the first offer in it, decoded.
pub open spec fn parse_offer(s: Seq<char>) -> Option<OfferView> {
    match first_offer(s) {
        Some(spans) => decode(s, spans),
        None => None,
    }
}

/// The texts of the parts of the first offer, in order: name, address, port,
/// then the size and the id where they are there.
pub open spec fn captured(s: Seq<char>) -> Option<Seq<Seq<char>>> {
    match first_offer(s) {
        Some(spans) => {
            let required = seq![
                s.subrange(spans.name.0, spans.name.1),
                s.subrange(spans.address.0, spans.address.1),
                s.subrange(spans.port.0, spans.port.1),
            ];
            let with_size = match spans.size {
                Some((from, to)) => required.push(s.subrange(from, to)),
                None => required,
            };
            Some(
                match spans.id {
                    Some((from, to)) => with_size.push(s.subrange(from, to)),
                    None => with_size,
                },
            )
        },
        None => None,
    }
}

/// A number as the text of an answer holds it: its digits, or nothing.
pub open spec fn optional_digits(n: Option<usize>) -> Seq<char> {
    match n {
        Some(n) => decimal_digits(n as nat),
        None => Seq::empty(),
    }
}

/// The answer to a passive offer: the offer's own text with the receiver's
/// address and port in place of the sender's, and the size and id as offered.
pub open spec fn reply_text(offer: OfferView, ip: u32, port: u16) -> Seq<char> {
    seq![SOH, 'D', 'C', 'C', ' ', 'S', 'E', 'N', 'D', ' '] + offer.file_name + seq![' ']
        + decimal_digits(ip as nat) + seq![' '] + decimal_digits(port as nat) + seq![' ']
        + optional_digits(offer.file_size) + seq![' '] + optional_digits(offer.id) + seq![SOH]
}

impl Ipv4 {
    pub fn new(bits: u32) -> (ip: Ipv4)
        ensures
            ip.bits == bits,
    {
        Ipv4 { bits }
    }

    /// The address that four bytes write, the most significant first.
    pub fn from_octets(octets: [u8; 4]) -> (ip: Ipv4)
        ensures
            ip.bits == bits_of(octets@),
            octets_of(ip.bits) == octets@,
    {
        let a: u32 = octets[0] as u32;
        let b: u32 = octets[1] as u32;
        let c: u32 = octets[2] as u32;
        let d: u32 = octets[3] as u32;
        let bits: u32 = a * 0x100_0000 + b * 0x1_0000 + c * 0x100 + d;
        assert(bits / 0x100_0000 == a && bits / 0x1_0000 % 0x100 == b && bits / 0x100 % 0x100 == c
            && bits % 0x100 == d) by (bit_vector)
            requires
                a < 0x100 && b < 0x100 && c < 0x100 && d < 0x100,
                bits == a * 0x100_0000 + b * 0x1_0000 + c * 0x100 + d,
        ;
        assert(octets_of(bits) =~= octets@);
        Ipv4 { bits }
    }

    /// The four bytes of the address, the most significant first.
    pub fn octets(&self) -> (octets: [u8; 4])
        ensures
            octets@ == octets_of(self.bits),
            bits_of(octets@) == self.bits,
    {
        let octets = [
            (self.bits / 0x100_0000) as u8,
            (self.bits / 0x1_0000 % 0x100) as u8,
            (self.bits / 0x100 % 0x100) as u8,
            (self.bits % 0x100) as u8,
        ];
        assert(octets@ =~= octets_of(self.bits));
        octets
    }
}

impl PeerAddress {
    pub fn new(ip: Ipv4, port: u16) -> (address: PeerAddress)
        ensures
            address.ip == ip,
            address.port == port,
    {
        PeerAddress { ip, port }
    }

    pub fn ip(&self) -> (ip: Ipv4)
        ensures
            ip == self.ip,
    {
        self.ip
    }

    pub fn port(&self) -> (port: u16)
        ensures
            port == self.port,
    {
        self.port
    }
}

impl View for DccSend {
    type V = OfferView;

    open spec fn view(&self) -> OfferView {
        OfferView {
            file_name: self.file_name@,
            ip: self.address.ip.bits,
            port: self.address.port,
            file_size: self.file_size,
            id: self.id,
        }
    }
}

/// The eight bytes that tell the sender how much of the file the receiver
/// holds already, the most significant first.
pub fn resume_ack(held: u64) -> (ack: [u8; 8])
    ensures
        ack@ == be_bytes(held),
{
    let ack = [
        (held / 0x100_0000_0000_0000) as u8,
        (held / 0x1_0000_0000_0000 % 0x100) as u8,
        (held / 0x100_0000_0000 % 0x100) as u8,
        (held / 0x1_0000_0000 % 0x100) as u8,
        (held / 0x100_0000 % 0x100) as u8,
        (held / 0x1_0000 % 0x100) as u8,
        (held / 0x100 % 0x100) as u8,
        (held % 0x100) as u8,
    ];
    assert(ack@ =~= be_bytes(held));
    ack
}

/// The parts lie inside the text, and each number is made of digits, at
/// least one.
pub open spec fn spans_fit(s: Seq<char>, spans: OfferSpans) -> bool {
    &&& 0 <= spans.name.0 <= spans.name.1 <= s.len()
    &&& number_fits(s, spans.address)
    &&& number_fits(s, spans.port)
    &&& spans.size matches Some(span) ==> number_fits(s, span)
    &&& spans.id matches Some(span) ==> number_fits(s, span)
}

/// Digits stand between the two positions, at least one and nothing else.
pub open spec fn number_fits(s: Seq<char>, span: (int, int)) -> bool {
    0 <= span.0 < span.1 <= s.len() && all_digits(s.subrange(span.0, span.1))
}

/// The parts of an offer as positions in a text.
struct Found {
    name: (usize, usize),
    address: (usize, usize),
    port: (usize, usize),
    size: Option<(usize, usize)>,
    id: Option<(usize, usize)>,
    rest: usize,
}

spec fn span_of(span: (usize, usize)) -> (int, int) {
    (span.0 as int, span.1 as int)
}

spec fn optional_span_of(span: Option<(usize, usize)>) -> Option<(int, int)> {
    match span {
        Some(span) => Some(span_of(span)),
        None => None,
    }
}

impl Found {
    spec fn spans(self) -> OfferSpans {
        OfferSpans {
            name: span_of(self.name),
            address: span_of(self.address),
            port: span_of(self.port),
            size: optional_span_of(self.size),
            id: optional_span_of(self.id),
            rest: self.rest as int,
        }
    }
}

fn is_letter(c: char, upper: char) -> (yes: bool)
    ensures
        yes == letter(c, upper),
{
    c == upper || c as u32 == upper as u32 + 0x20
}

fn has_dcc(text: &Vec<char>, at: usize) -> (yes: bool)
    requires
        at <= text.len(),
    ensures
        yes == dcc_at(text@, at as int),
{
    text.len() - at >= 4 && is_letter(text[at], 'D') && is_letter(text[at + 1], 'C') && is_letter(
        text[at + 2],
        'C',
    ) && text[at + 3] == ' '
}

fn has_send(text: &Vec<char>, at: usize) -> (yes: bool)
    requires
        at <= text.len(),
    ensures
        yes == send_at(text@, at as int),
{
    text.len() - at >= 5 && is_letter(text[at], 'S') && is_letter(text[at + 1], 'E') && is_letter(
        text[at + 2],
        'N',
    ) && is_letter(text[at + 3], 'D') && text[at + 4] == ' '
}

fn marker(text: &Vec<char>, at: usize) -> (name: Option<usize>)
    requires
        at < text.len(),
    ensures
        match name {
            Some(name) => marker_end(text@, at as int) == Some(name as int) && name <= text.len(),
            None => marker_end(text@, at as int) is None,
        },
{
    if text[at] != SOH {
        return None;
    }
    if has_dcc(text, at + 1) && has_send(text, at + 5) {
        Some(at + 10)
    } else if has_send(text, at + 1) {
        Some(at + 6)
    } else {
        None
    }
}

fn reaches_close(text: &Vec<char>, from: usize) -> (yes: bool)
    requires
        from <= text.len(),
    ensures
        yes == closes(text@, from as int),
{
    let mut at = from;
    while at < text.len()
        invariant
            from <= at <= text.len(),
            forall|k: int| from <= k < at ==> #[trigger] text@[k] != '\n' && text@[k] != SOH,
        decreases text.len() - at,
    {
        if text[at] == SOH {
            assert(closed_at(text@, from as int, at as int));
            return true;
        }
        if text[at] == '\n' {
            assert forall|end: int| !closed_at(text@, from as int, end) by {
                if closed_at(text@, from as int, end) {
                    if end > at {
                        assert(text@[at as int] != '\n');
                    } else if end < at {
                        assert(text@[end] != SOH);
                    }
                }
            }
            return false;
        }
        at += 1;
    }
    assert forall|end: int| !closed_at(text@, from as int, end) by {
        if closed_at(text@, from as int, end) {
            assert(text@[end] != SOH);
        }
    }
    false
}

/// What `spans_at` finds lies inside the text, with digits where numbers stand.
pub proof fn lemma_spans_fit(s: Seq<char>, at: int)
    requires
        spans_at(s, at) is Some,
    ensures
        spans_fit(s, spans_at(s, at)->0),
        0 <= at < s.len(),
{
    let name = marker_end(s, at)->0;
    lemma_word_end(s, name);
    let name_end = word_end(s, name);
    lemma_digits_end(s, name_end + 1);
    let address_end = digits_end(s, name_end + 1);
    lemma_digits_end(s, address_end + 1);
    let port_end = digits_end(s, address_end + 1);
    if port_end < s.len() {
        lemma_digits_end(s, port_end + 1);
        let size_end = digits_end(s, port_end + 1);
        if size_end < s.len() {
            lemma_digits_end(s, size_end + 1);
        }
    }
}

fn match_at(text: &Vec<char>, at: usize) -> (found: Option<Found>)
    requires
        at < text.len(),
    ensures
        match found {
            Some(found) => spans_at(text@, at as int) == Some(found.spans()) && spans_fit(
                text@,
                found.spans(),
            ),
            None => spans_at(text@, at as int) is None,
        },
{
    let name = match marker(text, at) {
        Some(name) => name,
        None => {
            return None;
        },
    };
    let name_end = scan_word(text, name);
    if !(name < name_end && name_end < text.len() && text[name_end] == ' ') {
        return None;
    }
    let address_end = scan_digits(text, name_end + 1);
    if !(name_end + 1 < address_end && address_end < text.len() && text[address_end] == ' ') {
        return None;
    }
    let port_end = scan_digits(text, address_end + 1);
    if !(address_end + 1 < port_end) {
        return None;
    }
    let mut size: Option<(usize, usize)> = None;
    let mut id: Option<(usize, usize)> = None;
    let mut rest = port_end;
    if port_end < text.len() && text[port_end] == ' ' {
        let size_end = scan_digits(text, port_end + 1);
        if port_end + 1 < size_end {
            size = Some((port_end + 1, size_end));
            rest = size_end;
            if size_end < text.len() && text[size_end] == ' ' {
                let id_end = scan_digits(text, size_end + 1);
                if size_end + 1 < id_end {
                    id = Some((size_end + 1, id_end));
                    rest = id_end;
                }
            }
        }
    }
    if !reaches_close(text, rest) {
        return None;
    }
    let found = Found {
        name: (name, name_end),
        address: (name_end + 1, address_end),
        port: (address_end + 1, port_end),
        size,
        id,
        rest,
    };
    proof {
        assert(spans_at(text@, at as int) == Some(found.spans()));
        lemma_spans_fit(text@, at as int);
    }
    Some(found)
}

/// An offer that starts with none before it is the first.
pub proof fn lemma_first_offer(s: Seq<char>, at: int)
    requires
        is_first_offer(s, at),
    ensures
        first_offer(s) == spans_at(s, at),
{
    let chosen = choose|c: int| is_first_offer(s, c);
    lemma_spans_fit(s, at);
    lemma_spans_fit(s, chosen);
    if chosen < at {
        assert(spans_at(s, chosen) is None);
    }
    if at < chosen {
        assert(spans_at(s, at) is None);
    }
}

fn find_offer(text: &Vec<char>) -> (found: Option<Found>)
    ensures
        match found {
            Some(found) => first_offer(text@) == Some(found.spans()) && spans_fit(
                text@,
                found.spans(),
            ),
            None => first_offer(text@) is None,
        },
{
    let mut at: usize = 0;
    while at < text.len()
        invariant
            at <= text.len(),
            forall|before: int| 0 <= before < at ==> spans_at(text@, before) is None,
        decreases text.len() - at,
    {
        let found = match_at(text, at);
        if found.is_some() {
            proof {
                assert(is_first_offer(text@, at as int));
                lemma_first_offer(text@, at as int);
            }
            return found;
        }
        at += 1;
    }
    proof {
        assert forall|c: int| !is_first_offer(text@, c) by {
            if spans_at(text@, c) is Some {
                lemma_spans_fit(text@, c);
            }
        }
    }
    None
}

/// The number between two positions, if it fits into a `usize`.
fn number_at(text: &Vec<char>, span: (usize, usize)) -> (n: Option<usize>)
    requires
        number_fits(text@, span_of(span)),
    ensures
        n == optional_number(text@, Some(span_of(span))),
{
    match parse_decimal(text, span.0, span.1) {
        Some(n) => if n <= usize::MAX as u64 {
            Some(n as usize)
        } else {
            None
        },
        None => None,
    }
}

impl DccSend {
    /// Reads the first offer that `message` holds.
    ///
    /// There is an offer exactly where `parse_offer` finds one: the first place
    /// where the marker, a name, an address and a port stand and the closing
    /// character follows on the same line, with an address that fits into 32
    /// bits and a port that fits into 16.
    pub fn from_str(message: &str) -> (offer: Option<DccSend>)
        ensures
            match offer {
                Some(offer) => parse_offer(message@) == Some(offer@),
                None => parse_offer(message@) is None,
            },
    {
        let text = chars_of(message);
        let found = match find_offer(&text) {
            Some(found) => found,
            None => {
                return None;
            },
        };
        let address = match parse_decimal(&text, found.address.0, found.address.1) {
            Some(n) => n,
            None => {
                return None;
            },
        };
        let port = match parse_decimal(&text, found.port.0, found.port.1) {
            Some(n) => n,
            None => {
                return None;
            },
        };
        if address > u32::MAX as u64 || port > u16::MAX as u64 {
            return None;
        }
        let file_size = match found.size {
            Some(span) => number_at(&text, span),
            None => None,
        };
        let id = match found.id {
            Some(span) => number_at(&text, span),
            None => None,
        };
        let file_name = message.substring_char(found.name.0, found.name.1).to_owned();
        Some(
            DccSend {
                file_name,
                address: PeerAddress { ip: Ipv4 { bits: address as u32 }, port: port as u16 },
                file_size,
                id,
            },
        )
    }

    /// The texts of the parts of the first offer in `message`, in order: name,
    /// address, port, then the size and the id where they are there.
    pub fn captures(message: &str) -> (parts: Option<Vec<String>>)
        ensures
            match parts {
                Some(parts) => captured(message@) == Some(
                    Seq::new(parts@.len(), |i: int| parts@[i]@),
                ),
                None => captured(message@) is None,
            },
    {
        let text = chars_of(message);
        let found = match find_offer(&text) {
            Some(found) => found,
            None => {
                return None;
            },
        };
        let mut parts: Vec<String> = Vec::new();
        parts.push(message.substring_char(found.name.0, found.name.1).to_owned());
        parts.push(message.substring_char(found.address.0, found.address.1).to_owned());
        parts.push(message.substring_char(found.port.0, found.port.1).to_owned());
        if let Some(span) = found.size {
            parts.push(message.substring_char(span.0, span.1).to_owned());
        }
        if let Some(span) = found.id {
            parts.push(message.substring_char(span.0, span.1).to_owned());
        }
        assert(captured(message@)->0 =~= Seq::new(parts@.len(), |i: int| parts@[i]@));
        Some(parts)
    }

    /// The sender asks the receiver to listen: the offer's port is zero.
    pub fn is_passive(&self) -> (passive: bool)
        ensures
            passive == (self@.port == 0),
    {
        self.address.port == 0
    }

    /// The answer to a passive offer, for a receiver that listens at `ip` and
    /// `port`.
    pub fn reply(&self, ip: Ipv4, port: u16) -> (message: String)
        ensures
            message@ == reply_text(self@, ip.bits, port),
    {
        proof {
            reveal_strlit("\u{1}DCC SEND ");
            reveal_strlit(" ");
            reveal_strlit("\u{1}");
        }
        let mut message = String::new();
        message.append("\u{1}DCC SEND ");
        message.append(self.file_name.as_str());
        message.append(" ");
        push_decimal(&mut message, ip.bits as u64);
        message.append(" ");
        push_decimal(&mut message, port as u64);
        message.append(" ");
        if let Some(size) = self.file_size {
            push_decimal(&mut message, size as u64);
        }
        message.append(" ");
        if let Some(id) = self.id {
            push_decimal(&mut message, id as u64);
        }
        message.append("\u{1}");
        assert(message@ =~= reply_text(self@, ip.bits, port));
        message
    }
}


/// A name that an offer can carry: not empty and without white space.
pub open spec fn is_file_name(name: Seq<char>) -> bool {
    name.len() > 0 && forall|i: int| 0 <= i < name.len() ==> !is_space(#[trigger] name[i])
}

/// An offer is read only where a name, an address and a port stand: each is
/// there and not empty, the name holds no white space, address and port are
/// digits, one space parts them, and the offer read holds what they write.
pub proof fn lemma_offer_has_name_address_port(s: Seq<char>)
    requires
        parse_offer(s) is Some,
    ensures
        first_offer(s) is Some,
        ({
            let spans = first_offer(s)->0;
            let offer = parse_offer(s)->0;
            &&& spans_fit(s, spans)
            &&& offer.file_name == s.subrange(spans.name.0, spans.name.1)
            &&& is_file_name(offer.file_name)
            &&& s[spans.name.1] == ' '
            &&& spans.address.0 == spans.name.1 + 1
            &&& spans.address.0 < spans.address.1
            &&& offer.ip == decimal_value(s.subrange(spans.address.0, spans.address.1))
            &&& s[spans.address.1] == ' '
            &&& spans.port.0 == spans.address.1 + 1
            &&& spans.port.0 < spans.port.1
            &&& offer.port == decimal_value(s.subrange(spans.port.0, spans.port.1))
            &&& offer.file_size == optional_number(s, spans.size)
            &&& offer.id == optional_number(s, spans.id)
        }),
{
    let at = choose|at: int| is_first_offer(s, at);
    lemma_spans_fit(s, at);
    let spans = first_offer(s)->0;
    lemma_word_end(s, spans.name.0);
}

/// A text without the control character holds no offer.
pub proof fn lemma_no_offer_without_marker(s: Seq<char>)
    requires
        forall|i: int| 0 <= i < s.len() ==> #[trigger] s[i] != SOH,
    ensures
        parse_offer(s) is None,
{
    assert forall|at: int| !is_first_offer(s, at) by {
        if spans_at(s, at) is Some {
            lemma_spans_fit(s, at);
        }
    }
}

/// The text `s` is made of the marker, a name, an address, a port, a size
/// and an id, with one space between them and the control character at the
/// end; where the size or the id is left out, nothing stands in its place.
spec fn laid_out(
    s: Seq<char>,
    name: Seq<char>,
    address: Seq<char>,
    port: Seq<char>,
    size: Seq<char>,
    id: Seq<char>,
) -> bool {
    let name_start = 10int;
    let name_end = name_start + name.len();
    let address_end = name_end + 1 + address.len();
    let port_end = address_end + 1 + port.len();
    let size_end = port_end + 1 + size.len();
    let id_end = size_end + 1 + id.len();
    &&& s.len() == id_end + 1
    &&& s[0] == SOH
    &&& s[1] == 'D'
    &&& s[2] == 'C'
    &&& s[3] == 'C'
    &&& s[4] == ' '
    &&& s[5] == 'S'
    &&& s[6] == 'E'
    &&& s[7] == 'N'
    &&& s[8] == 'D'
    &&& s[9] == ' '
    &&& s.subrange(name_start, name_end) == name
    &&& s[name_end] == ' '
    &&& s.subrange(name_end + 1, address_end) == address
    &&& s[address_end] == ' '
    &&& s.subrange(address_end + 1, port_end) == port
    &&& s[port_end] == ' '
    &&& s.subrange(port_end + 1, size_end) == size
    &&& s[size_end] == ' '
    &&& s.subrange(size_end + 1, id_end) == id
    &&& s[id_end] == SOH
}

proof fn lemma_reply_is_laid_out(offer: OfferView, ip: u32, port: u16)
    ensures
        laid_out(
            reply_text(offer, ip, port),
            offer.file_name,
            decimal_digits(ip as nat),
            decimal_digits(port as nat),
            optional_digits(offer.file_size),
            optional_digits(offer.id),
        ),
{
    let s = reply_text(offer, ip, port);
    let name = offer.file_name;
    let address = decimal_digits(ip as nat);
    let port_digits = decimal_digits(port as nat);
    let size = optional_digits(offer.file_size);
    let id = optional_digits(offer.id);
    let name_end = 10int + name.len();
    let address_end = name_end + 1 + address.len();
    let port_end = address_end + 1 + port_digits.len();
    let size_end = port_end + 1 + size.len();
    let id_end = size_end + 1 + id.len();
    assert(s.len() == id_end + 1);
    assert(s.subrange(10, name_end) =~= name);
    assert(s.subrange(name_end + 1, address_end) =~= address);
    assert(s.subrange(address_end + 1, port_end) =~= port_digits);
    assert(s.subrange(port_end + 1, size_end) =~= size);
    assert(s.subrange(size_end + 1, id_end) =~= id);
}

/// A run of digits inside a text, with something else after it, is where the
/// digits end.
proof fn lemma_digits_part(s: Seq<char>, from: int, part: Seq<char>)
    requires
        0 <= from,
        from + part.len() < s.len(),
        s.subrange(from, from + part.len()) == part,
        all_digits(part),
        !is_digit(s[from + part.len()]),
    ensures
        digits_end(s, from) == from + part.len(),
{
    assert forall|i: int| from <= i < from + part.len() implies is_digit(#[trigger] s[i]) by {
        assert(s[i] == s.subrange(from, from + part.len())[i - from]);
    }
    lemma_digits_end_is(s, from, from + part.len());
}

proof fn lemma_laid_out_is_read(
    s: Seq<char>,
    offer: OfferView,
    ip: u32,
    port: u16,
)
    requires
        is_file_name(offer.file_name),
        offer.id is Some ==> offer.file_size is Some,
        laid_out(
            s,
            offer.file_name,
            decimal_digits(ip as nat),
            decimal_digits(port as nat),
            optional_digits(offer.file_size),
            optional_digits(offer.id),
        ),
    ensures
        spans_at(s, 0) is Some,
        decode(s, spans_at(s, 0)->0) == Some(OfferView { ip, port, ..offer }),
{
    let name = offer.file_name;
    let address = decimal_digits(ip as nat);
    let port_digits = decimal_digits(port as nat);
    let size = optional_digits(offer.file_size);
    let id = optional_digits(offer.id);
    lemma_decimal_digits(ip as nat);
    lemma_decimal_digits(port as nat);
    if offer.file_size is Some {
        lemma_decimal_digits(offer.file_size->0 as nat);
    }
    if offer.id is Some {
        lemma_decimal_digits(offer.id->0 as nat);
    }
    let name_start = 10int;
    let name_end = name_start + name.len();
    let address_end = name_end + 1 + address.len();
    let port_end = address_end + 1 + port_digits.len();
    let size_end = port_end + 1 + size.len();
    let id_end = size_end + 1 + id.len();
    assert(marker_end(s, 0) == Some(name_start));
    assert(word_end(s, name_start) == name_end) by {
        assert forall|i: int| name_start <= i < name_end implies !is_space(#[trigger] s[i]) by {
            assert(s[i] == s.subrange(name_start, name_end)[i - name_start]);
        }
        lemma_word_end_is(s, name_start, name_end);
    }
    lemma_digits_part(s, name_end + 1, address);
    lemma_digits_part(s, address_end + 1, port_digits);
    lemma_digits_part(s, port_end + 1, size);
    lemma_digits_part(s, size_end + 1, id);
    let rest = if offer.id is Some {
        id_end
    } else if offer.file_size is Some {
        size_end
    } else {
        port_end
    };
    assert(closes(s, rest)) by {
        assert(size_end == port_end + 1 || offer.file_size is Some);
        assert(id_end == size_end + 1 || offer.id is Some);
        assert(closed_at(s, rest, id_end));
    }
}

/// What is written is read back: the text that `reply_text` writes for an
/// offer, an address and a port is an offer for the same file, with that
/// address and port and the same size and id. The name has to be one that an
/// offer can carry, and an id needs a size before it, since the text has
/// nothing to tell a lone id from a size.
pub proof fn lemma_written_offer_is_read(offer: OfferView, ip: u32, port: u16)
    requires
        is_file_name(offer.file_name),
        offer.id is Some ==> offer.file_size is Some,
    ensures
        parse_offer(reply_text(offer, ip, port)) == Some(OfferView { ip, port, ..offer }),
{
    let s = reply_text(offer, ip, port);
    lemma_reply_is_laid_out(offer, ip, port);
    lemma_laid_out_is_read(s, offer, ip, port);
    assert(is_first_offer(s, 0));
    lemma_first_offer(s, 0);
}

} // verus!
