//! The fixed twelve-byte header: the id and the packed flag word.

use vstd::prelude::*;
use crate::wire::{be16_at, be16_bytes, push_u16, read_u16};

verus! {

/// The kind of query that a message carries.
#[derive(Debug, Copy, Clone, PartialEq, Eq, Structural)]
pub enum Opcode {
    Query,
    InverseQuery,
    ServerStatusReport,
    Unknown(u8),
}

/// The opcode that a numeric code stands for.
pub open spec fn opcode_of_code(c: u8) -> Opcode {
    match c {
        0 => Opcode::Query,
        1 => Opcode::InverseQuery,
        2 => Opcode::ServerStatusReport,
        n => Opcode::Unknown(n),
    }
}

/// The numeric code of an opcode.
pub open spec fn code_of_opcode(o: Opcode) -> u8 {
    match o {
        Opcode::Query => 0,
        Opcode::InverseQuery => 1,
        Opcode::ServerStatusReport => 2,
        Opcode::Unknown(n) => n,
    }
}

impl Opcode {
    /// Whether the opcode fits the four bits of the header and is the value
    /// that its own code decodes to.
    pub open spec fn on_wire(self) -> bool {
        code_of_opcode(self) < 16 && opcode_of_code(code_of_opcode(self)) == self
    }

    /// The opcode that a numeric code stands for; every code has one.
    pub fn from_code(c: u8) -> (r: Opcode)
        ensures
            r == opcode_of_code(c),
    {
        match c {
            0 => Opcode::Query,
            1 => Opcode::InverseQuery,
            2 => Opcode::ServerStatusReport,
            n => Opcode::Unknown(n),
        }
    }

    /// The numeric code of this opcode.
    pub fn code(&self) -> (r: u8)
        ensures
            r == code_of_opcode(*self),
    {
        match self {
            Opcode::Query => 0,
            Opcode::InverseQuery => 1,
            Opcode::ServerStatusReport => 2,
            Opcode::Unknown(n) => *n,
        }
    }
}

/// The outcome that a response reports.
#[derive(Debug, Copy, Clone, PartialEq, Eq, Structural)]
pub enum ReturnCode {
    NoError,
    FormatError,
    ServerFailure,
    NameError,
    NotImplemented,
    Refused,
    Unknown(u8),
}

/// The return code that a numeric code stands for.
pub open spec fn return_code_of_code(c: u8) -> ReturnCode {
    match c {
        0 => ReturnCode::NoError,
        1 => ReturnCode::FormatError,
        2 => ReturnCode::ServerFailure,
        3 => ReturnCode::NameError,
        4 => ReturnCode::NotImplemented,
        5 => ReturnCode::Refused,
        n => ReturnCode::Unknown(n),
    }
}

/// The numeric code of a return code.
pub open spec fn code_of_return_code(r: ReturnCode) -> u8 {
    match r {
        ReturnCode::NoError => 0,
        ReturnCode::FormatError => 1,
        ReturnCode::ServerFailure => 2,
        ReturnCode::NameError => 3,
        ReturnCode::NotImplemented => 4,
        ReturnCode::Refused => 5,
        ReturnCode::Unknown(n) => n,
    }
}

impl ReturnCode {
    /// Whether the return code fits the four bits of the header and is the
    /// value that its own code decodes to.
    pub open spec fn on_wire(self) -> bool {
        code_of_return_code(self) < 16 && return_code_of_code(code_of_return_code(self)) == self
    }

    /// The return code that a numeric code stands for; every code has one.
    pub fn from_code(c: u8) -> (r: ReturnCode)
        ensures
            r == return_code_of_code(c),
    {
        match c {
            0 => ReturnCode::NoError,
            1 => ReturnCode::FormatError,
            2 => ReturnCode::ServerFailure,
            3 => ReturnCode::NameError,
            4 => ReturnCode::NotImplemented,
            5 => ReturnCode::Refused,
            n => ReturnCode::Unknown(n),
        }
    }

    /// The numeric code of this return code.
    pub fn code(&self) -> (r: u8)
        ensures
            r == code_of_return_code(*self),
    {
        match self {
            ReturnCode::NoError => 0,
            ReturnCode::FormatError => 1,
            ReturnCode::ServerFailure => 2,
            ReturnCode::NameError => 3,
            ReturnCode::NotImplemented => 4,
            ReturnCode::Refused => 5,
            ReturnCode::Unknown(n) => *n,
        }
    }
}

/// The fixed header of a message, without the four section counts.
#[derive(Debug, Copy, Clone, PartialEq, Eq, Structural)]
pub struct Header {
    pub id: u16,
    pub is_answer: bool,
    pub opcode: Opcode,
    pub authoritive_answer: bool,
    pub truncation: bool,
    pub recursion_desired: bool,
    pub recursion_available: bool,
    pub response_code: ReturnCode,
}

/// Relies on rand::random: a value drawn from the thread-local generator.
/// Nothing is known of which value comes out.
pub assume_specification<T>[ rand::random::<T> ]() -> (r: T)
    where
        rand::distributions::Standard: rand::distributions::Distribution<T>,
;

/// A flag as a bit value.
pub open spec fn bit(b: bool) -> int {
    if b {
        1
    } else {
        0
    }
}

/// The packed flag word: QR, four bits of opcode, AA, TC, RD, RA, three
/// reserved zero bits, four bits of return code, most significant first.
pub open spec fn flags_word(h: Header) -> u16 {
    (bit(h.is_answer) * 32768 + (code_of_opcode(h.opcode) % 16) as int * 2048 + bit(
        h.authoritive_answer,
    ) * 1024 + bit(h.truncation) * 512 + bit(h.recursion_desired) * 256 + bit(
        h.recursion_available,
    ) * 128 + (code_of_return_code(h.response_code) % 16) as int) as u16
}

/// The header that an id and a flag word describe; the reserved bits are
/// ignored.
pub open spec fn header_of(id: u16, w: u16) -> Header {
    Header {
        id,
        is_answer: (w / 32768) % 2 == 1,
        opcode: opcode_of_code(((w / 2048) % 16) as u8),
        authoritive_answer: (w / 1024) % 2 == 1,
        truncation: (w / 512) % 2 == 1,
        recursion_desired: (w / 256) % 2 == 1,
        recursion_available: (w / 128) % 2 == 1,
        response_code: return_code_of_code((w % 16) as u8),
    }
}

/// The four bytes of a header: the id, then the flag word.
pub open spec fn header_bytes(h: Header) -> Seq<u8> {
    be16_bytes(h.id) + be16_bytes(flags_word(h))
}

/// The header that the four bytes at `pos` describe.
pub open spec fn header_at(b: Seq<u8>, pos: int) -> Header {
    header_of(be16_at(b, pos), be16_at(b, pos + 2))
}

impl Header {
    /// Whether the opcode and return code fit their four-bit fields.
    pub open spec fn on_wire(self) -> bool {
        self.opcode.on_wire() && self.response_code.on_wire()
    }

    /// A header with the given fields; where no id is given, a random one.
    #[allow(clippy::too_many_arguments)]
    pub fn new(
        id: Option<u16>,
        is_answer: bool,
        opcode: Opcode,
        authoritive_answer: bool,
        truncation: bool,
        recursion_desired: bool,
        recursion_available: bool,
        response_code: ReturnCode,
    ) -> (r: Header)
        ensures
            id matches Some(i) ==> r.id == i,
            r.is_answer == is_answer,
            r.opcode == opcode,
            r.authoritive_answer == authoritive_answer,
            r.truncation == truncation,
            r.recursion_desired == recursion_desired,
            r.recursion_available == recursion_available,
            r.response_code == response_code,
    {
        let id = match id {
            Some(i) => i,
            None => rand::random::<u16>(),
        };
        Header {
            id,
            is_answer,
            opcode,
            authoritive_answer,
            truncation,
            recursion_desired,
            recursion_available,
            response_code,
        }
    }

    /// The header of an outbound query: a random id, every flag clear but
    /// recursion-desired, and no error.
    pub fn new_question(opcode: Opcode, recursion_desired: bool) -> (r: Header)
        ensures
            !r.is_answer,
            r.opcode == opcode,
            !r.authoritive_answer,
            !r.truncation,
            r.recursion_desired == recursion_desired,
            !r.recursion_available,
            r.response_code == ReturnCode::NoError,
    {
        Header::new(
            None,
            false,
            opcode,
            false,
            false,
            recursion_desired,
            false,
            ReturnCode::NoError,
        )
    }

    pub fn id(&self) -> (r: u16)
        ensures
            r == self.id,
    {
        self.id
    }

    /// Whether the message is a response (the QR bit).
    pub fn is_query(&self) -> (r: bool)
        ensures
            r == self.is_answer,
    {
        self.is_answer
    }

    pub fn opcode(&self) -> (r: Opcode)
        ensures
            r == self.opcode,
    {
        self.opcode
    }

    pub fn authoritive_answer(&self) -> (r: bool)
        ensures
            r == self.authoritive_answer,
    {
        self.authoritive_answer
    }

    pub fn truncation(&self) -> (r: bool)
        ensures
            r == self.truncation,
    {
        self.truncation
    }

    pub fn recursion_desired(&self) -> (r: bool)
        ensures
            r == self.recursion_desired,
    {
        self.recursion_desired
    }

    pub fn recursion_available(&self) -> (r: bool)
        ensures
            r == self.recursion_available,
    {
        self.recursion_available
    }

    pub fn response_code(&self) -> (r: ReturnCode)
        ensures
            r == self.response_code,
    {
        self.response_code
    }

    /// The packed flag word of this header.
    pub fn flags(&self) -> (r: u16)
        ensures
            r == flags_word(*self),
    {
        let mut w: u16 = 0;
        if self.is_answer {
            w = w + 32768;
        }
        w = w + ((self.opcode.code() % 16) as u16) * 2048;
        if self.authoritive_answer {
            w = w + 1024;
        }
        if self.truncation {
            w = w + 512;
        }
        if self.recursion_desired {
            w = w + 256;
        }
        if self.recursion_available {
            w = w + 128;
        }
        w = w + (self.response_code.code() % 16) as u16;
        w
    }

    /// Appends the id and the flag word.
    pub fn write_to(&self, out: &mut Vec<u8>)
        ensures
            final(out)@ == old(out)@ + header_bytes(*self),
    {
        push_u16(out, self.id);
        let w = self.flags();
        push_u16(out, w);
        assert(final(out)@ =~= old(out)@ + header_bytes(*self));
    }
}

/// Unpacks a flag word; the reserved bits are ignored and every value of the
/// other fields is representable, so this never fails.
pub fn unpack_flags(id: u16, w: u16) -> (r: Header)
    ensures
        r == header_of(id, w),
{
    Header {
        id,
        is_answer: (w / 32768) % 2 == 1,
        opcode: Opcode::from_code(((w / 2048) % 16) as u8),
        authoritive_answer: (w / 1024) % 2 == 1,
        truncation: (w / 512) % 2 == 1,
        recursion_desired: (w / 256) % 2 == 1,
        recursion_available: (w / 128) % 2 == 1,
        response_code: ReturnCode::from_code((w % 16) as u8),
    }
}

/// Reads the id and the flag word at `pos`; `None` where fewer than four
/// bytes remain.
pub fn header_parser(b: &[u8], pos: usize) -> (r: Option<(Header, usize)>)
    ensures
        pos + 4 <= b@.len() <==> r is Some,
        r matches Some((h, next)) ==> h == header_at(b@, pos as int) && next == pos + 4,
{
    if pos > b.len() || b.len() - pos < 4 {
        return None;
    }
    let id = read_u16(b, pos);
    let w = read_u16(b, pos + 2);
    Some((unpack_flags(id, w), pos + 4))
}

proof fn lemma_flags_fields(a: u16, op: u16, c: u16, d: u16, e: u16, f: u16, rc: u16) by (bit_vector)
    requires
        a < 2,
        op < 16,
        c < 2,
        d < 2,
        e < 2,
        f < 2,
        rc < 16,
    ensures
        ({
            let w = (a * 32768 + op * 2048 + c * 1024 + d * 512 + e * 256 + f * 128 + rc) as u16;
            &&& (w / 32768) % 2 == a
            &&& (w / 2048) % 16 == op
            &&& (w / 1024) % 2 == c
            &&& (w / 512) % 2 == d
            &&& (w / 256) % 2 == e
            &&& (w / 128) % 2 == f
            &&& w % 16 == rc
        }),
{
}

/// Unpacking the flag word of a header whose opcode and return code fit
/// their fields gives back every field.
pub proof fn lemma_flags_round_trip(h: Header)
    requires
        h.on_wire(),
    ensures
        header_of(h.id, flags_word(h)) == h,
{
    let a: u16 = bit(h.is_answer) as u16;
    let op: u16 = code_of_opcode(h.opcode) as u16;
    let c: u16 = bit(h.authoritive_answer) as u16;
    let d: u16 = bit(h.truncation) as u16;
    let e: u16 = bit(h.recursion_desired) as u16;
    let f: u16 = bit(h.recursion_available) as u16;
    let rc: u16 = code_of_return_code(h.response_code) as u16;
    lemma_flags_fields(a, op, c, d, e, f, rc);
    let w = flags_word(h);
    assert(code_of_opcode(h.opcode) % 16 == op);
    assert(code_of_return_code(h.response_code) % 16 == rc);
    assert(w == (a * 32768 + op * 2048 + c * 1024 + d * 512 + e * 256 + f * 128 + rc) as u16);
    let g = header_of(h.id, w);
    assert(g.is_answer == h.is_answer);
    assert(g.authoritive_answer == h.authoritive_answer);
    assert(g.truncation == h.truncation);
    assert(g.recursion_desired == h.recursion_desired);
    assert(g.recursion_available == h.recursion_available);
    assert(((w / 2048) % 16) as u8 == code_of_opcode(h.opcode));
    assert(g.opcode == h.opcode);
    assert((w % 16) as u8 == code_of_return_code(h.response_code));
    assert(g.response_code == h.response_code);
}

/// A header written out and read back is the same header: every field of
/// the flag word survives, and the reserved bits play no part.
pub proof fn lemma_header_round_trip(h: Header, b: Seq<u8>, pos: int)
    requires
        h.on_wire(),
        0 <= pos,
        pos + 4 <= b.len(),
        b.subrange(pos, pos + 4) == header_bytes(h),
    ensures
        header_at(b, pos) == h,
{
    let hb = header_bytes(h);
    assert(b[pos] == hb[0] && b[pos + 1] == hb[1] && b[pos + 2] == hb[2] && b[pos + 3] == hb[3]);
    crate::wire::lemma_be16_round_trip(h.id);
    crate::wire::lemma_be16_round_trip(flags_word(h));
    assert(be16_at(b, pos) == be16_at(be16_bytes(h.id), 0));
    assert(be16_at(b, pos + 2) == be16_at(be16_bytes(flags_word(h)), 0));
    lemma_flags_round_trip(h);
}

} // verus!
