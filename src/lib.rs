//! A DNS message codec: the wire format of RFC 1035 messages, decoded into
//! structured values and encoded back, with the decisions of a small query
//! client that falls back from UDP to TCP.

use vstd::prelude::*;

pub mod client;
pub mod domain_name;
pub mod error;
pub mod header;
pub mod message;
pub mod name;
pub mod question;
pub mod resource_record;
pub mod wire;

pub use error::Error;

verus! {

/// The type of a resource record or of a question.
#[derive(Debug, Copy, Clone, PartialEq, Eq, Structural)]
pub enum Type {
    A,
    NS,
    MD,
    MF,
    CNAME,
    SOA,
    MB,
    MG,
    MR,
    NULL,
    WKS,
    PTR,
    HINFO,
    MINFO,
    MX,
    TXT,
    AXFR,
    MAILB,
    MAILA,
    ALL,
    Unknown(u16),
}

/// The type that a 16-bit wire code stands for.
pub open spec fn type_of_code(c: u16) -> Type {
    match c {
        1 => Type::A,
        2 => Type::NS,
        3 => Type::MD,
        4 => Type::MF,
        5 => Type::CNAME,
        6 => Type::SOA,
        7 => Type::MB,
        8 => Type::MG,
        9 => Type::MR,
        10 => Type::NULL,
        11 => Type::WKS,
        12 => Type::PTR,
        13 => Type::HINFO,
        14 => Type::MINFO,
        15 => Type::MX,
        16 => Type::TXT,
        252 => Type::AXFR,
        253 => Type::MAILB,
        254 => Type::MAILA,
        255 => Type::ALL,
        x => Type::Unknown(x),
    }
}

/// The 16-bit wire code of a type.
pub open spec fn code_of_type(t: Type) -> u16 {
    match t {
        Type::A => 1,
        Type::NS => 2,
        Type::MD => 3,
        Type::MF => 4,
        Type::CNAME => 5,
        Type::SOA => 6,
        Type::MB => 7,
        Type::MG => 8,
        Type::MR => 9,
        Type::NULL => 10,
        Type::WKS => 11,
        Type::PTR => 12,
        Type::HINFO => 13,
        Type::MINFO => 14,
        Type::MX => 15,
        Type::TXT => 16,
        Type::AXFR => 252,
        Type::MAILB => 253,
        Type::MAILA => 254,
        Type::ALL => 255,
        Type::Unknown(x) => x,
    }
}

impl Type {
    /// Whether this is the value that its own wire code decodes to
    /// (an `Unknown` never carries a code that has a name).
    pub open spec fn canonical(self) -> bool {
        type_of_code(code_of_type(self)) == self
    }

    /// The type that a wire code stands for; every code has one.
    pub fn from_code(c: u16) -> (r: Type)
        ensures
            r == type_of_code(c),
            code_of_type(r) == c,
    {
        match c {
            1 => Type::A,
            2 => Type::NS,
            3 => Type::MD,
            4 => Type::MF,
            5 => Type::CNAME,
            6 => Type::SOA,
            7 => Type::MB,
            8 => Type::MG,
            9 => Type::MR,
            10 => Type::NULL,
            11 => Type::WKS,
            12 => Type::PTR,
            13 => Type::HINFO,
            14 => Type::MINFO,
            15 => Type::MX,
            16 => Type::TXT,
            252 => Type::AXFR,
            253 => Type::MAILB,
            254 => Type::MAILA,
            255 => Type::ALL,
            x => Type::Unknown(x),
        }
    }

    /// The wire code of this type.
    pub fn code(&self) -> (r: u16)
        ensures
            r == code_of_type(*self),
    {
        match self {
            Type::A => 1,
            Type::NS => 2,
            Type::MD => 3,
            Type::MF => 4,
            Type::CNAME => 5,
            Type::SOA => 6,
            Type::MB => 7,
            Type::MG => 8,
            Type::MR => 9,
            Type::NULL => 10,
            Type::WKS => 11,
            Type::PTR => 12,
            Type::HINFO => 13,
            Type::MINFO => 14,
            Type::MX => 15,
            Type::TXT => 16,
            Type::AXFR => 252,
            Type::MAILB => 253,
            Type::MAILA => 254,
            Type::ALL => 255,
            Type::Unknown(x) => *x,
        }
    }
}

impl From<u16> for Type {
    fn from(value: u16) -> Type {
        Type::from_code(value)
    }
}

impl vstd::std_specs::convert::FromSpecImpl<u16> for Type {
    open spec fn obeys_from_spec() -> bool {
        true
    }

    open spec fn from_spec(v: u16) -> Type {
        type_of_code(v)
    }
}

impl From<Type> for u16 {
    fn from(value: Type) -> u16 {
        value.code()
    }
}

impl vstd::std_specs::convert::FromSpecImpl<Type> for u16 {
    open spec fn obeys_from_spec() -> bool {
        true
    }

    open spec fn from_spec(v: Type) -> u16 {
        code_of_type(v)
    }
}

/// The class of a resource record or of a question.
#[derive(Debug, Copy, Clone, PartialEq, Eq, Structural)]
pub enum Class {
    Internet,
    CSNET,
    Chaos,
    Hesiod,
    All,
    Unknown(u16),
}

/// The class that a 16-bit wire code stands for.
pub open spec fn class_of_code(c: u16) -> Class {
    match c {
        1 => Class::Internet,
        2 => Class::CSNET,
        3 => Class::Chaos,
        4 => Class::Hesiod,
        5 => Class::All,
        x => Class::Unknown(x),
    }
}

/// The 16-bit wire code of a class.
pub open spec fn code_of_class(c: Class) -> u16 {
    match c {
        Class::Internet => 1,
        Class::CSNET => 2,
        Class::Chaos => 3,
        Class::Hesiod => 4,
        Class::All => 5,
        Class::Unknown(x) => x,
    }
}

impl Class {
    /// Whether this is the value that its own wire code decodes to.
    pub open spec fn canonical(self) -> bool {
        class_of_code(code_of_class(self)) == self
    }

    /// The class that a wire code stands for; every code has one.
    pub fn from_code(c: u16) -> (r: Class)
        ensures
            r == class_of_code(c),
            code_of_class(r) == c,
    {
        match c {
            1 => Class::Internet,
            2 => Class::CSNET,
            3 => Class::Chaos,
            4 => Class::Hesiod,
            5 => Class::All,
            x => Class::Unknown(x),
        }
    }

    /// The wire code of this class.
    pub fn code(&self) -> (r: u16)
        ensures
            r == code_of_class(*self),
    {
        match self {
            Class::Internet => 1,
            Class::CSNET => 2,
            Class::Chaos => 3,
            Class::Hesiod => 4,
            Class::All => 5,
            Class::Unknown(x) => *x,
        }
    }
}

impl From<u16> for Class {
    fn from(value: u16) -> Class {
        Class::from_code(value)
    }
}

impl vstd::std_specs::convert::FromSpecImpl<u16> for Class {
    open spec fn obeys_from_spec() -> bool {
        true
    }

    open spec fn from_spec(v: u16) -> Class {
        class_of_code(v)
    }
}

impl From<Class> for u16 {
    fn from(value: Class) -> u16 {
        value.code()
    }
}

impl vstd::std_specs::convert::FromSpecImpl<Class> for u16 {
    open spec fn obeys_from_spec() -> bool {
        true
    }

    open spec fn from_spec(v: Class) -> u16 {
        code_of_class(v)
    }
}

} // verus!
