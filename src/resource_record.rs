//! Resource records and their type-specific payloads (RDATA).

use vstd::prelude::*;
use crate::domain_name::{copy_range, labels_fit, name_at, name_bytes, DomainName};
use crate::error::Error;
use crate::wire::{
    be16_at, be16_bytes, be32_at, be32_bytes, push_all, push_u16, push_u32, read_u16, read_u32,
};
use crate::{class_of_code, code_of_class, code_of_type, type_of_code, Class, Type};

verus! {

/// The characters that the bytes stand for, one per byte (ISO 8859-1).
pub open spec fn latin1(b: Seq<u8>) -> Seq<char> {
    b.map_values(|x: u8| x as char)
}

/// Relies on String::push: the character is appended at the end.
#[verifier::external_body]
fn push_char(s: &mut String, c: char)
    ensures
        final(s)@ == old(s)@.push(c),
{
    s.push(c)
}

/// Whether every character has a one-byte (ISO 8859-1) form.
pub open spec fn latin1_fits(t: Seq<char>) -> bool {
    forall|i: int| 0 <= i < t.len() ==> (#[trigger] t[i] as u32) < 256
}

/// The one-byte forms of the characters.
pub open spec fn latin1_bytes(t: Seq<char>) -> Seq<u8> {
    t.map_values(|c: char| c as u8)
}

/// The one-byte forms of the characters of `s`, where they all have one.
pub fn latin1_encode(s: &str) -> (r: Option<Vec<u8>>)
    ensures
        r is Some <==> latin1_fits(s@),
        r matches Some(b) ==> b@ == latin1_bytes(s@),
{
    broadcast use vstd::string::axiom_spec_iter;
    let mut out: Vec<u8> = Vec::new();
    let mut fits = true;
    for c in it: s.chars()
        invariant
            it.seq() == s@,
            out@ == latin1_bytes(it.seq().take(it.index())),
            fits == latin1_fits(it.seq().take(it.index())),
    {
        let ghost before = it.seq().take(it.index());
        assert(it.seq().take(it.index() + 1) =~= before.push(c));
        let code = #[verifier::truncate] (c as u32);
        assert(latin1_fits(before.push(c)) == (latin1_fits(before) && (c as u32) < 256)) by {
            if latin1_fits(before) && (c as u32) < 256 {
                assert forall|i: int| 0 <= i < before.push(c).len() implies (#[trigger] before.push(
                    c,
                )[i] as u32) < 256 by {
                    if i < before.len() {
                        assert(before.push(c)[i] == before[i]);
                    }
                }
            }
            if latin1_fits(before.push(c)) {
                assert(before.push(c)[before.len() as int] == c);
                assert forall|i: int| 0 <= i < before.len() implies (#[trigger] before[i] as u32)
                    < 256 by {
                    assert(before.push(c)[i] == before[i]);
                }
            }
        }
        if code > 255 {
            fits = false;
        }
        out.push(#[verifier::truncate] (c as u8));
        assert(out@ =~= latin1_bytes(before.push(c)));
    }
    assert(s@.take(s@.len() as int) =~= s@);
    if fits {
        Some(out)
    } else {
        None
    }
}

/// The bytes of `b` from `from` up to `to`, one character per byte.
pub fn latin1_string(b: &[u8], from: usize, to: usize) -> (r: String)
    requires
        from <= to <= b@.len(),
    ensures
        r@ == latin1(b@.subrange(from as int, to as int)),
{
    let mut s = String::new();
    let mut i: usize = from;
    while i < to
        invariant
            from <= i <= to <= b@.len(),
            s@ == latin1(b@.subrange(from as int, i as int)),
        decreases to - i,
    {
        push_char(&mut s, b[i] as char);
        i += 1;
        assert(s@ =~= latin1(b@.subrange(from as int, i as int)));
    }
    s
}

/// The IP protocol that a WKS record describes.
#[derive(Debug, Copy, Clone, PartialEq, Eq, Structural)]
pub enum Protocol {
    ICMP,
    IGMP,
    GGP,
    ST,
    TCP,
    UCL,
    EGP,
    IGP,
    BBNRCCMON,
    NVP2,
    PUP,
    ARGUS,
    EMCON,
    XNET,
    CHAOS,
    UDP,
    MUX,
    DCNMEAS,
    HMP,
    PRM,
    XNSIDP,
    TRUNK1,
    TRUNK2,
    LEAF1,
    LEAF2,
    RDP,
    IRTP,
    ISOTP4,
    NETBLT,
    MFENSP,
    MERITINP,
    SEP,
    HostInternal,
    CFPT,
    LocalNetwork,
    SATEXPAK,
    MITSUBNET,
    RDV,
    IPPC,
    DistributedFileSystem,
    SATMON,
    IPCV,
    BRSATMON,
    WBMON,
    WBEXPAK,
    Unknown(u8),
}

/// The protocol that a protocol number stands for.
pub open spec fn protocol_of_code(c: u8) -> Protocol {
    match c {
        1 => Protocol::ICMP,
        2 => Protocol::IGMP,
        3 => Protocol::GGP,
        5 => Protocol::ST,
        6 => Protocol::TCP,
        7 => Protocol::UCL,
        8 => Protocol::EGP,
        9 => Protocol::IGP,
        10 => Protocol::BBNRCCMON,
        11 => Protocol::NVP2,
        12 => Protocol::PUP,
        13 => Protocol::ARGUS,
        14 => Protocol::EMCON,
        15 => Protocol::XNET,
        16 => Protocol::CHAOS,
        17 => Protocol::UDP,
        18 => Protocol::MUX,
        19 => Protocol::DCNMEAS,
        20 => Protocol::HMP,
        21 => Protocol::PRM,
        22 => Protocol::XNSIDP,
        23 => Protocol::TRUNK1,
        24 => Protocol::TRUNK2,
        25 => Protocol::LEAF1,
        36 => Protocol::LEAF2,
        27 => Protocol::RDP,
        28 => Protocol::IRTP,
        29 => Protocol::ISOTP4,
        30 => Protocol::NETBLT,
        31 => Protocol::MFENSP,
        32 => Protocol::MERITINP,
        33 => Protocol::SEP,
        61 => Protocol::HostInternal,
        62 => Protocol::CFPT,
        63 => Protocol::LocalNetwork,
        64 => Protocol::SATEXPAK,
        65 => Protocol::MITSUBNET,
        66 => Protocol::RDV,
        67 => Protocol::IPPC,
        68 => Protocol::DistributedFileSystem,
        69 => Protocol::SATMON,
        71 => Protocol::IPCV,
        76 => Protocol::BRSATMON,
        78 => Protocol::WBMON,
        79 => Protocol::WBEXPAK,
        n => Protocol::Unknown(n),
    }
}

/// The protocol number of a protocol.
pub open spec fn code_of_protocol(p: Protocol) -> u8 {
    match p {
        Protocol::ICMP => 1,
        Protocol::IGMP => 2,
        Protocol::GGP => 3,
        Protocol::ST => 5,
        Protocol::TCP => 6,
        Protocol::UCL => 7,
        Protocol::EGP => 8,
        Protocol::IGP => 9,
        Protocol::BBNRCCMON => 10,
        Protocol::NVP2 => 11,
        Protocol::PUP => 12,
        Protocol::ARGUS => 13,
        Protocol::EMCON => 14,
        Protocol::XNET => 15,
        Protocol::CHAOS => 16,
        Protocol::UDP => 17,
        Protocol::MUX => 18,
        Protocol::DCNMEAS => 19,
        Protocol::HMP => 20,
        Protocol::PRM => 21,
        Protocol::XNSIDP => 22,
        Protocol::TRUNK1 => 23,
        Protocol::TRUNK2 => 24,
        Protocol::LEAF1 => 25,
        Protocol::LEAF2 => 36,
        Protocol::RDP => 27,
        Protocol::IRTP => 28,
        Protocol::ISOTP4 => 29,
        Protocol::NETBLT => 30,
        Protocol::MFENSP => 31,
        Protocol::MERITINP => 32,
        Protocol::SEP => 33,
        Protocol::HostInternal => 61,
        Protocol::CFPT => 62,
        Protocol::LocalNetwork => 63,
        Protocol::SATEXPAK => 64,
        Protocol::MITSUBNET => 65,
        Protocol::RDV => 66,
        Protocol::IPPC => 67,
        Protocol::DistributedFileSystem => 68,
        Protocol::SATMON => 69,
        Protocol::IPCV => 71,
        Protocol::BRSATMON => 76,
        Protocol::WBMON => 78,
        Protocol::WBEXPAK => 79,
        Protocol::Unknown(n) => n,
    }
}

impl Protocol {
    /// The protocol that a protocol number stands for; every number has one.
    pub fn from_code(c: u8) -> (r: Protocol)
        ensures
            r == protocol_of_code(c),
    {
        match c {
            1 => Protocol::ICMP,
            2 => Protocol::IGMP,
            3 => Protocol::GGP,
            5 => Protocol::ST,
            6 => Protocol::TCP,
            7 => Protocol::UCL,
            8 => Protocol::EGP,
            9 => Protocol::IGP,
            10 => Protocol::BBNRCCMON,
            11 => Protocol::NVP2,
            12 => Protocol::PUP,
            13 => Protocol::ARGUS,
            14 => Protocol::EMCON,
            15 => Protocol::XNET,
            16 => Protocol::CHAOS,
            17 => Protocol::UDP,
            18 => Protocol::MUX,
            19 => Protocol::DCNMEAS,
            20 => Protocol::HMP,
            21 => Protocol::PRM,
            22 => Protocol::XNSIDP,
            23 => Protocol::TRUNK1,
            24 => Protocol::TRUNK2,
            25 => Protocol::LEAF1,
            36 => Protocol::LEAF2,
            27 => Protocol::RDP,
            28 => Protocol::IRTP,
            29 => Protocol::ISOTP4,
            30 => Protocol::NETBLT,
            31 => Protocol::MFENSP,
            32 => Protocol::MERITINP,
            33 => Protocol::SEP,
            61 => Protocol::HostInternal,
            62 => Protocol::CFPT,
            63 => Protocol::LocalNetwork,
            64 => Protocol::SATEXPAK,
            65 => Protocol::MITSUBNET,
            66 => Protocol::RDV,
            67 => Protocol::IPPC,
            68 => Protocol::DistributedFileSystem,
            69 => Protocol::SATMON,
            71 => Protocol::IPCV,
            76 => Protocol::BRSATMON,
            78 => Protocol::WBMON,
            79 => Protocol::WBEXPAK,
            n => Protocol::Unknown(n),
        }
    }

    /// The protocol number of this protocol.
    pub fn code(&self) -> (r: u8)
        ensures
            r == code_of_protocol(*self),
    {
        match self {
            Protocol::ICMP => 1,
            Protocol::IGMP => 2,
            Protocol::GGP => 3,
            Protocol::ST => 5,
            Protocol::TCP => 6,
            Protocol::UCL => 7,
            Protocol::EGP => 8,
            Protocol::IGP => 9,
            Protocol::BBNRCCMON => 10,
            Protocol::NVP2 => 11,
            Protocol::PUP => 12,
            Protocol::ARGUS => 13,
            Protocol::EMCON => 14,
            Protocol::XNET => 15,
            Protocol::CHAOS => 16,
            Protocol::UDP => 17,
            Protocol::MUX => 18,
            Protocol::DCNMEAS => 19,
            Protocol::HMP => 20,
            Protocol::PRM => 21,
            Protocol::XNSIDP => 22,
            Protocol::TRUNK1 => 23,
            Protocol::TRUNK2 => 24,
            Protocol::LEAF1 => 25,
            Protocol::LEAF2 => 36,
            Protocol::RDP => 27,
            Protocol::IRTP => 28,
            Protocol::ISOTP4 => 29,
            Protocol::NETBLT => 30,
            Protocol::MFENSP => 31,
            Protocol::MERITINP => 32,
            Protocol::SEP => 33,
            Protocol::HostInternal => 61,
            Protocol::CFPT => 62,
            Protocol::LocalNetwork => 63,
            Protocol::SATEXPAK => 64,
            Protocol::MITSUBNET => 65,
            Protocol::RDV => 66,
            Protocol::IPPC => 67,
            Protocol::DistributedFileSystem => 68,
            Protocol::SATMON => 69,
            Protocol::IPCV => 71,
            Protocol::BRSATMON => 76,
            Protocol::WBMON => 78,
            Protocol::WBEXPAK => 79,
            Protocol::Unknown(n) => *n,
        }
    }
}

/// The canonical name that an alias stands for.
#[derive(Clone, Debug)]
pub struct CName {
    pub cname: DomainName,
}

impl CName {
    pub fn new(cname: DomainName) -> (r: CName)
        ensures
            r.cname@ == cname@,
    {
        CName { cname }
    }

    pub fn cname(&self) -> (r: &DomainName)
        ensures
            r@ == self.cname@,
    {
        &self.cname
    }
}

/// A mailbox domain name.
#[derive(Clone, Debug)]
pub struct MB {
    pub mail_agent_domain_name: DomainName,
}

impl MB {
    pub fn new(mail_agent_domain_name: DomainName) -> (r: MB)
        ensures
            r.mail_agent_domain_name@ == mail_agent_domain_name@,
    {
        MB { mail_agent_domain_name }
    }

    pub fn mail_agent_domain_name(&self) -> (r: &DomainName)
        ensures
            r@ == self.mail_agent_domain_name@,
    {
        &self.mail_agent_domain_name
    }
}

/// A mail destination.
#[derive(Clone, Debug)]
pub struct MD {
    pub mail_agent_domain_name: DomainName,
}

impl MD {
    pub fn new(mail_agent_domain_name: DomainName) -> (r: MD)
        ensures
            r.mail_agent_domain_name@ == mail_agent_domain_name@,
    {
        MD { mail_agent_domain_name }
    }

    pub fn mail_agent_domain_name(&self) -> (r: &DomainName)
        ensures
            r@ == self.mail_agent_domain_name@,
    {
        &self.mail_agent_domain_name
    }
}

/// A mail forwarder.
#[derive(Clone, Debug)]
pub struct MF {
    pub mail_agent_domain_name: DomainName,
}

impl MF {
    pub fn new(mail_agent_domain_name: DomainName) -> (r: MF)
        ensures
            r.mail_agent_domain_name@ == mail_agent_domain_name@,
    {
        MF { mail_agent_domain_name }
    }

    pub fn mail_agent_domain_name(&self) -> (r: &DomainName)
        ensures
            r@ == self.mail_agent_domain_name@,
    {
        &self.mail_agent_domain_name
    }
}

/// A mail group member.
#[derive(Clone, Debug)]
pub struct MG {
    pub mail_group_member_name: DomainName,
}

impl MG {
    pub fn new(mail_group_member_name: DomainName) -> (r: MG)
        ensures
            r.mail_group_member_name@ == mail_group_member_name@,
    {
        MG { mail_group_member_name }
    }

    pub fn mail_group_member_name(&self) -> (r: &DomainName)
        ensures
            r@ == self.mail_group_member_name@,
    {
        &self.mail_group_member_name
    }
}

/// A mail rename domain name.
#[derive(Clone, Debug)]
pub struct MR {
    pub new_name: DomainName,
}

impl MR {
    pub fn new(new_name: DomainName) -> (r: MR)
        ensures
            r.new_name@ == new_name@,
    {
        MR { new_name }
    }

    pub fn new_name(&self) -> (r: &DomainName)
        ensures
            r@ == self.new_name@,
    {
        &self.new_name
    }
}

/// An authoritative name server.
#[derive(Clone, Debug)]
pub struct NS {
    pub domain_name: DomainName,
}

impl NS {
    pub fn new(domain_name: DomainName) -> (r: NS)
        ensures
            r.domain_name@ == domain_name@,
    {
        NS { domain_name }
    }

    pub fn domain_name(&self) -> (r: &DomainName)
        ensures
            r@ == self.domain_name@,
    {
        &self.domain_name
    }
}

/// A pointer to another part of the domain name space.
#[derive(Clone, Debug)]
pub struct PTR {
    pub pointer_domain_name: DomainName,
}

impl PTR {
    pub fn new(pointer_domain_name: DomainName) -> (r: PTR)
        ensures
            r.pointer_domain_name@ == pointer_domain_name@,
    {
        PTR { pointer_domain_name }
    }

    pub fn domain_name(&self) -> (r: &DomainName)
        ensures
            r@ == self.pointer_domain_name@,
    {
        &self.pointer_domain_name
    }
}

/// Host information: the CPU and the operating system.
#[derive(Clone, Debug)]
pub struct HostInfo {
    pub cpu: String,
    pub os: String,
}

impl HostInfo {
    pub fn new(cpu: String, os: String) -> (r: HostInfo)
        ensures
            r.cpu@ == cpu@,
            r.os@ == os@,
    {
        HostInfo { cpu, os }
    }

    pub fn cpu(&self) -> (r: &str)
        ensures
            r@ == self.cpu@,
    {
        self.cpu.as_str()
    }

    pub fn os(&self) -> (r: &str)
        ensures
            r@ == self.os@,
    {
        self.os.as_str()
    }
}

/// Mailbox information: the responsible mailbox and the error mailbox.
#[derive(Clone, Debug)]
pub struct MInfo {
    pub responsible_mailbox: DomainName,
    pub error_mailbox: DomainName,
}

impl MInfo {
    pub fn new(responsible_mailbox: DomainName, error_mailbox: DomainName) -> (r: MInfo)
        ensures
            r.responsible_mailbox@ == responsible_mailbox@,
            r.error_mailbox@ == error_mailbox@,
    {
        MInfo { responsible_mailbox, error_mailbox }
    }

    pub fn responsible_mailbox(&self) -> (r: &DomainName)
        ensures
            r@ == self.responsible_mailbox@,
    {
        &self.responsible_mailbox
    }

    pub fn error_mailbox(&self) -> (r: &DomainName)
        ensures
            r@ == self.error_mailbox@,
    {
        &self.error_mailbox
    }
}

/// A mail exchange and its preference (lower is preferred).
#[derive(Clone, Debug)]
pub struct MX {
    pub preference: u16,
    pub exchange: DomainName,
}

impl MX {
    pub fn new(preference: u16, exchange: DomainName) -> (r: MX)
        ensures
            r.preference == preference,
            r.exchange@ == exchange@,
    {
        MX { preference, exchange }
    }

    pub fn preference(&self) -> (r: u16)
        ensures
            r == self.preference,
    {
        self.preference
    }

    pub fn exchange(&self) -> (r: &DomainName)
        ensures
            r@ == self.exchange@,
    {
        &self.exchange
    }
}

/// An opaque payload.
#[derive(Clone, Debug)]
pub struct Null {
    pub bytes: Vec<u8>,
}

impl Null {
    pub fn new(bytes: Vec<u8>) -> (r: Null)
        ensures
            r.bytes@ == bytes@,
    {
        Null { bytes }
    }

    pub fn bytes(&self) -> (r: &[u8])
        ensures
            r@ == self.bytes@,
    {
        self.bytes.as_slice()
    }
}

/// The start of a zone of authority.
#[derive(Clone, Debug)]
pub struct SOA {
    pub primary_source_domain: DomainName,
    pub responsible_person_email: DomainName,
    pub serial: u32,
    pub refresh: u32,
    pub retry: u32,
    pub expire: u32,
    pub minimum: u32,
}

impl SOA {
    pub fn new(
        primary_source_domain: DomainName,
        responsible_person_email: DomainName,
        serial: u32,
        refresh: u32,
        retry: u32,
        expire: u32,
        minimum: u32,
    ) -> (r: SOA)
        ensures
            r.primary_source_domain@ == primary_source_domain@,
            r.responsible_person_email@ == responsible_person_email@,
            r.serial == serial,
            r.refresh == refresh,
            r.retry == retry,
            r.expire == expire,
            r.minimum == minimum,
    {
        SOA {
            primary_source_domain,
            responsible_person_email,
            serial,
            refresh,
            retry,
            expire,
            minimum,
        }
    }

    pub fn primary_source_domain(&self) -> (r: &DomainName)
        ensures
            r@ == self.primary_source_domain@,
    {
        &self.primary_source_domain
    }

    pub fn responsible_person_email(&self) -> (r: &DomainName)
        ensures
            r@ == self.responsible_person_email@,
    {
        &self.responsible_person_email
    }

    pub fn serial(&self) -> (r: u32)
        ensures
            r == self.serial,
    {
        self.serial
    }

    pub fn refresh(&self) -> (r: u32)
        ensures
            r == self.refresh,
    {
        self.refresh
    }

    pub fn retry(&self) -> (r: u32)
        ensures
            r == self.retry,
    {
        self.retry
    }

    pub fn expire(&self) -> (r: u32)
        ensures
            r == self.expire,
    {
        self.expire
    }

    pub fn minimum(&self) -> (r: u32)
        ensures
            r == self.minimum,
    {
        self.minimum
    }
}

/// Free-form text.
#[derive(Clone, Debug)]
pub struct TXT {
    pub text_data: String,
}

impl TXT {
    pub fn new(text_data: String) -> (r: TXT)
        ensures
            r.text_data@ == text_data@,
    {
        TXT { text_data }
    }

    pub fn data(&self) -> (r: &str)
        ensures
            r@ == self.text_data@,
    {
        self.text_data.as_str()
    }
}

/// An IPv4 host address, as the 32-bit number whose big-endian bytes are
/// the four octets.
#[derive(Clone, Debug)]
pub struct A {
    pub address: u32,
}

impl A {
    pub fn new(address: u32) -> (r: A)
        ensures
            r.address == address,
    {
        A { address }
    }

    pub fn address(&self) -> (r: u32)
        ensures
            r == self.address,
    {
        self.address
    }
}

/// The well-known services that a host offers over one protocol.
#[derive(Clone, Debug)]
pub struct WKS {
    pub address: u32,
    pub protocol: Protocol,
    pub ports: Vec<u16>,
}

impl WKS {
    pub fn new(address: u32, protocol: Protocol, ports: Vec<u16>) -> (r: WKS)
        ensures
            r.address == address,
            r.protocol == protocol,
            r.ports@ == ports@,
    {
        WKS { address, protocol, ports }
    }

    pub fn address(&self) -> (r: u32)
        ensures
            r == self.address,
    {
        self.address
    }

    pub fn protocol(&self) -> (r: Protocol)
        ensures
            r == self.protocol,
    {
        self.protocol
    }

    pub fn ports(&self) -> (r: &[u16])
        ensures
            r@ == self.ports@,
    {
        self.ports.as_slice()
    }
}

/// The payload of a resource record, by its class and type.
#[derive(Clone, Debug)]
pub enum RecordData {
    A(A),
    NS(NS),
    MD(MD),
    MF(MF),
    CName(CName),
    SOA(SOA),
    MB(MB),
    MG(MG),
    MR(MR),
    Null(Null),
    WKS(WKS),
    PTR(PTR),
    HostInfo(HostInfo),
    MInfo(MInfo),
    MX(MX),
    TXT(TXT),
    Unknown(Class, Type, Vec<u8>),
}

/// What a payload holds, as mathematical values.
pub enum RDataView {
    A(u32),
    NS(Seq<Seq<char>>),
    MD(Seq<Seq<char>>),
    MF(Seq<Seq<char>>),
    CName(Seq<Seq<char>>),
    SOA(Seq<Seq<char>>, Seq<Seq<char>>, u32, u32, u32, u32, u32),
    MB(Seq<Seq<char>>),
    MG(Seq<Seq<char>>),
    MR(Seq<Seq<char>>),
    Null(Seq<u8>),
    WKS(u32, Protocol, Seq<u16>),
    PTR(Seq<Seq<char>>),
    HostInfo(Seq<char>, Seq<char>),
    MInfo(Seq<Seq<char>>, Seq<Seq<char>>),
    MX(u16, Seq<Seq<char>>),
    TXT(Seq<char>),
    Unknown(Class, Type, Seq<u8>),
}

impl View for RecordData {
    type V = RDataView;

    open spec fn view(&self) -> RDataView {
        match self {
            RecordData::A(a) => RDataView::A(a.address),
            RecordData::NS(x) => RDataView::NS(x.domain_name@),
            RecordData::MD(x) => RDataView::MD(x.mail_agent_domain_name@),
            RecordData::MF(x) => RDataView::MF(x.mail_agent_domain_name@),
            RecordData::CName(x) => RDataView::CName(x.cname@),
            RecordData::SOA(x) => RDataView::SOA(
                x.primary_source_domain@,
                x.responsible_person_email@,
                x.serial,
                x.refresh,
                x.retry,
                x.expire,
                x.minimum,
            ),
            RecordData::MB(x) => RDataView::MB(x.mail_agent_domain_name@),
            RecordData::MG(x) => RDataView::MG(x.mail_group_member_name@),
            RecordData::MR(x) => RDataView::MR(x.new_name@),
            RecordData::Null(x) => RDataView::Null(x.bytes@),
            RecordData::WKS(x) => RDataView::WKS(x.address, x.protocol, x.ports@),
            RecordData::PTR(x) => RDataView::PTR(x.pointer_domain_name@),
            RecordData::HostInfo(x) => RDataView::HostInfo(x.cpu@, x.os@),
            RecordData::MInfo(x) => RDataView::MInfo(x.responsible_mailbox@, x.error_mailbox@),
            RecordData::MX(x) => RDataView::MX(x.preference, x.exchange@),
            RecordData::TXT(x) => RDataView::TXT(x.text_data@),
            RecordData::Unknown(c, t, b) => RDataView::Unknown(*c, *t, b@),
        }
    }
}

/// A resource record.
#[derive(Clone, Debug)]
pub struct ResourceRecord {
    pub name: DomainName,
    pub ty: Type,
    pub class: Class,
    pub ttl: i32,
    pub rdata: RecordData,
}

/// What a resource record holds, as mathematical values.
pub struct RecordView {
    pub name: Seq<Seq<char>>,
    pub ty: Type,
    pub class: Class,
    pub ttl: i32,
    pub rdata: RDataView,
}

impl View for ResourceRecord {
    type V = RecordView;

    open spec fn view(&self) -> RecordView {
        RecordView {
            name: self.name@,
            ty: self.ty,
            class: self.class,
            ttl: self.ttl,
            rdata: self.rdata@,
        }
    }
}

impl ResourceRecord {
    pub fn new(name: DomainName, ty: Type, class: Class, ttl: i32, rdata: RecordData) -> (r:
        ResourceRecord)
        ensures
            r.name@ == name@,
            r.ty == ty,
            r.class == class,
            r.ttl == ttl,
            r.rdata@ == rdata@,
    {
        ResourceRecord { name, ty, class, ttl, rdata }
    }

    pub fn name(&self) -> (r: &DomainName)
        ensures
            r@ == self.name@,
    {
        &self.name
    }

    pub fn record_type(&self) -> (r: Type)
        ensures
            r == self.ty,
    {
        self.ty
    }

    pub fn class(&self) -> (r: Class)
        ensures
            r == self.class,
    {
        self.class
    }

    pub fn ttl(&self) -> (r: i32)
        ensures
            r == self.ttl,
    {
        self.ttl
    }

    pub fn rdata(&self) -> (r: &RecordData)
        ensures
            r@ == self.rdata@,
    {
        &self.rdata
    }
}

/// Whether bit `i` of a bitmap is set, counting from the most significant
/// bit of the first byte.
pub open spec fn bit_at(bits: Seq<u8>, i: int) -> bool {
    ((bits[i / 8] >> ((7 - i % 8) as u8)) & 1u8) == 1u8
}

/// The ports that the first `k` bits of a bitmap mark, in increasing order:
/// bit `i` stands for port `i + 1`.
pub open spec fn ports_upto(bits: Seq<u8>, k: int) -> Seq<u16>
    decreases k,
{
    if k <= 0 {
        Seq::empty()
    } else {
        ports_upto(bits, k - 1) + if bit_at(bits, k - 1) {
            seq![k as u16]
        } else {
            Seq::empty()
        }
    }
}

/// The ports that a WKS bitmap marks: bit `b` (most significant first) of
/// byte `n` stands for port `8 * n + b + 1`.
pub open spec fn wks_ports(bits: Seq<u8>) -> Seq<u16> {
    ports_upto(bits, 8 * bits.len() as int)
}

/// The name that fills the whole stretch `[start, end)`.
pub open spec fn sole_name(msg: Seq<u8>, start: int, end: int) -> Option<Seq<Seq<char>>> {
    match name_at(msg, start, start, end) {
        Some((l, e)) => if e == end {
            Some(l)
        } else {
            None
        },
        None => None,
    }
}

/// Two length-prefixed character strings that fill `[start, end)`.
pub open spec fn hinfo_at(msg: Seq<u8>, start: int, end: int) -> Option<RDataView> {
    if end - start < 1 {
        None
    } else {
        let p = start + 1 + msg[start] as int;
        if p + 1 > end {
            None
        } else if p + 1 + msg[p] as int != end {
            None
        } else {
            Some(
                RDataView::HostInfo(
                    latin1(msg.subrange(start + 1, p)),
                    latin1(msg.subrange(p + 1, end)),
                ),
            )
        }
    }
}

/// Two names that together fill `[start, end)`.
pub open spec fn two_names_at(msg: Seq<u8>, start: int, end: int) -> Option<
    (Seq<Seq<char>>, Seq<Seq<char>>, int),
> {
    match name_at(msg, start, start, end) {
        Some((l1, e1)) => match name_at(msg, e1, e1, end) {
            Some((l2, e2)) => Some((l1, l2, e2)),
            None => None,
        },
        None => None,
    }
}

/// The payload of class `class` and type `ty` that fills `[start, end)` of
/// the message `msg`; names inside it may point anywhere before them in the
/// message.
pub open spec fn rdata_at(msg: Seq<u8>, class: Class, ty: Type, start: int, end: int) -> Option<
    RDataView,
> {
    let raw = msg.subrange(start, end);
    match ty {
        Type::CNAME => match sole_name(msg, start, end) {
            Some(l) => Some(RDataView::CName(l)),
            None => None,
        },
        Type::NS => match sole_name(msg, start, end) {
            Some(l) => Some(RDataView::NS(l)),
            None => None,
        },
        Type::MD => match sole_name(msg, start, end) {
            Some(l) => Some(RDataView::MD(l)),
            None => None,
        },
        Type::MF => match sole_name(msg, start, end) {
            Some(l) => Some(RDataView::MF(l)),
            None => None,
        },
        Type::MB => match sole_name(msg, start, end) {
            Some(l) => Some(RDataView::MB(l)),
            None => None,
        },
        Type::MG => match sole_name(msg, start, end) {
            Some(l) => Some(RDataView::MG(l)),
            None => None,
        },
        Type::MR => match sole_name(msg, start, end) {
            Some(l) => Some(RDataView::MR(l)),
            None => None,
        },
        Type::PTR => match sole_name(msg, start, end) {
            Some(l) => Some(RDataView::PTR(l)),
            None => None,
        },
        Type::HINFO => hinfo_at(msg, start, end),
        Type::MINFO => match two_names_at(msg, start, end) {
            Some((l1, l2, e)) => if e == end {
                Some(RDataView::MInfo(l1, l2))
            } else {
                None
            },
            None => None,
        },
        Type::MX => if end - start < 2 {
            None
        } else {
            match sole_name(msg, start + 2, end) {
                Some(l) => Some(RDataView::MX(be16_at(msg, start), l)),
                None => None,
            }
        },
        Type::SOA => match two_names_at(msg, start, end) {
            Some((l1, l2, e)) => if e + 20 == end {
                Some(
                    RDataView::SOA(
                        l1,
                        l2,
                        be32_at(msg, e),
                        be32_at(msg, e + 4),
                        be32_at(msg, e + 8),
                        be32_at(msg, e + 12),
                        be32_at(msg, e + 16),
                    ),
                )
            } else {
                None
            },
            None => None,
        },
        Type::NULL => Some(RDataView::Null(raw)),
        Type::TXT => Some(RDataView::TXT(latin1(raw))),
        Type::A => if class == Class::Internet {
            if end - start == 4 {
                Some(RDataView::A(be32_at(msg, start)))
            } else {
                None
            }
        } else {
            Some(RDataView::Unknown(class, ty, raw))
        },
        Type::WKS => if class == Class::Internet {
            if end - start >= 5 {
                Some(
                    RDataView::WKS(
                        be32_at(msg, start),
                        protocol_of_code(msg[start + 4]),
                        wks_ports(msg.subrange(start + 5, end)),
                    ),
                )
            } else {
                None
            }
        } else {
            Some(RDataView::Unknown(class, ty, raw))
        },
        _ => Some(RDataView::Unknown(class, ty, raw)),
    }
}

/// The resource record at `pos` of the message `msg`, and the offset just
/// after it.
pub open spec fn record_at(msg: Seq<u8>, pos: int) -> Option<(RecordView, int)> {
    match name_at(msg, pos, pos, msg.len() as int) {
        None => None,
        Some((n, p)) => if p + 10 > msg.len() {
            None
        } else {
            let ty = type_of_code(be16_at(msg, p));
            let class = class_of_code(be16_at(msg, p + 2));
            let ttl = be32_at(msg, p + 4) as i32;
            let len = be16_at(msg, p + 8) as int;
            if p + 10 + len > msg.len() {
                None
            } else {
                match rdata_at(msg, class, ty, p + 10, p + 10 + len) {
                    Some(d) => Some(
                        (RecordView { name: n, ty, class, ttl, rdata: d }, p + 10 + len),
                    ),
                    None => None,
                }
            }
        },
    }
}

/// The ports that the bitmap in `[from, to)` marks.
pub fn wks_port_list(msg: &[u8], from: usize, to: usize) -> (r: Vec<u16>)
    requires
        from <= to <= msg@.len(),
        to - from <= 65535,
    ensures
        r@ == wks_ports(msg@.subrange(from as int, to as int)),
{
    let ghost bits = msg@.subrange(from as int, to as int);
    let mut ports: Vec<u16> = Vec::new();
    let mut j: usize = from;
    while j < to
        invariant
            from <= j <= to <= msg@.len(),
            to - from <= 65535,
            bits == msg@.subrange(from as int, to as int),
            ports@ == ports_upto(bits, 8 * (j - from)),
        decreases to - j,
    {
        let byte = msg[j];
        let q: usize = j - from;
        let mut b: u8 = 0;
        while b < 8
            invariant
                from <= j < to <= msg@.len(),
                to - from <= 65535,
                q == j - from,
                b <= 8,
                byte == bits[q as int],
                bits == msg@.subrange(from as int, to as int),
                ports@ == ports_upto(bits, 8 * q + b),
            decreases 8 - b,
        {
            let ghost i: int = 8 * q + b;
            assert(i / 8 == q && i % 8 == b) by (nonlinear_arith)
                requires
                    i == 8 * q + b,
                    b < 8,
                    q >= 0,
            ;
            if (byte >> (7 - b)) & 1 == 1 {
                ports.push((8 * q + b as usize + 1) as u16);
            }
            b += 1;
            assert(ports@ =~= ports_upto(bits, 8 * q + b));
        }
        j += 1;
    }
    ports
}

fn sole_name_in(msg: &[u8], start: usize, end: usize) -> (r: Result<DomainName, Error>)
    ensures
        match r {
            Ok(n) => sole_name(msg@, start as int, end as int) == Some(n@),
            Err(e) => e == Error::FormatError && sole_name(msg@, start as int, end as int) is None,
        },
{
    let (n, e) = DomainName::parse(msg, start, end)?;
    if e != end {
        return Err(Error::FormatError);
    }
    Ok(n)
}

fn two_names_in(msg: &[u8], start: usize, end: usize) -> (r: Result<
    (DomainName, DomainName, usize),
    Error,
>)
    ensures
        match r {
            Ok((a, b, e)) => two_names_at(msg@, start as int, end as int) == Some(
                (a@, b@, e as int),
            ),
            Err(e) => e == Error::FormatError && two_names_at(msg@, start as int, end as int)
                is None,
        },
{
    let (a, e1) = DomainName::parse(msg, start, end)?;
    let (b, e2) = DomainName::parse(msg, e1, end)?;
    Ok((a, b, e2))
}

/// Reads the payload of class `class` and type `ty` that fills
/// `[start, end)` of the message `msg`. Unrecognised pairs are kept as
/// opaque bytes; the error is a format error exactly where `rdata_at` has no
/// payload.
pub fn parse_rdata(msg: &[u8], class: Class, ty: Type, start: usize, end: usize) -> (r: Result<
    RecordData,
    Error,
>)
    requires
        start <= end <= msg@.len(),
        end - start <= 65535,
    ensures
        match r {
            Ok(d) => rdata_at(msg@, class, ty, start as int, end as int) == Some(d@),
            Err(e) => e == Error::FormatError && rdata_at(
                msg@,
                class,
                ty,
                start as int,
                end as int,
            ) is None,
        },
{
    match ty {
        Type::CNAME => Ok(RecordData::CName(CName::new(sole_name_in(msg, start, end)?))),
        Type::NS => Ok(RecordData::NS(NS::new(sole_name_in(msg, start, end)?))),
        Type::MD => Ok(RecordData::MD(MD::new(sole_name_in(msg, start, end)?))),
        Type::MF => Ok(RecordData::MF(MF::new(sole_name_in(msg, start, end)?))),
        Type::MB => Ok(RecordData::MB(MB::new(sole_name_in(msg, start, end)?))),
        Type::MG => Ok(RecordData::MG(MG::new(sole_name_in(msg, start, end)?))),
        Type::MR => Ok(RecordData::MR(MR::new(sole_name_in(msg, start, end)?))),
        Type::PTR => Ok(RecordData::PTR(PTR::new(sole_name_in(msg, start, end)?))),
        Type::HINFO => {
            if end - start < 1 {
                return Err(Error::FormatError);
            }
            let first = msg[start] as usize;
            if first + 2 > end - start {
                return Err(Error::FormatError);
            }
            let p = start + 1 + first;
            if msg[p] as usize != end - p - 1 {
                return Err(Error::FormatError);
            }
            let cpu = latin1_string(msg, start + 1, p);
            let os = latin1_string(msg, p + 1, end);
            Ok(RecordData::HostInfo(HostInfo::new(cpu, os)))
        },
        Type::MINFO => {
            let (a, b, e) = two_names_in(msg, start, end)?;
            if e != end {
                return Err(Error::FormatError);
            }
            Ok(RecordData::MInfo(MInfo::new(a, b)))
        },
        Type::MX => {
            if end - start < 2 {
                return Err(Error::FormatError);
            }
            let preference = read_u16(msg, start);
            let exchange = sole_name_in(msg, start + 2, end)?;
            Ok(RecordData::MX(MX::new(preference, exchange)))
        },
        Type::SOA => {
            let (a, b, e) = two_names_in(msg, start, end)?;
            if e > end || end - e != 20 {
                return Err(Error::FormatError);
            }
            Ok(
                RecordData::SOA(
                    SOA::new(
                        a,
                        b,
                        read_u32(msg, e),
                        read_u32(msg, e + 4),
                        read_u32(msg, e + 8),
                        read_u32(msg, e + 12),
                        read_u32(msg, e + 16),
                    ),
                ),
            )
        },
        Type::NULL => Ok(RecordData::Null(Null::new(copy_range(msg, start, end)))),
        Type::TXT => Ok(RecordData::TXT(TXT::new(latin1_string(msg, start, end)))),
        Type::A => {
            if class == Class::Internet {
                if end - start != 4 {
                    return Err(Error::FormatError);
                }
                Ok(RecordData::A(A::new(read_u32(msg, start))))
            } else {
                Ok(RecordData::Unknown(class, ty, copy_range(msg, start, end)))
            }
        },
        Type::WKS => {
            if class == Class::Internet {
                if end - start < 5 {
                    return Err(Error::FormatError);
                }
                let address = read_u32(msg, start);
                let protocol = Protocol::from_code(msg[start + 4]);
                let ports = wks_port_list(msg, start + 5, end);
                Ok(RecordData::WKS(WKS::new(address, protocol, ports)))
            } else {
                Ok(RecordData::Unknown(class, ty, copy_range(msg, start, end)))
            }
        },
        _ => Ok(RecordData::Unknown(class, ty, copy_range(msg, start, end))),
    }
}

/// Reads the resource record at `pos` of the message `msg`: its name, type,
/// class, TTL, payload length and payload. The error is a format error
/// exactly where `record_at` has no record.
pub fn parse(msg: &[u8], pos: usize) -> (r: Result<(ResourceRecord, usize), Error>)
    ensures
        match r {
            Ok((rr, end)) => record_at(msg@, pos as int) == Some((rr@, end as int)),
            Err(e) => e == Error::FormatError && record_at(msg@, pos as int) is None,
        },
{
    let (name, p) = DomainName::parse(msg, pos, msg.len())?;
    if p > msg.len() || msg.len() - p < 10 {
        return Err(Error::FormatError);
    }
    let ty = Type::from_code(read_u16(msg, p));
    let class = Class::from_code(read_u16(msg, p + 2));
    let ttl = read_u32(msg, p + 4) as i32;
    let len = read_u16(msg, p + 8) as usize;
    if msg.len() - (p + 10) < len {
        return Err(Error::FormatError);
    }
    let rdata = parse_rdata(msg, class, ty, p + 10, p + 10 + len)?;
    Ok((ResourceRecord::new(name, ty, class, ttl, rdata), p + 10 + len))
}

/// Whether `p` is one of the listed ports.
pub open spec fn port_listed(ports: Seq<u16>, p: int) -> bool {
    exists|i: int| 0 <= i < ports.len() && ports[i] as int == p
}

/// The largest listed port, or 0 where none is listed.
pub open spec fn max_port(ports: Seq<u16>) -> int
    decreases ports.len(),
{
    if ports.len() == 0 {
        0
    } else {
        let m = max_port(ports.drop_last());
        if ports.last() as int > m {
            ports.last() as int
        } else {
            m
        }
    }
}

/// Byte `n` of a WKS bitmap: its bits, most significant first, stand for
/// ports `8 * n + 1` to `8 * n + 8`.
pub open spec fn bitmap_byte(ports: Seq<u16>, n: int) -> u8 {
    ((if port_listed(ports, 8 * n + 1) {
        128int
    } else {
        0
    }) + (if port_listed(ports, 8 * n + 2) {
        64int
    } else {
        0
    }) + (if port_listed(ports, 8 * n + 3) {
        32int
    } else {
        0
    }) + (if port_listed(ports, 8 * n + 4) {
        16int
    } else {
        0
    }) + (if port_listed(ports, 8 * n + 5) {
        8int
    } else {
        0
    }) + (if port_listed(ports, 8 * n + 6) {
        4int
    } else {
        0
    }) + (if port_listed(ports, 8 * n + 7) {
        2int
    } else {
        0
    }) + (if port_listed(ports, 8 * n + 8) {
        1int
    } else {
        0
    })) as u8
}

/// The shortest WKS bitmap that marks the listed ports (port 0 has no bit).
pub open spec fn wks_bitmap(ports: Seq<u16>) -> Seq<u8> {
    Seq::new(((max_port(ports) + 7) / 8) as nat, |n: int| bitmap_byte(ports, n))
}

/// The wire form of a payload; names are written uncompressed.
pub open spec fn rdata_bytes(d: RDataView) -> Seq<u8> {
    match d {
        RDataView::A(a) => be32_bytes(a),
        RDataView::NS(l) => name_bytes(l),
        RDataView::MD(l) => name_bytes(l),
        RDataView::MF(l) => name_bytes(l),
        RDataView::CName(l) => name_bytes(l),
        RDataView::SOA(l1, l2, a, b, c, e, f) => name_bytes(l1) + name_bytes(l2) + be32_bytes(a)
            + be32_bytes(b) + be32_bytes(c) + be32_bytes(e) + be32_bytes(f),
        RDataView::MB(l) => name_bytes(l),
        RDataView::MG(l) => name_bytes(l),
        RDataView::MR(l) => name_bytes(l),
        RDataView::Null(b) => b,
        RDataView::WKS(a, p, ports) => be32_bytes(a) + seq![code_of_protocol(p)] + wks_bitmap(
            ports,
        ),
        RDataView::PTR(l) => name_bytes(l),
        RDataView::HostInfo(c, o) => seq![c.len() as u8] + latin1_bytes(c) + seq![o.len() as u8]
            + latin1_bytes(o),
        RDataView::MInfo(l1, l2) => name_bytes(l1) + name_bytes(l2),
        RDataView::MX(p, l) => be16_bytes(p) + name_bytes(l),
        RDataView::TXT(t) => latin1_bytes(t),
        RDataView::Unknown(_, _, b) => b,
    }
}

/// Whether a payload has a wire form: its names fit, and its text has one
/// byte per character, within the length byte where there is one.
pub open spec fn rdata_writable(d: RDataView) -> bool {
    match d {
        RDataView::NS(l) => labels_fit(l),
        RDataView::MD(l) => labels_fit(l),
        RDataView::MF(l) => labels_fit(l),
        RDataView::CName(l) => labels_fit(l),
        RDataView::SOA(l1, l2, _, _, _, _, _) => labels_fit(l1) && labels_fit(l2),
        RDataView::MB(l) => labels_fit(l),
        RDataView::MG(l) => labels_fit(l),
        RDataView::MR(l) => labels_fit(l),
        RDataView::PTR(l) => labels_fit(l),
        RDataView::HostInfo(c, o) => c.len() <= 255 && o.len() <= 255 && latin1_fits(c)
            && latin1_fits(o),
        RDataView::MInfo(l1, l2) => labels_fit(l1) && labels_fit(l2),
        RDataView::MX(_, l) => labels_fit(l),
        RDataView::TXT(t) => latin1_fits(t),
        _ => true,
    }
}

/// The wire form of a resource record: owner name uncompressed, type,
/// class, TTL, payload length, payload.
pub open spec fn record_bytes(r: RecordView) -> Seq<u8> {
    name_bytes(r.name) + be16_bytes(code_of_type(r.ty)) + be16_bytes(code_of_class(r.class))
        + be32_bytes(r.ttl as u32) + be16_bytes(rdata_bytes(r.rdata).len() as u16) + rdata_bytes(
        r.rdata,
    )
}

/// Whether a resource record has a wire form.
pub open spec fn record_writable(r: RecordView) -> bool {
    labels_fit(r.name) && rdata_writable(r.rdata) && rdata_bytes(r.rdata).len() <= 65535
}

/// Appends the uncompressed wire form of `n` where its labels fit.
fn write_name(n: &DomainName, out: &mut Vec<u8>) -> (ok: bool)
    ensures
        ok == labels_fit(n@),
        ok ==> final(out)@ == old(out)@ + name_bytes(n@),
{
    if n.fits_wire() {
        n.write_to(out);
        true
    } else {
        false
    }
}

fn port_in(ports: &[u16], p: usize) -> (r: bool)
    ensures
        r == port_listed(ports@, p as int),
{
    let mut i: usize = 0;
    while i < ports.len()
        invariant
            i <= ports@.len(),
            forall|j: int| 0 <= j < i ==> ports@[j] as int != p,
        decreases ports@.len() - i,
    {
        if ports[i] as usize == p {
            return true;
        }
        i += 1;
    }
    false
}

/// The WKS bitmap of the listed ports.
pub fn wks_bitmap_of(ports: &[u16]) -> (r: Vec<u8>)
    ensures
        r@ == wks_bitmap(ports@),
{
    let mut m: u16 = 0;
    let mut i: usize = 0;
    while i < ports.len()
        invariant
            i <= ports@.len(),
            m as int == max_port(ports@.take(i as int)),
        decreases ports@.len() - i,
    {
        assert(ports@.take(i + 1).drop_last() =~= ports@.take(i as int));
        if ports[i] > m {
            m = ports[i];
        }
        i += 1;
    }
    assert(ports@.take(i as int) =~= ports@);
    let len: usize = (m as usize + 7) / 8;
    let mut r: Vec<u8> = Vec::new();
    let mut n: usize = 0;
    while n < len
        invariant
            len == (max_port(ports@) + 7) / 8,
            len <= 8192,
            n <= len,
            r@.len() == n,
            forall|k: int| 0 <= k < n ==> r@[k] == bitmap_byte(ports@, k),
        decreases len - n,
    {
        let base = 8 * n;
        let mut byte: u8 = 0;
        if port_in(ports, base + 1) {
            byte = byte + 128;
        }
        if port_in(ports, base + 2) {
            byte = byte + 64;
        }
        if port_in(ports, base + 3) {
            byte = byte + 32;
        }
        if port_in(ports, base + 4) {
            byte = byte + 16;
        }
        if port_in(ports, base + 5) {
            byte = byte + 8;
        }
        if port_in(ports, base + 6) {
            byte = byte + 4;
        }
        if port_in(ports, base + 7) {
            byte = byte + 2;
        }
        if port_in(ports, base + 8) {
            byte = byte + 1;
        }
        r.push(byte);
        n += 1;
    }
    assert(r@ =~= wks_bitmap(ports@));
    r
}

/// Appends the one-byte forms of the characters of `s` after their count,
/// where they all have one and there are at most 255.
fn write_counted_text(s: &str, out: &mut Vec<u8>) -> (ok: bool)
    ensures
        ok == (s@.len() <= 255 && latin1_fits(s@)),
        ok ==> final(out)@ == old(out)@ + seq![s@.len() as u8] + latin1_bytes(s@),
{
    match latin1_encode(s) {
        None => false,
        Some(b) => {
            if b.len() > 255 {
                return false;
            }
            out.push(b.len() as u8);
            push_all(out, b.as_slice());
            true
        },
    }
}

impl RecordData {
    /// Appends the wire form of the payload where it has one.
    pub fn write_to(&self, out: &mut Vec<u8>) -> (ok: bool)
        ensures
            ok == rdata_writable(self@),
            ok ==> final(out)@ == old(out)@ + rdata_bytes(self@),
    {
        let ghost start = old(out)@;
        match self {
            RecordData::A(a) => {
                push_u32(out, a.address);
                true
            },
            RecordData::NS(x) => write_name(&x.domain_name, out),
            RecordData::MD(x) => write_name(&x.mail_agent_domain_name, out),
            RecordData::MF(x) => write_name(&x.mail_agent_domain_name, out),
            RecordData::CName(x) => write_name(&x.cname, out),
            RecordData::SOA(x) => {
                if !write_name(&x.primary_source_domain, out) {
                    return false;
                }
                if !write_name(&x.responsible_person_email, out) {
                    return false;
                }
                push_u32(out, x.serial);
                push_u32(out, x.refresh);
                push_u32(out, x.retry);
                push_u32(out, x.expire);
                push_u32(out, x.minimum);
                assert(out@ =~= start + rdata_bytes(self@));
                true
            },
            RecordData::MB(x) => write_name(&x.mail_agent_domain_name, out),
            RecordData::MG(x) => write_name(&x.mail_group_member_name, out),
            RecordData::MR(x) => write_name(&x.new_name, out),
            RecordData::Null(x) => {
                push_all(out, x.bytes.as_slice());
                true
            },
            RecordData::WKS(x) => {
                push_u32(out, x.address);
                out.push(x.protocol.code());
                let bitmap = wks_bitmap_of(x.ports.as_slice());
                push_all(out, bitmap.as_slice());
                assert(out@ =~= start + rdata_bytes(self@));
                true
            },
            RecordData::PTR(x) => write_name(&x.pointer_domain_name, out),
            RecordData::HostInfo(x) => {
                if !write_counted_text(x.cpu.as_str(), out) {
                    return false;
                }
                if !write_counted_text(x.os.as_str(), out) {
                    return false;
                }
                assert(out@ =~= start + rdata_bytes(self@));
                true
            },
            RecordData::MInfo(x) => {
                if !write_name(&x.responsible_mailbox, out) {
                    return false;
                }
                if !write_name(&x.error_mailbox, out) {
                    return false;
                }
                assert(out@ =~= start + rdata_bytes(self@));
                true
            },
            RecordData::MX(x) => {
                push_u16(out, x.preference);
                if !write_name(&x.exchange, out) {
                    return false;
                }
                assert(out@ =~= start + rdata_bytes(self@));
                true
            },
            RecordData::TXT(x) => match latin1_encode(x.text_data.as_str()) {
                None => false,
                Some(b) => {
                    push_all(out, b.as_slice());
                    true
                },
            },
            RecordData::Unknown(_, _, b) => {
                push_all(out, b.as_slice());
                true
            },
        }
    }
}

impl ResourceRecord {
    /// Appends the wire form of the record where it has one.
    pub fn write_to(&self, out: &mut Vec<u8>) -> (ok: bool)
        ensures
            ok == record_writable(self@),
            ok ==> final(out)@ == old(out)@ + record_bytes(self@),
    {
        let ghost start = old(out)@;
        let mut body: Vec<u8> = Vec::new();
        let data_ok = self.rdata.write_to(&mut body);
        if !data_ok {
            return false;
        }
        if body.len() > 65535 {
            return false;
        }
        if !write_name(&self.name, out) {
            return false;
        }
        push_u16(out, self.ty.code());
        push_u16(out, self.class.code());
        push_u32(out, #[verifier::truncate] (self.ttl as u32));
        push_u16(out, body.len() as u16);
        push_all(out, body.as_slice());
        assert(out@ =~= start + record_bytes(self@));
        true
    }

    /// The wire form of the record; an out-of-range error where it has none
    /// (see `record_writable`).
    pub fn to_bytes(&self) -> (r: Result<Vec<u8>, Error>)
        ensures
            match r {
                Ok(b) => record_writable(self@) && b@ == record_bytes(self@),
                Err(e) => e == Error::OutOfRange && !record_writable(self@),
            },
    {
        let mut out: Vec<u8> = Vec::new();
        if self.write_to(&mut out) {
            assert(out@ =~= record_bytes(self@));
            Ok(out)
        } else {
            Err(Error::OutOfRange)
        }
    }
}

} // verus!
