//! Whole messages: the header, the four section counts and the sections.

use vstd::prelude::*;
use crate::domain_name::{labels_fit, labels_on_wire, lemma_name_round_trip, name_bytes};
use crate::error::Error;
use crate::header::{header_at, header_bytes, header_parser, lemma_header_round_trip, Header, Opcode};
use crate::question::{question_at, question_bytes, Question, QuestionView};
use crate::resource_record::{record_at, record_bytes, record_writable, RecordView, ResourceRecord};
use crate::wire::{be16_at, be16_bytes, lemma_be16_round_trip, push_u16, read_u16};
use crate::{code_of_class, code_of_type};

verus! {

/// A DNS message.
#[derive(Clone, Debug)]
pub struct Message {
    pub header: Header,
    pub questions: Vec<Question>,
    pub answers: Vec<ResourceRecord>,
    pub authorities: Vec<ResourceRecord>,
    pub additional_records: Vec<ResourceRecord>,
}

/// What a message holds, as mathematical values.
pub struct MessageView {
    pub header: Header,
    pub questions: Seq<QuestionView>,
    pub answers: Seq<RecordView>,
    pub authorities: Seq<RecordView>,
    pub additional_records: Seq<RecordView>,
}

pub open spec fn questions_view(v: Seq<Question>) -> Seq<QuestionView> {
    v.map_values(|q: Question| q@)
}

pub open spec fn records_view(v: Seq<ResourceRecord>) -> Seq<RecordView> {
    v.map_values(|r: ResourceRecord| r@)
}

impl View for Message {
    type V = MessageView;

    open spec fn view(&self) -> MessageView {
        MessageView {
            header: self.header,
            questions: questions_view(self.questions@),
            answers: records_view(self.answers@),
            authorities: records_view(self.authorities@),
            additional_records: records_view(self.additional_records@),
        }
    }
}

/// The `n` questions that follow one another from `pos`, and the offset
/// just after the last.
pub open spec fn questions_at(msg: Seq<u8>, pos: int, n: nat) -> Option<(Seq<QuestionView>, int)>
    decreases n,
{
    if n == 0 {
        Some((Seq::empty(), pos))
    } else {
        match questions_at(msg, pos, (n - 1) as nat) {
            Some((qs, p)) => match question_at(msg, p) {
                Some((q, e)) => Some((qs.push(q), e)),
                None => None,
            },
            None => None,
        }
    }
}

/// The `n` resource records that follow one another from `pos`, and the
/// offset just after the last.
pub open spec fn records_at(msg: Seq<u8>, pos: int, n: nat) -> Option<(Seq<RecordView>, int)>
    decreases n,
{
    if n == 0 {
        Some((Seq::empty(), pos))
    } else {
        match records_at(msg, pos, (n - 1) as nat) {
            Some((rs, p)) => match record_at(msg, p) {
                Some((r, e)) => Some((rs.push(r), e)),
                None => None,
            },
            None => None,
        }
    }
}

/// The message that the bytes `msg` hold: the header, four counts, then
/// exactly that many questions, answers, authorities and additional records,
/// with nothing left over.
pub open spec fn message_at(msg: Seq<u8>) -> Option<MessageView> {
    if msg.len() < 12 {
        None
    } else {
        match questions_at(msg, 12, be16_at(msg, 4) as nat) {
            None => None,
            Some((qs, p1)) => match records_at(msg, p1, be16_at(msg, 6) as nat) {
                None => None,
                Some((ans, p2)) => match records_at(msg, p2, be16_at(msg, 8) as nat) {
                    None => None,
                    Some((auth, p3)) => match records_at(msg, p3, be16_at(msg, 10) as nat) {
                        None => None,
                        Some((add, p4)) => if p4 == msg.len() {
                            Some(
                                MessageView {
                                    header: header_at(msg, 0),
                                    questions: qs,
                                    answers: ans,
                                    authorities: auth,
                                    additional_records: add,
                                },
                            )
                        } else {
                            None
                        },
                    },
                },
            },
        }
    }
}

/// The wire form of a sequence of questions.
pub open spec fn questions_bytes(qs: Seq<QuestionView>) -> Seq<u8>
    decreases qs.len(),
{
    if qs.len() == 0 {
        Seq::empty()
    } else {
        questions_bytes(qs.drop_last()) + question_bytes(qs.last())
    }
}

/// The wire form of a sequence of resource records.
pub open spec fn records_bytes(rs: Seq<RecordView>) -> Seq<u8>
    decreases rs.len(),
{
    if rs.len() == 0 {
        Seq::empty()
    } else {
        records_bytes(rs.drop_last()) + record_bytes(rs.last())
    }
}

/// The wire form of a message: the header, the four section counts, then
/// the four sections in order, every name uncompressed.
pub open spec fn message_bytes(m: MessageView) -> Seq<u8> {
    header_bytes(m.header) + be16_bytes(m.questions.len() as u16) + be16_bytes(
        m.answers.len() as u16,
    ) + be16_bytes(m.authorities.len() as u16) + be16_bytes(m.additional_records.len() as u16)
        + questions_bytes(m.questions) + records_bytes(m.answers) + records_bytes(m.authorities)
        + records_bytes(m.additional_records)
}

/// Whether every record of a section has a wire form.
pub open spec fn records_writable(rs: Seq<RecordView>) -> bool {
    forall|i: int| 0 <= i < rs.len() ==> record_writable(#[trigger] rs[i])
}

/// Whether a message has a wire form: every section count fits sixteen
/// bits, every question name fits, and every record has a wire form.
pub open spec fn writable(m: MessageView) -> bool {
    &&& m.questions.len() <= 65535
    &&& m.answers.len() <= 65535
    &&& m.authorities.len() <= 65535
    &&& m.additional_records.len() <= 65535
    &&& forall|i: int| 0 <= i < m.questions.len() ==> labels_fit(#[trigger] m.questions[i].name)
    &&& records_writable(m.answers)
    &&& records_writable(m.authorities)
    &&& records_writable(m.additional_records)
}

fn write_records(rs: &Vec<ResourceRecord>, out: &mut Vec<u8>) -> (ok: bool)
    ensures
        ok == records_writable(records_view(rs@)),
        ok ==> final(out)@ == old(out)@ + records_bytes(records_view(rs@)),
{
    let ghost start = old(out)@;
    let ghost all = records_view(rs@);
    let mut i: usize = 0;
    while i < rs.len()
        invariant
            i <= rs@.len(),
            all == records_view(rs@),
            forall|j: int| 0 <= j < i ==> record_writable(#[trigger] all[j]),
            out@ == start + records_bytes(all.take(i as int)),
        decreases rs@.len() - i,
    {
        assert(all[i as int] == rs@[i as int]@);
        if !rs[i].write_to(out) {
            return false;
        }
        assert(all.take(i + 1).drop_last() =~= all.take(i as int));
        i += 1;
        assert(out@ =~= start + records_bytes(all.take(i as int)));
    }
    assert(all.take(i as int) =~= all);
    true
}

fn write_questions(qs: &Vec<Question>, out: &mut Vec<u8>) -> (ok: bool)
    ensures
        ok == forall|i: int|
            0 <= i < qs@.len() ==> labels_fit(#[trigger] questions_view(qs@)[i].name),
        ok ==> final(out)@ == old(out)@ + questions_bytes(questions_view(qs@)),
{
    let ghost start = old(out)@;
    let ghost all = questions_view(qs@);
    let mut i: usize = 0;
    while i < qs.len()
        invariant
            i <= qs@.len(),
            all == questions_view(qs@),
            forall|j: int| 0 <= j < i ==> labels_fit(#[trigger] all[j].name),
            out@ == start + questions_bytes(all.take(i as int)),
        decreases qs@.len() - i,
    {
        assert(all[i as int] == qs@[i as int]@);
        if !qs[i].name.fits_wire() {
            assert(!labels_fit(all[i as int].name));
            return false;
        }
        qs[i].write_to(out);
        assert(all.take(i + 1).drop_last() =~= all.take(i as int));
        i += 1;
        assert(out@ =~= start + questions_bytes(all.take(i as int)));
    }
    assert(all.take(i as int) =~= all);
    true
}

proof fn lemma_questions_none_stays(msg: Seq<u8>, pos: int, k: nat, n: nat)
    requires
        k <= n,
        questions_at(msg, pos, k) is None,
    ensures
        questions_at(msg, pos, n) is None,
    decreases n - k,
{
    if k < n {
        lemma_questions_none_stays(msg, pos, k + 1, n);
    }
}

proof fn lemma_records_none_stays(msg: Seq<u8>, pos: int, k: nat, n: nat)
    requires
        k <= n,
        records_at(msg, pos, k) is None,
    ensures
        records_at(msg, pos, n) is None,
    decreases n - k,
{
    if k < n {
        lemma_records_none_stays(msg, pos, k + 1, n);
    }
}

fn parse_questions(msg: &[u8], pos: usize, n: u16) -> (r: Result<(Vec<Question>, usize), Error>)
    ensures
        match r {
            Ok((qs, end)) => questions_at(msg@, pos as int, n as nat) == Some(
                (questions_view(qs@), end as int),
            ),
            Err(e) => e == Error::FormatError && questions_at(msg@, pos as int, n as nat) is None,
        },
{
    let mut qs: Vec<Question> = Vec::new();
    let mut p: usize = pos;
    let mut i: u16 = 0;
    while i < n
        invariant
            i <= n,
            questions_at(msg@, pos as int, i as nat) == Some((questions_view(qs@), p as int)),
        decreases n - i,
    {
        match crate::question::parse(msg, p) {
            Err(e) => {
                proof {
                    lemma_questions_none_stays(msg@, pos as int, (i + 1) as nat, n as nat);
                }
                return Err(e);
            },
            Ok((q, e)) => {
                let ghost before = questions_view(qs@);
                qs.push(q);
                assert(questions_view(qs@) =~= before.push(q@));
                p = e;
                i += 1;
            },
        }
    }
    Ok((qs, p))
}

fn parse_records(msg: &[u8], pos: usize, n: u16) -> (r: Result<
    (Vec<ResourceRecord>, usize),
    Error,
>)
    ensures
        match r {
            Ok((rs, end)) => records_at(msg@, pos as int, n as nat) == Some(
                (records_view(rs@), end as int),
            ),
            Err(e) => e == Error::FormatError && records_at(msg@, pos as int, n as nat) is None,
        },
{
    let mut rs: Vec<ResourceRecord> = Vec::new();
    let mut p: usize = pos;
    let mut i: u16 = 0;
    while i < n
        invariant
            i <= n,
            records_at(msg@, pos as int, i as nat) == Some((records_view(rs@), p as int)),
        decreases n - i,
    {
        match crate::resource_record::parse(msg, p) {
            Err(e) => {
                proof {
                    lemma_records_none_stays(msg@, pos as int, (i + 1) as nat, n as nat);
                }
                return Err(e);
            },
            Ok((rr, e)) => {
                let ghost before = records_view(rs@);
                rs.push(rr);
                assert(records_view(rs@) =~= before.push(rr@));
                p = e;
                i += 1;
            },
        }
    }
    Ok((rs, p))
}

/// Reads a whole message. The error is a format error exactly where
/// `message_at` has no message: too few bytes for what the counts announce,
/// a malformed element, or bytes left over.
pub fn parse(msg: &[u8]) -> (r: Result<Message, Error>)
    ensures
        match r {
            Ok(m) => message_at(msg@) == Some(m@),
            Err(e) => e == Error::FormatError && message_at(msg@) is None,
        },
{
    if msg.len() < 12 {
        return Err(Error::FormatError);
    }
    let header = match header_parser(msg, 0) {
        Some((h, _)) => h,
        None => {
            return Err(Error::FormatError);
        },
    };
    let question_count = read_u16(msg, 4);
    let answer_count = read_u16(msg, 6);
    let nameserver_count = read_u16(msg, 8);
    let additional_count = read_u16(msg, 10);
    let (questions, p1) = parse_questions(msg, 12, question_count)?;
    let (answers, p2) = parse_records(msg, p1, answer_count)?;
    let (authorities, p3) = parse_records(msg, p2, nameserver_count)?;
    let (additional_records, p4) = parse_records(msg, p3, additional_count)?;
    if p4 != msg.len() {
        return Err(Error::FormatError);
    }
    Ok(Message { header, questions, answers, authorities, additional_records })
}

impl Message {
    /// A standard query for the given questions, with a random id.
    pub fn new_query(recursion_desired: bool, questions: Vec<Question>) -> (r: Message)
        ensures
            !r.header.is_answer,
            r.header.opcode == Opcode::Query,
            !r.header.authoritive_answer,
            !r.header.truncation,
            r.header.recursion_desired == recursion_desired,
            !r.header.recursion_available,
            r.header.response_code == crate::header::ReturnCode::NoError,
            r@.questions == questions_view(questions@),
            r.answers@.len() == 0,
            r.authorities@.len() == 0,
            r.additional_records@.len() == 0,
    {
        Message {
            header: Header::new_question(Opcode::Query, recursion_desired),
            questions,
            answers: Vec::new(),
            authorities: Vec::new(),
            additional_records: Vec::new(),
        }
    }

    /// An inverse query for the given records, carried in the answer
    /// section, with a random id.
    pub fn new_inverse_query(recursion_desired: bool, questions: Vec<ResourceRecord>) -> (r:
        Message)
        ensures
            !r.header.is_answer,
            r.header.opcode == Opcode::InverseQuery,
            !r.header.authoritive_answer,
            !r.header.truncation,
            r.header.recursion_desired == recursion_desired,
            !r.header.recursion_available,
            r.header.response_code == crate::header::ReturnCode::NoError,
            r.questions@.len() == 0,
            r@.answers == records_view(questions@),
            r.authorities@.len() == 0,
            r.additional_records@.len() == 0,
    {
        Message {
            header: Header::new_question(Opcode::InverseQuery, recursion_desired),
            questions: Vec::new(),
            answers: questions,
            authorities: Vec::new(),
            additional_records: Vec::new(),
        }
    }

    /// Whether the message is a query (its QR bit is clear).
    pub fn is_question(&self) -> (r: bool)
        ensures
            r == !self.header.is_answer,
    {
        !self.header.is_query()
    }

    /// Whether the message is a response (its QR bit is set).
    pub fn is_answer(&self) -> (r: bool)
        ensures
            r == self.header.is_answer,
    {
        self.header.is_query()
    }

    pub fn header(&self) -> (r: &Header)
        ensures
            *r == self.header,
    {
        &self.header
    }

    pub fn questions(&self) -> (r: &[Question])
        ensures
            r@ == self.questions@,
    {
        self.questions.as_slice()
    }

    pub fn answers(&self) -> (r: &[ResourceRecord])
        ensures
            r@ == self.answers@,
    {
        self.answers.as_slice()
    }

    pub fn authorities(&self) -> (r: &[ResourceRecord])
        ensures
            r@ == self.authorities@,
    {
        self.authorities.as_slice()
    }

    pub fn additional_records(&self) -> (r: &[ResourceRecord])
        ensures
            r@ == self.additional_records@,
    {
        self.additional_records.as_slice()
    }

    /// The wire form of the message: the header with the id it holds, the
    /// four section counts, then the four sections. An out-of-range error
    /// where the message has none (see `writable`).
    pub fn to_bytes(&self) -> (r: Result<Vec<u8>, Error>)
        ensures
            match r {
                Ok(b) => writable(self@) && b@ == message_bytes(self@),
                Err(e) => e == Error::OutOfRange && !writable(self@),
            },
    {
        if self.questions.len() > 65535 || self.answers.len() > 65535 || self.authorities.len()
            > 65535 || self.additional_records.len() > 65535 {
            return Err(Error::OutOfRange);
        }
        let mut out: Vec<u8> = Vec::new();
        self.header.write_to(&mut out);
        push_u16(&mut out, self.questions.len() as u16);
        push_u16(&mut out, self.answers.len() as u16);
        push_u16(&mut out, self.authorities.len() as u16);
        push_u16(&mut out, self.additional_records.len() as u16);
        if !write_questions(&self.questions, &mut out) {
            return Err(Error::OutOfRange);
        }
        if !write_records(&self.answers, &mut out) {
            return Err(Error::OutOfRange);
        }
        if !write_records(&self.authorities, &mut out) {
            return Err(Error::OutOfRange);
        }
        if !write_records(&self.additional_records, &mut out) {
            return Err(Error::OutOfRange);
        }
        assert(out@ =~= message_bytes(self@));
        Ok(out)
    }
}

/// Whether a question reads back as itself: its name fits the wire form
/// with no empty label, and its type and class are the values that their
/// codes decode to.
pub open spec fn question_on_wire(q: QuestionView) -> bool {
    labels_on_wire(q.name) && q.ty.canonical() && q.class.canonical()
}

/// Questions written one after another read back as the same questions.
pub proof fn lemma_questions_round_trip(msg: Seq<u8>, pos: int, qs: Seq<QuestionView>)
    requires
        0 <= pos,
        pos + questions_bytes(qs).len() <= msg.len(),
        msg.subrange(pos, pos + questions_bytes(qs).len()) == questions_bytes(qs),
        forall|i: int| 0 <= i < qs.len() ==> question_on_wire(#[trigger] qs[i]),
    ensures
        questions_at(msg, pos, qs.len()) == Some((qs, pos + questions_bytes(qs).len())),
    decreases qs.len(),
{
    if qs.len() > 0 {
        let init = qs.drop_last();
        let q = qs.last();
        let a: int = questions_bytes(init).len() as int;
        let qb = question_bytes(q);
        let nb = name_bytes(q.name);
        let all = questions_bytes(qs);
        assert(all == questions_bytes(init) + qb);
        assert(msg.subrange(pos, pos + a) =~= questions_bytes(init)) by {
            assert forall|k: int| 0 <= k < a implies msg.subrange(pos, pos + a)[k]
                == questions_bytes(init)[k] by {
                assert(msg[pos + k] == all[k]);
            }
        }
        assert forall|i: int| 0 <= i < init.len() implies question_on_wire(#[trigger] init[i]) by {
            assert(init[i] == qs[i]);
        }
        lemma_questions_round_trip(msg, pos, init);
        assert(question_on_wire(qs[qs.len() - 1]));
        let p = pos + a;
        let n: int = nb.len() as int;
        assert(msg.subrange(p, p + n) =~= nb) by {
            assert forall|k: int| 0 <= k < n implies msg.subrange(p, p + n)[k] == nb[k] by {
                assert(msg[p + k] == all[a + k]);
                assert(all[a + k] == qb[k]);
            }
        }
        lemma_name_round_trip(msg, p, msg.len() as int, q.name);
        let tb = be16_bytes(code_of_type(q.ty));
        let cb = be16_bytes(code_of_class(q.class));
        assert(msg[p + n] == all[a + n] && all[a + n] == qb[n] && qb[n] == tb[0]);
        assert(msg[p + n + 1] == all[a + n + 1] && all[a + n + 1] == qb[n + 1] && qb[n + 1]
            == tb[1]);
        assert(msg[p + n + 2] == all[a + n + 2] && all[a + n + 2] == qb[n + 2] && qb[n + 2]
            == cb[0]);
        assert(msg[p + n + 3] == all[a + n + 3] && all[a + n + 3] == qb[n + 3] && qb[n + 3]
            == cb[1]);
        lemma_be16_round_trip(code_of_type(q.ty));
        lemma_be16_round_trip(code_of_class(q.class));
        assert(be16_at(msg, p + n) == be16_at(tb, 0));
        assert(be16_at(msg, p + n + 2) == be16_at(cb, 0));
        assert(init.push(q) =~= qs);
    }
}

/// A query with only questions, written and read back, gives the same
/// header and questions, and its four counts are the lengths of the four
/// sections.
pub proof fn lemma_query_round_trip(m: MessageView)
    requires
        m.header.on_wire(),
        m.questions.len() <= 65535,
        m.answers.len() == 0,
        m.authorities.len() == 0,
        m.additional_records.len() == 0,
        forall|i: int| 0 <= i < m.questions.len() ==> question_on_wire(#[trigger] m.questions[i]),
    ensures
        message_at(message_bytes(m)) == Some(m),
        be16_at(message_bytes(m), 4) == m.questions.len(),
        be16_at(message_bytes(m), 6) == m.answers.len(),
        be16_at(message_bytes(m), 8) == m.authorities.len(),
        be16_at(message_bytes(m), 10) == m.additional_records.len(),
{
    let b = message_bytes(m);
    let hb = header_bytes(m.header);
    let c0 = be16_bytes(m.questions.len() as u16);
    let z = be16_bytes(0u16);
    let qb = questions_bytes(m.questions);
    assert(records_bytes(Seq::<RecordView>::empty()) == Seq::<u8>::empty());
    assert(m.answers =~= Seq::<RecordView>::empty());
    assert(m.authorities =~= Seq::<RecordView>::empty());
    assert(m.additional_records =~= Seq::<RecordView>::empty());
    assert(b =~= hb + c0 + z + z + z + qb);
    assert(b.subrange(0, 4) =~= hb);
    lemma_header_round_trip(m.header, b, 0);
    lemma_be16_round_trip(m.questions.len() as u16);
    lemma_be16_round_trip(0u16);
    assert(be16_at(b, 4) == be16_at(c0, 0));
    assert(be16_at(b, 6) == be16_at(z, 0));
    assert(be16_at(b, 8) == be16_at(z, 0));
    assert(be16_at(b, 10) == be16_at(z, 0));
    assert(b.subrange(12, 12 + qb.len() as int) =~= qb);
    lemma_questions_round_trip(b, 12, m.questions);
    let p1: int = 12 + qb.len() as int;
    assert(records_at(b, p1, 0) == Some((Seq::<RecordView>::empty(), p1)));
    assert(m.answers =~= Seq::<RecordView>::empty());
    assert(m.authorities =~= Seq::<RecordView>::empty());
    assert(m.additional_records =~= Seq::<RecordView>::empty());
}

} // verus!
