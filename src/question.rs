//! Questions: a name, the type asked for and the class.

use vstd::prelude::*;
use crate::domain_name::{labels_fit, name_at, name_bytes, DomainName};
use crate::error::Error;
use crate::wire::{be16_at, be16_bytes, push_u16, read_u16};
use crate::{class_of_code, code_of_class, code_of_type, type_of_code, Class, Type};

verus! {

/// A question of a message.
#[derive(Clone, Debug)]
pub struct Question {
    pub name: DomainName,
    pub ty: Type,
    pub class: Class,
}

/// What a question holds, as mathematical values.
pub struct QuestionView {
    pub name: Seq<Seq<char>>,
    pub ty: Type,
    pub class: Class,
}

impl View for Question {
    type V = QuestionView;

    open spec fn view(&self) -> QuestionView {
        QuestionView { name: self.name@, ty: self.ty, class: self.class }
    }
}

/// The question at `pos` of the message `msg`, and the offset just after it.
pub open spec fn question_at(msg: Seq<u8>, pos: int) -> Option<(QuestionView, int)> {
    match name_at(msg, pos, pos, msg.len() as int) {
        None => None,
        Some((n, p)) => if p + 4 > msg.len() {
            None
        } else {
            Some(
                (
                    QuestionView {
                        name: n,
                        ty: type_of_code(be16_at(msg, p)),
                        class: class_of_code(be16_at(msg, p + 2)),
                    },
                    p + 4,
                ),
            )
        },
    }
}

/// The wire form of a question: its name uncompressed, the type, the class.
pub open spec fn question_bytes(q: QuestionView) -> Seq<u8> {
    name_bytes(q.name) + be16_bytes(code_of_type(q.ty)) + be16_bytes(code_of_class(q.class))
}

impl Question {
    pub fn new(name: DomainName, question_type: Type, class: Class) -> (r: Question)
        ensures
            r.name@ == name@,
            r.ty == question_type,
            r.class == class,
    {
        Question { name, ty: question_type, class }
    }

    pub fn name(&self) -> (r: &DomainName)
        ensures
            r@ == self.name@,
    {
        &self.name
    }

    pub fn question_type(&self) -> (r: Type)
        ensures
            r == self.ty,
    {
        self.ty
    }

    pub fn class(&self) -> (r: Class)
        ensures
            r == self.class,
    {
        self.class
    }

    /// Appends the wire form of the question.
    pub fn write_to(&self, out: &mut Vec<u8>)
        requires
            labels_fit(self.name@),
        ensures
            final(out)@ == old(out)@ + question_bytes(self@),
    {
        self.name.write_to(out);
        push_u16(out, self.ty.code());
        push_u16(out, self.class.code());
        assert(final(out)@ =~= old(out)@ + question_bytes(self@));
    }

    /// The wire form of the question.
    pub fn to_bytes(&self) -> (r: Vec<u8>)
        requires
            labels_fit(self.name@),
        ensures
            r@ == question_bytes(self@),
    {
        let mut out: Vec<u8> = Vec::new();
        self.write_to(&mut out);
        assert(out@ =~= question_bytes(self@));
        out
    }
}

/// Reads the question at `pos` of the message `msg`. Every type and class
/// code is representable; the error is a format error exactly where
/// `question_at` has no question.
pub fn parse(msg: &[u8], pos: usize) -> (r: Result<(Question, usize), Error>)
    ensures
        match r {
            Ok((q, end)) => question_at(msg@, pos as int) == Some((q@, end as int)),
            Err(e) => e == Error::FormatError && question_at(msg@, pos as int) is None,
        },
{
    let (name, p) = DomainName::parse(msg, pos, msg.len())?;
    if p > msg.len() || msg.len() - p < 4 {
        return Err(Error::FormatError);
    }
    let ty = Type::from_code(read_u16(msg, p));
    let class = Class::from_code(read_u16(msg, p + 2));
    Ok((Question::new(name, ty, class), p + 4))
}

} // verus!
