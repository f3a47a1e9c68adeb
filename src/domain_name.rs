//! Domain names: label sequences, read from the wire with compression
//! pointers resolved, and written back without them.

use vstd::prelude::*;
use vstd::utf8::{
    decode_utf8, encode_utf8, is_char_boundary, is_continuation_byte, length_of_first_scalar,
    pop_first_scalar, valid_utf8,
};
use crate::error::Error;

verus! {

broadcast use vstd::utf8::encode_utf8_valid_utf8, vstd::utf8::encode_utf8_decode_utf8;

/// A domain name: its labels in order, without the root.
#[derive(Clone, Debug)]
pub struct DomainName {
    pub labels: Vec<String>,
}

impl View for DomainName {
    type V = Seq<Seq<char>>;

    open spec fn view(&self) -> Seq<Seq<char>> {
        self.labels@.map_values(|s: String| s@)
    }
}

/// Prepends `ls` to the labels of a parse result, keeping its end.
pub open spec fn with_prefix(ls: Seq<Seq<char>>, r: Option<(Seq<Seq<char>>, int)>) -> Option<
    (Seq<Seq<char>>, int),
> {
    match r {
        Some((rest, end)) => Some((ls + rest, end)),
        None => None,
    }
}

/// The offset that a compression pointer at `pos` refers to.
pub open spec fn pointer_target(msg: Seq<u8>, pos: int) -> int {
    (msg[pos] as int - 192) * 256 + msg[pos + 1] as int
}

/// The name that starts at `pos` of the message `msg`, and the offset just
/// after its last element in this stretch.
///
/// Literal labels and the terminator must lie before `limit`. A compression
/// pointer must refer to an offset before `start`, where the stretch being
/// read began; reading resumes there with the whole message as limit, and the
/// end is just after the pointer. Since every pointer moves `start` strictly
/// back, no chain of pointers can cycle.
pub open spec fn name_at(msg: Seq<u8>, start: int, pos: int, limit: int) -> Option<
    (Seq<Seq<char>>, int),
>
    decreases start, limit - pos,
{
    if start < 0 || pos < 0 || limit > msg.len() || pos >= limit {
        None
    } else if msg[pos] == 0 {
        Some((Seq::empty(), pos + 1))
    } else if msg[pos] < 64 {
        let len = msg[pos] as int;
        if pos + 1 + len > limit {
            None
        } else {
            let bytes = msg.subrange(pos + 1, pos + 1 + len);
            if !valid_utf8(bytes) {
                None
            } else {
                with_prefix(seq![decode_utf8(bytes)], name_at(msg, start, pos + 1 + len, limit))
            }
        }
    } else if msg[pos] >= 192 {
        if pos + 2 > limit {
            None
        } else {
            let target = pointer_target(msg, pos);
            if target >= start {
                None
            } else {
                match name_at(msg, target, target, msg.len() as int) {
                    Some((ls, _)) => Some((ls, pos + 2)),
                    None => None,
                }
            }
        }
    } else {
        None
    }
}

/// The wire form of one label: its byte length, then its UTF-8 bytes.
pub open spec fn label_bytes(l: Seq<char>) -> Seq<u8> {
    seq![encode_utf8(l).len() as u8] + encode_utf8(l)
}

/// The wire form of a sequence of labels, without the terminator.
pub open spec fn labels_bytes(ls: Seq<Seq<char>>) -> Seq<u8>
    decreases ls.len(),
{
    if ls.len() == 0 {
        Seq::empty()
    } else {
        label_bytes(ls[0]) + labels_bytes(ls.drop_first())
    }
}

/// The uncompressed wire form of a name: its labels, then a zero byte.
pub open spec fn name_bytes(ls: Seq<Seq<char>>) -> Seq<u8> {
    labels_bytes(ls) + seq![0u8]
}

/// Whether every label fits the six-bit length of the wire form.
pub open spec fn labels_fit(ls: Seq<Seq<char>>) -> bool {
    forall|i: int| 0 <= i < ls.len() ==> encode_utf8(#[trigger] ls[i]).len() <= 63
}

/// Whether every label fits the wire form and is not empty, so that reading
/// the wire form back gives the same labels.
pub open spec fn labels_on_wire(ls: Seq<Seq<char>>) -> bool {
    forall|i: int|
        0 <= i < ls.len() ==> 0 < encode_utf8(#[trigger] ls[i]).len() <= 63
}

pub proof fn lemma_labels_bytes_push(ls: Seq<Seq<char>>, l: Seq<char>)
    ensures
        labels_bytes(ls.push(l)) == labels_bytes(ls) + label_bytes(l),
    decreases ls.len(),
{
    if ls.len() == 0 {
        assert(ls.push(l).drop_first() =~= Seq::<Seq<char>>::empty());
        assert(labels_bytes(ls.push(l).drop_first()) == Seq::<u8>::empty());
        assert(labels_bytes(ls) == Seq::<u8>::empty());
        assert(labels_bytes(ls.push(l)) =~= labels_bytes(ls) + label_bytes(l));
    } else {
        assert(ls.push(l).drop_first() =~= ls.drop_first().push(l));
        lemma_labels_bytes_push(ls.drop_first(), l);
        assert(labels_bytes(ls.push(l)) =~= labels_bytes(ls) + label_bytes(l));
    }
}

/// Relies on String::from_utf8: it succeeds exactly on well-formed UTF-8,
/// and the string then holds the characters that the bytes encode.
#[verifier::external_body]
fn string_from_utf8(b: Vec<u8>) -> (r: Option<String>)
    ensures
        r is Some <==> valid_utf8(b@),
        r matches Some(s) ==> s@ == decode_utf8(b@),
{
    String::from_utf8(b).ok()
}

/// The bytes of `b` from `from` up to `to`.
pub fn copy_range(b: &[u8], from: usize, to: usize) -> (r: Vec<u8>)
    requires
        from <= to <= b@.len(),
    ensures
        r@ == b@.subrange(from as int, to as int),
{
    let mut r: Vec<u8> = Vec::new();
    let mut i: usize = from;
    while i < to
        invariant
            from <= i <= to <= b@.len(),
            r@ == b@.subrange(from as int, i as int),
        decreases to - i,
    {
        r.push(b[i]);
        i += 1;
        assert(r@ =~= b@.subrange(from as int, i as int));
    }
    r
}

/// Appends the uncompressed wire form of a name with the given labels.
pub fn write_labels(labels: &Vec<String>, out: &mut Vec<u8>)
    requires
        labels_fit(labels@.map_values(|s: String| s@)),
    ensures
        final(out)@ == old(out)@ + name_bytes(labels@.map_values(|s: String| s@)),
{
    let ghost ls = labels@.map_values(|s: String| s@);
    let ghost start = old(out)@;
    let mut i: usize = 0;
    while i < labels.len()
        invariant
            i <= labels@.len(),
            ls == labels@.map_values(|s: String| s@),
            labels_fit(ls),
            out@ == start + labels_bytes(ls.take(i as int)),
        decreases labels@.len() - i,
    {
        let bytes = labels[i].as_str().as_bytes();
        let ghost l = ls[i as int];
        assert(bytes@ == encode_utf8(l));
        out.push(bytes.len() as u8);
        crate::wire::push_all(out, bytes);
        proof {
            lemma_labels_bytes_push(ls.take(i as int), l);
            assert(ls.take(i as int).push(l) =~= ls.take(i + 1));
        }
        i += 1;
        assert(out@ =~= start + labels_bytes(ls.take(i as int)));
    }
    out.push(0);
    assert(ls.take(i as int) =~= ls);
    assert(out@ =~= start + name_bytes(ls));
}

/// The pieces of a byte string between the dots (`.`), in order; a string
/// without dots is one piece.
pub open spec fn split_dots(b: Seq<u8>) -> Seq<Seq<u8>>
    decreases b.len(),
{
    if b.len() == 0 {
        seq![Seq::empty()]
    } else {
        let init = split_dots(b.drop_last());
        if b.last() == 46 {
            init.push(Seq::empty())
        } else {
            init.update(init.len() - 1, init.last().push(b.last()))
        }
    }
}

/// In well-formed UTF-8, a byte below 0x80 always starts a character.
proof fn lemma_ascii_starts_char(b: Seq<u8>, i: int)
    requires
        valid_utf8(b),
        0 <= i < b.len(),
        b[i] < 0x80,
    ensures
        is_char_boundary(b, i),
    decreases b.len(),
{
    if i > 0 {
        let n = length_of_first_scalar(b);
        assert(n >= 1 && n <= 4);
        if i < n {
            assert(is_continuation_byte(b[i]));
        } else {
            let rest = pop_first_scalar(b);
            assert(rest[i - n] == b[i]);
            lemma_ascii_starts_char(rest, i - n);
        }
    }
}

impl DomainName {
    pub fn new(labels: Vec<String>) -> (r: DomainName)
        ensures
            r.labels@ == labels@,
    {
        DomainName { labels }
    }

    pub fn labels(&self) -> (r: &[String])
        ensures
            r@ == self.labels@,
    {
        self.labels.as_slice()
    }

    /// Reads the name at `pos` of the whole message `msg`, with literal
    /// elements confined to `limit` (see `name_at`). The error is a format
    /// error exactly where `name_at` has no name.
    pub fn parse(msg: &[u8], pos: usize, limit: usize) -> (r: Result<(DomainName, usize), Error>)
        ensures
            match r {
                Ok((n, end)) => name_at(msg@, pos as int, pos as int, limit as int) == Some(
                    (n@, end as int),
                ),
                Err(e) => e == Error::FormatError && name_at(
                    msg@,
                    pos as int,
                    pos as int,
                    limit as int,
                ) is None,
            },
    {
        DomainName::parse_from(msg, pos, pos, limit)
    }

    fn parse_from(msg: &[u8], start: usize, pos: usize, limit: usize) -> (r: Result<
        (DomainName, usize),
        Error,
    >)
        ensures
            match r {
                Ok((n, end)) => name_at(msg@, start as int, pos as int, limit as int) == Some(
                    (n@, end as int),
                ),
                Err(e) => e == Error::FormatError && name_at(
                    msg@,
                    start as int,
                    pos as int,
                    limit as int,
                ) is None,
            },
        decreases start, limit - pos,
    {
        if limit > msg.len() {
            return Err(Error::FormatError);
        }
        let ghost whole = name_at(msg@, start as int, pos as int, limit as int);
        let mut labels: Vec<String> = Vec::new();
        let mut p: usize = pos;
        loop
            invariant
                limit <= msg@.len(),
                pos <= p,
                whole == name_at(msg@, start as int, pos as int, limit as int),
                whole == with_prefix(
                    labels@.map_values(|s: String| s@),
                    name_at(msg@, start as int, p as int, limit as int),
                ),
            decreases limit - p,
        {
            if p >= limit {
                return Err(Error::FormatError);
            }
            let b = msg[p];
            if b == 0 {
                let n = DomainName { labels };
                assert(n@ =~= n@ + Seq::<Seq<char>>::empty());
                return Ok((n, p + 1));
            } else if b < 64 {
                let len = b as usize;
                if len > limit - p - 1 {
                    return Err(Error::FormatError);
                }
                let bytes = copy_range(msg, p + 1, p + 1 + len);
                match string_from_utf8(bytes) {
                    None => {
                        return Err(Error::FormatError);
                    },
                    Some(s) => {
                        let ghost before = labels@.map_values(|s: String| s@);
                        labels.push(s);
                        assert(labels@.map_values(|s: String| s@) =~= before + seq![
                            decode_utf8(msg@.subrange(p + 1, p + 1 + len)),
                        ]);
                        p = p + 1 + len;
                    },
                }
            } else if b >= 192 {
                if limit - p < 2 {
                    return Err(Error::FormatError);
                }
                let target = ((b - 192) as usize) * 256 + msg[p + 1] as usize;
                if target >= start {
                    return Err(Error::FormatError);
                }
                match DomainName::parse_from(msg, target, target, msg.len()) {
                    Err(e) => {
                        return Err(e);
                    },
                    Ok((tail, _)) => {
                        let ghost before = labels@.map_values(|s: String| s@);
                        let mut rest = tail.labels;
                        labels.append(&mut rest);
                        assert(labels@.map_values(|s: String| s@) =~= before + tail@);
                        return Ok((DomainName { labels }, p + 2));
                    },
                }
            } else {
                return Err(Error::FormatError);
            }
        }
    }

    /// The name written as text with dots between its labels: every dot
    /// separates two labels, so `"a.b."` has an empty last label.
    pub fn from_dotted(s: &str) -> (r: DomainName)
        ensures
            r@ == split_dots(encode_utf8(s@)).map_values(|p: Seq<u8>| decode_utf8(p)),
    {
        let b = s.as_bytes();
        let ghost bs = b@;
        assert(bs == encode_utf8(s@));
        let mut labels: Vec<String> = Vec::new();
        let ghost mut done: Seq<Seq<u8>> = Seq::empty();
        let mut start: usize = 0;
        let mut i: usize = 0;
        assert(bs.take(0) =~= Seq::<u8>::empty());
        assert(bs.subrange(0, bs.len() as int) =~= bs);
        while i < b.len()
            invariant
                bs == b@,
                valid_utf8(bs),
                start <= i <= bs.len(),
                valid_utf8(bs.subrange(start as int, bs.len() as int)),
                split_dots(bs.take(i as int)) == done.push(bs.subrange(start as int, i as int)),
                labels@.map_values(|s: String| s@) == done.map_values(|p: Seq<u8>| decode_utf8(p)),
            decreases bs.len() - i,
        {
            assert(bs.take(i + 1).drop_last() =~= bs.take(i as int));
            if b[i] == 46 {
                let ghost tail = bs.subrange(start as int, bs.len() as int);
                proof {
                    assert(tail[i - start] == bs[i as int]);
                    lemma_ascii_starts_char(tail, i - start);
                    vstd::utf8::valid_utf8_split(tail, i - start);
                    assert(tail.subrange(0, i - start) =~= bs.subrange(start as int, i as int));
                    let after = tail.subrange(i - start, tail.len() as int);
                    assert(after =~= bs.subrange(i as int, bs.len() as int));
                    assert(length_of_first_scalar(after) == 1);
                    assert(pop_first_scalar(after) =~= bs.subrange(i + 1, bs.len() as int));
                }
                let piece = copy_range(b, start, i);
                match string_from_utf8(piece) {
                    Some(label) => {
                        assert(label@ == decode_utf8(bs.subrange(start as int, i as int)));
                        let ghost before = labels@.map_values(|s: String| s@);
                        labels.push(label);
                        assert(labels@.map_values(|s: String| s@) =~= before.push(label@));
                        proof {
                            done = done.push(bs.subrange(start as int, i as int));
                            assert(labels@.map_values(|s: String| s@) =~= done.map_values(
                                |p: Seq<u8>| decode_utf8(p),
                            ));
                        }
                    },
                    None => {},
                }
                start = i + 1;
                i += 1;
                assert(bs.subrange(start as int, i as int) =~= Seq::<u8>::empty());
            } else {
                i += 1;
                assert(bs.subrange(start as int, i as int) =~= bs.subrange(
                    start as int,
                    i - 1,
                ).push(bs[i - 1]));
            }
        }
        let ghost tail = bs.subrange(start as int, bs.len() as int);
        let piece = copy_range(b, start, b.len());
        match string_from_utf8(piece) {
            Some(label) => {
                let ghost before = labels@.map_values(|s: String| s@);
                labels.push(label);
                assert(labels@.map_values(|s: String| s@) =~= before.push(label@));
            },
            None => {},
        }
        proof {
            done = done.push(tail);
            assert(bs.take(i as int) =~= bs);
        }
        let n = DomainName { labels };
        assert(n@ =~= done.map_values(|p: Seq<u8>| decode_utf8(p)));
        n
    }

    /// Whether every label fits the six-bit length of the wire form.
    pub fn fits_wire(&self) -> (r: bool)
        ensures
            r == labels_fit(self@),
    {
        let mut i: usize = 0;
        while i < self.labels.len()
            invariant
                i <= self.labels@.len(),
                forall|j: int| 0 <= j < i ==> encode_utf8(#[trigger] self@[j]).len() <= 63,
            decreases self.labels@.len() - i,
        {
            let n = self.labels[i].as_str().as_bytes().len();
            assert(self@[i as int] == self.labels@[i as int]@);
            if n > 63 {
                assert(encode_utf8(self@[i as int]).len() > 63);
                return false;
            }
            i += 1;
        }
        true
    }

    /// Appends the uncompressed wire form of the name.
    pub fn write_to(&self, out: &mut Vec<u8>)
        requires
            labels_fit(self@),
        ensures
            final(out)@ == old(out)@ + name_bytes(self@),
    {
        write_labels(&self.labels, out);
    }

    /// The uncompressed wire form of the name.
    pub fn to_bytes(&self) -> (r: Vec<u8>)
        requires
            labels_fit(self@),
        ensures
            r@ == name_bytes(self@),
    {
        let mut out: Vec<u8> = Vec::new();
        self.write_to(&mut out);
        assert(out@ =~= name_bytes(self@));
        out
    }
}

impl std::str::FromStr for DomainName {
    type Err = std::convert::Infallible;

    fn from_str(s: &str) -> Result<DomainName, std::convert::Infallible> {
        Ok(DomainName::from_dotted(s))
    }
}

/// The two bytes of a compression pointer to `target`.
pub open spec fn pointer_bytes(target: int) -> Seq<u8> {
    seq![(192 + target / 256) as u8, (target % 256) as u8]
}

/// Literal labels in wire form are read one by one, and whatever follows
/// them is read on after them.
pub proof fn lemma_labels_prefix(
    msg: Seq<u8>,
    start: int,
    pos: int,
    limit: int,
    ls: Seq<Seq<char>>,
)
    requires
        labels_on_wire(ls),
        0 <= start,
        0 <= pos,
        pos + labels_bytes(ls).len() <= limit <= msg.len(),
        msg.subrange(pos, pos + labels_bytes(ls).len()) == labels_bytes(ls),
    ensures
        name_at(msg, start, pos, limit) == with_prefix(
            ls,
            name_at(msg, start, pos + labels_bytes(ls).len(), limit),
        ),
    decreases ls.len(),
{
    let after = name_at(msg, start, pos + labels_bytes(ls).len(), limit);
    if ls.len() == 0 {
        match after {
            Some((rest, end)) => {
                assert(ls + rest =~= rest);
            },
            None => {},
        }
    } else {
        let l = ls[0];
        let rest = ls.drop_first();
        let n: int = encode_utf8(l).len() as int;
        assert(0 < n <= 63);
        let lb = label_bytes(l);
        assert(labels_bytes(ls) == lb + labels_bytes(rest));
        assert(msg[pos] == labels_bytes(ls)[0]);
        assert(msg[pos] as int == n);
        assert(msg.subrange(pos + 1, pos + 1 + n) =~= encode_utf8(l)) by {
            assert forall|k: int| 0 <= k < n implies msg.subrange(pos + 1, pos + 1 + n)[k]
                == encode_utf8(l)[k] by {
                assert(msg[pos + 1 + k] == labels_bytes(ls)[1 + k]);
            }
        }
        assert forall|i: int| 0 <= i < rest.len() implies 0 < encode_utf8(#[trigger] rest[i]).len()
            <= 63 by {
            assert(rest[i] == ls[i + 1]);
        }
        assert(msg.subrange(pos + 1 + n, pos + 1 + n + labels_bytes(rest).len()) =~= labels_bytes(
            rest,
        )) by {
            assert forall|k: int| 0 <= k < labels_bytes(rest).len() implies msg.subrange(
                pos + 1 + n,
                pos + 1 + n + labels_bytes(rest).len(),
            )[k] == labels_bytes(rest)[k] by {
                assert(msg[pos + 1 + n + k] == labels_bytes(ls)[1 + n + k]);
            }
        }
        lemma_labels_prefix(msg, start, pos + 1 + n, limit, rest);
        match after {
            Some((tail, end)) => {
                assert(seq![l] + (rest + tail) =~= ls + tail);
            },
            None => {},
        }
    }
}

/// A name written without compression reads back as the same labels,
/// wherever in a message it stands, and reading ends just after it.
pub proof fn lemma_name_round_trip(msg: Seq<u8>, pos: int, limit: int, ls: Seq<Seq<char>>)
    requires
        labels_on_wire(ls),
        0 <= pos,
        pos + name_bytes(ls).len() <= limit <= msg.len(),
        msg.subrange(pos, pos + name_bytes(ls).len()) == name_bytes(ls),
    ensures
        name_at(msg, pos, pos, limit) == Some((ls, pos + name_bytes(ls).len())),
{
    let n: int = labels_bytes(ls).len() as int;
    assert(msg.subrange(pos, pos + n) =~= labels_bytes(ls)) by {
        assert forall|k: int| 0 <= k < n implies msg.subrange(pos, pos + n)[k] == labels_bytes(
            ls,
        )[k] by {
            assert(msg[pos + k] == name_bytes(ls)[k]);
        }
    }
    lemma_labels_prefix(msg, pos, pos, limit, ls);
    assert(msg[pos + n] == name_bytes(ls)[n]);
    assert(ls + Seq::<Seq<char>>::empty() =~= ls);
}

/// A name given as literal labels followed by a pointer back to an earlier
/// name reads as those labels followed by the labels found at the target.
pub proof fn lemma_pointer_suffix(
    msg: Seq<u8>,
    start: int,
    limit: int,
    ls: Seq<Seq<char>>,
    target: int,
)
    requires
        labels_on_wire(ls),
        0 <= target < start,
        target < 16384,
        start + labels_bytes(ls).len() + 2 <= limit <= msg.len(),
        msg.subrange(start, start + labels_bytes(ls).len() + 2) == labels_bytes(ls)
            + pointer_bytes(target),
    ensures
        name_at(msg, start, start, limit) == match name_at(msg, target, target, msg.len() as int) {
            Some((t, _)) => Some((ls + t, start + labels_bytes(ls).len() + 2)),
            None => None,
        },
{
    let n: int = labels_bytes(ls).len() as int;
    let whole = labels_bytes(ls) + pointer_bytes(target);
    assert(msg.subrange(start, start + n) =~= labels_bytes(ls)) by {
        assert forall|k: int| 0 <= k < n implies msg.subrange(start, start + n)[k]
            == labels_bytes(ls)[k] by {
            assert(msg[start + k] == whole[k]);
        }
    }
    lemma_labels_prefix(msg, start, start, limit, ls);
    assert(msg[start + n] == whole[n]);
    assert(msg[start + n + 1] == whole[n + 1]);
    assert(pointer_target(msg, start + n) == target);
}

/// A pointer that does not lead strictly back before the start of the
/// stretch being read, which every cycle of pointers needs, is rejected.
pub proof fn lemma_cyclic_pointer_rejected(msg: Seq<u8>, start: int, pos: int, limit: int)
    requires
        0 <= start,
        0 <= pos,
        pos + 2 <= limit <= msg.len(),
        msg[pos] >= 192,
        pointer_target(msg, pos) >= start,
    ensures
        name_at(msg, start, pos, limit) is None,
{
}

/// A name given as literal labels followed by a pointer back to its own
/// start, or to anywhere after it, is rejected rather than followed round.
pub proof fn lemma_pointer_cycle_rejected(
    msg: Seq<u8>,
    start: int,
    limit: int,
    ls: Seq<Seq<char>>,
    target: int,
)
    requires
        labels_on_wire(ls),
        0 <= start <= target < 16384,
        start + labels_bytes(ls).len() + 2 <= limit <= msg.len(),
        msg.subrange(start, start + labels_bytes(ls).len() + 2) == labels_bytes(ls)
            + pointer_bytes(target),
    ensures
        name_at(msg, start, start, limit) is None,
{
    let n: int = labels_bytes(ls).len() as int;
    let whole = labels_bytes(ls) + pointer_bytes(target);
    assert(msg.subrange(start, start + n) =~= labels_bytes(ls)) by {
        assert forall|k: int| 0 <= k < n implies msg.subrange(start, start + n)[k]
            == labels_bytes(ls)[k] by {
            assert(msg[start + k] == whole[k]);
        }
    }
    lemma_labels_prefix(msg, start, start, limit, ls);
    assert(msg[start + n] == whole[n]);
    assert(msg[start + n + 1] == whole[n + 1]);
    lemma_cyclic_pointer_rejected(msg, start, start + n, limit);
}

} // verus!
