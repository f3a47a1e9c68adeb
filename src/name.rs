//! A bare label sequence that can be written in wire form.

use vstd::prelude::*;
use crate::domain_name::{labels_fit, name_bytes, write_labels};

verus! {

/// A name given by its labels.
#[derive(Clone, Debug)]
pub struct Name {
    pub labels: Vec<String>,
}

impl View for Name {
    type V = Seq<Seq<char>>;

    open spec fn view(&self) -> Seq<Seq<char>> {
        self.labels@.map_values(|s: String| s@)
    }
}

impl Name {
    pub fn new(labels: Vec<String>) -> (r: Name)
        ensures
            r.labels@ == labels@,
    {
        Name { labels }
    }

    /// The uncompressed wire form: each label after its length, then a zero
    /// byte.
    pub fn to_bytes(&self) -> (r: Vec<u8>)
        requires
            labels_fit(self@),
        ensures
            r@ == name_bytes(self@),
    {
        let mut out: Vec<u8> = Vec::new();
        write_labels(&self.labels, &mut out);
        assert(out@ =~= name_bytes(self@));
        out
    }
}

} // verus!
