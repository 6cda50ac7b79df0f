use vstd::prelude::*;

use crate::fnv::{fnv_hash, hash};
use crate::hex::{digest_hex, push_char};
use crate::select::{hasher_at, hasher_of_index};
use vstd::utf8::encode_utf8;

verus! {

/// What the desktop front end keeps between frames and sessions: which hasher is selected,
/// as an index into the list of `hasher_of_index`, and the text typed so far.
pub struct TemplateApp {
    pub hasher: usize,
    pub input: String,
}

impl Default for TemplateApp {
    fn default() -> (r: Self)
        ensures
            r.hasher == 0,
            r.input@ == Seq::<char>::empty(),
    {
        TemplateApp { hasher: 0, input: String::new() }
    }
}

/// What the front end shows for a selection and a text: `0x` followed by the fixed-length
/// upper-case hexadecimal digest of the text's UTF-8 bytes; nothing for a selection out of
/// range.
pub open spec fn output_of(index: nat, text: Seq<char>) -> Option<Seq<char>> {
    match hasher_of_index(index) {
        None => None,
        Some((v, w)) => Some(seq!['0', 'x'] + digest_hex(fnv_hash(v, w, encode_utf8(text)), w)),
    }
}

impl TemplateApp {
    /// The line that the front end shows for the current selection and text.
    pub fn output(&self) -> (r: Option<String>)
        ensures
            r is None <==> output_of(self.hasher as nat, self.input@) is None,
            r is Some ==> r->0@ == output_of(self.hasher as nat, self.input@)->0,
    {
        match hasher_at(self.hasher) {
            None => None,
            Some((v, w)) => {
                let d = hash(v, w, self.input.as_str().as_bytes());
                let digits = d.to_hex();
                let mut out = String::new();
                push_char(&mut out, '0');
                push_char(&mut out, 'x');
                out.append(digits.as_str());
                assert(out@ =~= seq!['0', 'x'] + digits@);
                Some(out)
            },
        }
    }
}

} // verus!
