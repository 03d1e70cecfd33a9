//! A compilation input: its name and its decoded characters.

use vstd::prelude::*;

verus! {

/// An immutable, random-accessible buffer of decoded characters together
/// with an originating name used for diagnostics.
#[derive(PartialEq, Eq, Debug, Clone)]
pub struct Source {
    pub filename: String,
    pub code: Vec<char>,
}

impl Source {
    /// Decodes `code` into its sequence of characters under the name
    /// `filename`.
    pub fn new(filename: &str, code: &str) -> (r: Self)
        ensures
            r.filename@ == filename@,
            r.code@ == code@,
    {
        let n: usize = code.unicode_len();
        let mut chars: Vec<char> = Vec::new();
        let mut i: usize = 0;
        while i < n
            invariant
                i <= n,
                n == code@.len(),
                chars@ == code@.subrange(0, i as int),
            decreases n - i,
        {
            chars.push(code.get_char(i));
            proof {
                assert(chars@ =~= code@.subrange(0, i + 1 as int));
            }
            i += 1;
        }
        proof {
            assert(chars@ =~= code@);
        }
        Self { filename: filename.to_owned(), code: chars }
    }

    /// A source that did not come from a file, under a fixed placeholder
    /// name.
    pub fn inline(code: &str) -> (r: Self)
        ensures
            r.filename@ == "__inline__"@,
            r.code@ == code@,
    {
        Self::new("__inline__", code)
    }
}

} // verus!
