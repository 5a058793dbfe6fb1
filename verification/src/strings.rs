//! The printable strings of a buffer.

use vstd::prelude::*;

verus! {

/// The strings found in a buffer, each with the offset it starts at.
#[derive(Clone, Debug, PartialEq, Eq, Hash)]
pub struct MatchString {
    matches: Vec<(String, u64)>,
}

/// The strings of at least `min_length` characters that `rust_strings` finds
/// in `bytes`, read as ASCII and as UTF-16, each with its offset; `None`
/// where it reports an error. It is asked for a least length from one up to
/// the number of bytes only.
pub uninterp spec fn strings_of(bytes: Seq<u8>, min_length: usize) -> Option<Seq<(Seq<char>, u64)>>;

/// The strings in spec terms.
pub open spec fn matches_view(matches: Seq<(String, u64)>) -> Seq<(Seq<char>, u64)> {
    Seq::new(matches.len(), |i: int| (matches[i].0@, matches[i].1))
}

/// What was found, if anything, in spec terms.
pub open spec fn found_view(found: Option<Vec<(String, u64)>>) -> Option<Seq<(Seq<char>, u64)>> {
    match found {
        Some(matches) => Some(matches_view(matches@)),
        None => None,
    }
}

/// Extracts strings from a buffer.
///
/// Calls `rust_strings::strings` on a `BytesConfig` of the buffer with the
/// given minimal length and the encodings ASCII and UTF-16LE. Assumed of it:
/// its result depends on the bytes and the minimal length alone. A minimal
/// length of zero is left out, because the extractors subtract one from it;
/// one above the buffer's length too, because they reserve that many bytes
/// before they read any.
#[verifier::external_body]
pub(crate) fn extract_strings(buffer: &[u8], min_size: usize) -> (r: Option<Vec<(String, u64)>>)
    requires
        1 <= min_size <= buffer@.len(),
    ensures
        found_view(r) == strings_of(buffer@, min_size),
{
    let config = rust_strings::BytesConfig::new(buffer.to_vec())
        .with_min_length(min_size)
        .with_encoding(rust_strings::Encoding::ASCII)
        .with_encoding(rust_strings::Encoding::UTF16LE);
    match rust_strings::strings(&config) {
        Ok(matches) => Some(matches),
        Err(_) => None,
    }
}

impl MatchString {
    /// The strings in spec terms.
    pub closed spec fn view(self) -> Seq<(Seq<char>, u64)> {
        matches_view(self.matches@)
    }

    /// Strings that were found elsewhere.
    pub fn new(matches: Vec<(String, u64)>) -> (r: MatchString)
        ensures
            r.view() == matches_view(matches@),
    {
        MatchString { matches }
    }

    /// How many strings there are.
    pub fn len(&self) -> (r: usize)
        ensures
            r == self.view().len(),
    {
        self.matches.len()
    }

    /// Copies of the strings, in the order of their offsets.
    pub fn texts(&self) -> (r: Vec<String>)
        ensures
            r@.len() == self.view().len(),
            forall|i: int| 0 <= i < r@.len() ==> (#[trigger] r@[i])@ == self.view()[i].0,
    {
        let mut out: Vec<String> = Vec::new();
        let mut i: usize = 0;
        while i < self.matches.len()
            invariant
                i <= self.matches@.len(),
                out@.len() == i,
                forall|k: int| 0 <= k < i ==> (#[trigger] out@[k])@ == self.matches@[k].0@,
            decreases self.matches@.len() - i,
        {
            out.push(self.matches[i].0.clone());
            i += 1;
        }
        out
    }

    /// An iterator over the strings, in the order of their offsets.
    pub fn into_iter(self) -> (r: MatchStringIterator)
        ensures
            r.all() == self.view(),
            r.position() == 0,
    {
        MatchStringIterator { index: 0, matches: self }
    }
}

/// The strings of at least `min_size` characters in `buffer`. There are
/// none to ask for with a `min_size` of zero, and none where the extraction
/// fails: both give `None`. A buffer of fewer than `min_size` bytes holds no
/// string that long.
pub fn get_strings(buffer: &[u8], min_size: usize) -> (r: Option<MatchString>)
    ensures
        min_size == 0 ==> r.is_none(),
        min_size > buffer@.len() ==> (r matches Some(found) && found.view().len() == 0),
        1 <= min_size <= buffer@.len() ==> match r {
            Some(found) => strings_of(buffer@, min_size) == Some(found.view()),
            None => strings_of(buffer@, min_size).is_none(),
        },
{
    if min_size == 0 {
        return None;
    }
    if min_size > buffer.len() {
        return Some(MatchString::new(Vec::new()));
    }
    match extract_strings(buffer, min_size) {
        Some(matches) => Some(MatchString::new(matches)),
        None => None,
    }
}

/// An iterator over the strings of a [`MatchString`].
pub struct MatchStringIterator {
    matches: MatchString,
    index: usize,
}

impl MatchStringIterator {
    /// All the strings that the iterator walks.
    pub closed spec fn all(self) -> Seq<(Seq<char>, u64)> {
        self.matches.view()
    }

    /// How many strings were handed out.
    pub closed spec fn position(self) -> int {
        self.index as int
    }

    /// The next string, if one is left.
    pub fn next(&mut self) -> (r: Option<String>)
        ensures
            final(self).all() == old(self).all(),
            match r {
                Some(text) => old(self).position() < old(self).all().len() && text@ == old(
                    self,
                ).all()[old(self).position()].0 && final(self).position() == old(self).position()
                    + 1,
                None => old(self).position() >= old(self).all().len() && final(self).position()
                    == old(self).position(),
            },
    {
        if self.index < self.matches.matches.len() {
            let result = Some(self.matches.matches[self.index].0.clone());
            self.index += 1;
            result
        } else {
            None
        }
    }
}

} // verus!
