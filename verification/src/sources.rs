use crate::adapter::{flat_map, FlatMap};
use crate::lazy::{flatten_all, Mapper, PullIterator};
use vstd::prelude::*;
use vstd::string::StrSliceExecFns;

verus! {

/// Yields the elements of a vector, front first.
pub struct VecIter<T> {
    items: Vec<T>,
}

impl<T> VecIter<T> {
    /// Wraps `items`; every element is still to be yielded.
    pub fn new(items: Vec<T>) -> (r: Self)
        ensures
            r.remaining() == items@,
    {
        VecIter { items }
    }
}

impl<T> PullIterator for VecIter<T> {
    type Item = T;

    /// The elements not yet yielded, in order.
    closed spec fn remaining(&self) -> Seq<T> {
        self.items@
    }

    fn next(&mut self) -> (r: Option<T>) {
        if self.items.len() > 0 {
            let x = self.items.remove(0);
            proof {
                assert(old(self).items@.remove(0) =~= old(self).items@.drop_first());
            }
            Some(x)
        } else {
            None
        }
    }
}

/// Yields the characters of a string, front first.
pub struct StringChars {
    s: String,
    pos: usize,
}

impl StringChars {
    /// Starts at the first character of `s`.
    pub fn new(s: String) -> (r: Self)
        ensures
            r.remaining() == s@,
    {
        let r = StringChars { s, pos: 0 };
        proof {
            assert(r.s@.skip(0) =~= r.s@);
        }
        r
    }
}

impl PullIterator for StringChars {
    type Item = char;

    /// The characters not yet yielded, in order.
    closed spec fn remaining(&self) -> Seq<char> {
        if self.pos <= self.s@.len() {
            self.s@.skip(self.pos as int)
        } else {
            Seq::empty()
        }
    }

    fn next(&mut self) -> (r: Option<char>) {
        if self.pos < self.s.as_str().unicode_len() {
            let c = self.s.as_str().get_char(self.pos);
            self.pos = self.pos + 1;
            proof {
                assert(old(self).s@.skip(old(self).pos as int).drop_first() =~= self.s@.skip(
                    self.pos as int,
                ));
            }
            Some(c)
        } else {
            None
        }
    }
}

/// Maps a string to the lazy sequence of its characters.
pub struct CharsMapper;

impl Mapper<String> for CharsMapper {
    type Inner = StringChars;

    /// A string expands to exactly its characters, in order.
    open spec fn map_spec(s: String) -> Seq<char> {
        s@
    }

    fn map(&mut self, s: String) -> (r: StringChars) {
        StringChars::new(s)
    }
}

/// Maps a vector of strings to the lazy sequence of all their characters.
/// Its inner sequence is itself a `FlatMap`: the adapter satisfies the same
/// pull-based capability as the sequences it consumes, so it nests.
pub struct NestedCharsMapper;

impl Mapper<Vec<String>> for NestedCharsMapper {
    type Inner = FlatMap<VecIter<String>, CharsMapper, StringChars>;

    /// A vector of strings expands to the characters of all its strings,
    /// in order.
    open spec fn map_spec(v: Vec<String>) -> Seq<char> {
        flatten_all::<String, CharsMapper>(v@)
    }

    fn map(&mut self, v: Vec<String>) -> (r: Self::Inner) {
        flat_map(VecIter::new(v), CharsMapper)
    }
}

} // verus!
