//! Character filters: which characters a field accepts.

use vstd::prelude::*;

verus! {

/// A character-acceptance test, held as a value so that two filters can be
/// compared for equality.
pub enum CharFilter {
    /// An ASCII decimal digit, `0` to `9`.
    AsciiDigit,
    /// An ASCII uppercase letter, `A` to `Z`.
    AsciiUppercase,
    /// One of the listed characters.
    OneOf(Vec<char>),
}

impl CharFilter {
    /// Whether the filter keeps `c`.
    pub open spec fn spec_accepts(&self, c: char) -> bool {
        match self {
            CharFilter::AsciiDigit => '0' <= c && c <= '9',
            CharFilter::AsciiUppercase => 'A' <= c && c <= 'Z',
            CharFilter::OneOf(cs) => cs@.contains(c),
        }
    }

    /// The filter as a predicate on characters.
    pub open spec fn pred(self) -> spec_fn(char) -> bool {
        |c: char| self.spec_accepts(c)
    }

    /// The two filters accept the same characters by the same rule.
    pub open spec fn spec_same(&self, other: &CharFilter) -> bool {
        match (self, other) {
            (CharFilter::AsciiDigit, CharFilter::AsciiDigit) => true,
            (CharFilter::AsciiUppercase, CharFilter::AsciiUppercase) => true,
            (CharFilter::OneOf(a), CharFilter::OneOf(b)) => a@ == b@,
            _ => false,
        }
    }

    /// Tests whether the filter keeps `c`.
    pub fn accepts(&self, c: char) -> (r: bool)
        ensures
            r == self.spec_accepts(c),
    {
        match self {
            CharFilter::AsciiDigit => '0' <= c && c <= '9',
            CharFilter::AsciiUppercase => 'A' <= c && c <= 'Z',
            CharFilter::OneOf(cs) => contains_char(cs, c),
        }
    }
}

/// Whether `c` occurs in `cs`.
fn contains_char(cs: &Vec<char>, c: char) -> (r: bool)
    ensures
        r == cs@.contains(c),
{
    let mut i: usize = 0;
    while i < cs.len()
        invariant
            0 <= i <= cs@.len(),
            forall|j: int| 0 <= j < i ==> cs@[j] != c,
        decreases cs@.len() - i,
    {
        if cs[i] == c {
            assert(cs@[i as int] == c);
            return true;
        }
        i = i + 1;
    }
    false
}

/// Element-wise equality of two character lists.
fn same_chars(a: &Vec<char>, b: &Vec<char>) -> (r: bool)
    ensures
        r == (a@ == b@),
{
    if a.len() != b.len() {
        return false;
    }
    let mut i: usize = 0;
    while i < a.len()
        invariant
            0 <= i <= a@.len(),
            a@.len() == b@.len(),
            forall|j: int| 0 <= j < i ==> a@[j] == b@[j],
        decreases a@.len() - i,
    {
        if a[i] != b[i] {
            return false;
        }
        i = i + 1;
    }
    assert(a@ =~= b@);
    true
}

impl Clone for CharFilter {
    fn clone(&self) -> (r: CharFilter)
        ensures
            r.spec_same(self),
    {
        match self {
            CharFilter::AsciiDigit => CharFilter::AsciiDigit,
            CharFilter::AsciiUppercase => CharFilter::AsciiUppercase,
            CharFilter::OneOf(cs) => {
                let mut out: Vec<char> = Vec::new();
                let mut i: usize = 0;
                while i < cs.len()
                    invariant
                        0 <= i <= cs@.len(),
                        out@ == cs@.take(i as int),
                    decreases cs@.len() - i,
                {
                    out.push(cs[i]);
                    i = i + 1;
                    assert(out@ =~= cs@.take(i as int));
                }
                assert(out@ =~= cs@);
                CharFilter::OneOf(out)
            },
        }
    }
}

impl PartialEq for CharFilter {
    fn eq(&self, other: &CharFilter) -> (r: bool) {
        match (self, other) {
            (CharFilter::AsciiDigit, CharFilter::AsciiDigit) => true,
            (CharFilter::AsciiUppercase, CharFilter::AsciiUppercase) => true,
            (CharFilter::OneOf(a), CharFilter::OneOf(b)) => same_chars(a, b),
            _ => false,
        }
    }
}

impl vstd::std_specs::cmp::PartialEqSpecImpl for CharFilter {
    open spec fn obeys_eq_spec() -> bool {
        true
    }

    open spec fn eq_spec(&self, other: &CharFilter) -> bool {
        self.spec_same(other)
    }
}

} // verus!
