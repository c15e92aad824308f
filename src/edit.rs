//! The edit transform: from the raw text of a field to what it shows.

use vstd::prelude::*;
use vstd::std_specs::iter::IteratorSpec;
use crate::filter::CharFilter;

verus! {

broadcast use vstd::string::axiom_spec_iter, vstd::string::next_postcondition;

/// How a field treats each edit.
pub struct InputConfig {
    /// Which characters the field keeps.
    pub filter: CharFilter,
    /// The most characters the field holds; `None` for no limit.
    pub max_len: Option<usize>,
    /// Whether the caret is held at the end of the text.
    pub append_only: bool,
}

impl InputConfig {
    /// A field with the given filter, limit and caret mode.
    pub fn new(filter: CharFilter, max_len: Option<usize>, append_only: bool) -> (r: InputConfig)
        ensures
            r.filter == filter,
            r.max_len == max_len,
            r.append_only == append_only,
    {
        InputConfig { filter, max_len, append_only }
    }

    /// A field that keeps ASCII digits only.
    pub fn digits_only(max_len: Option<usize>, append_only: bool) -> (r: InputConfig)
        ensures
            r.filter == CharFilter::AsciiDigit,
            r.max_len == max_len,
            r.append_only == append_only,
    {
        InputConfig { filter: CharFilter::AsciiDigit, max_len, append_only }
    }

    /// The two configurations treat every edit alike.
    pub open spec fn spec_same(&self, other: &InputConfig) -> bool {
        &&& self.filter.spec_same(&other.filter)
        &&& self.max_len == other.max_len
        &&& self.append_only == other.append_only
    }
}

impl PartialEq for InputConfig {
    fn eq(&self, other: &InputConfig) -> (r: bool) {
        let same_max = match (self.max_len, other.max_len) {
            (Some(a), Some(b)) => a == b,
            (None, None) => true,
            _ => false,
        };
        self.filter == other.filter && same_max && self.append_only == other.append_only
    }
}

impl vstd::std_specs::cmp::PartialEqSpecImpl for InputConfig {
    open spec fn obeys_eq_spec() -> bool {
        true
    }

    open spec fn eq_spec(&self, other: &InputConfig) -> bool {
        self.spec_same(other)
    }
}

/// A message for the component that hosts the field.
pub enum Notification {
    /// The field now shows this text.
    ValueChanged(String),
    /// The field now shows this text, which fills the maximum length.
    MaxLengthReached(String),
}

/// What the field shows after an edit.
pub struct EditResult {
    /// The text that the field shows.
    pub filtered_value: String,
    /// Where the caret goes, counted in characters; `None` leaves it where
    /// the field put it.
    pub caret_position: Option<usize>,
    /// Whether the text has reached the maximum length.
    pub max_len_reached: bool,
}

/// The characters of `raw` that `filter` keeps, in order.
pub open spec fn kept_chars(raw: Seq<char>, filter: CharFilter) -> Seq<char> {
    raw.filter(filter.pred())
}

/// `s` cut off at `max_len` characters, if a limit is set.
pub open spec fn limited(s: Seq<char>, max_len: Option<usize>) -> Seq<char> {
    match max_len {
        Some(n) => if s.len() > n { s.take(n as int) } else { s },
        None => s,
    }
}

/// The text that a field configured by `config` shows after an edit left
/// `raw` in it.
pub open spec fn edited_value(raw: Seq<char>, config: InputConfig) -> Seq<char> {
    limited(kept_chars(raw, config.filter), config.max_len)
}

impl EditResult {
    /// The messages that the edit sends to the host, in order: the new
    /// text always, then the reached limit where the text fills it.
    pub fn notifications(&self) -> (r: Vec<Notification>)
        ensures
            r@.len() == if self.max_len_reached { 2int } else { 1int },
            r@[0] matches Notification::ValueChanged(v) && v@ == self.filtered_value@,
            self.max_len_reached ==> (r@[1] matches Notification::MaxLengthReached(v) && v@
                == self.filtered_value@),
    {
        let mut r: Vec<Notification> = Vec::new();
        r.push(Notification::ValueChanged(self.filtered_value.clone()));
        if self.max_len_reached {
            r.push(Notification::MaxLengthReached(self.filtered_value.clone()));
        }
        r
    }
}

/// A key that moves the caret: one of the four arrow keys.
pub open spec fn is_arrow_key(key: Seq<char>) -> bool {
    ||| key == "ArrowUp"@
    ||| key == "ArrowDown"@
    ||| key == "ArrowLeft"@
    ||| key == "ArrowRight"@
}

/// Whether the field swallows the key `key`: in append-only mode the arrow
/// keys would move the caret away from the end, so they are blocked.
pub fn blocks_key(append_only: bool, key: &str) -> (r: bool)
    ensures
        r == (append_only && is_arrow_key(key@)),
{
    if !append_only {
        return false;
    }
    let k = key.to_owned();
    k == "ArrowUp".to_owned() || k == "ArrowDown".to_owned() || k == "ArrowLeft".to_owned()
        || k == "ArrowRight".to_owned()
}

/// A text of `len` characters has reached the limit `max_len`.
pub open spec fn at_max_len(len: nat, max_len: Option<usize>) -> bool {
    match max_len {
        Some(n) => len == n,
        None => false,
    }
}

/// Where the filtered prefix `raw.take(i)` already fills the limit, or is all
/// of `raw`, it is the limited filtered text.
proof fn lemma_limited_prefix(raw: Seq<char>, i: int, f: spec_fn(char) -> bool, max_len: Option<usize>)
    requires
        0 <= i <= raw.len(),
        max_len matches Some(n) ==> raw.take(i).filter(f).len() <= n,
        i == raw.len() || (max_len matches Some(n) && raw.take(i).filter(f).len() == n),
    ensures
        limited(raw.filter(f), max_len) == raw.take(i).filter(f),
{
    assert(raw =~= raw.take(i) + raw.skip(i));
    Seq::filter_distributes_over_add(raw.take(i), raw.skip(i), f);
    let k = raw.take(i).filter(f);
    if i == raw.len() {
        assert(raw.take(i) =~= raw);
    } else {
        assert(raw.filter(f).take(k.len() as int) =~= k);
    }
}

/// Relies on `String`'s `FromIterator<&char>`: the string holds the
/// characters of `cs`, in order.
#[verifier::external_body]
fn string_of_chars(cs: &Vec<char>) -> (r: String)
    ensures
        r@ == cs@,
{
    cs.iter().collect()
}

/// The field's new state after an edit left `raw` in it: the characters
/// that the filter accepts, in order, stopping once the limit is filled;
/// whether the limit is reached; and, in append-only mode, the caret at the
/// end of the text.
pub fn process_edit(raw: &str, config: &InputConfig) -> (r: EditResult)
    ensures
        r.filtered_value@ == edited_value(raw@, *config),
        r.max_len_reached == at_max_len(r.filtered_value@.len(), config.max_len),
        r.max_len_reached == (config.max_len matches Some(n) && r.filtered_value@.len() >= n),
        config.append_only ==> (r.caret_position matches Some(p) && p == r.filtered_value@.len()),
        !config.append_only ==> r.caret_position is None,
{
    let ghost f = config.filter.pred();
    let mut it = raw.chars();
    let mut kept: Vec<char> = Vec::new();
    let ghost mut i: int = 0;
    loop
        invariant
            f == config.filter.pred(),
            0 <= i <= raw@.len(),
            it.remaining() == raw@.skip(i),
            kept@ == raw@.take(i).filter(f),
            config.max_len matches Some(n) ==> kept@.len() <= n,
        ensures
            0 <= i <= raw@.len(),
            kept@ == raw@.take(i).filter(f),
            config.max_len matches Some(n) ==> kept@.len() <= n,
            i == raw@.len() || (config.max_len matches Some(n) && kept@.len() == n),
        decreases raw@.len() - i,
    {
        if let Some(n) = config.max_len {
            if kept.len() >= n {
                break;
            }
        }
        match it.next() {
            Some(c) => {
                proof {
                    let next = raw@.take(i + 1);
                    assert(next.len() == i + 1);
                    assert(next.drop_last() =~= raw@.take(i));
                    assert(next.last() == c);
                    reveal_with_fuel(Seq::filter, 1);
                    assert(next.filter(f) == if f(c) {
                        raw@.take(i).filter(f).push(c)
                    } else {
                        raw@.take(i).filter(f)
                    });
                    i = i + 1;
                }
                if config.filter.accepts(c) {
                    kept.push(c);
                }
            },
            None => {
                break;
            },
        }
    }
    proof {
        lemma_limited_prefix(raw@, i, f, config.max_len);
    }
    let filtered_value = string_of_chars(&kept);
    let len = kept.len();
    let max_len_reached = match config.max_len {
        Some(n) => len >= n,
        None => false,
    };
    let caret_position = if config.append_only { Some(len) } else { None };
    EditResult { filtered_value, caret_position, max_len_reached }
}

} // verus!
