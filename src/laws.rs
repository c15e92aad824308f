//! Laws of the edit transform.

use vstd::prelude::*;
use crate::edit::{edited_value, kept_chars, limited, InputConfig};

verus! {

/// `idx` picks out `a` from `b`: `a[k]` is `b[idx[k]]`, at increasing
/// positions of `b`.
pub open spec fn picks(idx: Seq<int>, a: Seq<char>, b: Seq<char>) -> bool {
    &&& idx.len() == a.len()
    &&& forall|k: int| 0 <= k < idx.len() ==> 0 <= #[trigger] idx[k] < b.len() && a[k] == b[idx[k]]
    &&& forall|k: int, l: int| 0 <= k < l < idx.len() ==> #[trigger] idx[k] < #[trigger] idx[l]
}

/// `a` is `b` with some characters left out, the rest in the same order.
pub open spec fn is_subsequence(a: Seq<char>, b: Seq<char>) -> bool {
    exists|idx: Seq<int>| picks(idx, a, b)
}

/// Filtering a text whose characters all pass changes nothing.
proof fn lemma_filter_all_pass(s: Seq<char>, f: spec_fn(char) -> bool)
    requires
        forall|k: int| 0 <= k < s.len() ==> f(#[trigger] s[k]),
    ensures
        s.filter(f) == s,
    decreases s.len(),
{
    reveal_with_fuel(Seq::filter, 1);
    if s.len() > 0 {
        lemma_filter_all_pass(s.drop_last(), f);
        assert(s.drop_last().push(s.last()) =~= s);
    }
}

/// The positions in `s` of the characters that `f` keeps.
proof fn lemma_filter_picks(s: Seq<char>, f: spec_fn(char) -> bool) -> (idx: Seq<int>)
    ensures
        picks(idx, s.filter(f), s),
    decreases s.len(),
{
    reveal_with_fuel(Seq::filter, 1);
    if s.len() == 0 {
        Seq::empty()
    } else {
        let prev = lemma_filter_picks(s.drop_last(), f);
        if f(s.last()) {
            let idx = prev.push(s.len() - 1);
            assert(picks(idx, s.filter(f), s));
            idx
        } else {
            prev
        }
    }
}

/// Every character of the edited text passes the filter.
pub proof fn lemma_edited_value_accepted(raw: Seq<char>, config: InputConfig)
    ensures
        forall|k: int|
            0 <= k < edited_value(raw, config).len() ==> config.filter.spec_accepts(
                #[trigger] edited_value(raw, config)[k],
            ),
{
    raw.filter_lemma(config.filter.pred());
}

/// The edited text is never longer than the maximum length, when one is set.
pub proof fn lemma_edited_value_within_max(raw: Seq<char>, config: InputConfig)
    ensures
        config.max_len matches Some(n) ==> edited_value(raw, config).len() <= n,
{
}

/// Editing the edited text again gives it back unchanged.
pub proof fn lemma_edit_idempotent(raw: Seq<char>, config: InputConfig)
    ensures
        edited_value(edited_value(raw, config), config) == edited_value(raw, config),
{
    let once = edited_value(raw, config);
    lemma_edited_value_accepted(raw, config);
    lemma_filter_all_pass(once, config.filter.pred());
    assert(kept_chars(once, config.filter) == once);
    lemma_edited_value_within_max(raw, config);
    assert(limited(once, config.max_len) == once);
}

/// The edited text keeps the characters it holds in the order they have in
/// the raw text.
pub proof fn lemma_edit_keeps_order(raw: Seq<char>, config: InputConfig)
    ensures
        is_subsequence(edited_value(raw, config), raw),
{
    let idx = lemma_filter_picks(raw, config.filter.pred());
    let out = edited_value(raw, config);
    let cut = idx.take(out.len() as int);
    assert(picks(cut, out, raw));
}

} // verus!
