//! Filtering and deduplication of parsed checkout events: the active
//! reference and symbolic pseudo-references are dropped, repeated targets
//! keep only their first occurrence, and at most a requested number of
//! events survive, in first-seen order.

use vstd::prelude::*;

use crate::parse::{parse_reflog_lines, spec_is_head_symbol, spec_parse_lines};
use crate::text::{spec_lines, split_lines};
use crate::{CheckoutView, RecentCheckout};

verus! {

/// A candidate is kept when its reference is not the active one, is not a
/// symbolic pseudo-reference, and has not been accepted before.
pub open spec fn spec_keep(e: CheckoutView, current: Seq<char>, acc: Seq<CheckoutView>) -> bool {
    &&& e.git_ref != current
    &&& !spec_is_head_symbol(e.git_ref)
    &&& forall|k: int| 0 <= k < acc.len() ==> acc[k].git_ref != e.git_ref
}

/// The filtered sequence: the events of `s` in order, each appended to what
/// was accepted so far when `spec_keep` allows it, until `count` events
/// stand accepted.
pub open spec fn spec_filter(
    s: Seq<CheckoutView>,
    current: Seq<char>,
    acc: Seq<CheckoutView>,
    count: int,
) -> Seq<CheckoutView>
    decreases s.len(),
{
    if s.len() == 0 || acc.len() >= count {
        acc
    } else if spec_keep(s[0], current, acc) {
        spec_filter(s.drop_first(), current, acc.push(s[0]), count)
    } else {
        spec_filter(s.drop_first(), current, acc, count)
    }
}

/// The references of a sequence of events, in order.
pub open spec fn refs_of(s: Seq<CheckoutView>) -> Seq<Seq<char>> {
    s.map_values(|e: CheckoutView| e.git_ref)
}

proof fn lemma_spec_filter_inv(
    s: Seq<CheckoutView>,
    current: Seq<char>,
    acc: Seq<CheckoutView>,
    count: int,
)
    requires
        acc.len() <= count,
        forall|a: int, b: int| 0 <= a < b < acc.len() ==> acc[a].git_ref != acc[b].git_ref,
        forall|a: int| 0 <= a < acc.len() ==> acc[a].git_ref != current,
        forall|a: int| 0 <= a < acc.len() ==> !spec_is_head_symbol(acc[a].git_ref),
    ensures
        ({
            let r = spec_filter(s, current, acc, count);
            &&& r.len() <= count
            &&& forall|a: int, b: int| 0 <= a < b < r.len() ==> r[a].git_ref != r[b].git_ref
            &&& forall|a: int| 0 <= a < r.len() ==> r[a].git_ref != current
            &&& forall|a: int| 0 <= a < r.len() ==> !spec_is_head_symbol(r[a].git_ref)
        }),
    decreases s.len(),
{
    if s.len() == 0 || acc.len() >= count {
    } else if spec_keep(s[0], current, acc) {
        let acc2 = acc.push(s[0]);
        assert forall|a: int, b: int|
            0 <= a < b < acc2.len() implies acc2[a].git_ref != acc2[b].git_ref by {
            if b < acc.len() {
            } else {
                assert(acc2[b] == s[0]);
                assert(acc2[a] == acc[a]);
            }
        }
        lemma_spec_filter_inv(s.drop_first(), current, acc2, count);
    } else {
        lemma_spec_filter_inv(s.drop_first(), current, acc, count);
    }
}

/// Laws of the filter, for every parsed sequence, active reference and
/// requested count: the filtered sequence holds at most `count` events; no
/// reference appears in it twice, so its set of references is exactly as
/// large as the sequence itself; the active reference never appears; and no
/// symbolic pseudo-reference appears.
pub proof fn lemma_filter_laws(s: Seq<CheckoutView>, current: Seq<char>, count: int)
    requires
        0 <= count,
    ensures
        ({
            let r = spec_filter(s, current, Seq::<CheckoutView>::empty(), count);
            &&& r.len() <= count
            &&& refs_of(r).no_duplicates()
            &&& refs_of(r).to_set().len() == r.len()
            &&& forall|a: int| 0 <= a < r.len() ==> r[a].git_ref != current
            &&& forall|a: int| 0 <= a < r.len() ==> !spec_is_head_symbol(r[a].git_ref)
        }),
{
    lemma_spec_filter_inv(s, current, Seq::<CheckoutView>::empty(), count);
    let r = spec_filter(s, current, Seq::<CheckoutView>::empty(), count);
    let refs = refs_of(r);
    assert forall|i: int, j: int|
        0 <= i < refs.len() && 0 <= j < refs.len() && i != j implies refs[i] != refs[j] by {
        if i < j {
            assert(r[i].git_ref != r[j].git_ref);
        } else {
            assert(r[j].git_ref != r[i].git_ref);
        }
    }
    refs.unique_seq_to_set();
}

/// The candidate events of a raw reflog text, for a given active reference
/// and requested count: the checkout events of its lines, in line order,
/// then filtered and deduplicated.
pub open spec fn spec_candidates(text: Seq<char>, current: Seq<char>, count: int) -> Seq<
    CheckoutView,
> {
    spec_filter(spec_parse_lines(spec_lines(text)), current, Seq::<CheckoutView>::empty(), count)
}

/// Turns raw reflog text into the filtered candidate list: one event per
/// line that records a checkout, in line order, with the active reference,
/// symbolic pseudo-references and repeated targets removed, and at most
/// `count` events kept.
pub fn candidates_from_text(text: &str, current_branch: &String, count: usize) -> (r: Vec<
    RecentCheckout,
>)
    ensures
        r.deep_view() == spec_candidates(text@, current_branch@, count as int),
        r@.len() <= count,
        forall|a: int, b: int|
            0 <= a < b < r@.len() ==> r@[a].git_ref@ != r@[b].git_ref@,
        forall|a: int| 0 <= a < r@.len() ==> r@[a].git_ref@ != current_branch@,
        forall|a: int| 0 <= a < r@.len() ==> !spec_is_head_symbol(r@[a].git_ref@),
{
    let lines = split_lines(text);
    let entries = parse_reflog_lines(&lines);
    filter_checkouts(entries, current_branch, count)
}

fn contains_ref(v: &Vec<RecentCheckout>, r: &String) -> (b: bool)
    ensures
        b == exists|k: int| 0 <= k < v@.len() && v@[k].git_ref@ == r@,
{
    let mut i: usize = 0;
    while i < v.len()
        invariant
            i <= v@.len(),
            forall|k: int| 0 <= k < i ==> v@[k].git_ref@ != r@,
        decreases v@.len() - i,
    {
        if (&v[i].git_ref).eq(r) {
            return true;
        }
        i += 1;
    }
    false
}

/// Keeps, in first-seen order, the events whose reference is neither the
/// active reference, nor a symbolic pseudo-reference, nor already taken,
/// stopping once `count` events are kept.
pub fn filter_checkouts(
    entries: Vec<RecentCheckout>,
    current_branch: &String,
    count: usize,
) -> (r: Vec<RecentCheckout>)
    ensures
        r.deep_view() == spec_filter(
            entries.deep_view(),
            current_branch@,
            Seq::<CheckoutView>::empty(),
            count as int,
        ),
        r@.len() <= count,
        forall|a: int, b: int|
            0 <= a < b < r@.len() ==> r@[a].git_ref@ != r@[b].git_ref@,
        forall|a: int| 0 <= a < r@.len() ==> r@[a].git_ref@ != current_branch@,
        forall|a: int| 0 <= a < r@.len() ==> !spec_is_head_symbol(r@[a].git_ref@),
{
    let ghost ev = entries.deep_view();
    let ghost cur = current_branch@;
    let mut r: Vec<RecentCheckout> = Vec::new();
    let mut i: usize = 0;
    assert(ev.skip(0) =~= ev);
    assert(r.deep_view() =~= Seq::<CheckoutView>::empty());
    while i < entries.len() && r.len() < count
        invariant
            i <= entries@.len(),
            ev == entries.deep_view(),
            cur == current_branch@,
            r@.len() <= count,
            spec_filter(ev, cur, Seq::<CheckoutView>::empty(), count as int) == spec_filter(
                ev.skip(i as int),
                cur,
                r.deep_view(),
                count as int,
            ),
            forall|a: int, b: int|
                0 <= a < b < r@.len() ==> r@[a].git_ref@ != r@[b].git_ref@,
            forall|a: int| 0 <= a < r@.len() ==> r@[a].git_ref@ != current_branch@,
            forall|a: int| 0 <= a < r@.len() ==> !spec_is_head_symbol(r@[a].git_ref@),
        decreases entries@.len() - i,
    {
        let ghost prev = r.deep_view();
        assert(ev.skip(i as int).drop_first() =~= ev.skip(i + 1));
        assert(ev.skip(i as int)[0] == ev[i as int]);
        let e = &entries[i];
        let same_as_current = (&e.git_ref).eq(current_branch);
        let symbolic = crate::parse::is_head_symbol(e.git_ref.as_str());
        let seen = contains_ref(&r, &e.git_ref);
        if !same_as_current && !symbolic && !seen {
            assert(forall|k: int| 0 <= k < prev.len() ==> prev[k] == r@[k]@);
            assert(spec_keep(ev[i as int], cur, prev));
            let copy = RecentCheckout {
                git_ref: e.git_ref.clone(),
                relative_checkout_time: e.relative_checkout_time.clone(),
            };
            r.push(copy);
            assert(r.deep_view() =~= prev.push(ev[i as int]));
        } else {
            assert(!spec_keep(ev[i as int], cur, prev)) by {
                if seen {
                    let k = choose|k: int| 0 <= k < r@.len() && r@[k].git_ref@ == ev[i as int].git_ref;
                    assert(prev[k].git_ref == ev[i as int].git_ref);
                }
            }
        }
        i += 1;
    }
    proof {
        if i < entries@.len() {
            assert(r.deep_view().len() >= count as int);
        } else {
            assert(ev.skip(i as int) =~= Seq::<CheckoutView>::empty());
        }
        assert(spec_filter(ev.skip(i as int), cur, r.deep_view(), count as int) == r.deep_view());
    }
    r
}

} // verus!
