//! Recognition of checkout transitions in reflog text.
//!
//! A line records a checkout when it contains the marker
//! `checkout: moving from `, followed by a source token, ` to `, the target
//! token, and ` HEAD@{` with the recency label closed by the last `}` of the
//! line.  Only the target reference and the label are extracted.

use vstd::prelude::*;

use crate::text::{
    find_last_from, find_token_end, last_from, match_at, starts_with_at, token_end,
};
use crate::{CheckoutView, RecentCheckout};

verus! {

/// The marker that opens a checkout transition.
pub open spec fn from_marker() -> Seq<char> {
    "checkout: moving from "@
}

/// The target reference and recency label read off `l`, given that the
/// checkout marker ends at position `j`: the source token runs to the next
/// whitespace, where ` to ` must stand; the target token runs from there to
/// the next whitespace, where ` HEAD@{` must stand; the label runs to the
/// last `}` of the line.
pub open spec fn captures_from(l: Seq<char>, j: int) -> Option<(Seq<char>, Seq<char>)> {
    let k = token_end(l, j);
    if !starts_with_at(l, k, " to "@) {
        None
    } else {
        let k2 = token_end(l, k + 4);
        if !starts_with_at(l, k2, " HEAD@{"@) {
            None
        } else {
            let m = last_from(l, k2 + 7, '}');
            if m < 0 {
                None
            } else {
                Some((l.subrange(k + 4, k2), l.subrange(k2 + 7, m)))
            }
        }
    }
}

/// The captures of the earliest occurrence of the checkout marker at or
/// after `i` from which the rest of the pattern goes through.
pub open spec fn parse_from(l: Seq<char>, i: int) -> Option<(Seq<char>, Seq<char>)>
    decreases l.len() - i,
    when 0 <= i <= l.len()
{
    if i >= l.len() {
        None
    } else if starts_with_at(l, i, from_marker()) && captures_from(
        l,
        i + from_marker().len(),
    ) is Some {
        captures_from(l, i + from_marker().len())
    } else {
        parse_from(l, i + 1)
    }
}

/// What a whole line yields: the captures of its earliest viable checkout
/// marker, or nothing when no marker carries the full pattern.
pub open spec fn spec_parse_line(l: Seq<char>) -> Option<(Seq<char>, Seq<char>)> {
    parse_from(l, 0)
}

fn try_captures(line: &str, j: usize) -> (r: Option<RecentCheckout>)
    requires
        j <= line@.len(),
    ensures
        match r {
            Some(rc) => captures_from(line@, j as int) == Some(
                (rc.git_ref@, rc.relative_checkout_time@),
            ),
            None => captures_from(line@, j as int) is None,
        },
{
    proof {
        reveal_strlit(" to ");
        reveal_strlit(" HEAD@{");
    }
    let n = line.unicode_len();
    let k = find_token_end(line, j);
    if !match_at(line, k, " to ") {
        return None;
    }
    assert(k + 4 <= n);
    let k2 = find_token_end(line, k + 4);
    if !match_at(line, k2, " HEAD@{") {
        return None;
    }
    assert(k2 + 7 <= n);
    match find_last_from(line, k2 + 7, '}') {
        None => None,
        Some(m) => {
            let git_ref = String::from_str(line.substring_char(k + 4, k2));
            let label = String::from_str(line.substring_char(k2 + 7, m));
            Some(RecentCheckout { git_ref, relative_checkout_time: label })
        },
    }
}

/// Reads one reflog line; yields the checkout event it records, or nothing
/// when the line is not a checkout transition.
pub fn parse_checkout_line(line: &str) -> (r: Option<RecentCheckout>)
    ensures
        match r {
            Some(rc) => spec_parse_line(line@) == Some((rc.git_ref@, rc.relative_checkout_time@)),
            None => spec_parse_line(line@) is None,
        },
{
    let n = line.unicode_len();
    let mut i: usize = 0;
    while i < n
        invariant
            i <= n,
            n == line@.len(),
            parse_from(line@, 0) == parse_from(line@, i as int),
        decreases n - i,
    {
        proof {
            reveal_strlit("checkout: moving from ");
        }
        if match_at(line, i, "checkout: moving from ") {
            let r = try_captures(line, i + 22);
            if r.is_some() {
                return r;
            }
        }
        i += 1;
    }
    None
}

/// A symbolic pseudo-reference: anything that begins with `HEAD` or
/// `ORIG_HEAD`.  The check is an anchored prefix, not a whole-word match,
/// so `HEADxyz` counts as one while `feature/HEAD` does not.
pub open spec fn spec_is_head_symbol(l: Seq<char>) -> bool {
    starts_with_at(l, 0, "HEAD"@) || starts_with_at(l, 0, "ORIG_HEAD"@)
}

/// Whether `s` names a symbolic pseudo-reference rather than a real one.
pub fn is_head_symbol(s: &str) -> (r: bool)
    ensures
        r == spec_is_head_symbol(s@),
{
    match_at(s, 0, "HEAD") || match_at(s, 0, "ORIG_HEAD")
}

/// The checkout events of `ls`, one per line that records one, in line
/// order.
pub open spec fn spec_parse_lines(ls: Seq<Seq<char>>) -> Seq<CheckoutView>
    decreases ls.len(),
{
    if ls.len() == 0 {
        Seq::empty()
    } else {
        let rest = spec_parse_lines(ls.drop_first());
        match spec_parse_line(ls[0]) {
            Some(cap) => seq![
                CheckoutView { git_ref: cap.0, relative_checkout_time: cap.1 },
            ] + rest,
            None => rest,
        }
    }
}

/// Reads every line of a reflog; yields the checkout events in line order,
/// lines that record none silently skipped.
pub fn parse_reflog_lines(lines: &Vec<String>) -> (r: Vec<RecentCheckout>)
    ensures
        r.deep_view() == spec_parse_lines(lines.deep_view()),
{
    let ghost lv = lines.deep_view();
    let mut r: Vec<RecentCheckout> = Vec::new();
    let mut i: usize = 0;
    assert(lv.skip(0) =~= lv);
    while i < lines.len()
        invariant
            i <= lines@.len(),
            lv == lines.deep_view(),
            spec_parse_lines(lv) == r.deep_view() + spec_parse_lines(lv.skip(i as int)),
        decreases lines@.len() - i,
    {
        let ghost prev = r.deep_view();
        assert(lv.skip(i as int).drop_first() =~= lv.skip(i + 1));
        assert(lv.skip(i as int)[0] == lv[i as int]);
        match parse_checkout_line((&lines[i]).as_str()) {
            Some(rc) => {
                r.push(rc);
                assert(r.deep_view() =~= prev + seq![rc@]);
            },
            None => {},
        }
        i += 1;
    }
    assert(lv.skip(lines@.len() as int) =~= Seq::<Seq<char>>::empty());
    assert(r.deep_view() =~= r.deep_view() + spec_parse_lines(lv.skip(lines@.len() as int)));
    r
}

} // verus!
