//! Metadata enrichment: each surviving checkout event is joined with the
//! commit message its reference points to, whether a remote-tracking
//! counterpart exists, and whether the reference still resolves locally.
//! Every query runs through an injected [`CommandRunner`], and every query
//! failure is absorbed into a safe default rather than propagated.

use vstd::prelude::*;

use rayon::iter::{IntoParallelIterator, ParallelIterator};

use crate::text::{lemma_trim_idempotent, spec_trim, split_lines, trim_str};
use crate::{RecentCheckout, RecentCheckoutWithMetadata};

verus! {

/// The capability to run the version-control binary: `run` takes the
/// command's arguments and hands back the captured standard output as text,
/// together with whether the command succeeded.  Implementations live
/// outside the library; tests inject fakes.
pub trait CommandRunner {
    fn run(&self, args: &Vec<String>) -> (String, bool);
}

/// The commit summary a query outcome yields: the captured text when the
/// query succeeded, the empty string otherwise.
pub open spec fn spec_message_or_empty(out: Seq<char>, ok: bool) -> Seq<char> {
    if ok {
        out
    } else {
        Seq::empty()
    }
}

/// Absorbs a failed commit-message query into the safe default.
pub fn message_or_empty(out: String, ok: bool) -> (r: String)
    ensures
        r@ == spec_message_or_empty(out@, ok),
{
    if ok {
        out
    } else {
        String::new()
    }
}

/// The arguments of the commit-message query: one commit's full message,
/// for the commit `reference` points to.
pub fn commit_message_args(reference: &String) -> (r: Vec<String>)
    ensures
        r.deep_view() == seq!["log"@, "--format=%B"@, "-n"@, "1"@, reference@],
{
    let mut r: Vec<String> = Vec::new();
    r.push(String::from_str("log"));
    r.push(String::from_str("--format=%B"));
    r.push(String::from_str("-n"));
    r.push(String::from_str("1"));
    r.push(reference.clone());
    assert(r.deep_view() =~= seq!["log"@, "--format=%B"@, "-n"@, "1"@, reference@]);
    r
}

fn run_commit_message_query<R: CommandRunner>(runner: &R, reference: &String) -> (String, bool) {
    let args = commit_message_args(reference);
    runner.run(&args)
}

/// Queries the full commit message of the commit `reference` points to;
/// the empty string when the query fails.
pub fn get_commit_message<R: CommandRunner>(runner: &R, reference: &String) -> String {
    let (out, ok) = run_commit_message_query(runner, reference);
    message_or_empty(out, ok)
}

/// The name of the remote-tracking counterpart of `reference` under the
/// default remote.
pub open spec fn spec_upstream_ref(reference: Seq<char>) -> Seq<char> {
    "refs/remotes/origin/"@ + reference
}

/// Builds the remote-tracking name of `reference`.
pub fn upstream_ref(reference: &String) -> (r: String)
    ensures
        r@ == spec_upstream_ref(reference@),
{
    String::from_str("refs/remotes/origin/").concat(reference.as_str())
}

/// The arguments of the remote-tracking query: whether the counterpart of
/// `reference` under the default remote resolves.
pub fn show_branch_args(reference: &String) -> (r: Vec<String>)
    ensures
        r.deep_view() == seq!["show-branch"@, spec_upstream_ref(reference@)],
{
    let mut r: Vec<String> = Vec::new();
    r.push(String::from_str("show-branch"));
    r.push(upstream_ref(reference));
    assert(r.deep_view() =~= seq!["show-branch"@, spec_upstream_ref(reference@)]);
    r
}

/// Queries whether a remote-tracking counterpart of `reference` exists and
/// resolves; false when the query fails.
pub fn has_upstream<R: CommandRunner>(runner: &R, reference: &String) -> bool {
    let args = show_branch_args(reference);
    let (_out, ok) = runner.run(&args);
    ok
}

/// The arguments of the local-resolution query: whether `reference`,
/// passed verbatim, names a concrete local object.
pub fn rev_parse_args(reference: &String) -> (r: Vec<String>)
    ensures
        r.deep_view() == seq!["rev-parse"@, reference@],
{
    let mut r: Vec<String> = Vec::new();
    r.push(String::from_str("rev-parse"));
    r.push(reference.clone());
    assert(r.deep_view() =~= seq!["rev-parse"@, reference@]);
    r
}

/// Queries whether `reference` still resolves to a concrete local object;
/// false when the query fails or the reference is gone.
pub fn is_locally_accessible<R: CommandRunner>(runner: &R, reference: &String) -> bool {
    let args = rev_parse_args(reference);
    let (_out, ok) = runner.run(&args);
    ok
}

/// The arguments of the active-branch query.
pub fn current_branch_args() -> (r: Vec<String>)
    ensures
        r.deep_view() == seq!["branch"@, "--show-current"@],
{
    let mut r: Vec<String> = Vec::new();
    r.push(String::from_str("branch"));
    r.push(String::from_str("--show-current"));
    assert(r.deep_view() =~= seq!["branch"@, "--show-current"@]);
    r
}

/// The active-reference name a query outcome yields: the captured text
/// trimmed when the query succeeded, the empty string otherwise — the
/// fail-open policy, under which a failed lookup matches no candidate
/// instead of aborting the pipeline.
pub open spec fn spec_branch_or_empty(out: Seq<char>, ok: bool) -> Seq<char> {
    if ok {
        spec_trim(out)
    } else {
        Seq::empty()
    }
}

/// Absorbs a failed active-branch query into "no active reference".
pub fn branch_or_empty(out: String, ok: bool) -> (r: String)
    ensures
        r@ == spec_branch_or_empty(out@, ok),
{
    if ok {
        trim_str(out.as_str())
    } else {
        String::new()
    }
}

/// Queries the name of the currently checked-out branch; the empty string
/// when the query fails.  Whatever came back, the result carries no edge
/// whitespace.
pub fn get_current_branch<R: CommandRunner>(runner: &R) -> (r: String)
    ensures
        r@ == spec_trim(r@),
{
    let args = current_branch_args();
    let (out, ok) = runner.run(&args);
    let r = branch_or_empty(out, ok);
    proof {
        if ok {
            lemma_trim_idempotent(out@);
        } else {
            lemma_trim_idempotent(Seq::<char>::empty());
        }
    }
    r
}

/// The arguments of the reflog query: relative dates, each entry printed
/// as its subject followed by its reference selector.
pub fn reflog_args() -> (r: Vec<String>)
    ensures
        r.deep_view() == seq![
            "reflog"@,
            "show"@,
            "--pretty=format:%gs %gd"@,
            "--date=relative"@,
        ],
{
    let mut r: Vec<String> = Vec::new();
    r.push(String::from_str("reflog"));
    r.push(String::from_str("show"));
    r.push(String::from_str("--pretty=format:%gs %gd"));
    r.push(String::from_str("--date=relative"));
    assert(r.deep_view() =~= seq![
        "reflog"@,
        "show"@,
        "--pretty=format:%gs %gd"@,
        "--date=relative"@,
    ]);
    r
}

/// Queries the reflog; the captured text is used as it came, whatever the
/// exit status, so a failed query with empty output simply yields no
/// candidates.
fn get_reflog_text<R: CommandRunner>(runner: &R) -> String {
    let args = reflog_args();
    let (out, _ok) = runner.run(&args);
    out
}

/// Queries the reflog and splits the captured text into lines.
pub fn get_reflog_lines<R: CommandRunner>(runner: &R) -> Vec<String> {
    let text = get_reflog_text(runner);
    split_lines(text.as_str())
}

/// Assembles one enriched record from an event and the outcomes of its
/// three queries.  The record is always fully populated — there is no
/// partial-record state: the summary falls back to the empty string when
/// its query failed, and each flag is exactly its query's success, so
/// three failed queries give `("", false, false)`.
pub fn assemble_record(
    checkout: RecentCheckout,
    message_out: String,
    message_ok: bool,
    upstream_ok: bool,
    accessible_ok: bool,
) -> (r: RecentCheckoutWithMetadata)
    ensures
        r.recent_checkout == checkout,
        r.commit_message@ == spec_message_or_empty(message_out@, message_ok),
        r.has_upstream == upstream_ok,
        r.locally_accessible == accessible_ok,
{
    RecentCheckoutWithMetadata {
        recent_checkout: checkout,
        commit_message: message_or_empty(message_out, message_ok),
        has_upstream: upstream_ok,
        locally_accessible: accessible_ok,
    }
}

/// Enriches one checkout event: three independent queries, each failure
/// absorbed into its safe default by `assemble_record`, and the event
/// itself carried through unchanged.
pub fn create_checkout_with_metadata<R: CommandRunner>(
    runner: &R,
    checkout: &RecentCheckout,
) -> (r: RecentCheckoutWithMetadata)
    ensures
        r.recent_checkout == *checkout,
{
    let copy = RecentCheckout {
        git_ref: checkout.git_ref.clone(),
        relative_checkout_time: checkout.relative_checkout_time.clone(),
    };
    let (message_out, message_ok) = run_commit_message_query(runner, &checkout.git_ref);
    let upstream_ok = has_upstream(runner, &checkout.git_ref);
    let accessible_ok = is_locally_accessible(runner, &checkout.git_ref);
    assemble_record(copy, message_out, message_ok, upstream_ok, accessible_ok)
}

/// Enriches every event one after the other.  A record comes back for every
/// event, at the same position, whatever each query returned: enrichment
/// never reorders and never drops an event.
pub fn enrich_all<R: CommandRunner>(runner: &R, events: Vec<RecentCheckout>) -> (r: Vec<
    RecentCheckoutWithMetadata,
>)
    ensures
        r@.len() == events@.len(),
        forall|i: int| 0 <= i < events@.len() ==> r@[i].recent_checkout == events@[i],
{
    let mut r: Vec<RecentCheckoutWithMetadata> = Vec::new();
    let mut i: usize = 0;
    while i < events.len()
        invariant
            i <= events@.len(),
            r@.len() == i,
            forall|k: int| 0 <= k < i ==> r@[k].recent_checkout == events@[k],
        decreases events@.len() - i,
    {
        let rec = create_checkout_with_metadata(runner, &events[i]);
        r.push(rec);
        i += 1;
    }
    r
}

/// Enriches every event concurrently and joins the results back in input
/// order: the same records, at the same positions, as the sequential
/// `enrich_all`.
///
/// Relies on rayon's `into_par_iter` and `collect` on an indexed parallel
/// iterator, which place each mapped element at the position of the element
/// it came from; each element is `create_checkout_with_metadata` applied to
/// the event at that position, whose contract carries the event through.
#[verifier::external_body]
pub(crate) fn enrich_all_parallel<R: CommandRunner + Sync>(
    runner: &R,
    events: Vec<RecentCheckout>,
) -> (r: Vec<RecentCheckoutWithMetadata>)
    ensures
        r@.len() == events@.len(),
        forall|i: int| 0 <= i < events@.len() ==> r@[i].recent_checkout == events@[i],
{
    events.into_par_iter().map(|e| create_checkout_with_metadata(runner, &e)).collect()
}

/// The whole pipeline: reads the reflog and the active branch through
/// `runner`, parses the checkout events, keeps the first `count` distinct
/// targets that are neither the active branch nor symbolic
/// pseudo-references, and enriches each concurrently, in first-seen order.
pub fn get_reflog<R: CommandRunner + Sync>(runner: &R, count: usize) -> (r: Vec<
    RecentCheckoutWithMetadata,
>)
    ensures
        r@.len() <= count,
        forall|a: int, b: int|
            0 <= a < b < r@.len() ==> r@[a].recent_checkout.git_ref@
                != r@[b].recent_checkout.git_ref@,
        forall|a: int|
            0 <= a < r@.len() ==> !crate::parse::spec_is_head_symbol(
                r@[a].recent_checkout.git_ref@,
            ),
{
    let current_branch = get_current_branch(runner);
    let text = get_reflog_text(runner);
    let filtered = crate::filter::candidates_from_text(text.as_str(), &current_branch, count);
    let ghost fv = filtered@;
    let r = enrich_all_parallel(runner, filtered);
    proof {
        assert forall|a: int, b: int|
            0 <= a < b < r@.len() implies r@[a].recent_checkout.git_ref@
            != r@[b].recent_checkout.git_ref@ by {
            assert(r@[a].recent_checkout == fv[a]);
            assert(r@[b].recent_checkout == fv[b]);
            assert(fv[a].git_ref@ != fv[b].git_ref@);
        }
        assert forall|a: int|
            0 <= a < r@.len() implies !crate::parse::spec_is_head_symbol(
            r@[a].recent_checkout.git_ref@,
        ) by {
            assert(r@[a].recent_checkout == fv[a]);
            assert(!crate::parse::spec_is_head_symbol(fv[a].git_ref@));
        }
    }
    r
}

} // verus!
