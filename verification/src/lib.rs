//! A library that turns raw version-control reflog text into an ordered,
//! deduplicated list of recently checked-out references, each enriched with
//! commit and tracking metadata.

use vstd::prelude::*;

pub mod enrich;
pub mod filter;
pub mod parse;
pub mod text;

use crate::text::{first_line, spec_first_line};

verus! {

/// One checkout transition recovered from a reflog line: the reference that
/// was checked out and the relative time at which that happened.
#[derive(Debug)]
pub struct RecentCheckout {
    pub git_ref: String,
    pub relative_checkout_time: String,
}

/// The mathematical value of a [`RecentCheckout`]: both fields as character
/// sequences.
pub ghost struct CheckoutView {
    pub git_ref: Seq<char>,
    pub relative_checkout_time: Seq<char>,
}

impl View for RecentCheckout {
    type V = CheckoutView;

    open spec fn view(&self) -> CheckoutView {
        CheckoutView { git_ref: self.git_ref@, relative_checkout_time: self.relative_checkout_time@ }
    }
}

impl DeepView for RecentCheckout {
    type V = CheckoutView;

    open spec fn deep_view(&self) -> CheckoutView {
        self.view()
    }
}

/// A checkout candidate together with the three independently looked-up
/// facts about it: its commit message, whether a remote-tracking counterpart
/// exists, and whether the reference still resolves locally.
#[derive(Debug)]
pub struct RecentCheckoutWithMetadata {
    pub recent_checkout: RecentCheckout,
    pub commit_message: String,
    pub has_upstream: bool,
    pub locally_accessible: bool,
}

/// The display value of a record: its reference, an `UP` marker when a
/// remote-tracking counterpart exists, a `GONE` marker when the reference
/// no longer resolves locally, its recency label, and the first line of its
/// commit message, comma-separated.
pub open spec fn spec_display(r: RecentCheckoutWithMetadata) -> Seq<char> {
    r.recent_checkout.git_ref@ + ","@ + (if r.has_upstream {
        "UP"@
    } else {
        Seq::empty()
    }) + ","@ + (if !r.locally_accessible {
        "GONE"@
    } else {
        Seq::empty()
    }) + ","@ + r.recent_checkout.relative_checkout_time@ + ","@ + spec_first_line(
        r.commit_message@,
    )
}

impl RecentCheckoutWithMetadata {
    /// One comma-separated line describing this record, as `spec_display`
    /// gives it.
    pub fn display(&self) -> (r: String)
        ensures
            r@ == spec_display(*self),
    {
        let mut out = self.recent_checkout.git_ref.clone();
        out.append(",");
        if self.has_upstream {
            out.append("UP");
        }
        out.append(",");
        if !self.locally_accessible {
            out.append("GONE");
        }
        out.append(",");
        out.append(self.recent_checkout.relative_checkout_time.as_str());
        out.append(",");
        let tail = first_line(self.commit_message.as_str());
        out.append(tail.as_str());
        assert(out@ =~= spec_display(*self));
        out
    }
}

} // verus!
