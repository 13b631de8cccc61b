use recent_checkouts::enrich::{
    assemble_record, branch_or_empty, commit_message_args, current_branch_args, enrich_all,
    get_commit_message, get_current_branch, get_reflog, get_reflog_lines, reflog_args,
    rev_parse_args, show_branch_args, CommandRunner,
};
use recent_checkouts::filter::{candidates_from_text, filter_checkouts};
use recent_checkouts::parse::{is_head_symbol, parse_checkout_line};
use recent_checkouts::{RecentCheckout, RecentCheckoutWithMetadata};

fn ev(reference: &str, label: &str) -> RecentCheckout {
    RecentCheckout {
        git_ref: reference.to_string(),
        relative_checkout_time: label.to_string(),
    }
}

struct FakeGit {
    current: String,
    reflog: String,
    upstream: Vec<String>,
    accessible: Vec<String>,
    messages: Vec<(String, String)>,
}

impl CommandRunner for FakeGit {
    fn run(&self, args: &Vec<String>) -> (String, bool) {
        match args[0].as_str() {
            "branch" => (self.current.clone(), true),
            "reflog" => (self.reflog.clone(), true),
            "log" => {
                let wanted = &args[4];
                for (reference, message) in self.messages.iter() {
                    if reference == wanted {
                        return (message.clone(), true);
                    }
                }
                (String::new(), false)
            }
            "show-branch" => {
                let wanted = &args[1];
                let found = self
                    .upstream
                    .iter()
                    .any(|u| format!("refs/remotes/origin/{}", u) == *wanted);
                (String::new(), found)
            }
            "rev-parse" => {
                let wanted = &args[1];
                (String::new(), self.accessible.iter().any(|a| a == wanted))
            }
            _ => (String::new(), false),
        }
    }
}

/// Every metadata query fails; only the reflog and branch queries answer.
struct BrokenGit {
    current: String,
    reflog: String,
}

impl CommandRunner for BrokenGit {
    fn run(&self, args: &Vec<String>) -> (String, bool) {
        match args[0].as_str() {
            "branch" => (self.current.clone(), true),
            "reflog" => (self.reflog.clone(), true),
            _ => (String::new(), false),
        }
    }
}

/// The reflog query answers with text but a failing exit status; every
/// other query fails outright.
struct SpottyGit;

impl CommandRunner for SpottyGit {
    fn run(&self, args: &Vec<String>) -> (String, bool) {
        match args[0].as_str() {
            "reflog" => (
                "checkout: moving from main to feature-x HEAD@{2 days ago}\n".to_string(),
                false,
            ),
            _ => (String::new(), false),
        }
    }
}

#[test]
fn parses_checkout_line() {
    let r = parse_checkout_line("checkout: moving from main to feature-x HEAD@{2 days ago}");
    let rc = r.expect("line records a checkout");
    assert_eq!(rc.git_ref, "feature-x");
    assert_eq!(rc.relative_checkout_time, "2 days ago");
}

#[test]
fn parse_skips_non_checkout_line() {
    assert!(parse_checkout_line("commit: something else entirely").is_none());
    assert!(parse_checkout_line("checkout: moving from main to feature-x").is_none());
    assert!(parse_checkout_line("").is_none());
}

#[test]
fn parse_label_runs_to_last_brace() {
    let r = parse_checkout_line("checkout: moving from a to b HEAD@{2 days ago}}");
    let rc = r.expect("line records a checkout");
    assert_eq!(rc.git_ref, "b");
    assert_eq!(rc.relative_checkout_time, "2 days ago}");
}

#[test]
fn head_symbol_prefix_anchoring() {
    assert!(is_head_symbol("HEAD"));
    assert!(is_head_symbol("HEAD@{0}"));
    assert!(is_head_symbol("HEAD^"));
    assert!(is_head_symbol("ORIG_HEAD~3"));
    assert!(is_head_symbol("HEADxyz"));
    assert!(!is_head_symbol("feature/HEAD"));
}

#[test]
fn filter_caps_length() {
    let entries = vec![ev("a", "1"), ev("b", "2"), ev("c", "3"), ev("d", "4")];
    let r = filter_checkouts(entries, &"z".to_string(), 2);
    assert_eq!(r.len(), 2);
    assert_eq!(r[0].git_ref, "a");
    assert_eq!(r[1].git_ref, "b");
}

#[test]
fn filter_with_zero_count_is_empty() {
    let entries = vec![ev("a", "1"), ev("b", "2")];
    let r = filter_checkouts(entries, &"z".to_string(), 0);
    assert_eq!(r.len(), 0);
}

#[test]
fn filter_removes_duplicates() {
    let entries = vec![ev("a", "1"), ev("b", "2"), ev("a", "3")];
    let r = filter_checkouts(entries, &"z".to_string(), 10);
    assert_eq!(r.len(), 2);
    assert_eq!(r[0].git_ref, "a");
    assert_eq!(r[0].relative_checkout_time, "1");
    assert_eq!(r[1].git_ref, "b");
}

#[test]
fn filter_removes_active_reference() {
    let entries = vec![ev("main", "1"), ev("b", "2"), ev("main", "3")];
    let r = filter_checkouts(entries, &"main".to_string(), 10);
    assert_eq!(r.len(), 1);
    assert_eq!(r[0].git_ref, "b");
}

#[test]
fn filter_removes_head_symbols() {
    let entries = vec![
        ev("HEAD", "1"),
        ev("HEAD@{2}", "2"),
        ev("ORIG_HEAD~1", "3"),
        ev("feature/HEAD", "4"),
    ];
    let r = filter_checkouts(entries, &"z".to_string(), 10);
    assert_eq!(r.len(), 1);
    assert_eq!(r[0].git_ref, "feature/HEAD");
}

#[test]
fn reflog_lines_are_split_at_line_endings() {
    let git = FakeGit {
        current: String::new(),
        reflog: "first\nsecond\r\nthird".to_string(),
        upstream: vec![],
        accessible: vec![],
        messages: vec![],
    };
    let lines = get_reflog_lines(&git);
    let expected: Vec<String> = vec![
        "first".to_string(),
        "second".to_string(),
        "third".to_string(),
    ];
    assert_eq!(lines, expected);
}

#[test]
fn candidates_from_raw_text() {
    let text = "checkout: moving from main to feature-x HEAD@{2 days ago}\n\
                checkout: moving from feature-x to main HEAD@{1 day ago}\n";
    let r = candidates_from_text(text, &"main".to_string(), 10);
    assert_eq!(r.len(), 1);
    assert_eq!(r[0].git_ref, "feature-x");
    assert_eq!(r[0].relative_checkout_time, "2 days ago");
}

#[test]
fn pipeline_example() {
    let git = FakeGit {
        current: "main\n".to_string(),
        reflog: "checkout: moving from main to feature-x HEAD@{2 days ago}\n\
                 checkout: moving from feature-x to main HEAD@{1 day ago}\n"
            .to_string(),
        upstream: vec![],
        accessible: vec![],
        messages: vec![],
    };
    let r = get_reflog(&git, 10);
    assert_eq!(r.len(), 1);
    assert_eq!(r[0].recent_checkout.git_ref, "feature-x");
    assert_eq!(r[0].recent_checkout.relative_checkout_time, "2 days ago");
}

#[test]
fn dedup_keeps_earliest_checkout() {
    let git = FakeGit {
        current: "main\n".to_string(),
        reflog: "checkout: moving from main to feature-x HEAD@{2 hours ago}\n\
                 checkout: moving from feature-x to main HEAD@{1 day ago}\n\
                 checkout: moving from main to feature-x HEAD@{3 days ago}\n"
            .to_string(),
        upstream: vec![],
        accessible: vec![],
        messages: vec![],
    };
    let r = get_reflog(&git, 10);
    assert_eq!(r.len(), 1);
    assert_eq!(r[0].recent_checkout.git_ref, "feature-x");
    assert_eq!(r[0].recent_checkout.relative_checkout_time, "2 hours ago");
}

#[test]
fn enrichment_preserves_order() {
    let git = FakeGit {
        current: "main\n".to_string(),
        reflog: "checkout: moving from main to a HEAD@{1 hour ago}\n\
                 checkout: moving from a to b HEAD@{2 hours ago}\n\
                 checkout: moving from b to c HEAD@{3 hours ago}\n"
            .to_string(),
        upstream: vec!["b".to_string()],
        accessible: vec!["a".to_string(), "c".to_string()],
        messages: vec![
            ("a".to_string(), "message a".to_string()),
            ("b".to_string(), "message b".to_string()),
            ("c".to_string(), "message c".to_string()),
        ],
    };
    let r = get_reflog(&git, 10);
    assert_eq!(r.len(), 3);
    assert_eq!(r[0].recent_checkout.git_ref, "a");
    assert_eq!(r[1].recent_checkout.git_ref, "b");
    assert_eq!(r[2].recent_checkout.git_ref, "c");
    assert_eq!(r[0].commit_message, "message a");
    assert_eq!(r[1].commit_message, "message b");
    assert_eq!(r[2].commit_message, "message c");
    assert!(!r[0].has_upstream && r[1].has_upstream && !r[2].has_upstream);
    assert!(r[0].locally_accessible && !r[1].locally_accessible && r[2].locally_accessible);
}

#[test]
fn sequential_enrichment_gives_the_same_records() {
    let git = FakeGit {
        current: String::new(),
        reflog: String::new(),
        upstream: vec!["a".to_string()],
        accessible: vec!["b".to_string()],
        messages: vec![("a".to_string(), "message a".to_string())],
    };
    let r = enrich_all(&git, vec![ev("a", "1"), ev("b", "2")]);
    assert_eq!(r.len(), 2);
    assert_eq!(r[0].recent_checkout.git_ref, "a");
    assert_eq!(r[0].commit_message, "message a");
    assert!(r[0].has_upstream && !r[0].locally_accessible);
    assert_eq!(r[1].recent_checkout.git_ref, "b");
    assert_eq!(r[1].commit_message, "");
    assert!(!r[1].has_upstream && r[1].locally_accessible);
}

#[test]
fn enrichment_tolerates_total_failure() {
    let git = BrokenGit {
        current: "main\n".to_string(),
        reflog: "checkout: moving from main to a HEAD@{1 hour ago}\n\
                 checkout: moving from a to b HEAD@{2 hours ago}\n"
            .to_string(),
    };
    let r = get_reflog(&git, 10);
    assert_eq!(r.len(), 2);
    for rec in r.iter() {
        assert_eq!(rec.commit_message, "");
        assert!(!rec.has_upstream);
        assert!(!rec.locally_accessible);
    }
    assert_eq!(r[0].recent_checkout.git_ref, "a");
    assert_eq!(r[1].recent_checkout.git_ref, "b");
}

#[test]
fn commit_message_defaults_to_empty_on_failure() {
    let git = FakeGit {
        current: String::new(),
        reflog: String::new(),
        upstream: vec![],
        accessible: vec![],
        messages: vec![("a".to_string(), "message a".to_string())],
    };
    assert_eq!(get_commit_message(&git, &"a".to_string()), "message a");
    assert_eq!(get_commit_message(&git, &"missing".to_string()), "");
}

#[test]
fn query_argument_lists_are_exact() {
    let reference = "feature-x".to_string();
    assert_eq!(
        commit_message_args(&reference),
        vec!["log", "--format=%B", "-n", "1", "feature-x"]
    );
    assert_eq!(
        show_branch_args(&reference),
        vec!["show-branch", "refs/remotes/origin/feature-x"]
    );
    assert_eq!(rev_parse_args(&reference), vec!["rev-parse", "feature-x"]);
    assert_eq!(current_branch_args(), vec!["branch", "--show-current"]);
    assert_eq!(
        reflog_args(),
        vec!["reflog", "show", "--pretty=format:%gs %gd", "--date=relative"]
    );
}

#[test]
fn assemble_record_defaults_on_total_failure() {
    let r = assemble_record(ev("a", "1"), "ignored".to_string(), false, false, false);
    assert_eq!(r.recent_checkout.git_ref, "a");
    assert_eq!(r.commit_message, "");
    assert!(!r.has_upstream);
    assert!(!r.locally_accessible);
}

#[test]
fn branch_lookup_fails_open() {
    assert_eq!(branch_or_empty("main\n".to_string(), false), "");
    assert_eq!(branch_or_empty("main\n".to_string(), true), "main");
}

#[test]
fn current_branch_trims_unicode_whitespace() {
    let git = FakeGit {
        current: "main\u{a0}\n".to_string(),
        reflog: String::new(),
        upstream: vec![],
        accessible: vec![],
        messages: vec![],
    };
    assert_eq!(get_current_branch(&git), "main");
}

#[test]
fn reflog_output_is_used_whatever_the_exit_status() {
    let r = get_reflog(&SpottyGit, 10);
    assert_eq!(r.len(), 1);
    assert_eq!(r[0].recent_checkout.git_ref, "feature-x");
}

#[test]
fn current_branch_is_trimmed() {
    let git = FakeGit {
        current: "  main\n".to_string(),
        reflog: String::new(),
        upstream: vec![],
        accessible: vec![],
        messages: vec![],
    };
    assert_eq!(get_current_branch(&git), "main");
}

#[test]
fn display_formats_record() {
    let rec = RecentCheckoutWithMetadata {
        recent_checkout: ev("feature-x", "2 days ago"),
        commit_message: "Add the widget\n\nLonger body text\n".to_string(),
        has_upstream: true,
        locally_accessible: true,
    };
    assert_eq!(rec.display(), "feature-x,UP,,2 days ago,Add the widget");
}

#[test]
fn display_marks_gone_references() {
    let rec = RecentCheckoutWithMetadata {
        recent_checkout: ev("old-branch", "3 weeks ago"),
        commit_message: String::new(),
        has_upstream: false,
        locally_accessible: false,
    };
    assert_eq!(rec.display(), "old-branch,,GONE,3 weeks ago,");
}
