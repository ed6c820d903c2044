use vstd::prelude::*;

use crate::config::{LinkCheckerConfig, Severity};
use crate::link_checker::{format_range, range_text, Diagnostic, DiagnosticView, IssueCategory};
use crate::markdown::LinkKind;
use crate::path_checker::{check_path, is_denied, parses_as_url, target_spec, TargetSpec};
use crate::text::{chars_of, push_all, string_of};

verus! {

/// What the link tracker knows between two tokens.
pub ghost struct LinkModel {
    /// Between a link's start and its end.
    pub active: bool,
    /// The visible text of the current link so far.
    pub text: Seq<char>,
    /// The destination of the current link, as written.
    pub url: Seq<char>,
    /// How the current link was written.
    pub kind: LinkKind,
}

/// A reference whose label has no definition.
pub open spec fn is_unknown_reference(kind: LinkKind) -> bool {
    kind == LinkKind::ShortcutUnknown || kind == LinkKind::CollapsedUnknown || kind
        == LinkKind::ReferenceUnknown
}

/// An autolink or an email autolink.
pub open spec fn is_autolink(kind: LinkKind) -> bool {
    kind == LinkKind::Autolink || kind == LinkKind::Email
}

/// A link that the checker looks at: written inline, an autolink, or a
/// reference whose label has no definition.
pub open spec fn is_checked_kind(kind: LinkKind) -> bool {
    kind == LinkKind::Inline || is_autolink(kind) || is_unknown_reference(kind)
}

/// The state after a link's end: inactive, with no text and no destination.
pub open spec fn reset_model(st: LinkModel) -> LinkModel {
    LinkModel { active: false, text: seq![], url: seq![], ..st }
}

/// What is wrong with a finished link, if anything.
#[derive(Clone, Copy, Debug, PartialEq, Eq, Structural)]
pub enum LinkIssue {
    /// A reference to a label with no definition.
    Broken,
    /// An autolink whose destination is not valid.
    InvalidSimple,
    /// A link whose destination is neither a URL nor a valid path.
    InvalidPath,
    /// Nothing.
    Valid,
}

/// The issue of the link in `st`, given whether its destination was found valid.
pub open spec fn issue_of(st: LinkModel, destination_valid: bool) -> LinkIssue {
    if !st.active {
        LinkIssue::Valid
    } else if is_unknown_reference(st.kind) {
        LinkIssue::Broken
    } else if destination_valid {
        LinkIssue::Valid
    } else if is_autolink(st.kind) {
        LinkIssue::InvalidSimple
    } else {
        LinkIssue::InvalidPath
    }
}

/// The message of a diagnostic.
pub open spec fn issue_message(st: LinkModel, issue: LinkIssue) -> Seq<char> {
    match issue {
        LinkIssue::Broken => seq!['['] + st.text + "] is a broken URL (or path)."@,
        LinkIssue::InvalidSimple => seq!['<'] + st.text + "> isn't a valid URL."@,
        _ => seq!['['] + st.text + "]("@ + st.url + ") isn't a valid URL (or path)."@,
    }
}

/// The diagnostic for the link in `st`, found in `file` at bytes `start..end`,
/// given whether its destination was found valid.
pub open spec fn report(
    st: LinkModel,
    file: Seq<char>,
    start: nat,
    end: nat,
    level: Severity,
    destination_valid: bool,
) -> Option<DiagnosticView> {
    let issue = issue_of(st, destination_valid);
    if issue == LinkIssue::Valid {
        None
    } else {
        Some(
            DiagnosticView {
                file,
                range: range_text(start, end),
                category: if issue == LinkIssue::Broken {
                    IssueCategory::Broken
                } else {
                    IssueCategory::Invalid
                },
                message: issue_message(st, issue),
                level,
            },
        )
    }
}

/// An inline link whose destination was found invalid yields one diagnostic
/// of category invalid, at its byte range, naming its text and destination;
/// found valid, it yields none.
pub proof fn lemma_invalid_inline_link_reported(
    st: LinkModel,
    file: Seq<char>,
    start: nat,
    end: nat,
    level: Severity,
)
    requires
        st.active,
        st.kind == LinkKind::Inline,
    ensures
        report(st, file, start, end, level, false) == Some(
            DiagnosticView {
                file,
                range: range_text(start, end),
                category: IssueCategory::Invalid,
                message: seq!['['] + st.text + "]("@ + st.url + ") isn't a valid URL (or path)."@,
                level,
            },
        ),
        report(st, file, start, end, level, true) is None,
{
}

/// The view of an optional diagnostic.
pub open spec fn opt_diagnostic(d: Option<Diagnostic>) -> Option<DiagnosticView> {
    match d {
        Some(x) => Some(x@),
        None => None,
    }
}

/// Tracks the link being read, from its start to its end.
pub struct LinkState {
    active: bool,
    text: Vec<char>,
    url: String,
    link_type: LinkKind,
}

impl View for LinkState {
    type V = LinkModel;

    closed spec fn view(&self) -> LinkModel {
        LinkModel { active: self.active, text: self.text@, url: self.url@, kind: self.link_type }
    }
}

impl LinkState {
    /// A tracker outside any link.
    pub fn new() -> (r: Self)
        ensures
            r@ == (LinkModel { active: false, text: seq![], url: seq![], kind: LinkKind::Inline }),
    {
        LinkState { active: false, text: Vec::new(), url: string_of(&Vec::new()), link_type: LinkKind::Inline }
    }

    /// The destination of the current link.
    pub fn url(&self) -> (r: &String)
        ensures
            r@ == self@.url,
    {
        &self.url
    }

    /// Starts a link: its destination and kind, with no text yet.
    pub fn start_link(&mut self, url: String, link_type: LinkKind)
        ensures
            final(self)@ == (LinkModel { active: true, text: seq![], url: url@, kind: link_type }),
    {
        self.active = true;
        self.url = url;
        self.link_type = link_type;
        self.text = Vec::new();
    }

    /// Adds visible text to the current link.
    pub fn append_text(&mut self, text: &str)
        ensures
            final(self)@ == (LinkModel { text: old(self)@.text + text@, ..old(self)@ }),
    {
        push_all(&mut self.text, &chars_of(text));
    }

    pub fn is_active(&self) -> (r: bool)
        ensures
            r == self@.active,
    {
        self.active
    }

    /// Inside a reference link whose label has no definition.
    pub fn is_broken(&self) -> (r: bool)
        ensures
            r == (self@.active && is_unknown_reference(self@.kind)),
    {
        self.active && match self.link_type {
            LinkKind::ShortcutUnknown | LinkKind::CollapsedUnknown | LinkKind::ReferenceUnknown => true,
            _ => false,
        }
    }

    /// Inside an autolink or an email autolink.
    pub fn is_simple(&self) -> (r: bool)
        ensures
            r == (self@.active && is_autolink(self@.kind)),
    {
        self.active && match self.link_type {
            LinkKind::Autolink | LinkKind::Email => true,
            _ => false,
        }
    }

    /// Inside a link that the checker looks at.
    pub fn should_check(&self) -> (r: bool)
        ensures
            r == (self@.active && is_checked_kind(self@.kind)),
    {
        self.active && (match self.link_type {
            LinkKind::Inline | LinkKind::Autolink | LinkKind::Email => true,
            _ => false,
        } || self.is_broken())
    }

    /// Leaves the current link.
    pub fn reset(&mut self)
        ensures
            final(self)@ == reset_model(old(self)@),
    {
        self.active = false;
        self.text = Vec::new();
        self.url = string_of(&Vec::new());
    }

    /// What is wrong with the current link, given whether its destination was
    /// found valid. An undefined reference is broken whatever the destination.
    pub fn classify_issue(&self, destination_valid: bool) -> (r: LinkIssue)
        ensures
            r == issue_of(self@, destination_valid),
    {
        if !self.active {
            LinkIssue::Valid
        } else if self.is_broken() {
            LinkIssue::Broken
        } else if destination_valid {
            LinkIssue::Valid
        } else if self.is_simple() {
            LinkIssue::InvalidSimple
        } else {
            LinkIssue::InvalidPath
        }
    }

    /// The diagnostic for the current link, found in `file_path` at `range`,
    /// given whether its destination was found valid.
    pub fn diagnose(
        &self,
        file_path: &str,
        range: &std::ops::Range<usize>,
        level: Severity,
        destination_valid: bool,
    ) -> (r: Option<Diagnostic>)
        ensures
            opt_diagnostic(r) == report(
                self@,
                file_path@,
                range.start as nat,
                range.end as nat,
                level,
                destination_valid,
            ),
    {
        let issue = self.classify_issue(destination_valid);
        let mut message: Vec<char> = Vec::new();
        match issue {
            LinkIssue::Valid => {
                return None;
            },
            LinkIssue::Broken => {
                message.push('[');
                push_all(&mut message, &self.text);
                push_all(&mut message, &chars_of("] is a broken URL (or path)."));
            },
            LinkIssue::InvalidSimple => {
                message.push('<');
                push_all(&mut message, &self.text);
                push_all(&mut message, &chars_of("> isn't a valid URL."));
            },
            LinkIssue::InvalidPath => {
                message.push('[');
                push_all(&mut message, &self.text);
                push_all(&mut message, &chars_of("]("));
                push_all(&mut message, &chars_of(self.url.as_str()));
                push_all(&mut message, &chars_of(") isn't a valid URL (or path)."));
            },
        }
        assert(message@ =~= issue_message(self@, issue));
        let category = match issue {
            LinkIssue::Broken => IssueCategory::Broken,
            _ => IssueCategory::Invalid,
        };
        Some(
            Diagnostic {
                file: string_of(&chars_of(file_path)),
                range: format_range(range),
                category,
                message: string_of(&message),
                level,
            },
        )
    }

    /// Finishes the current link: reports it when it is broken, or when its
    /// destination is not valid for the document at `file_path` below `root`,
    /// and leaves the link. A broken reference is reported without asking the
    /// disk; a destination on the deny-list is always reported; an absolute
    /// URL or a fragment-only destination off the deny-list never is.
    pub fn check_and_prompt(
        &mut self,
        file_path: &str,
        range: &std::ops::Range<usize>,
        root: &str,
        conf: &LinkCheckerConfig,
    ) -> (r: Option<Diagnostic>)
        ensures
            final(self)@ == reset_model(old(self)@),
            ({
                let st = old(self)@;
                let rep = |valid: bool|
                    report(st, file_path@, range.start as nat, range.end as nat, conf.prompt_level, valid);
                &&& opt_diagnostic(r) == rep(true) || opt_diagnostic(r) == rep(false)
                &&& st.active && is_unknown_reference(st.kind) ==> opt_diagnostic(r) == rep(true)
                &&& is_denied(*conf, st.url) ==> opt_diagnostic(r) == rep(false)
                &&& !is_denied(*conf, st.url) && (parses_as_url(st.url) || target_spec(
                    st.url,
                    file_path@,
                    root@,
                ) == TargetSpec::Fragment) ==> opt_diagnostic(r) == rep(true)
            }),
    {
        let valid = if self.is_broken() {
            true
        } else {
            check_path(self.url.as_str(), file_path, root, conf)
        };
        let r = self.diagnose(file_path, range, conf.prompt_level, valid);
        self.reset();
        r
    }
}

impl Default for LinkState {
    fn default() -> (r: Self)
        ensures
            r@ == (LinkModel { active: false, text: seq![], url: seq![], kind: LinkKind::Inline }),
    {
        Self::new()
    }
}

} // verus!
