use vstd::prelude::*;

use crate::config::{LinkCheckerConfig, Severity};
use crate::path_checker::{is_denied, parses_as_url, target_spec, TargetSpec};
use crate::link_state::{
    is_checked_kind, is_unknown_reference, opt_diagnostic, report, reset_model, LinkModel, LinkState,
};
use crate::markdown::{link_tokens, link_tokens_of, LinkKind, MdEvent};
use crate::text::{decimal, push_decimal, string_of};

pub use crate::path_checker::{check_path, check_url, is_valid_link_target};

verus! {

/// The kind of a reported link.
#[derive(Clone, Copy, Debug, PartialEq, Eq, Structural)]
pub enum IssueCategory {
    /// A reference to a label with no definition.
    Broken,
    /// A destination that is neither a URL nor a valid path.
    Invalid,
}

impl IssueCategory {
    /// The category's name: `broken` or `invalid`.
    pub fn name(&self) -> (r: &'static str)
        ensures
            *self == IssueCategory::Broken ==> r@ == "broken"@,
            *self == IssueCategory::Invalid ==> r@ == "invalid"@,
    {
        match self {
            IssueCategory::Broken => "broken",
            IssueCategory::Invalid => "invalid",
        }
    }
}

/// A reported link, as its view.
pub ghost struct DiagnosticView {
    pub file: Seq<char>,
    pub range: Seq<char>,
    pub category: IssueCategory,
    pub message: Seq<char>,
    pub level: Severity,
}

/// A reported link: the document, the byte range of the link in it, what is
/// wrong, a message, and the severity to report it at.
pub struct Diagnostic {
    pub file: String,
    pub range: String,
    pub category: IssueCategory,
    pub message: String,
    pub level: Severity,
}

impl View for Diagnostic {
    type V = DiagnosticView;

    open spec fn view(&self) -> DiagnosticView {
        DiagnosticView {
            file: self.file@,
            range: self.range@,
            category: self.category,
            message: self.message@,
            level: self.level,
        }
    }
}

/// A byte range as text: `<start>` when it is empty, else `<start>..<end>`.
pub open spec fn range_text(start: nat, end: nat) -> Seq<char> {
    if start < end {
        decimal(start) + seq!['.', '.'] + decimal(end)
    } else {
        decimal(start)
    }
}

/// Formats a byte range for display: `<start>` when it is empty, else
/// `<start>..<end>`.
pub fn format_range(range: &std::ops::Range<usize>) -> (r: String)
    ensures
        r@ == range_text(range.start as nat, range.end as nat),
{
    let mut out: Vec<char> = Vec::new();
    push_decimal(&mut out, range.start);
    if range.start < range.end {
        out.push('.');
        out.push('.');
        push_decimal(&mut out, range.end);
        assert(out@ =~= range_text(range.start as nat, range.end as nat));
    }
    string_of(&out)
}

/// The link tracker after one token.
pub open spec fn link_step(st: LinkModel, e: MdEvent) -> LinkModel {
    match e {
        MdEvent::LinkStart(kind, url) => LinkModel { active: true, text: seq![], url: url@, kind },
        MdEvent::Text(t) => if st.active {
            LinkModel { text: st.text + t@, ..st }
        } else {
            st
        },
        MdEvent::LinkEnd => reset_model(st),
        _ => st,
    }
}

/// The tracker before the first token.
pub open spec fn initial_link_model() -> LinkModel {
    LinkModel { active: false, text: seq![], url: seq![], kind: LinkKind::Inline }
}

/// The link tracker after a token stream.
pub open spec fn link_state_after(events: Seq<(MdEvent, usize, usize)>) -> LinkModel
    decreases events.len(),
{
    if events.len() == 0 {
        initial_link_model()
    } else {
        link_step(link_state_after(events.drop_last()), events.last().0)
    }
}

/// The token ends a link that the checker looks at, given the tracker before it.
pub open spec fn ends_checked_link(st: LinkModel, e: MdEvent) -> bool {
    e is LinkEnd && st.active && is_checked_kind(st.kind)
}

/// The links that a token stream ends and that the checker looks at, in
/// order, each as the tracker knew it just before its end.
pub open spec fn checked_links(events: Seq<(MdEvent, usize, usize)>) -> Seq<LinkModel>
    decreases events.len(),
{
    if events.len() == 0 {
        seq![]
    } else {
        let prev = checked_links(events.drop_last());
        let st = link_state_after(events.drop_last());
        if ends_checked_link(st, events.last().0) {
            prev.push(st)
        } else {
            prev
        }
    }
}

/// How many checked links a token stream ends.
pub open spec fn checked_count(events: Seq<(MdEvent, usize, usize)>) -> nat {
    checked_links(events).len()
}

/// What the disk may have answered for a checked link, as far as it has a say:
/// a destination on the deny-list is invalid, and one off the list that is an
/// absolute URL or only a fragment is valid. An undefined reference needs no
/// answer.
pub open spec fn verdict_fits(
    st: LinkModel,
    valid: bool,
    file: Seq<char>,
    root: Seq<char>,
    conf: LinkCheckerConfig,
) -> bool {
    !is_unknown_reference(st.kind) ==> {
        &&& is_denied(conf, st.url) ==> !valid
        &&& !is_denied(conf, st.url) && (parses_as_url(st.url) || target_spec(st.url, file, root)
            == TargetSpec::Fragment) ==> valid
    }
}

/// One verdict for each checked link, each fitting that link.
pub open spec fn verdicts_fit(
    events: Seq<(MdEvent, usize, usize)>,
    verdicts: Seq<bool>,
    file: Seq<char>,
    root: Seq<char>,
    conf: LinkCheckerConfig,
) -> bool {
    &&& verdicts.len() == checked_count(events)
    &&& forall|j: int|
        0 <= j < verdicts.len() ==> verdict_fits(
            #[trigger] checked_links(events)[j],
            verdicts[j],
            file,
            root,
            conf,
        )
}

/// `ds` is what checking the links of `events`, in the document `file` below
/// `root`, reports for some answers of the disk that fit each link.
pub open spec fn is_link_check_result(
    events: Seq<(MdEvent, usize, usize)>,
    file: Seq<char>,
    root: Seq<char>,
    conf: LinkCheckerConfig,
    ds: Seq<DiagnosticView>,
) -> bool {
    exists|verdicts: Seq<bool>|
        verdicts_fit(events, verdicts, file, root, conf) && ds == #[trigger] link_reports(
            events,
            file,
            conf.prompt_level,
            verdicts,
        )
}

/// The diagnostics of a token stream found in `file`, given for the n-th
/// checked link whether its destination was found valid (`verdicts[n]`).
/// Each comes at the end token of its link, with that token's byte range.
pub open spec fn link_reports(
    events: Seq<(MdEvent, usize, usize)>,
    file: Seq<char>,
    level: Severity,
    verdicts: Seq<bool>,
) -> Seq<DiagnosticView>
    decreases events.len(),
{
    if events.len() == 0 {
        seq![]
    } else {
        let prev = link_reports(events.drop_last(), file, level, verdicts);
        let st = link_state_after(events.drop_last());
        let (e, start, end) = events.last();
        if ends_checked_link(st, e) {
            match report(
                st,
                file,
                start as nat,
                end as nat,
                level,
                verdicts[checked_count(events.drop_last()) as int],
            ) {
                Some(d) => prev.push(d),
                None => prev,
            }
        } else {
            prev
        }
    }
}

proof fn lemma_link_reports_extend(
    events: Seq<(MdEvent, usize, usize)>,
    file: Seq<char>,
    level: Severity,
    verdicts: Seq<bool>,
    more: Seq<bool>,
)
    requires
        checked_count(events) <= verdicts.len(),
    ensures
        link_reports(events, file, level, verdicts) == link_reports(events, file, level, verdicts + more),
    decreases events.len(),
{
    if events.len() > 0 {
        lemma_link_reports_extend(events.drop_last(), file, level, verdicts, more);
    }
}

proof fn lemma_link_reports_origin(
    events: Seq<(MdEvent, usize, usize)>,
    file: Seq<char>,
    level: Severity,
    verdicts: Seq<bool>,
)
    ensures
        forall|k: int|
            0 <= k < link_reports(events, file, level, verdicts).len() ==> (#[trigger] link_reports(
                events,
                file,
                level,
                verdicts,
            )[k]).file == file && link_reports(events, file, level, verdicts)[k].level == level,
    decreases events.len(),
{
    if events.len() > 0 {
        lemma_link_reports_origin(events.drop_last(), file, level, verdicts);
    }
}

/// A reference to an undefined label is reported as broken whatever its
/// destination would have been found to be: the disk has no say in it.
pub proof fn lemma_broken_reference_reported(
    st: LinkModel,
    file: Seq<char>,
    start: nat,
    end: nat,
    level: Severity,
    v1: bool,
    v2: bool,
)
    requires
        st.active,
        is_unknown_reference(st.kind),
    ensures
        report(st, file, start, end, level, v1) == report(st, file, start, end, level, v2),
        report(st, file, start, end, level, v1) matches Some(d) && d.category == IssueCategory::Broken,
{
}

/// The view of a list of diagnostics.
pub open spec fn diagnostics_view(ds: Seq<Diagnostic>) -> Seq<DiagnosticView> {
    ds.map_values(|d: Diagnostic| d@)
}

/// Checks the links of a token stream (each token with its byte range) of the
/// document at `file_path`, and returns what is wrong with them in document
/// order. Inline links, autolinks and references to undefined labels are
/// checked; every link end leaves the link. The diagnostics are exactly
/// those of `link_reports` for the verdicts that the disk gave.
pub fn check_events(
    events: &Vec<(MdEvent, usize, usize)>,
    file_path: &str,
    root: &str,
    conf: &LinkCheckerConfig,
) -> (r: Vec<Diagnostic>)
    ensures
        is_link_check_result(events@, file_path@, root@, *conf, diagnostics_view(r@)),
        forall|k: int|
            0 <= k < r@.len() ==> (#[trigger] r@[k])@.file == file_path@ && r@[k]@.level
                == conf.prompt_level,
{
    let mut link_state = LinkState::new();
    let mut out: Vec<Diagnostic> = Vec::new();
    let ghost mut verdicts: Seq<bool> = seq![];
    let mut i: usize = 0;
    while i < events.len()
        invariant
            i <= events@.len(),
            link_state@ == link_state_after(events@.subrange(0, i as int)),
            verdicts_fit(events@.subrange(0, i as int), verdicts, file_path@, root@, *conf),
            diagnostics_view(out@) == link_reports(
                events@.subrange(0, i as int),
                file_path@,
                conf.prompt_level,
                verdicts,
            ),
        decreases events@.len() - i,
    {
        let ghost pre = events@.subrange(0, i as int);
        let ghost out0 = out@;
        assert(events@.subrange(0, i + 1).drop_last() =~= pre);
        let range = events[i].1..events[i].2;
        match &events[i].0 {
            MdEvent::LinkStart(kind, url) => {
                link_state.start_link(url.clone(), *kind);
            },
            MdEvent::Text(text) => {
                if link_state.is_active() {
                    link_state.append_text(text.as_str());
                }
            },
            MdEvent::LinkEnd => {
                if link_state.should_check() {
                    let ghost st = link_state@;
                    let d = link_state.check_and_prompt(file_path, &range, root, conf);
                    let ghost v = opt_diagnostic(d) == report(
                        st,
                        file_path@,
                        range.start as nat,
                        range.end as nat,
                        conf.prompt_level,
                        true,
                    );
                    proof {
                        lemma_link_reports_extend(pre, file_path@, conf.prompt_level, verdicts, seq![v]);
                        let ghost old_v = verdicts;
                        verdicts = verdicts + seq![v];
                        let ghost cl = checked_links(events@.subrange(0, i + 1));
                        assert(cl == checked_links(pre).push(st));
                        assert forall|j: int| 0 <= j < verdicts.len() implies verdict_fits(
                            #[trigger] cl[j],
                            verdicts[j],
                            file_path@,
                            root@,
                            *conf,
                        ) by {
                            if j < old_v.len() {
                                assert(cl[j] == checked_links(pre)[j]);
                                assert(verdicts[j] == old_v[j]);
                            }
                        }
                    }
                    match d {
                        Some(d) => {
                            out.push(d);
                            assert(diagnostics_view(out@) =~= diagnostics_view(out0).push(out@.last()@));
                        },
                        None => {},
                    }
                } else {
                    link_state.reset();
                }
            },
            _ => {},
        }
        i = i + 1;
    }
    assert(events@.subrange(0, events@.len() as int) =~= events@);
    assert(verdicts_fit(events@, verdicts, file_path@, root@, *conf));
    assert(diagnostics_view(out@) == link_reports(events@, file_path@, conf.prompt_level, verdicts));
    proof {
        lemma_link_reports_origin(events@, file_path@, conf.prompt_level, verdicts);
        assert forall|k: int| 0 <= k < out@.len() implies (#[trigger] out@[k])@.file == file_path@
            && out@[k]@.level == conf.prompt_level by {
            assert(diagnostics_view(out@)[k] == out@[k]@);
        }
    }
    out
}

/// Checks the links of a markdown document and returns what is wrong with
/// them, in document order, as `check_events` does on its token stream.
/// Without a document path nothing is checked.
pub fn check_link(
    context: &str,
    path: &Option<String>,
    root: &str,
    conf: &LinkCheckerConfig,
) -> (r: Vec<Diagnostic>)
    ensures
        path is None ==> r@.len() == 0,
        path matches Some(p) ==> is_link_check_result(
            link_tokens_of(context@),
            p@,
            root@,
            *conf,
            diagnostics_view(r@),
        ),
        path matches Some(p) ==> forall|k: int|
            0 <= k < r@.len() ==> (#[trigger] r@[k])@.file == p@ && r@[k]@.level
                == conf.prompt_level,
{
    match path {
        Some(file_path) => check_events(&link_tokens(context), file_path.as_str(), root, conf),
        None => Vec::new(),
    }
}

} // verus!
