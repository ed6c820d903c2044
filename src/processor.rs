use vstd::prelude::*;

use crate::attributes::{dependent_version, VersionTuple};
use crate::config::ProcessorConfig;
use crate::link_checker::{check_link, diagnostics_view, is_link_check_result, Diagnostic};
use crate::markdown::link_tokens_of;
use crate::tag_adder::{add_heading_anchors, anchored_markdown};

verus! {

/// The preprocessor: heading anchors, then link checks, on every chapter.
#[derive(Clone, Copy, Debug)]
pub struct Handler;

impl Handler {
    pub fn new() -> (r: Self)
        ensures
            r == Handler,
    {
        Handler
    }

    /// The name under which the book's configuration knows the preprocessor.
    pub fn name(&self) -> (r: &'static str)
        ensures
            r@ == "betterlink"@,
    {
        "betterlink"
    }
}

/// Whether the running mdbook is the version that this preprocessor was
/// built against.
pub fn check_version(current_mdbook_version: &VersionTuple) -> (r: bool)
    ensures
        r == (*current_mdbook_version == VersionTuple(0, 4, 52)),
{
    *current_mdbook_version == dependent_version()
}

/// Processes one chapter: gives its headings anchors, then, when link checks
/// are on and the chapter has a source path, checks its links against `root`.
/// Returns whether the content was rewritten, and the diagnostics.
pub fn chapter_handle(
    content: &mut String,
    source_path: &Option<String>,
    config: &ProcessorConfig,
    root: &str,
) -> (r: (bool, Vec<Diagnostic>))
    ensures
        r.0 == anchored_markdown(old(content)@, config.add_link_for_chinese) is Some,
        r.0 ==> final(content)@ == anchored_markdown(old(content)@, config.add_link_for_chinese)->0,
        !r.0 ==> final(content)@ == old(content)@,
        !config.do_link_check ==> r.1@.len() == 0,
        source_path matches Some(p) ==> (config.do_link_check ==> is_link_check_result(
            link_tokens_of(final(content)@),
            p@,
            root@,
            config.link_checker_config,
            diagnostics_view(r.1@),
        )),
        source_path is None ==> r.1@.len() == 0,
        source_path matches Some(p) ==> forall|i: int|
            0 <= i < r.1@.len() ==> (#[trigger] r.1@[i])@.file == p@ && r.1@[i]@.level
                == config.link_checker_config.prompt_level,
{
    let rewritten = add_heading_anchors(content, config.add_link_for_chinese);
    if config.do_link_check {
        let diagnostics = check_link(content.as_str(), source_path, root, &config.link_checker_config);
        (rewritten, diagnostics)
    } else {
        (rewritten, Vec::new())
    }
}

} // verus!
