use vstd::prelude::*;

use crate::config::LinkCheckerConfig;
use crate::text::{chars_of, string_of};
use std::path::Path;

verus! {

/// Whether `url::Url::parse` accepts this text as an absolute URL.
pub uninterp spec fn parses_as_url(s: Seq<char>) -> bool;

/// What `Path::parent` returns for this path (paths as on Unix, the target of
/// this library: `/` separates components).
pub uninterp spec fn parent_of(path: Seq<char>) -> Option<Seq<char>>;

/// What `Path::join` returns for these two paths (paths as on Unix).
pub uninterp spec fn joined(base: Seq<char>, rest: Seq<char>) -> Seq<char>;

/// What `Path::starts_with` answers: `base` is a leading run of whole
/// components of `path` (paths as on Unix).
pub uninterp spec fn path_starts_with(path: Seq<char>, base: Seq<char>) -> bool;

/// Relies on `url::Url::parse`: whether the text parses as an absolute URL.
#[verifier::external_body]
fn url_parses(s: &str) -> (r: bool)
    ensures
        r == parses_as_url(s@),
{
    url::Url::parse(s).is_ok()
}

/// Relies on `Path::parent`: the path without its last component.
#[verifier::external_body]
fn parent(path: &str) -> (r: Option<String>)
    ensures
        r matches Some(p) ==> parent_of(path@) == Some(p@),
        r is None ==> parent_of(path@) is None,
{
    Path::new(path).parent().map(|p| p.to_string_lossy().into_owned())
}

/// Relies on `Path::join`: `rest` appended to `base` as further components.
#[verifier::external_body]
fn join(base: &str, rest: &str) -> (r: String)
    ensures
        r@ == joined(base@, rest@),
{
    Path::new(base).join(rest).to_string_lossy().into_owned()
}

/// Relies on `Path::starts_with`: whether `base` is a prefix of `path`,
/// compared by whole components.
#[verifier::external_body]
fn starts_with(path: &str, base: &str) -> (r: bool)
    ensures
        r == path_starts_with(path@, base@),
{
    Path::new(path).starts_with(base)
}

/// Relies on `Path::canonicalize`: the absolute form of the path with `.`,
/// `..` and symbolic links resolved, or `None` where the file system cannot
/// resolve it. What comes back depends on the disk.
#[verifier::external_body]
fn canonicalize(path: &str) -> Option<String> {
    Path::new(path).canonicalize().ok().map(|p| p.to_string_lossy().into_owned())
}

/// Relies on `Path::exists`: whether an entry is at the path. What comes back
/// depends on the disk.
#[verifier::external_body]
fn entry_exists(path: &str) -> bool {
    Path::new(path).exists()
}

/// The part of a link target before its first `#` or `?`.
pub open spec fn path_part(target: Seq<char>) -> Seq<char>
    decreases target.len(),
{
    if target.len() == 0 || target[0] == '#' || target[0] == '?' {
        seq![]
    } else {
        seq![target[0]] + path_part(target.subrange(1, target.len() as int))
    }
}

/// Where a link target points, before the disk is asked.
pub ghost enum TargetSpec {
    /// Only a fragment or query: always valid.
    Fragment,
    /// A path to look for on disk.
    Candidate(Seq<char>),
    /// A relative path whose document has no parent directory.
    NoParent,
}

/// Where `target`, written in the document at `base_path`, points below `root`:
/// a path that starts with `/` is taken from `root`; any other from the
/// document's directory, itself taken from `root`.
pub open spec fn target_spec(target: Seq<char>, base_path: Seq<char>, root: Seq<char>) -> TargetSpec {
    let part = path_part(target);
    if part.len() == 0 {
        TargetSpec::Fragment
    } else if part[0] == '/' {
        TargetSpec::Candidate(joined(root, part.subrange(1, part.len() as int)))
    } else {
        match parent_of(base_path) {
            Some(dir) => TargetSpec::Candidate(joined(joined(root, dir), part)),
            None => TargetSpec::NoParent,
        }
    }
}

/// Where a link target points, before the disk is asked.
pub enum LinkTarget {
    /// Only a fragment or query: always valid.
    Fragment,
    /// A path to look for on disk.
    Candidate(String),
    /// A relative path whose document has no parent directory.
    NoParent,
}

impl View for LinkTarget {
    type V = TargetSpec;

    open spec fn view(&self) -> TargetSpec {
        match self {
            LinkTarget::Fragment => TargetSpec::Fragment,
            LinkTarget::Candidate(p) => TargetSpec::Candidate(p@),
            LinkTarget::NoParent => TargetSpec::NoParent,
        }
    }
}

proof fn lemma_path_part_prefix(target: Seq<char>, i: int)
    requires
        0 <= i <= target.len(),
        forall|j: int| 0 <= j < i ==> target[j] != '#' && target[j] != '?',
        i == target.len() || target[i] == '#' || target[i] == '?',
    ensures
        path_part(target) == target.subrange(0, i),
    decreases i,
{
    if i > 0 {
        let rest = target.subrange(1, target.len() as int);
        lemma_path_part_prefix(rest, i - 1);
        assert(seq![target[0]] + rest.subrange(0, i - 1) =~= target.subrange(0, i));
    } else {
        assert(target.subrange(0, 0) =~= Seq::<char>::empty());
    }
}

/// The characters of `target` before its first `#` or `?`.
fn split_path_part(target: &Vec<char>) -> (r: Vec<char>)
    ensures
        r@ == path_part(target@),
{
    let mut i: usize = 0;
    while i < target.len() && target[i] != '#' && target[i] != '?'
        invariant
            i <= target@.len(),
            forall|j: int| 0 <= j < i ==> target@[j] != '#' && target@[j] != '?',
        decreases target@.len() - i,
    {
        i = i + 1;
    }
    proof {
        lemma_path_part_prefix(target@, i as int);
    }
    let mut out: Vec<char> = Vec::new();
    let mut k: usize = 0;
    while k < i
        invariant
            k <= i <= target@.len(),
            out@ == target@.subrange(0, k as int),
        decreases i - k,
    {
        out.push(target[k]);
        k = k + 1;
        assert(out@ =~= target@.subrange(0, k as int));
    }
    out
}

/// Where `target`, written in the document at `base_path`, points below `root`.
pub fn resolve_target(target: &str, base_path: &str, root: &str) -> (r: LinkTarget)
    ensures
        r@ == target_spec(target@, base_path@, root@),
{
    let part = split_path_part(&chars_of(target));
    if part.len() == 0 {
        return LinkTarget::Fragment;
    }
    if part[0] == '/' {
        let mut rest: Vec<char> = Vec::new();
        let mut k: usize = 1;
        while k < part.len()
            invariant
                1 <= k <= part@.len(),
                rest@ == part@.subrange(1, k as int),
            decreases part@.len() - k,
        {
            rest.push(part[k]);
            k = k + 1;
            assert(rest@ =~= part@.subrange(1, k as int));
        }
        let rest_str = string_of(&rest);
        return LinkTarget::Candidate(join(root, rest_str.as_str()));
    }
    match parent(base_path) {
        Some(dir) => {
            let base_dir = join(root, dir.as_str());
            let part_str = string_of(&part);
            LinkTarget::Candidate(join(base_dir.as_str(), part_str.as_str()))
        },
        None => LinkTarget::NoParent,
    }
}

/// Whether a candidate is a valid target: it exists, and its canonical form
/// lies within the canonical root.
pub open spec fn contained_target(found: bool, canonical: Seq<char>, canonical_root: Seq<char>) -> bool {
    found && path_starts_with(canonical, canonical_root)
}

/// Decides a candidate from what the disk reported: valid when the entry
/// exists and its canonical path lies within the canonical root.
pub fn is_contained_target(found: bool, canonical: &str, canonical_root: &str) -> (r: bool)
    ensures
        r == contained_target(found, canonical@, canonical_root@),
{
    found && starts_with(canonical, canonical_root)
}

/// A path that leaves the root is never a valid target, even where the file
/// it names exists.
pub proof fn lemma_escaping_path_invalid(found: bool, canonical: Seq<char>, canonical_root: Seq<char>)
    requires
        !path_starts_with(canonical, canonical_root),
    ensures
        !contained_target(found, canonical, canonical_root),
{
}

/// A target that is only a fragment (`#` and anything after it, or nothing
/// after it) points nowhere on disk: it is always valid.
pub proof fn lemma_fragment_target(target: Seq<char>, base_path: Seq<char>, root: Seq<char>)
    requires
        target.len() > 0,
        target[0] == '#',
    ensures
        target_spec(target, base_path, root) == TargetSpec::Fragment,
{
}

/// The canonical form of `path`, or `path` itself where it cannot be resolved.
fn canonical_or_self(path: &str) -> (r: String) {
    match canonicalize(path) {
        Some(c) => c,
        None => string_of(&chars_of(path)),
    }
}

/// Checks whether `target` is a valid relative or root-relative path below
/// `root` for the document at `base_path`. A fragment-only target is valid;
/// a target that is a path is valid when the entry exists and its canonical
/// form lies within the canonical root. `None` where the document has no
/// parent directory to resolve against.
pub fn is_valid_link_target(target: &str, base_path: &str, root: &str) -> (r: Option<bool>)
    ensures
        match target_spec(target@, base_path@, root@) {
            TargetSpec::Fragment => r == Some(true),
            TargetSpec::NoParent => r is None,
            TargetSpec::Candidate(_) => r is Some,
        },
{
    match resolve_target(target, base_path, root) {
        LinkTarget::Fragment => Some(true),
        LinkTarget::NoParent => None,
        LinkTarget::Candidate(candidate) => {
            let canonical = canonical_or_self(candidate.as_str());
            let canonical_root = canonical_or_self(root);
            let found = entry_exists(canonical.as_str());
            Some(is_contained_target(found, canonical.as_str(), canonical_root.as_str()))
        },
    }
}

/// Checks whether a string is an absolute URL.
pub fn check_url(url: &str) -> (r: bool)
    ensures
        r == parses_as_url(url@),
{
    url_parses(url)
}

/// The deny-list names this destination verbatim.
pub open spec fn is_denied(conf: LinkCheckerConfig, url: Seq<char>) -> bool {
    exists|i: int| 0 <= i < conf.deny_list@.len() && #[trigger] conf.deny_list@[i]@ == url
}

/// Whether the deny-list names `url` verbatim.
pub fn denied(conf: &LinkCheckerConfig, url: &str) -> (r: bool)
    ensures
        r == is_denied(*conf, url@),
{
    let u = string_of(&chars_of(url));
    let mut i: usize = 0;
    while i < conf.deny_list.len()
        invariant
            i <= conf.deny_list@.len(),
            u@ == url@,
            forall|j: int| 0 <= j < i ==> #[trigger] conf.deny_list@[j]@ != url@,
        decreases conf.deny_list@.len() - i,
    {
        if conf.deny_list[i] == u {
            return true;
        }
        i = i + 1;
    }
    false
}

/// Checks whether a link destination is valid for the document at `path`:
/// not on the deny-list, and either an absolute URL or a valid target below
/// `root`. A document with no parent directory makes a relative path invalid.
pub fn check_path(url: &str, path: &str, root: &str, conf: &LinkCheckerConfig) -> (r: bool)
    ensures
        is_denied(*conf, url@) ==> !r,
        !is_denied(*conf, url@) && parses_as_url(url@) ==> r,
        !is_denied(*conf, url@) && target_spec(url@, path@, root@) == TargetSpec::Fragment ==> r,
        !is_denied(*conf, url@) && !parses_as_url(url@) && target_spec(url@, path@, root@)
            == TargetSpec::NoParent ==> !r,
{
    if denied(conf, url) {
        return false;
    }
    if check_url(url) {
        return true;
    }
    match is_valid_link_target(url, path, root) {
        Some(valid) => valid,
        None => false,
    }
}

} // verus!
