use vstd::prelude::*;

use crate::text::{chars_of, decimal, push_all, push_decimal, string_of};

verus! {

/// What `char::is_alphanumeric` answers for `c` (Unicode Alphabetic or Numeric).
pub uninterp spec fn is_alphanumeric_char(c: char) -> bool;

/// What `str::to_lowercase` returns for a string of these characters.
pub uninterp spec fn lowercase_of(s: Seq<char>) -> Seq<char>;

/// Relies on `char::is_alphanumeric`.
#[verifier::external_body]
fn is_alphanumeric(c: char) -> (r: bool)
    ensures
        r == is_alphanumeric_char(c),
{
    c.is_alphanumeric()
}

/// Relies on `str::to_lowercase`: the result depends on the characters alone,
/// and the empty string stays empty.
#[verifier::external_body]
fn to_lowercase(s: &str) -> (r: String)
    ensures
        r@ == lowercase_of(s@),
        s@.len() == 0 ==> r@.len() == 0,
{
    s.to_lowercase()
}

/// A character that a slug keeps from heading text.
pub open spec fn is_slug_char(c: char) -> bool {
    is_alphanumeric_char(c) || c == '-' || c == '_'
}

/// The characters of `s` that a slug keeps, in order.
pub open spec fn keep_slug_chars(s: Seq<char>) -> Seq<char>
    decreases s.len(),
{
    if s.len() == 0 {
        seq![]
    } else if is_slug_char(s.last()) {
        keep_slug_chars(s.drop_last()).push(s.last())
    } else {
        keep_slug_chars(s.drop_last())
    }
}

/// The pieces of `s` between its dashes, empty ones included: `-a--b` has the
/// pieces ``, `a`, `` and `b`.
pub open spec fn dash_segments(s: Seq<char>) -> Seq<Seq<char>>
    decreases s.len(),
{
    if s.len() == 0 {
        seq![seq![]]
    } else {
        let f = dash_segments(s.drop_last());
        if s.last() == '-' {
            f.push(seq![])
        } else {
            f.update(f.len() - 1, f.last().push(s.last()))
        }
    }
}

/// The non-empty sequences among `segs`, in order.
pub open spec fn non_empty(segs: Seq<Seq<char>>) -> Seq<Seq<char>>
    decreases segs.len(),
{
    if segs.len() == 0 {
        seq![]
    } else if segs.last().len() > 0 {
        non_empty(segs.drop_last()).push(segs.last())
    } else {
        non_empty(segs.drop_last())
    }
}

/// `segs` joined by single dashes.
pub open spec fn join_dashes(segs: Seq<Seq<char>>) -> Seq<char>
    decreases segs.len(),
{
    if segs.len() == 0 {
        seq![]
    } else if segs.len() == 1 {
        segs[0]
    } else {
        join_dashes(segs.drop_last()) + seq!['-'] + segs.last()
    }
}

/// The non-empty dash-separated segments of `s`, joined by single dashes:
/// leading and trailing dashes go, and each run of dashes becomes one.
pub open spec fn collapse_dashes(s: Seq<char>) -> Seq<char> {
    join_dashes(non_empty(dash_segments(s)))
}

/// Reads `s` from the left: the text written so far, and whether a dash is
/// owed before the next character that is not a dash.
spec fn collapse_scan(s: Seq<char>) -> (Seq<char>, bool)
    decreases s.len(),
{
    if s.len() == 0 {
        (seq![], false)
    } else {
        let (out, pending) = collapse_scan(s.drop_last());
        let c = s.last();
        if c == '-' {
            (out, out.len() > 0)
        } else if pending {
            (out.push('-').push(c), false)
        } else {
            (out.push(c), false)
        }
    }
}

proof fn lemma_non_empty_items(segs: Seq<Seq<char>>)
    ensures
        forall|i: int| 0 <= i < non_empty(segs).len() ==> (#[trigger] non_empty(segs)[i]).len() > 0,
    decreases segs.len(),
{
    if segs.len() > 0 {
        lemma_non_empty_items(segs.drop_last());
        let r = non_empty(segs.drop_last());
        if segs.last().len() > 0 {
            assert forall|i: int| 0 <= i < r.push(segs.last()).len() implies (#[trigger] r.push(
                segs.last(),
            )[i]).len() > 0 by {
                if i < r.len() {
                    assert(r.push(segs.last())[i] == r[i]);
                }
            }
        }
    }
}

proof fn lemma_join_empty(segs: Seq<Seq<char>>)
    requires
        segs.len() > 0,
        segs.last().len() > 0,
    ensures
        join_dashes(segs).len() > 0,
{
}

/// The scan writes exactly the joined non-empty segments read so far.
proof fn lemma_collapse_scan_joins(s: Seq<char>)
    ensures
        dash_segments(s).len() > 0,
        collapse_scan(s).0 == collapse_dashes(s),
        collapse_scan(s).1 == (dash_segments(s).last().len() == 0 && collapse_scan(s).0.len() > 0),
    decreases s.len(),
{
    if s.len() > 0 {
        let p = s.drop_last();
        lemma_collapse_scan_joins(p);
        let f = dash_segments(p);
        let c = s.last();
        let (out, pending) = collapse_scan(p);
        let nd = non_empty(f.drop_last());
        if c != '-' {
            let g = f.update(f.len() - 1, f.last().push(c));
            assert(dash_segments(s) == g);
            assert(g.drop_last() =~= f.drop_last());
            assert(g.last() == f.last().push(c));
            assert(non_empty(g) == nd.push(f.last().push(c)));
            if f.last().len() > 0 {
                assert(non_empty(f) == nd.push(f.last()));
                if nd.len() > 0 {
                    assert(nd.push(f.last()).drop_last() =~= nd);
                    assert(nd.push(f.last().push(c)).drop_last() =~= nd);
                    assert(join_dashes(nd.push(f.last().push(c))) =~= join_dashes(nd.push(f.last())).push(c));
                } else {
                    assert(join_dashes(nd.push(f.last().push(c))) =~= join_dashes(nd.push(f.last())).push(c));
                }
                assert(!pending);
                assert(collapse_scan(s) == (out.push(c), false));
                assert(collapse_scan(s).0 == collapse_dashes(s));
            } else {
                assert(non_empty(f) == nd);
                lemma_non_empty_items(f.drop_last());
                if nd.len() > 0 {
                    lemma_join_empty(nd);
                    assert(nd.push(seq![c]).drop_last() =~= nd);
                    assert(f.last().push(c) =~= seq![c]);
                    assert(join_dashes(nd.push(f.last().push(c))) =~= out.push('-').push(c));
                    assert(collapse_scan(s).0 == collapse_dashes(s));
                } else {
                    assert(f.last().push(c) =~= seq![c]);
                    assert(join_dashes(nd.push(f.last().push(c))) =~= out.push(c));
                    assert(collapse_scan(s).0 == collapse_dashes(s));
                }
            }
        } else {
            assert(f.push(seq![]).drop_last() =~= f);
            assert(dash_segments(s) == f.push(seq![]));
            assert(non_empty(f.push(seq![])) == non_empty(f));
            assert(collapse_scan(s) == (out, out.len() > 0));
            assert(collapse_dashes(s) == collapse_dashes(p));
        }
    } else {
        let e: Seq<Seq<char>> = seq![seq![]];
        assert(e.drop_last() =~= Seq::<Seq<char>>::empty());
        assert(non_empty(e) == non_empty(Seq::<Seq<char>>::empty()));
    }
}

/// No leading or trailing dash, and no two dashes in a row.
pub open spec fn is_collapsed(s: Seq<char>) -> bool {
    s.len() > 0 ==> {
        &&& s[0] != '-'
        &&& s.last() != '-'
        &&& forall|i: int| 0 <= i < s.len() - 1 ==> !(#[trigger] s[i] == '-' && s[i + 1] == '-')
    }
}

/// The slug that heading text normalizes to.
pub open spec fn slug_base(text: Seq<char>) -> Seq<char> {
    collapse_dashes(lowercase_of(keep_slug_chars(text)))
}

/// The identifier given to the `seen`-th repetition of `base` (0 for its first use).
pub open spec fn slug_for(base: Seq<char>, seen: nat) -> Seq<char> {
    if seen == 0 {
        base
    } else {
        base + seq!['-'] + decimal(seen)
    }
}

/// The identifier of a heading whose text leaves an empty slug: `header-<position>`.
pub open spec fn placeholder(position: nat) -> Seq<char> {
    seq!['h', 'e', 'a', 'd', 'e', 'r', '-'] + decimal(position)
}

/// How often `key` has been handed out according to `seen`.
pub open spec fn seen_count(seen: Map<Seq<char>, nat>, key: Seq<char>) -> nat {
    if seen.dom().contains(key) {
        seen[key]
    } else {
        0
    }
}

/// The base of an identifier: the explicit id verbatim, else the slug of the text.
pub open spec fn base_of(explicit_id: Option<Seq<char>>, text: Seq<char>) -> Seq<char> {
    match explicit_id {
        Some(id) => id,
        None => slug_base(text),
    }
}

/// The identifier that `generate` returns, and the registry after it.
pub open spec fn generate_spec(
    seen: Map<Seq<char>, nat>,
    explicit_id: Option<Seq<char>>,
    text: Seq<char>,
    position: nat,
) -> (Seq<char>, Map<Seq<char>, nat>) {
    let base = base_of(explicit_id, text);
    if explicit_id is None && base.len() == 0 {
        (placeholder(position), seen)
    } else {
        let n = seen_count(seen, base);
        (slug_for(base, n), seen.insert(base, n + 1))
    }
}

proof fn lemma_collapse_scan_shape(s: Seq<char>)
    ensures
        is_collapsed(collapse_scan(s).0),
        collapse_scan(s).1 ==> collapse_scan(s).0.len() > 0,
    decreases s.len(),
{
    if s.len() > 0 {
        lemma_collapse_scan_shape(s.drop_last());
        let (out, pending) = collapse_scan(s.drop_last());
        let c = s.last();
        if c != '-' {
            if pending {
                let r = out.push('-').push(c);
                assert forall|i: int| 0 <= i < r.len() - 1 implies !(#[trigger] r[i] == '-' && r[i
                    + 1] == '-') by {
                    if i < out.len() - 1 {
                        assert(r[i] == out[i] && r[i + 1] == out[i + 1]);
                    }
                }
            } else {
                let r = out.push(c);
                assert forall|i: int| 0 <= i < r.len() - 1 implies !(#[trigger] r[i] == '-' && r[i
                    + 1] == '-') by {
                    if i < out.len() - 1 {
                        assert(r[i] == out[i] && r[i + 1] == out[i + 1]);
                    }
                }
            }
        }
    }
}

proof fn lemma_collapse_scan_prefix(s: Seq<char>, n: int)
    requires
        is_collapsed(s),
        0 <= n <= s.len(),
    ensures
        collapse_scan(s.subrange(0, n)) == (if n > 0 && s[n - 1] == '-' {
            (s.subrange(0, n - 1), true)
        } else {
            (s.subrange(0, n), false)
        }),
    decreases n,
{
    if n > 0 {
        lemma_collapse_scan_prefix(s, n - 1);
        let p = s.subrange(0, n);
        assert(p.drop_last() =~= s.subrange(0, n - 1));
        if n >= 2 {
            assert(!(s[n - 2] == '-' && s[n - 1] == '-'));
        }
        if n >= 2 && s[n - 2] == '-' {
            assert(s.subrange(0, n - 2).push('-').push(s[n - 1]) =~= p);
        } else {
            assert(s.subrange(0, n - 1).push(s[n - 1]) =~= p);
        }
    }
}

/// A collapsed sequence is its own collapse.
proof fn lemma_collapse_fixed(s: Seq<char>)
    requires
        is_collapsed(s),
    ensures
        collapse_dashes(s) == s,
{
    lemma_collapse_scan_prefix(s, s.len() as int);
    lemma_collapse_scan_joins(s);
    assert(s.subrange(0, s.len() as int) =~= s);
}

/// Collapsing dashes twice is collapsing them once.
pub proof fn lemma_collapse_idempotent(s: Seq<char>)
    ensures
        collapse_dashes(collapse_dashes(s)) == collapse_dashes(s),
{
    lemma_collapse_scan_shape(s);
    lemma_collapse_scan_joins(s);
    lemma_collapse_fixed(collapse_dashes(s));
}

/// Slug normalization is idempotent: normalizing a slug gives the slug back,
/// for every slug whose characters all pass the character filter and that
/// lowercasing leaves unchanged.
pub proof fn lemma_normalize_idempotent(text: Seq<char>)
    requires
        keep_slug_chars(slug_base(text)) == slug_base(text),
        lowercase_of(slug_base(text)) == slug_base(text),
    ensures
        slug_base(slug_base(text)) == slug_base(text),
{
    lemma_collapse_idempotent(lowercase_of(keep_slug_chars(text)));
}

/// The characters of `cs` that a slug keeps.
fn keep_chars(cs: &Vec<char>) -> (r: Vec<char>)
    ensures
        r@ == keep_slug_chars(cs@),
{
    let mut out: Vec<char> = Vec::new();
    let mut i: usize = 0;
    while i < cs.len()
        invariant
            i <= cs@.len(),
            out@ == keep_slug_chars(cs@.subrange(0, i as int)),
        decreases cs@.len() - i,
    {
        let c = cs[i];
        assert(cs@.subrange(0, i + 1).drop_last() =~= cs@.subrange(0, i as int));
        if is_alphanumeric(c) || c == '-' || c == '_' {
            out.push(c);
        }
        i = i + 1;
    }
    assert(cs@.subrange(0, cs@.len() as int) =~= cs@);
    out
}

/// `cs` with its dash-separated segments joined by single dashes.
fn collapse(cs: &Vec<char>) -> (r: Vec<char>)
    ensures
        r@ == collapse_dashes(cs@),
{
    let mut out: Vec<char> = Vec::new();
    let mut pending = false;
    let mut i: usize = 0;
    while i < cs.len()
        invariant
            i <= cs@.len(),
            (out@, pending) == collapse_scan(cs@.subrange(0, i as int)),
        decreases cs@.len() - i,
    {
        let c = cs[i];
        assert(cs@.subrange(0, i + 1).drop_last() =~= cs@.subrange(0, i as int));
        if c == '-' {
            pending = out.len() > 0;
        } else {
            if pending {
                out.push('-');
            }
            out.push(c);
            pending = false;
        }
        i = i + 1;
    }
    assert(cs@.subrange(0, cs@.len() as int) =~= cs@);
    proof {
        lemma_collapse_scan_joins(cs@);
    }
    out
}

/// Normalizes heading text into a slug: keeps alphanumeric characters, `-` and
/// `_`, lowercases them, and joins the non-empty dash-separated segments with
/// single dashes.
pub fn normalize(text: &str) -> (r: String)
    ensures
        r@ == slug_base(text@),
{
    let kept = keep_chars(&chars_of(text));
    let lower = to_lowercase(string_of(&kept).as_str());
    string_of(&collapse(&chars_of(lower.as_str())))
}

/// The map that the first `n` entries describe; a later entry wins over an earlier one.
pub open spec fn entries_map(keys: Seq<String>, counts: Seq<usize>, n: int) -> Map<Seq<char>, nat>
    decreases n,
{
    if n <= 0 {
        Map::empty()
    } else {
        entries_map(keys, counts, n - 1).insert(keys[n - 1]@, counts[n - 1] as nat)
    }
}

proof fn lemma_entries_found(keys: Seq<String>, counts: Seq<usize>, n: int, i: int)
    requires
        0 <= i < n <= keys.len(),
        n <= counts.len(),
        forall|j: int| i < j < n ==> keys[j]@ != keys[i]@,
    ensures
        entries_map(keys, counts, n).dom().contains(keys[i]@),
        entries_map(keys, counts, n)[keys[i]@] == counts[i] as nat,
    decreases n,
{
    if n - 1 > i {
        lemma_entries_found(keys, counts, n - 1, i);
    }
}

proof fn lemma_entries_absent(keys: Seq<String>, counts: Seq<usize>, n: int, k: Seq<char>)
    requires
        n <= keys.len(),
        forall|j: int| 0 <= j < n ==> keys[j]@ != k,
    ensures
        !entries_map(keys, counts, n).dom().contains(k),
    decreases n,
{
    if n > 0 {
        lemma_entries_absent(keys, counts, n - 1, k);
    }
}

proof fn lemma_entries_same_prefix(
    keys1: Seq<String>,
    counts1: Seq<usize>,
    keys2: Seq<String>,
    counts2: Seq<usize>,
    n: int,
)
    requires
        n <= keys1.len(),
        n <= keys2.len(),
        n <= counts1.len(),
        n <= counts2.len(),
        forall|j: int| 0 <= j < n ==> keys1[j] == keys2[j] && counts1[j] == counts2[j],
    ensures
        entries_map(keys1, counts1, n) == entries_map(keys2, counts2, n),
    decreases n,
{
    if n > 0 {
        lemma_entries_same_prefix(keys1, counts1, keys2, counts2, n - 1);
    }
}

proof fn lemma_entries_update(keys: Seq<String>, counts: Seq<usize>, n: int, i: int, v: usize)
    requires
        0 <= i < n <= keys.len(),
        n <= counts.len(),
        forall|j: int| i < j < n ==> keys[j]@ != keys[i]@,
    ensures
        entries_map(keys, counts.update(i, v), n) == entries_map(keys, counts, n).insert(
            keys[i]@,
            v as nat,
        ),
    decreases n,
{
    let c2 = counts.update(i, v);
    if n - 1 > i {
        lemma_entries_update(keys, counts, n - 1, i, v);
        assert(entries_map(keys, c2, n) =~= entries_map(keys, counts, n).insert(keys[i]@, v as nat));
    } else {
        lemma_entries_same_prefix(keys, c2, keys, counts, i);
        assert(entries_map(keys, c2, n) =~= entries_map(keys, counts, n).insert(keys[i]@, v as nat));
    }
}

/// The identifiers handed out in one pass over a document: for each base slug,
/// how often it has been used.
pub struct SlugRegistry {
    keys: Vec<String>,
    counts: Vec<usize>,
    total: usize,
}

impl View for SlugRegistry {
    type V = Map<Seq<char>, nat>;

    closed spec fn view(&self) -> Map<Seq<char>, nat> {
        entries_map(self.keys@, self.counts@, self.keys@.len() as int)
    }
}

impl SlugRegistry {
    /// The entries line up, and no count exceeds the number of identifiers recorded.
    pub closed spec fn wf(&self) -> bool {
        &&& self.keys@.len() == self.counts@.len()
        &&& forall|i: int| 0 <= i < self.counts@.len() ==> #[trigger] self.counts@[i] <= self.total
    }

    /// How many identifiers have been recorded in all.
    pub closed spec fn recorded(&self) -> nat {
        self.total as nat
    }

    pub fn new() -> (r: Self)
        ensures
            r.wf(),
            r@ == Map::<Seq<char>, nat>::empty(),
            r.recorded() == 0,
    {
        SlugRegistry { keys: Vec::new(), counts: Vec::new(), total: 0 }
    }

    /// The last entry whose key is `key`.
    fn find(&self, key: &String) -> (r: Option<usize>)
        requires
            self.wf(),
        ensures
            match r {
                Some(i) => i < self.keys@.len() && self.keys@[i as int]@ == key@ && forall|j: int|
                    i < j < self.keys@.len() ==> #[trigger] self.keys@[j]@ != key@,
                None => forall|j: int| 0 <= j < self.keys@.len() ==> #[trigger] self.keys@[j]@ != key@,
            },
    {
        let mut i: usize = self.keys.len();
        while i > 0
            invariant
                i <= self.keys@.len(),
                forall|j: int| i <= j < self.keys@.len() ==> #[trigger] self.keys@[j]@ != key@,
            decreases i,
        {
            if self.keys[i - 1] == *key {
                return Some(i - 1);
            }
            i = i - 1;
        }
        None
    }

    /// Records one more use of `base`, and returns how often it was used before.
    fn record(&mut self, base: String) -> (r: usize)
        requires
            old(self).wf(),
            old(self).recorded() < usize::MAX,
        ensures
            final(self).wf(),
            r as nat == seen_count(old(self)@, base@),
            final(self)@ == old(self)@.insert(base@, r as nat + 1),
            final(self).recorded() == old(self).recorded() + 1,
    {
        let ghost keys0 = self.keys@;
        let ghost counts0 = self.counts@;
        let n = self.keys.len();
        match self.find(&base) {
            Some(i) => {
                proof {
                    lemma_entries_found(keys0, counts0, n as int, i as int);
                }
                let c = self.counts[i];
                self.counts.set(i, c + 1);
                self.total = self.total + 1;
                proof {
                    lemma_entries_update(keys0, counts0, n as int, i as int, (c + 1) as usize);
                }
                c
            },
            None => {
                proof {
                    lemma_entries_absent(keys0, counts0, n as int, base@);
                }
                let ghost k = base@;
                self.keys.push(base);
                self.counts.push(1);
                self.total = self.total + 1;
                proof {
                    lemma_entries_same_prefix(self.keys@, self.counts@, keys0, counts0, n as int);
                }
                0
            },
        }
    }

    /// Gives a heading its identifier. The base is the explicit id verbatim, or
    /// else the slug of the heading text; its first use yields the base itself
    /// and the n-th repetition yields `<base>-<n>`. Text whose slug is empty
    /// yields `header-<position>` and leaves the registry as it was.
    pub fn generate(&mut self, explicit_id: Option<String>, heading_text: &str, position: usize) -> (r:
        String)
        requires
            old(self).wf(),
            old(self).recorded() < usize::MAX,
        ensures
            final(self).wf(),
            (r@, final(self)@) == generate_spec(
                old(self)@,
                match explicit_id {
                    Some(id) => Some(id@),
                    None => None,
                },
                heading_text@,
                position as nat,
            ),
            final(self).recorded() <= old(self).recorded() + 1,
    {
        let (base, explicit) = match explicit_id {
            Some(id) => (id, true),
            None => (normalize(heading_text), false),
        };
        if !explicit && base.as_str().is_empty() {
            let mut out: Vec<char> = vec!['h', 'e', 'a', 'd', 'e', 'r', '-'];
            push_decimal(&mut out, position);
            return string_of(&out);
        }
        let mut out = chars_of(base.as_str());
        let n = self.record(base);
        if n > 0 {
            out.push('-');
            push_decimal(&mut out, n);
        }
        string_of(&out)
    }
}

/// Repeated headings are numbered in order: with one registry, the same heading
/// text yields its slug bare on first use, then the slug with `-1`, then `-2`,
/// and each use raises its count by one, never reusing a number.
pub proof fn lemma_repeated_heading_numbering(
    seen: Map<Seq<char>, nat>,
    text: Seq<char>,
    first_pos: nat,
    second_pos: nat,
    third_pos: nat,
)
    requires
        slug_base(text).len() > 0,
    ensures
        ({
            let b = slug_base(text);
            let n = seen_count(seen, b);
            let (s1, m1) = generate_spec(seen, None, text, first_pos);
            let (s2, m2) = generate_spec(m1, None, text, second_pos);
            let (s3, m3) = generate_spec(m2, None, text, third_pos);
            &&& s1 == slug_for(b, n)
            &&& s2 == slug_for(b, n + 1)
            &&& s3 == slug_for(b, n + 2)
            &&& seen_count(m3, b) == n + 3
            &&& (n == 0 ==> s1 == b && s2 == b + seq!['-'] + decimal(1) && s3 == b + seq!['-']
                + decimal(2))
        }),
{
}

} // verus!
