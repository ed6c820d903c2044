use vstd::prelude::*;

use crate::markdown::{
    cmark_of, html_event, html_token, parse_tokens, parsed_tokens, serialize_events, token_views,
    MdEvent,
};
use crate::slug::{generate_spec, SlugRegistry};
use crate::text::{chars_of, push_all, string_of};
use pulldown_cmark::Event;

verus! {

/// A CJK Unified Ideograph (U+4E00..=U+9FFF) or one of Extension A (U+3400..=U+4DBF).
pub open spec fn is_cjk(c: char) -> bool {
    ('\u{4e00}' <= c && c <= '\u{9fff}') || ('\u{3400}' <= c && c <= '\u{4dbf}')
}

/// Some character of `s` is a CJK ideograph.
pub open spec fn has_cjk(s: Seq<char>) -> bool {
    exists|i: int| 0 <= i < s.len() && #[trigger] is_cjk(s[i])
}

/// Text made of ASCII characters alone holds no CJK ideograph.
pub proof fn lemma_ascii_has_no_cjk(s: Seq<char>)
    requires
        forall|i: int| 0 <= i < s.len() ==> (#[trigger] s[i] as u32) < 128,
    ensures
        !has_cjk(s),
{
    assert forall|i: int| 0 <= i < s.len() implies !#[trigger] is_cjk(s[i]) by {
        assert((s[i] as u32) < 128);
    }
}

/// Whether `c` is a CJK ideograph of the two ranges above.
pub fn is_cjk_char(c: char) -> (r: bool)
    ensures
        r == is_cjk(c),
{
    ('\u{4e00}' <= c && c <= '\u{9fff}') || ('\u{3400}' <= c && c <= '\u{4dbf}')
}

/// True when some character of `cs` is a CJK ideograph.
pub fn chars_contain_cjk(cs: &Vec<char>) -> (r: bool)
    ensures
        r == has_cjk(cs@),
{
    let mut i: usize = 0;
    while i < cs.len()
        invariant
            i <= cs@.len(),
            forall|j: int| 0 <= j < i ==> !#[trigger] is_cjk(cs@[j]),
        decreases cs@.len() - i,
    {
        if is_cjk_char(cs[i]) {
            return true;
        }
        i = i + 1;
    }
    false
}

/// Checks whether `text` holds a Chinese character: a CJK Unified Ideograph
/// (U+4E00..=U+9FFF) or one of CJK Extension A (U+3400..=U+4DBF).
pub fn contains_chinese(text: &str) -> (r: bool)
    ensures
        r == has_cjk(text@),
{
    let cs = chars_of(text);
    chars_contain_cjk(&cs)
}

/// What a heading pass knows between two tokens.
pub ghost struct HeadingModel {
    /// Inside a code block.
    pub in_code_block: bool,
    /// Inside a heading.
    pub in_heading: bool,
    /// The id written as `{#id}` on the current heading.
    pub provided_id: Option<Seq<char>>,
    /// The plain text of the current heading so far.
    pub text: Seq<char>,
    /// How often each base slug has been handed out.
    pub seen: Map<Seq<char>, nat>,
    /// How many headings have been closed.
    pub headings: nat,
}

/// The state before the first token.
pub open spec fn initial_model() -> HeadingModel {
    HeadingModel {
        in_code_block: false,
        in_heading: false,
        provided_id: None,
        text: seq![],
        seen: Map::empty(),
        headings: 0,
    }
}

/// Markup characters of raw HTML, which do not count as heading text.
pub open spec fn is_markup_char(c: char) -> bool {
    c == '<' || c == '>' || c == '&' || c == ';'
}

/// Raw HTML with its markup characters turned into spaces.
pub open spec fn html_plain(s: Seq<char>) -> Seq<char> {
    s.map_values(|c: char| if is_markup_char(c) { ' ' } else { c })
}

/// The heading text that a token adds.
pub open spec fn heading_text_of(e: MdEvent) -> Seq<char> {
    match e {
        MdEvent::Text(t) => t@,
        MdEvent::Code(t) => seq![' '] + t@,
        MdEvent::Html(t) => html_plain(t@),
        _ => seq![],
    }
}

/// The identifier given to a heading at its end, if any: its explicit id when
/// it has one; else, when every heading gets one or its text holds a CJK
/// ideograph, the next slug of its text.
pub open spec fn closing_id(st: HeadingModel, check_chinese: bool) -> (Option<Seq<char>>, Map<
    Seq<char>,
    nat,
>) {
    match st.provided_id {
        Some(id) => (Some(id), st.seen),
        None => if !check_chinese || has_cjk(st.text) {
            let (slug, seen) = generate_spec(st.seen, None, st.text, st.headings + 1);
            (Some(slug), seen)
        } else {
            (None, st.seen)
        },
    }
}

/// One token: the state after it, and the anchor id to insert right after it.
pub open spec fn heading_step(st: HeadingModel, e: MdEvent, check_chinese: bool) -> (
    HeadingModel,
    Option<Seq<char>>,
) {
    if st.in_code_block {
        match e {
            MdEvent::CodeBlockEnd => (HeadingModel { in_code_block: false, ..st }, None),
            _ => (st, None),
        }
    } else {
        match e {
            MdEvent::CodeBlockStart => (HeadingModel { in_code_block: true, ..st }, None),
            MdEvent::HeadingStart(id) => (
                HeadingModel {
                    in_heading: true,
                    provided_id: match id {
                        Some(s) => Some(s@),
                        None => None,
                    },
                    text: seq![],
                    ..st
                },
                None,
            ),
            MdEvent::HeadingEnd => if st.in_heading {
                let (anchor, seen) = closing_id(st, check_chinese);
                (
                    HeadingModel {
                        in_heading: false,
                        provided_id: None,
                        text: seq![],
                        seen,
                        headings: st.headings + 1,
                        ..st
                    },
                    anchor,
                )
            } else {
                (st, None)
            },
            _ => if st.in_heading {
                (HeadingModel { text: st.text + heading_text_of(e), ..st }, None)
            } else {
                (st, None)
            },
        }
    }
}

/// A whole token stream: the final state, and for each token the anchor id
/// inserted right after it.
pub open spec fn heading_run(events: Seq<MdEvent>, check_chinese: bool) -> (
    HeadingModel,
    Seq<Option<Seq<char>>>,
)
    decreases events.len(),
{
    if events.len() == 0 {
        (initial_model(), seq![])
    } else {
        let (st, anchors) = heading_run(events.drop_last(), check_chinese);
        let (st2, a) = heading_step(st, events.last(), check_chinese);
        (st2, anchors.push(a))
    }
}

proof fn lemma_heading_run_len(events: Seq<MdEvent>, check_chinese: bool)
    ensures
        heading_run(events, check_chinese).1.len() == events.len(),
    decreases events.len(),
{
    if events.len() > 0 {
        lemma_heading_run_len(events.drop_last(), check_chinese);
    }
}

/// The view of an optional string.
pub open spec fn opt_view(o: Option<String>) -> Option<Seq<char>> {
    match o {
        Some(s) => Some(s@),
        None => None,
    }
}

/// The anchor markup placed after a heading: `<a id="<id>"></a>`.
pub open spec fn anchor_markup(id: Seq<char>) -> Seq<char> {
    seq!['<', 'a', ' ', 'i', 'd', '=', '"'] + id + seq!['"', '>', '<', '/', 'a', '>']
}

/// Assigns anchor ids to the headings of one document, one token at a time.
pub struct HeadingProcessor {
    in_code_block: bool,
    provided_id: Option<String>,
    heading_text: Vec<char>,
    is_in_heading: bool,
    seen_ids: SlugRegistry,
    headings: usize,
}

impl View for HeadingProcessor {
    type V = HeadingModel;

    closed spec fn view(&self) -> HeadingModel {
        HeadingModel {
            in_code_block: self.in_code_block,
            in_heading: self.is_in_heading,
            provided_id: opt_view(self.provided_id),
            text: self.heading_text@,
            seen: self.seen_ids@,
            headings: self.headings as nat,
        }
    }
}

impl HeadingProcessor {
    /// The registry is well formed and has recorded no more ids than headings.
    pub closed spec fn wf(&self) -> bool {
        &&& self.seen_ids.wf()
        &&& self.seen_ids.recorded() <= self.headings
    }

    /// Creates a processor for a new document.
    pub fn new() -> (r: Self)
        ensures
            r.wf(),
            r@ == initial_model(),
    {
        HeadingProcessor {
            in_code_block: false,
            provided_id: None,
            heading_text: Vec::new(),
            is_in_heading: false,
            seen_ids: SlugRegistry::new(),
            headings: 0,
        }
    }

    /// Reads one token, and returns the anchor id to insert right after it.
    /// Inside a code block every token passes with no anchor. At a heading's
    /// end the heading gets its explicit id, or, when `check_chinese` is off or
    /// its text holds a CJK ideograph, the next unique slug of its text.
    pub fn process_heading_event(&mut self, event: &MdEvent, check_chinese: bool) -> (r: Option<
        String,
    >)
        requires
            old(self).wf(),
            old(self)@.headings < usize::MAX,
        ensures
            final(self).wf(),
            (final(self)@, opt_view(r)) == heading_step(old(self)@, *event, check_chinese),
    {
        if self.in_code_block {
            if let MdEvent::CodeBlockEnd = event {
                self.in_code_block = false;
            }
            return None;
        }
        match event {
            MdEvent::CodeBlockStart => {
                self.in_code_block = true;
                None
            },
            MdEvent::HeadingStart(id) => {
                self.enter_heading(id);
                None
            },
            MdEvent::HeadingEnd => {
                if self.is_in_heading {
                    self.exit_heading(check_chinese)
                } else {
                    None
                }
            },
            _ => {
                if self.is_in_heading {
                    self.collect_content(event);
                }
                None
            },
        }
    }

    fn enter_heading(&mut self, id: &Option<String>)
        requires
            old(self).wf(),
        ensures
            final(self).wf(),
            final(self)@ == (HeadingModel {
                in_heading: true,
                provided_id: opt_view(*id),
                text: seq![],
                ..old(self)@
            }),
    {
        self.provided_id = match id {
            Some(s) => Some(s.clone()),
            None => None,
        };
        self.heading_text = Vec::new();
        self.is_in_heading = true;
    }

    /// Adds the visible text of a token to the heading text.
    fn collect_content(&mut self, event: &MdEvent)
        requires
            old(self).wf(),
        ensures
            final(self).wf(),
            final(self)@ == (HeadingModel {
                text: old(self)@.text + heading_text_of(*event),
                ..old(self)@
            }),
    {
        match event {
            MdEvent::Text(t) => {
                push_all(&mut self.heading_text, &chars_of(t.as_str()));
            },
            MdEvent::Code(t) => {
                self.heading_text.push(' ');
                push_all(&mut self.heading_text, &chars_of(t.as_str()));
                assert(self.heading_text@ =~= old(self).heading_text@ + heading_text_of(*event));
            },
            MdEvent::Html(t) => {
                let cs = chars_of(t.as_str());
                let mut plain: Vec<char> = Vec::new();
                let mut i: usize = 0;
                while i < cs.len()
                    invariant
                        i <= cs@.len(),
                        plain@ == html_plain(cs@.subrange(0, i as int)),
                    decreases cs@.len() - i,
                {
                    let c = cs[i];
                    if c == '<' || c == '>' || c == '&' || c == ';' {
                        plain.push(' ');
                    } else {
                        plain.push(c);
                    }
                    i = i + 1;
                    assert(plain@ =~= html_plain(cs@.subrange(0, i as int)));
                }
                assert(cs@.subrange(0, cs@.len() as int) =~= cs@);
                push_all(&mut self.heading_text, &plain);
            },
            _ => {
                assert(self.heading_text@ =~= old(self).heading_text@ + heading_text_of(*event));
            },
        }
    }

    /// Ends the current heading and returns its anchor id, if it gets one.
    fn exit_heading(&mut self, check_chinese: bool) -> (r: Option<String>)
        requires
            old(self).wf(),
            old(self)@.in_heading,
            !old(self)@.in_code_block,
            old(self)@.headings < usize::MAX,
        ensures
            final(self).wf(),
            (final(self)@, opt_view(r)) == heading_step(old(self)@, MdEvent::HeadingEnd, check_chinese),
    {
        let position = self.headings + 1;
        let id = match &self.provided_id {
            Some(id) => Some(id.clone()),
            None => {
                if !check_chinese || chars_contain_cjk(&self.heading_text) {
                    let text = string_of(&self.heading_text);
                    Some(self.seen_ids.generate(None, text.as_str(), position))
                } else {
                    None
                }
            },
        };
        self.is_in_heading = false;
        self.heading_text = Vec::new();
        self.provided_id = None;
        self.headings = position;
        id
    }
}

impl Default for HeadingProcessor {
    fn default() -> (r: Self)
        ensures
            r.wf(),
            r@ == initial_model(),
    {
        Self::new()
    }
}

/// Anchor ids for a whole token stream: for each token, the id to insert
/// right after it.
pub fn compute_anchors(events: &Vec<MdEvent>, check_chinese: bool) -> (r: Vec<Option<String>>)
    ensures
        r@.len() == events@.len(),
        forall|i: int|
            0 <= i < r@.len() ==> opt_view(#[trigger] r@[i]) == heading_run(events@, check_chinese).1[i],
        anchor_views(r@) == heading_run(events@, check_chinese).1,
{
    let mut processor = HeadingProcessor::new();
    let mut out: Vec<Option<String>> = Vec::new();
    let mut i: usize = 0;
    while i < events.len()
        invariant
            i <= events@.len(),
            processor.wf(),
            processor@.headings <= i,
            processor@ == heading_run(events@.subrange(0, i as int), check_chinese).0,
            out@.len() == i,
            forall|j: int|
                0 <= j < i ==> opt_view(#[trigger] out@[j]) == heading_run(
                    events@.subrange(0, i as int),
                    check_chinese,
                ).1[j],
        decreases events@.len() - i,
    {
        let ghost prev = heading_run(events@.subrange(0, i as int), check_chinese);
        proof {
            lemma_heading_run_len(events@.subrange(0, i as int), check_chinese);
        }
        assert(events@.subrange(0, i + 1).drop_last() =~= events@.subrange(0, i as int));
        let a = processor.process_heading_event(&events[i], check_chinese);
        out.push(a);
        i = i + 1;
        assert(forall|j: int| 0 <= j < i ==> opt_view(#[trigger] out@[j]) == heading_run(
            events@.subrange(0, i as int),
            check_chinese,
        ).1[j]) by {
            assert(heading_run(events@.subrange(0, i as int), check_chinese).1 == prev.1.push(
                opt_view(a),
            ));
        }
    }
    assert(events@.subrange(0, events@.len() as int) =~= events@);
    proof {
        lemma_heading_run_len(events@, check_chinese);
        assert(anchor_views(out@) =~= heading_run(events@, check_chinese).1);
    }
    out
}

proof fn lemma_heading_run_prefix(events: Seq<MdEvent>, check_chinese: bool, n: int)
    requires
        0 <= n <= events.len(),
    ensures
        heading_run(events.subrange(0, n), check_chinese).1 == heading_run(events, check_chinese).1.subrange(0, n),
    decreases events.len(),
{
    lemma_heading_run_len(events, check_chinese);
    if n == events.len() {
        assert(events.subrange(0, n) =~= events);
        assert(heading_run(events, check_chinese).1.subrange(0, n) =~= heading_run(events, check_chinese).1);
    } else {
        assert(events.drop_last().subrange(0, n) =~= events.subrange(0, n));
        lemma_heading_run_prefix(events.drop_last(), check_chinese, n);
        lemma_heading_run_len(events.drop_last(), check_chinese);
        assert(heading_run(events.drop_last(), check_chinese).1.subrange(0, n) =~= heading_run(events, check_chinese).1.subrange(0, n));
    }
}

/// Headings inside code blocks never get an anchor: every token read while
/// inside a code block gets no anchor id, and leaves the slug registry and the
/// heading count as they were, whether or not only CJK headings get ids.
pub proof fn lemma_no_anchor_in_code_block(events: Seq<MdEvent>, check_chinese: bool, i: int)
    requires
        0 <= i < events.len(),
        heading_run(events.subrange(0, i), check_chinese).0.in_code_block,
    ensures
        heading_run(events, check_chinese).1[i] is None,
        heading_run(events.subrange(0, i + 1), check_chinese).0.seen == heading_run(
            events.subrange(0, i),
            check_chinese,
        ).0.seen,
        heading_run(events.subrange(0, i + 1), check_chinese).0.headings == heading_run(
            events.subrange(0, i),
            check_chinese,
        ).0.headings,
{
    assert(events.subrange(0, i + 1).drop_last() =~= events.subrange(0, i));
    lemma_heading_run_prefix(events, check_chinese, i + 1);
    lemma_heading_run_len(events.subrange(0, i), check_chinese);
    lemma_heading_run_len(events, check_chinese);
    assert(heading_run(events, check_chinese).1[i] == heading_run(events.subrange(0, i + 1), check_chinese).1[i]);
}

/// Builds `<a id="<id>"></a>`.
pub fn anchor_html(id: &String) -> (r: String)
    ensures
        r@ == anchor_markup(id@),
{
    let mut out: Vec<char> = vec!['<', 'a', ' ', 'i', 'd', '=', '"'];
    push_all(&mut out, &chars_of(id.as_str()));
    let tail: Vec<char> = vec!['"', '>', '<', '/', 'a', '>'];
    push_all(&mut out, &tail);
    assert(out@ =~= anchor_markup(id@));
    string_of(&out)
}

/// The heading pass from state `st` over `events`: the state after, and for
/// each token the anchor id inserted right after it.
pub open spec fn heading_run_from(st: HeadingModel, events: Seq<MdEvent>, check_chinese: bool) -> (
    HeadingModel,
    Seq<Option<Seq<char>>>,
)
    decreases events.len(),
{
    if events.len() == 0 {
        (st, seq![])
    } else {
        let (st1, anchors) = heading_run_from(st, events.drop_last(), check_chinese);
        let (st2, a) = heading_step(st1, events.last(), check_chinese);
        (st2, anchors.push(a))
    }
}

proof fn lemma_heading_run_from_initial(events: Seq<MdEvent>, check_chinese: bool)
    ensures
        heading_run(events, check_chinese) == heading_run_from(initial_model(), events, check_chinese),
    decreases events.len(),
{
    if events.len() > 0 {
        lemma_heading_run_from_initial(events.drop_last(), check_chinese);
    }
}

proof fn lemma_heading_run_from_concat(
    st: HeadingModel,
    a: Seq<MdEvent>,
    b: Seq<MdEvent>,
    check_chinese: bool,
)
    ensures
        ({
            let (sa, xa) = heading_run_from(st, a, check_chinese);
            let (sb, xb) = heading_run_from(sa, b, check_chinese);
            heading_run_from(st, a + b, check_chinese) == (sb, xa + xb)
        }),
    decreases b.len(),
{
    if b.len() == 0 {
        assert(a + b =~= a);
        let xa = heading_run_from(st, a, check_chinese).1;
        assert(xa + Seq::<Option<Seq<char>>>::empty() =~= xa);
    } else {
        lemma_heading_run_from_concat(st, a, b.drop_last(), check_chinese);
        assert((a + b).drop_last() =~= a + b.drop_last());
        assert((a + b).last() == b.last());
        let (sa, xa) = heading_run_from(st, a, check_chinese);
        let (s1, x1) = heading_run_from(sa, b.drop_last(), check_chinese);
        let (s2, y) = heading_step(s1, b.last(), check_chinese);
        assert((xa + x1).push(y) =~= xa + x1.push(y));
    }
}

proof fn lemma_code_block_body(st: HeadingModel, body: Seq<MdEvent>, check_chinese: bool)
    requires
        st.in_code_block,
        forall|i: int| 0 <= i < body.len() ==> !(#[trigger] body[i] is CodeBlockEnd),
    ensures
        heading_run_from(st, body, check_chinese) == (st, Seq::new(
            body.len(),
            |i: int| None::<Seq<char>>,
        )),
    decreases body.len(),
{
    if body.len() > 0 {
        lemma_code_block_body(st, body.drop_last(), check_chinese);
        assert(!(body[body.len() - 1] is CodeBlockEnd));
        assert(Seq::new((body.len() - 1) as nat, |i: int| None::<Seq<char>>).push(None)
            =~= Seq::new(body.len(), |i: int| None::<Seq<char>>));
    } else {
        assert(Seq::new(0, |i: int| None::<Seq<char>>) =~= Seq::<Option<Seq<char>>>::empty());
    }
}

/// A code block does not take part in the heading pass: with a code block
/// (a start, tokens that do not end it, an end) between two parts of a token
/// stream, the block gets no anchor, and every other token gets the anchor id
/// it gets with the block left out, whether or not only CJK headings get ids.
pub proof fn lemma_code_block_transparent(
    before: Seq<MdEvent>,
    body: Seq<MdEvent>,
    after: Seq<MdEvent>,
    check_chinese: bool,
)
    requires
        !heading_run(before, check_chinese).0.in_code_block,
        forall|i: int| 0 <= i < body.len() ==> !(#[trigger] body[i] is CodeBlockEnd),
    ensures
        ({
            let block = seq![MdEvent::CodeBlockStart] + body + seq![MdEvent::CodeBlockEnd];
            let without = heading_run(before + after, check_chinese);
            let with = heading_run(before + block + after, check_chinese);
            &&& with.0 == without.0
            &&& with.1 == without.1.subrange(0, before.len() as int) + Seq::new(
                block.len(),
                |i: int| None::<Seq<char>>,
            ) + without.1.subrange(before.len() as int, without.1.len() as int)
        }),
{
    let block = seq![MdEvent::CodeBlockStart] + body + seq![MdEvent::CodeBlockEnd];
    let init = initial_model();
    lemma_heading_run_from_initial(before, check_chinese);
    lemma_heading_run_from_initial(before + after, check_chinese);
    lemma_heading_run_from_initial(before + block + after, check_chinese);
    let (sb, xb) = heading_run_from(init, before, check_chinese);
    // the block leaves the state as it was
    let inside = HeadingModel { in_code_block: true, ..sb };
    let start = seq![MdEvent::CodeBlockStart];
    lemma_heading_run_from_concat(sb, start, body, check_chinese);
    assert(start.drop_last() =~= Seq::<MdEvent>::empty());
    assert(heading_run_from(sb, Seq::<MdEvent>::empty(), check_chinese) == (sb, Seq::<Option<Seq<char>>>::empty()));
    assert(start.last() == MdEvent::CodeBlockStart);
    assert(heading_step(sb, MdEvent::CodeBlockStart, check_chinese) == (inside, None::<Seq<char>>));
    assert(Seq::<Option<Seq<char>>>::empty().push(None) =~= seq![None::<Seq<char>>]);
    assert(heading_run_from(sb, start, check_chinese) == (inside, seq![None::<Seq<char>>]));
    lemma_code_block_body(inside, body, check_chinese);
    let end = seq![MdEvent::CodeBlockEnd];
    lemma_heading_run_from_concat(sb, start + body, end, check_chinese);
    assert(end.drop_last() =~= Seq::<MdEvent>::empty());
    assert(heading_run_from(inside, Seq::<MdEvent>::empty(), check_chinese) == (inside, Seq::<Option<Seq<char>>>::empty()));
    assert(end.last() == MdEvent::CodeBlockEnd);
    assert(heading_step(inside, MdEvent::CodeBlockEnd, check_chinese) == (sb, None::<Seq<char>>));
    assert(heading_run_from(inside, end, check_chinese) == (sb, seq![None::<Seq<char>>]));
    let nones = Seq::new(block.len(), |i: int| None::<Seq<char>>);
    assert(seq![None::<Seq<char>>] + Seq::new(body.len(), |i: int| None::<Seq<char>>) + seq![
        None::<Seq<char>>,
    ] =~= nones);
    assert(heading_run_from(sb, block, check_chinese) == (sb, nones));
    // splice the three parts
    lemma_heading_run_from_concat(init, before, block, check_chinese);
    lemma_heading_run_from_concat(init, before + block, after, check_chinese);
    lemma_heading_run_from_concat(init, before, after, check_chinese);
    let xa = heading_run_from(sb, after, check_chinese).1;
    lemma_heading_run_len(before, check_chinese);
    let without = heading_run(before + after, check_chinese);
    assert(without.1 == xb + xa);
    assert(without.1.subrange(0, before.len() as int) =~= xb);
    assert(without.1.subrange(before.len() as int, without.1.len() as int) =~= xa);
}

/// The views of a list of anchor ids.
pub open spec fn anchor_views(anchors: Seq<Option<String>>) -> Seq<Option<Seq<char>>> {
    anchors.map_values(|a: Option<String>| opt_view(a))
}

/// `tokens` with an anchor token `<a id="<id>"></a>` right after each token
/// whose entry in `anchors` is `Some(id)`.
pub open spec fn with_anchors(tokens: Seq<Event<'static>>, anchors: Seq<Option<Seq<char>>>) -> Seq<
    Event<'static>,
>
    decreases tokens.len(),
{
    if tokens.len() == 0 || anchors.len() == 0 {
        tokens
    } else {
        seq![tokens[0]] + match anchors[0] {
            Some(id) => seq![html_token(anchor_markup(id))],
            None => Seq::<Event<'static>>::empty(),
        } + with_anchors(tokens.drop_first(), anchors.drop_first())
    }
}

/// What the heading pass makes of a document: the serializer's text of its
/// tokens with an anchor after each heading that gets an id, or `None` where
/// the serializer fails.
pub open spec fn anchored_markdown(content: Seq<char>, check_chinese: bool) -> Option<Seq<char>> {
    cmark_of(
        with_anchors(parsed_tokens(content), heading_run(token_views(content), check_chinese).1),
    )
}

/// Places an HTML anchor token right after each token that has an anchor id.
fn insert_anchors(events: &mut Vec<Event<'static>>, anchors: &Vec<Option<String>>)
    requires
        old(events)@.len() == anchors@.len(),
    ensures
        final(events)@ == with_anchors(old(events)@, anchor_views(anchors@)),
{
    let ghost e0 = events@;
    let ghost av = anchor_views(anchors@);
    let n = anchors.len();
    let mut i: usize = n;
    assert(e0.subrange(0, n as int) =~= e0);
    while i > 0
        invariant
            i <= n,
            n == anchors@.len(),
            n == e0.len(),
            av == anchor_views(anchors@),
            events@ == e0.subrange(0, i as int) + with_anchors(
                e0.subrange(i as int, n as int),
                av.subrange(i as int, n as int),
            ),
        decreases i,
    {
        i = i - 1;
        let ghost rest = with_anchors(e0.subrange(i + 1, n as int), av.subrange(i + 1, n as int));
        let ghost ts = e0.subrange(i as int, n as int);
        let ghost as_ = av.subrange(i as int, n as int);
        assert(ts.drop_first() =~= e0.subrange(i + 1, n as int));
        assert(as_.drop_first() =~= av.subrange(i + 1, n as int));
        assert(ts[0] == e0[i as int]);
        assert(as_[0] == opt_view(anchors@[i as int]));
        assert(e0.subrange(0, i + 1) =~= e0.subrange(0, i as int).push(e0[i as int]));
        if let Some(id) = &anchors[i] {
            let h = html_event(anchor_html(id));
            events.insert(i + 1, h);
            assert(events@ =~= e0.subrange(0, i as int) + with_anchors(ts, as_));
        } else {
            assert(events@ =~= e0.subrange(0, i as int) + with_anchors(ts, as_));
        }
    }
    assert(e0.subrange(0, 0) + with_anchors(e0.subrange(0, n as int), av.subrange(0, n as int))
        =~= with_anchors(e0, av)) by {
        assert(e0.subrange(0, n as int) =~= e0);
        assert(av.subrange(0, n as int) =~= av);
    }
}

/// Gives the headings of a markdown document anchors: after each heading that
/// gets an id, an `<a id="<id>"></a>` element. With `check_chinese` only
/// headings holding a CJK ideograph get one (explicit `{#id}` ids always do);
/// headings inside code blocks never do. Returns whether the document was
/// rewritten, which is exactly when the serializer succeeds; on failure
/// `content` is left as it was.
pub fn add_heading_anchors(content: &mut String, check_chinese: bool) -> (r: bool)
    ensures
        r == anchored_markdown(old(content)@, check_chinese) is Some,
        r ==> final(content)@ == anchored_markdown(old(content)@, check_chinese)->0,
        !r ==> final(content)@ == old(content)@,
{
    let (mut events, views) = parse_tokens(content.as_str());
    let anchors = compute_anchors(&views, check_chinese);
    insert_anchors(&mut events, &anchors);
    match serialize_events(&events) {
        Some(out) => {
            *content = out;
            true
        },
        None => false,
    }
}

} // verus!
