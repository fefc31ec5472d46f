//! Collecting and rendering diagnostic messages.
use vstd::prelude::*;
use crate::span::Span;
use crate::text::{push_text, text_of};

verus! {

/// The characters of a caret line `len` wide: `^` under every offset that one of `spans`
/// covers, a space elsewhere.
pub open spec fn caret_line(len: nat, spans: Seq<Span>) -> Seq<char> {
    Seq::new(len, |i: int| if exists|k: int| 0 <= k < spans.len() && (#[trigger] spans[k]).start <= i < spans[k].end {
        '^'
    } else {
        ' '
    })
}

/// `n` copies of the character `c`.
pub open spec fn repeated(c: char, n: nat) -> Seq<char> {
    Seq::new(n, |i: int| c)
}

/// `n` copies of the one-character string `unit`.
fn repeat_text(unit: &str, n: usize) -> (r: String)
    requires
        unit@.len() == 1,
    ensures
        r@ == repeated(unit@[0], n as nat),
{
    let mut r = String::new();
    let mut i: usize = 0;
    while i < n
        invariant
            i <= n,
            unit@.len() == 1,
            r@ == repeated(unit@[0], i as nat),
        decreases n - i,
    {
        push_text(&mut r, unit);
        i = i + 1;
        assert(r@ =~= repeated(unit@[0], i as nat));
    }
    r
}

/// One line of spaces up to the span's start and carets under it.
fn span_line(span: &Span) -> (r: String)
    requires
        span.start <= span.end,
    ensures
        r@ == repeated(' ', span.start as nat) + repeated('^', (span.end - span.start) as nat),
{
    proof {
        reveal_strlit(" ");
        reveal_strlit("^");
    }
    let mut r = repeat_text(" ", span.start);
    let carets = repeat_text("^", span.end - span.start);
    push_text(&mut r, carets.as_str());
    r
}

/// A line `len` wide with carets under every span.
fn multi_span_line(len: usize, spans: &Vec<Span>) -> (r: String)
    requires
        forall|k: int| 0 <= k < spans.len() ==> #[trigger] spans@[k].start <= spans@[k].end <= len,
    ensures
        r@ == caret_line(len as nat, spans@),
{
    proof {
        reveal_strlit(" ");
        reveal_strlit("^");
    }
    let mut r = String::new();
    let mut i: usize = 0;
    while i < len
        invariant
            i <= len,
            r@ == caret_line(len as nat, spans@).subrange(0, i as int),
        decreases len - i,
    {
        let mut covered = false;
        let mut k: usize = 0;
        while k < spans.len()
            invariant
                k <= spans.len(),
                covered == exists|m: int| 0 <= m < k && (#[trigger] spans@[m]).start <= i < spans@[m].end,
            decreases spans.len() - k,
        {
            if spans[k].start <= i && i < spans[k].end {
                covered = true;
            }
            k = k + 1;
        }
        proof {
            reveal_strlit(" ");
            reveal_strlit("^");
        }
        assert("^"@ =~= seq!['^']);
        assert(" "@ =~= seq![' ']);
        if covered {
            push_text(&mut r, "^");
        } else {
            push_text(&mut r, " ");
        }
        i = i + 1;
        assert(r@ =~= caret_line(len as nat, spans@).subrange(0, i as int));
    }
    assert(r@ =~= caret_line(len as nat, spans@));
    r
}

/// One message of a diagnostic; errors, warnings and suggestions may point at a span of
/// the input line.
#[derive(Debug, Clone)]
pub enum DiagnosticItem {
    Error(String, Span),
    Warn(String, Span),
    Suggestion(String, Span),
    Note(String),
}

/// The text a diagnostic item renders to under the input line `input`.
pub open spec fn item_text(item: DiagnosticItem, input: Seq<char>) -> Seq<char> {
    let nl = seq!['\n'];
    match item {
        DiagnosticItem::Error(msg, sp) => spanned_text(msg@, sp, input),
        DiagnosticItem::Warn(msg, sp) => spanned_text(msg@, sp, input),
        DiagnosticItem::Suggestion(msg, sp) => spanned_text(msg@, sp, input),
        DiagnosticItem::Note(msg) => seq!['n', 'o', 't', 'e', ':', ' '] + msg@ + nl,
    }
}

/// The input line, then (for a span) a caret line and the message indented to the span's
/// start, else the message.
pub open spec fn spanned_text(msg: Seq<char>, sp: Span, input: Seq<char>) -> Seq<char> {
    let nl = seq!['\n'];
    if !sp.is_none_spec() {
        input + nl + repeated(' ', sp.start as nat) + repeated('^', (sp.end - sp.start) as nat) + nl
            + repeated(' ', sp.start as nat) + msg + nl
    } else {
        input + nl + msg + nl
    }
}

/// The texts of `items` one after another.
pub open spec fn items_text(items: Seq<DiagnosticItem>, input: Seq<char>) -> Seq<char>
    decreases items.len(),
{
    if items.len() == 0 {
        Seq::empty()
    } else {
        items_text(items.drop_last(), input) + item_text(items.last(), input)
    }
}

pub open spec fn item_wf(item: DiagnosticItem) -> bool {
    match item {
        DiagnosticItem::Error(_, sp) => sp.start <= sp.end,
        DiagnosticItem::Warn(_, sp) => sp.start <= sp.end,
        DiagnosticItem::Suggestion(_, sp) => sp.start <= sp.end,
        DiagnosticItem::Note(_) => true,
    }
}

fn render_spanned(msg: &String, sp: &Span, input: &String) -> (r: String)
    requires
        sp.start <= sp.end,
    ensures
        r@ == spanned_text(msg@, *sp, input@),
{
    proof {
        reveal_strlit("\n");
        reveal_strlit(" ");
    }
    let mut r = input.clone();
    push_text(&mut r, "\n");
    if !sp.is_none() {
        let carets = span_line(sp);
        push_text(&mut r, carets.as_str());
        push_text(&mut r, "\n");
        let indent = repeat_text(" ", sp.start);
        push_text(&mut r, indent.as_str());
    }
    push_text(&mut r, msg.as_str());
    push_text(&mut r, "\n");
    assert(r@ =~= spanned_text(msg@, *sp, input@));
    r
}

impl DiagnosticItem {
    /// Renders the item under the input line `input`.
    pub fn to_string(&self, input: &String) -> (r: String)
        requires
            item_wf(*self),
        ensures
            r@ == item_text(*self, input@),
    {
        match self {
            DiagnosticItem::Error(msg, sp) => render_spanned(msg, sp, input),
            DiagnosticItem::Warn(msg, sp) => render_spanned(msg, sp, input),
            DiagnosticItem::Suggestion(msg, sp) => render_spanned(msg, sp, input),
            DiagnosticItem::Note(msg) => {
                proof {
                    reveal_strlit("note: ");
                    reveal_strlit("\n");
                }
                let mut r = text_of("note: ");
                push_text(&mut r, msg.as_str());
                push_text(&mut r, "\n");
                assert(r@ =~= item_text(*self, input@));
                r
            },
        }
    }
}

/// The items collected for one input line.
#[derive(Debug)]
pub struct DiagnosticPart {
    input: String,
    items: Vec<DiagnosticItem>,
}

impl DiagnosticPart {
    pub fn new(input: String, items: Vec<DiagnosticItem>) -> (r: Self)
        ensures
            r.input_spec() == input,
            r.items_spec() == items@,
    {
        DiagnosticPart { input, items }
    }

    pub closed spec fn input_spec(&self) -> String {
        self.input
    }

    pub closed spec fn items_spec(&self) -> Seq<DiagnosticItem> {
        self.items@
    }

    fn build_span_string(span: &Span) -> (r: String)
        requires
            span.start <= span.end,
        ensures
            r@ == repeated(' ', span.start as nat) + repeated('^', (span.end - span.start) as nat),
    {
        span_line(span)
    }

    fn build_multi_span_string(len: usize, spans: &Vec<Span>) -> (r: String)
        requires
            forall|k: int| 0 <= k < spans.len() ==> #[trigger] spans@[k].start <= spans@[k].end <= len,
        ensures
            r@ == caret_line(len as nat, spans@),
    {
        multi_span_line(len, spans)
    }

    pub fn is_empty(&self) -> (r: bool)
        ensures
            r == (self.items_spec().len() == 0),
    {
        self.items.len() == 0
    }

    /// Renders every item under the input line.
    pub fn render(&self) -> (r: String)
        requires
            forall|i: int| 0 <= i < self.items_spec().len() ==> item_wf(#[trigger] self.items_spec()[i]),
        ensures
            r@ == items_text(self.items_spec(), self.input_spec()@),
    {
        assert forall|i: int| 0 <= i < self.items@.len() implies item_wf(#[trigger] self.items@[i]) by {
            assert(item_wf(self.items_spec()[i]));
        }
        render_items(&self.items, &self.input)
    }
}

/// The items rendered one after another under the input line.
fn render_items(items: &Vec<DiagnosticItem>, input: &String) -> (r: String)
    requires
        forall|i: int| 0 <= i < items@.len() ==> item_wf(#[trigger] items@[i]),
    ensures
        r@ == items_text(items@, input@),
{
    let mut combined = String::new();
    let mut i: usize = 0;
    while i < items.len()
        invariant
            i <= items.len(),
            forall|j: int| 0 <= j < items@.len() ==> item_wf(#[trigger] items@[j]),
            combined@ == items_text(items@.subrange(0, i as int), input@),
        decreases items.len() - i,
    {
        let ghost next = items@.subrange(0, i as int + 1);
        assert(next.drop_last() =~= items@.subrange(0, i as int));
        let text = items[i].to_string(input);
        push_text(&mut combined, text.as_str());
        i = i + 1;
    }
    assert(items@.subrange(0, items.len() as int) =~= items@);
    combined
}

/// Collects the parts of the diagnostics of one compilation.
#[derive(Debug)]
pub struct DiagnosticBuilder {
    parts: Vec<DiagnosticPart>,
}

impl DiagnosticBuilder {
    /// The parts collected so far.
    pub closed spec fn parts_spec(&self) -> Seq<DiagnosticPart> {
        self.parts@
    }

    pub open spec fn is_empty_spec(&self) -> bool {
        self.parts_spec().len() == 0
    }

    pub fn new() -> (r: Self)
        ensures
            r.is_empty_spec(),
    {
        DiagnosticBuilder { parts: Vec::new() }
    }

    /// Starts a diagnostic for the input line `input`.
    pub fn diagnostic(&mut self, input: String) -> (r: DiagnosticSubBuilder)
        ensures
            r.input_spec() == input,
            r.items_spec().len() == 0,
            *final(self) == *old(self),
    {
        DiagnosticSubBuilder::new(input)
    }

    pub fn is_empty(&self) -> (r: bool)
        ensures
            r == self.is_empty_spec(),
    {
        self.parts.len() == 0
    }

    /// Records a finished part.
    pub fn push_part(&mut self, part: DiagnosticPart)
        ensures
            final(self).parts_spec() == old(self).parts_spec().push(part),
    {
        self.parts.push(part);
    }
}

/// Collects the items of one diagnostic; `build` hands them to the builder as one part.
#[derive(Debug)]
pub struct DiagnosticSubBuilder {
    input: String,
    items: Vec<DiagnosticItem>,
}

impl DiagnosticSubBuilder {
    pub closed spec fn input_spec(&self) -> String {
        self.input
    }

    pub closed spec fn items_spec(&self) -> Seq<DiagnosticItem> {
        self.items@
    }

    pub fn new(input: String) -> (r: Self)
        ensures
            r.input_spec() == input,
            r.items_spec().len() == 0,
    {
        DiagnosticSubBuilder { input, items: Vec::new() }
    }

    /// A diagnostic for `input` holding one error at `span`.
    pub fn from_input_and_err_with_span(input: String, error: String, span: Span) -> (r: Self)
        ensures
            r.input_spec() == input,
            r.items_spec() == seq![DiagnosticItem::Error(error, span)],
    {
        let mut ret = DiagnosticSubBuilder { input, items: Vec::new() };
        ret.error_spanned(error, span);
        assert(ret.items@ =~= seq![DiagnosticItem::Error(error, span)]);
        ret
    }

    /// A diagnostic for `input` holding one error with no span.
    pub fn from_input_and_err(input: String, error: String) -> (r: Self)
        ensures
            r.input_spec() == input,
            r.items_spec().len() == 1,
            r.items_spec()[0] matches DiagnosticItem::Error(e, sp) && e == error && sp.is_none_spec(),
    {
        Self::from_input_and_err_with_span(input, error, Span::none())
    }

    pub fn error_spanned(&mut self, error: String, span: Span) -> (r: &mut Self)
        ensures
            r.input_spec() == old(self).input_spec(),
            r.items_spec() == old(self).items_spec().push(DiagnosticItem::Error(error, span)),
            *final(self) == *final(r),
    {
        self.items.push(DiagnosticItem::Error(error, span));
        self
    }

    pub fn error(&mut self, error: String) -> (r: &mut Self)
        ensures
            r.input_spec() == old(self).input_spec(),
            r.items_spec() == old(self).items_spec().push(DiagnosticItem::Error(error, Span { start: usize::MAX, end: usize::MAX })),
            *final(self) == *final(r),
    {
        self.error_spanned(error, Span::none())
    }

    pub fn warn_spanned(&mut self, warning: String, span: Span) -> (r: &mut Self)
        ensures
            r.input_spec() == old(self).input_spec(),
            r.items_spec() == old(self).items_spec().push(DiagnosticItem::Warn(warning, span)),
            *final(self) == *final(r),
    {
        self.items.push(DiagnosticItem::Warn(warning, span));
        self
    }

    pub fn warn(&mut self, warning: String) -> (r: &mut Self)
        ensures
            r.input_spec() == old(self).input_spec(),
            r.items_spec() == old(self).items_spec().push(DiagnosticItem::Warn(warning, Span { start: usize::MAX, end: usize::MAX })),
            *final(self) == *final(r),
    {
        self.warn_spanned(warning, Span::none())
    }

    pub fn note(&mut self, note: String) -> (r: &mut Self)
        ensures
            r.input_spec() == old(self).input_spec(),
            r.items_spec() == old(self).items_spec().push(DiagnosticItem::Note(note)),
            *final(self) == *final(r),
    {
        self.items.push(DiagnosticItem::Note(note));
        self
    }

    pub fn suggest_spanned(&mut self, suggestion: String, span: Span) -> (r: &mut Self)
        ensures
            r.input_spec() == old(self).input_spec(),
            r.items_spec() == old(self).items_spec().push(DiagnosticItem::Suggestion(suggestion, span)),
            *final(self) == *final(r),
    {
        self.items.push(DiagnosticItem::Suggestion(suggestion, span));
        self
    }

    fn build_span_string(span: &Span) -> (r: String)
        requires
            span.start <= span.end,
        ensures
            r@ == repeated(' ', span.start as nat) + repeated('^', (span.end - span.start) as nat),
    {
        span_line(span)
    }

    fn build_multi_span_string(len: usize, spans: &Vec<Span>) -> (r: String)
        requires
            forall|k: int| 0 <= k < spans.len() ==> #[trigger] spans@[k].start <= spans@[k].end <= len,
        ensures
            r@ == caret_line(len as nat, spans@),
    {
        multi_span_line(len, spans)
    }

    pub fn is_empty(&self) -> (r: bool)
        ensures
            r == (self.items_spec().len() == 0),
    {
        self.items.len() == 0
    }

    /// Hands the collected items to `sup` as one part for this diagnostic's input.
    pub fn build(self, sup: &mut DiagnosticBuilder) -> (r: &mut DiagnosticBuilder)
        ensures
            r.parts_spec().len() == old(sup).parts_spec().len() + 1,
            r.parts_spec().last().input_spec() == self.input_spec(),
            r.parts_spec().last().items_spec() == self.items_spec(),
            r.parts_spec().drop_last() == old(sup).parts_spec(),
            *final(sup) == *final(r),
    {
        let part = DiagnosticPart::new(self.input, self.items);
        sup.push_part(part);
        assert(sup.parts_spec().drop_last() =~= old(sup).parts_spec());
        sup
    }

    /// Renders every item under the input line.
    pub fn render(&self) -> (r: String)
        requires
            forall|i: int| 0 <= i < self.items_spec().len() ==> item_wf(#[trigger] self.items_spec()[i]),
        ensures
            r@ == items_text(self.items_spec(), self.input_spec()@),
    {
        assert forall|i: int| 0 <= i < self.items@.len() implies item_wf(#[trigger] self.items@[i]) by {
            assert(item_wf(self.items_spec()[i]));
        }
        render_items(&self.items, &self.input)
    }
}

} // verus!
