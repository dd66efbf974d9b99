use vstd::prelude::*;
use crate::model::{Entry, Model, ModelView};
use crate::nav::{State, StateView};
use crate::text::{chars_equal, decimal_digits, push_chars, push_decimal, push_str};

verus! {

/// How a span of text is drawn.
#[derive(Clone, Copy, Debug, PartialEq, Eq, Structural)]
pub enum Style {
    /// The terminal's default colours.
    Plain,
    /// The selected row and the field labels.
    Highlight,
    /// Rows that cannot be chosen.
    Muted,
}

/// A piece of text in one style.
pub struct Span {
    pub text: Vec<char>,
    pub style: Style,
}

/// A full screen: drawn from the top left corner after clearing the screen.
pub struct Frame {
    pub cursor_visible: bool,
    pub spans: Vec<Span>,
}

pub type SpanView = (Seq<char>, Style);

/// The abstract value of a frame.
pub struct FrameView {
    pub cursor_visible: bool,
    pub spans: Seq<SpanView>,
}

impl View for Span {
    type V = SpanView;

    open spec fn view(&self) -> SpanView {
        (self.text@, self.style)
    }
}

impl View for Frame {
    type V = FrameView;

    open spec fn view(&self) -> FrameView {
        FrameView { cursor_visible: self.cursor_visible, spans: self.spans@.map_values(|s: Span| s@) }
    }
}

pub open spec fn menu_label(i: nat) -> Seq<char> {
    if i == 0 {
        "Add new task"@
    } else if i == 1 {
        "Add new reward"@
    } else if i == 2 {
        "Solve task"@
    } else if i == 3 {
        "Take reward"@
    } else {
        "Clear points"@
    }
}

pub open spec fn menu_spans(selected: nat) -> Seq<SpanView> {
    Seq::new(5, |i: int| ("[+] "@ + menu_label(i as nat) + "\r\n"@, if i == selected { Style::Highlight } else { Style::Plain }))
}

/// A list row: the amount in brackets, then the title.
pub open spec fn row_text(e: Entry) -> Seq<char> {
    "["@ + decimal_digits(e.1 as nat) + "] "@ + e.0 + "\r\n"@
}

pub open spec fn task_rows(tasks: Seq<Entry>, selected: nat) -> Seq<SpanView> {
    tasks.map(|i: int, e: Entry| (row_text(e), if i == selected { Style::Highlight } else { Style::Plain }))
}

/// Rewards above the balance are muted whatever the selection.
pub open spec fn reward_rows(rewards: Seq<Entry>, points: u64, selected: nat) -> Seq<SpanView> {
    rewards.map(|i: int, e: Entry| (row_text(e), if e.1 > points {
        Style::Muted
    } else if i == selected {
        Style::Highlight
    } else {
        Style::Plain
    }))
}

pub open spec fn wizard_spans(
    kind: Seq<char>,
    heading: Seq<char>,
    label: Seq<char>,
    step: nat,
    title: Seq<char>,
    amount: Seq<char>,
) -> Seq<SpanView> {
    if step == 0 {
        seq![
            ("New "@ + kind + "\r\n\r\n"@, Style::Plain),
            ("Title: "@, Style::Highlight),
            (title, Style::Plain),
        ]
    } else if step == 1 {
        seq![
            (heading + " "@ + title + "\r\n\r\n"@, Style::Plain),
            (label + ": "@, Style::Highlight),
            (amount, Style::Plain),
        ]
    } else {
        seq![
            ("Almost done\r\n\r\n"@, Style::Plain),
            ("Title: "@, Style::Highlight),
            (title, Style::Plain),
            ("\r\n"@ + label + ": "@, Style::Highlight),
            (amount + "\r\nCreate? [y/n] "@, Style::Plain),
        ]
    }
}

/// What the screen shows for a model and a screen state.
pub open spec fn frame_view(m: ModelView, s: StateView) -> FrameView {
    match s {
        StateView::Main { selected } => FrameView {
            cursor_visible: false,
            spans: seq![("Welcome to pointy! You have "@ + decimal_digits(m.points as nat) + " points.\r\n\r\n"@, Style::Plain)]
                + menu_spans(selected),
        },
        StateView::NewTask { step, title, reward } => FrameView {
            cursor_visible: true,
            spans: wizard_spans("task"@, "Task"@, "Reward"@, step, title, reward),
        },
        StateView::NewReward { step, title, price } => FrameView {
            cursor_visible: true,
            spans: wizard_spans("reward"@, "Reward"@, "Price"@, step, title, price),
        },
        StateView::SolveTask { selected } => FrameView {
            cursor_visible: false,
            spans: seq![("Currently you have "@ + decimal_digits(m.tasks.len()) + " tasks.\r\n\r\n"@, Style::Plain)]
                + task_rows(m.tasks, selected),
        },
        StateView::TakeReward { selected } => FrameView {
            cursor_visible: false,
            spans: seq![("Currently you have "@ + decimal_digits(m.rewards.len()) + " rewards.\r\n\r\n"@, Style::Plain)]
                + reward_rows(m.rewards, m.points, selected),
        },
    }
}

pub open spec fn span_views(v: Seq<Span>) -> Seq<SpanView> {
    v.map_values(|s: Span| s@)
}

fn text_of(s: &str) -> (r: Vec<char>)
    ensures
        r@ == s@,
{
    let mut v: Vec<char> = Vec::new();
    push_str(&mut v, s);
    assert(v@ =~= s@);
    v
}

fn copy_chars(s: &Vec<char>) -> (r: Vec<char>)
    ensures
        r@ == s@,
{
    let mut v: Vec<char> = Vec::new();
    push_chars(&mut v, s);
    assert(v@ =~= s@);
    v
}

fn row(amount: u64, title: &Vec<char>) -> (r: Vec<char>)
    ensures
        r@ == row_text((title@, amount)),
{
    let mut v: Vec<char> = Vec::new();
    push_str(&mut v, "[");
    push_decimal(&mut v, amount);
    push_str(&mut v, "] ");
    push_chars(&mut v, title);
    push_str(&mut v, "\r\n");
    v
}

fn menu_label_of(i: usize) -> (r: &'static str)
    ensures
        r@ == menu_label(i as nat),
{
    if i == 0 {
        "Add new task"
    } else if i == 1 {
        "Add new reward"
    } else if i == 2 {
        "Solve task"
    } else if i == 3 {
        "Take reward"
    } else {
        "Clear points"
    }
}

fn header(before: &str, n: u64, after: &str) -> (r: Span)
    ensures
        r@ == (before@ + decimal_digits(n as nat) + after@, Style::Plain),
{
    let mut v: Vec<char> = Vec::new();
    push_str(&mut v, before);
    push_decimal(&mut v, n);
    push_str(&mut v, after);
    Span { text: v, style: Style::Plain }
}

fn push_span(spans: &mut Vec<Span>, s: Span)
    ensures
        span_views(final(spans)@) == span_views(old(spans)@).push(s@),
{
    spans.push(s);
    assert(span_views(spans@) =~= span_views(old(spans)@).push(s@));
}

fn wizard_frame(kind: &str, heading: &str, label: &str, step: usize, title: &Vec<char>, amount: &Vec<char>) -> (r: Vec<Span>)
    ensures
        span_views(r@) == wizard_spans(kind@, heading@, label@, step as nat, title@, amount@),
{
    let mut spans: Vec<Span> = Vec::new();
    if step == 0 {
        let mut t = text_of("New ");
        push_str(&mut t, kind);
        push_str(&mut t, "\r\n\r\n");
        push_span(&mut spans, Span { text: t, style: Style::Plain });
        push_span(&mut spans, Span { text: text_of("Title: "), style: Style::Highlight });
        push_span(&mut spans, Span { text: copy_chars(title), style: Style::Plain });
    } else if step == 1 {
        let mut t = text_of(heading);
        push_str(&mut t, " ");
        push_chars(&mut t, title);
        push_str(&mut t, "\r\n\r\n");
        push_span(&mut spans, Span { text: t, style: Style::Plain });
        let mut l = text_of(label);
        push_str(&mut l, ": ");
        push_span(&mut spans, Span { text: l, style: Style::Highlight });
        push_span(&mut spans, Span { text: copy_chars(amount), style: Style::Plain });
    } else {
        push_span(&mut spans, Span { text: text_of("Almost done\r\n\r\n"), style: Style::Plain });
        push_span(&mut spans, Span { text: text_of("Title: "), style: Style::Highlight });
        push_span(&mut spans, Span { text: copy_chars(title), style: Style::Plain });
        let mut l = text_of("\r\n");
        push_str(&mut l, label);
        push_str(&mut l, ": ");
        push_span(&mut spans, Span { text: l, style: Style::Highlight });
        let mut a = copy_chars(amount);
        push_str(&mut a, "\r\nCreate? [y/n] ");
        push_span(&mut spans, Span { text: a, style: Style::Plain });
    }
    assert(span_views(spans@) =~= wizard_spans(kind@, heading@, label@, step as nat, title@, amount@));
    spans
}

/// Draws the whole screen for a model and a screen state.
pub fn frame_of(model: &Model, state: &State) -> (f: Frame)
    ensures
        f@ == frame_view(model@, state@),
{
    let mut spans: Vec<Span> = Vec::new();
    match state {
        State::Main { selected } => {
            push_span(&mut spans, header("Welcome to pointy! You have ", model.points, " points.\r\n\r\n"));
            let ghost head = span_views(spans@);
            let mut i: usize = 0;
            while i < 5
                invariant
                    i <= 5,
                    span_views(spans@) == head + menu_spans(*selected as nat).subrange(0, i as int),
                decreases 5 - i,
            {
                let mut t = text_of("[+] ");
                push_str(&mut t, menu_label_of(i));
                push_str(&mut t, "\r\n");
                let style = if i == *selected { Style::Highlight } else { Style::Plain };
                push_span(&mut spans, Span { text: t, style });
                i = i + 1;
                assert(span_views(spans@) =~= head + menu_spans(*selected as nat).subrange(0, i as int));
            }
            assert(menu_spans(*selected as nat).subrange(0, 5) =~= menu_spans(*selected as nat));
            let f = Frame { cursor_visible: false, spans };
            assert(f@.spans =~= frame_view(model@, state@).spans);
            f
        },
        State::NewTask { step, title, reward } => {
            let f = Frame { cursor_visible: true, spans: wizard_frame("task", "Task", "Reward", *step, title, reward) };
            assert(f@.spans =~= frame_view(model@, state@).spans);
            f
        },
        State::NewReward { step, title, price } => {
            let f = Frame { cursor_visible: true, spans: wizard_frame("reward", "Reward", "Price", *step, title, price) };
            assert(f@.spans =~= frame_view(model@, state@).spans);
            f
        },
        State::SolveTask { selected } => {
            let n = model.tasks.len();
            push_span(&mut spans, header("Currently you have ", n as u64, " tasks.\r\n\r\n"));
            let ghost head = span_views(spans@);
            let ghost rows = task_rows(model@.tasks, *selected as nat);
            let mut i: usize = 0;
            while i < n
                invariant
                    i <= n,
                    n == model@.tasks.len(),
                    rows == task_rows(model@.tasks, *selected as nat),
                    span_views(spans@) == head + rows.subrange(0, i as int),
                decreases n - i,
            {
                let t = &model.tasks[i];
                let style = if i == *selected { Style::Highlight } else { Style::Plain };
                push_span(&mut spans, Span { text: row(t.reward, &t.title), style });
                i = i + 1;
                assert(span_views(spans@) =~= head + rows.subrange(0, i as int));
            }
            assert(rows.subrange(0, n as int) =~= rows);
            let f = Frame { cursor_visible: false, spans };
            assert(f@.spans =~= frame_view(model@, state@).spans);
            f
        },
        State::TakeReward { selected } => {
            let n = model.rewards.len();
            push_span(&mut spans, header("Currently you have ", n as u64, " rewards.\r\n\r\n"));
            let ghost head = span_views(spans@);
            let ghost rows = reward_rows(model@.rewards, model.points, *selected as nat);
            let mut i: usize = 0;
            while i < n
                invariant
                    i <= n,
                    n == model@.rewards.len(),
                    rows == reward_rows(model@.rewards, model.points, *selected as nat),
                    span_views(spans@) == head + rows.subrange(0, i as int),
                decreases n - i,
            {
                let r = &model.rewards[i];
                let style = if r.price > model.points {
                    Style::Muted
                } else if i == *selected {
                    Style::Highlight
                } else {
                    Style::Plain
                };
                push_span(&mut spans, Span { text: row(r.price, &r.title), style });
                i = i + 1;
                assert(span_views(spans@) =~= head + rows.subrange(0, i as int));
            }
            assert(rows.subrange(0, n as int) =~= rows);
            let f = Frame { cursor_visible: false, spans };
            assert(f@.spans =~= frame_view(model@, state@).spans);
            f
        },
    }
}

fn same_frame(a: &Frame, b: &Frame) -> (r: bool)
    ensures
        r == (a@ == b@),
{
    if a.cursor_visible != b.cursor_visible || a.spans.len() != b.spans.len() {
        if a.spans.len() != b.spans.len() {
            assert(a@.spans.len() != b@.spans.len());
        }
        return false;
    }
    let mut i: usize = 0;
    while i < a.spans.len()
        invariant
            i <= a.spans@.len(),
            a.spans@.len() == b.spans@.len(),
            forall|k: int| 0 <= k < i ==> a.spans@[k]@ == b.spans@[k]@,
        decreases a.spans@.len() - i,
    {
        if a.spans[i].style != b.spans[i].style || !chars_equal(&a.spans[i].text, &b.spans[i].text) {
            assert(a@.spans[i as int] != b@.spans[i as int]);
            return false;
        }
        i = i + 1;
    }
    assert(a@.spans =~= b@.spans);
    true
}

fn copy_frame(f: &Frame) -> (r: Frame)
    ensures
        r@ == f@,
{
    let mut spans: Vec<Span> = Vec::new();
    let mut i: usize = 0;
    while i < f.spans.len()
        invariant
            i <= f.spans@.len(),
            span_views(spans@) == span_views(f.spans@).subrange(0, i as int),
        decreases f.spans@.len() - i,
    {
        push_span(&mut spans, Span { text: copy_chars(&f.spans[i].text), style: f.spans[i].style });
        i = i + 1;
        assert(span_views(spans@) =~= span_views(f.spans@).subrange(0, i as int));
    }
    assert(span_views(f.spans@).subrange(0, i as int) =~= span_views(f.spans@));
    Frame { cursor_visible: f.cursor_visible, spans }
}

/// Draws frames, remembering the last one so that an unchanged screen is not
/// drawn again.
pub struct Renderer {
    last: Option<Frame>,
}

impl Renderer {
    /// The frame drawn last, if any.
    pub closed spec fn last_drawn(&self) -> Option<FrameView> {
        match self.last {
            Some(f) => Some(f@),
            None => None,
        }
    }

    pub fn new() -> (r: Renderer)
        ensures
            r.last_drawn() is None,
    {
        Renderer { last: None }
    }

    /// The frame to draw for `model` and `state`, or `None` where it is the
    /// frame drawn last.
    pub fn render(&mut self, model: &Model, state: &State) -> (r: Option<Frame>)
        ensures
            final(self).last_drawn() == Some(frame_view(model@, state@)),
            r is None <==> old(self).last_drawn() == Some(frame_view(model@, state@)),
            r matches Some(f) ==> f@ == frame_view(model@, state@),
    {
        let f = frame_of(model, state);
        let unchanged = match &self.last {
            Some(prev) => same_frame(prev, &f),
            None => false,
        };
        if unchanged {
            None
        } else {
            self.last = Some(copy_frame(&f));
            Some(f)
        }
    }
}

} // verus!
