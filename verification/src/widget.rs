//! What is drawn: styled text in lists and paragraphs.

use vstd::prelude::*;

use crate::layout::Area;

verus! {

/// The colors that the explorer uses.
#[derive(Clone, Copy, Debug, PartialEq, Eq, Structural)]
pub enum Color {
    Cyan,
    DarkGray,
    Magenta,
    Red,
    White,
    Yellow,
}

/// How text looks. Without a color it has that of the terminal.
#[derive(Clone, Copy, Debug, PartialEq, Eq, Structural)]
pub struct Style {
    pub foreground: Option<Color>,
    pub background: Option<Color>,
    pub bold: bool,
}

impl Style {
    /// Text as the terminal shows it.
    pub open spec fn plain_style() -> Style {
        Style { foreground: None, background: None, bold: false }
    }

    /// Text in a color.
    pub open spec fn color_style(color: Color) -> Style {
        Style { foreground: Some(color), background: None, bold: false }
    }

    /// Bold text.
    pub open spec fn bold_style() -> Style {
        Style { foreground: None, background: None, bold: true }
    }

    /// Bold text in a color.
    pub open spec fn bold_color_style(color: Color) -> Style {
        Style { foreground: Some(color), background: None, bold: true }
    }

    /// The selected row of a list.
    pub open spec fn selected_style() -> Style {
        Style { foreground: None, background: Some(Color::DarkGray), bold: true }
    }

    /// Text as the terminal shows it.
    pub fn plain() -> (r: Style)
        ensures
            r == Style::plain_style(),
    {
        Style { foreground: None, background: None, bold: false }
    }

    /// Text in a color.
    pub fn color(color: Color) -> (r: Style)
        ensures
            r == Style::color_style(color),
    {
        Style { foreground: Some(color), background: None, bold: false }
    }

    /// Bold text.
    pub fn bold() -> (r: Style)
        ensures
            r == Style::bold_style(),
    {
        Style { foreground: None, background: None, bold: true }
    }

    /// Bold text in a color.
    pub fn bold_color(color: Color) -> (r: Style)
        ensures
            r == Style::bold_color_style(color),
    {
        Style { foreground: Some(color), background: None, bold: true }
    }

    /// The selected row of a list.
    pub fn selected() -> (r: Style)
        ensures
            r == Style::selected_style(),
    {
        Style { foreground: None, background: Some(Color::DarkGray), bold: true }
    }
}

/// Text in one style.
#[derive(Debug, PartialEq, Eq)]
pub struct Span {
    pub text: String,
    pub style: Style,
}

/// What a span stands for.
pub struct SpanModel {
    pub text: Seq<char>,
    pub style: Style,
}

impl View for Span {
    type V = SpanModel;

    open spec fn view(&self) -> SpanModel {
        SpanModel { text: self.text@, style: self.style }
    }
}

/// A line of text.
#[derive(Debug, PartialEq, Eq)]
pub struct Line {
    pub spans: Vec<Span>,
}

impl View for Line {
    type V = Seq<SpanModel>;

    open spec fn view(&self) -> Seq<SpanModel> {
        self.spans@.map_values(|span: Span| span@)
    }
}

/// The models of a list of lines.
pub open spec fn lines_of(lines: Seq<Line>) -> Seq<Seq<SpanModel>> {
    lines.map_values(|line: Line| line@)
}

/// The model of a span.
pub open spec fn styled(text: Seq<char>, style: Style) -> SpanModel {
    SpanModel { text, style }
}

/// The model of a span in a color.
pub open spec fn colored(text: Seq<char>, color: Color) -> SpanModel {
    SpanModel { text, style: Style::color_style(color) }
}

/// The model of a span as the terminal shows it.
pub open spec fn plain(text: Seq<char>) -> SpanModel {
    SpanModel { text, style: Style::plain_style() }
}

impl Line {
    /// A line without text.
    pub fn empty() -> (r: Line)
        ensures
            r@ == Seq::<SpanModel>::empty(),
    {
        let line = Line { spans: Vec::new() };
        assert(line@ =~= Seq::empty());
        line
    }

    /// The line with a span behind it.
    pub fn with(self, text: String, style: Style) -> (r: Line)
        ensures
            r@ == self@.push(styled(text@, style)),
    {
        let mut line = self;
        line.spans.push(Span { text, style });
        assert(line@ =~= self@.push(styled(text@, style)));
        line
    }

    /// The line of one span in a style.
    pub fn of(text: String, style: Style) -> (r: Line)
        ensures
            r@ == seq![styled(text@, style)],
    {
        let line = Line::empty().with(text, style);
        assert(line@ =~= seq![styled(text@, style)]);
        line
    }
}

/// Something that is drawn in an area.
#[derive(Debug)]
pub enum Widget {
    /// Nothing: what was drawn there before is removed.
    Clear { area: Area },
    /// A list in a frame with a title, of which one row may be selected.
    List {
        area: Area,
        title: String,
        items: Vec<Line>,
        selected: Option<usize>,
        highlight: Style,
        symbol: String,
    },
    /// Lines in a frame with a title. The first ones are scrolled away.
    Paragraph {
        area: Area,
        title: String,
        lines: Vec<Line>,
        centered: bool,
        wrapped: bool,
        scroll: u16,
    },
    /// Text without a frame.
    Text { area: Area, text: String, style: Style, centered: bool, wrapped: bool },
}

/// What a widget stands for.
pub enum WidgetModel {
    Clear { area: Area },
    List {
        area: Area,
        title: Seq<char>,
        items: Seq<Seq<SpanModel>>,
        selected: Option<nat>,
        highlight: Style,
        symbol: Seq<char>,
    },
    Paragraph {
        area: Area,
        title: Seq<char>,
        lines: Seq<Seq<SpanModel>>,
        centered: bool,
        wrapped: bool,
        scroll: nat,
    },
    Text { area: Area, text: Seq<char>, style: Style, centered: bool, wrapped: bool },
}

/// A place in a list as a number.
pub open spec fn opt_place(place: Option<usize>) -> Option<nat> {
    match place {
        Some(at) => Some(at as nat),
        None => None,
    }
}

impl View for Widget {
    type V = WidgetModel;

    open spec fn view(&self) -> WidgetModel {
        match *self {
            Widget::Clear { area } => WidgetModel::Clear { area },
            Widget::List { area, title, items, selected, highlight, symbol } => WidgetModel::List {
                area,
                title: title@,
                items: lines_of(items@),
                selected: opt_place(selected),
                highlight,
                symbol: symbol@,
            },
            Widget::Paragraph { area, title, lines, centered, wrapped, scroll } => {
                WidgetModel::Paragraph {
                    area,
                    title: title@,
                    lines: lines_of(lines@),
                    centered,
                    wrapped,
                    scroll: scroll as nat,
                }
            },
            Widget::Text { area, text, style, centered, wrapped } => WidgetModel::Text {
                area,
                text: text@,
                style,
                centered,
                wrapped,
            },
        }
    }
}

/// The models of a list of widgets.
pub open spec fn widgets_of(widgets: Seq<Widget>) -> Seq<WidgetModel> {
    widgets.map_values(|widget: Widget| widget@)
}

/// Adds a line.
pub fn push_line(lines: &mut Vec<Line>, line: Line)
    ensures
        lines_of(final(lines)@) == lines_of(old(lines)@).push(line@),
{
    let ghost before = lines@;
    lines.push(line);
    assert(lines_of(lines@) =~= lines_of(before).push(line@));
}

/// No lines.
pub fn no_lines() -> (r: Vec<Line>)
    ensures
        lines_of(r@) == Seq::<Seq<SpanModel>>::empty(),
{
    let lines: Vec<Line> = Vec::new();
    assert(lines_of(lines@) =~= Seq::empty());
    lines
}

/// A span stands for its text and style, a line for its spans, and lists for what they hold,
/// each in its order.
pub proof fn lines_stand_for_all_they_hold(
    span: Span,
    line: Line,
    lines: Seq<Line>,
    widgets: Seq<Widget>,
)
    ensures
        span@.text == span.text@,
        span@.style == span.style,
        line@.len() == line.spans.len(),
        forall|i: int| 0 <= i < line.spans.len() ==> #[trigger] line@[i] == line.spans@[i]@,
        lines_of(lines).len() == lines.len(),
        forall|i: int| 0 <= i < lines.len() ==> #[trigger] lines_of(lines)[i] == lines[i]@,
        widgets_of(widgets).len() == widgets.len(),
        forall|i: int| 0 <= i < widgets.len() ==> #[trigger] widgets_of(widgets)[i] == widgets[i]@,
{
}

/// A widget stands for where it is drawn and all that is drawn there.
pub proof fn widgets_stand_for_all_they_draw(widget: Widget)
    ensures
        widget matches Widget::Clear { area } ==> widget@ == (WidgetModel::Clear { area }),
        widget matches Widget::List { area, title, items, selected, highlight, symbol } ==> {
            &&& widget@ == (WidgetModel::List {
                area,
                title: title@,
                items: lines_of(items@),
                selected: widget@->selected,
                highlight,
                symbol: symbol@,
            })
            &&& selected is None ==> widget@->selected is None
            &&& selected matches Some(at) ==> widget@->selected == Some(at as nat)
        },
        widget matches Widget::Paragraph { area, title, lines, centered, wrapped, scroll }
            ==> widget@ == (WidgetModel::Paragraph {
            area,
            title: title@,
            lines: lines_of(lines@),
            centered,
            wrapped,
            scroll: scroll as nat,
        }),
        widget matches Widget::Text { area, text, style, centered, wrapped } ==> widget@ == (
        WidgetModel::Text { area, text: text@, style, centered, wrapped }),
{
}

/// Styles differ from the terminal's own in what their names say, and in nothing else.
pub proof fn styles_are_what_they_are_called(text: Seq<char>, color: Color, style: Style)
    ensures
        plain(text).text == text,
        plain(text).style.foreground is None,
        plain(text).style.background is None,
        !plain(text).style.bold,
        colored(text, color).text == text,
        colored(text, color).style.foreground == Some(color),
        colored(text, color).style.background is None,
        !colored(text, color).style.bold,
        styled(text, style).text == text,
        styled(text, style).style == style,
        Style::bold_style().bold,
        Style::bold_style().foreground is None,
        Style::bold_style().background is None,
        Style::bold_color_style(color).bold,
        Style::bold_color_style(color).foreground == Some(color),
        Style::bold_color_style(color).background is None,
        Style::selected_style().bold,
        Style::selected_style().foreground is None,
        Style::selected_style().background == Some(Color::DarkGray),
{
}

} // verus!
