//! Diagnostics: structured reports of what is wrong with a source text, and
//! how much of a report is shown at each level of verbosity.

use crate::span::{location_text, Span, SpanView};
use crate::text::{decimal, push_decimal};
use vstd::prelude::*;

verus! {

/// How much of a diagnostic is shown.
#[derive(PartialOrd, PartialEq, Eq, Structural, Copy, Clone, Debug)]
pub enum ErrorLevel {
    /// Show nothing at all.
    Silent,
    /// One line for each report.
    Compact,
    /// The report with its labels.
    Normal,
    /// The report with its labels and with those meant for debugging.
    Debug,
}

/// What went wrong.
#[derive(Debug, PartialEq, Eq, Structural, Copy, Clone)]
pub enum ErrorReportKind {
    SyntaxError,
    UnexpectedCharacter,
    UnexpectedToken,
    DidYouMean,
    Custom,
}

/// The colour in which a label is drawn.
#[derive(Debug, PartialEq, Eq, Structural, Copy, Clone)]
pub enum Color {
    Red,
    BrightBlue,
}

/// A remark attached to a stretch of the source.
#[derive(Debug)]
pub struct Label {
    pub span: Span,
    pub message: Option<String>,
    pub color: Option<Color>,
    /// Among labels that point at the same place, one of lower order is drawn
    /// in front.
    pub order: i32,
}

/// The mathematical content of a [`Label`].
pub struct LabelView {
    pub span: SpanView,
    pub message: Option<Seq<char>>,
    pub color: Option<Color>,
    pub order: int,
}

impl LabelView {
    /// The label at `span` without message or colour, of order 0.
    pub open spec fn new(span: SpanView) -> LabelView {
        LabelView { span, message: None, color: None, order: 0 }
    }

    /// The same label with the message `message`.
    pub open spec fn with_message(self, message: Seq<char>) -> LabelView {
        LabelView { message: Some(message), ..self }
    }

    /// The same label drawn in `color`.
    pub open spec fn with_color(self, color: Color) -> LabelView {
        LabelView { color: Some(color), ..self }
    }

    /// The same label with the order `order`.
    pub open spec fn with_order(self, order: int) -> LabelView {
        LabelView { order, ..self }
    }
}

impl View for Label {
    type V = LabelView;

    open spec fn view(&self) -> LabelView {
        LabelView {
            span: self.span@,
            message: match self.message {
                Some(m) => Some(m@),
                None => None,
            },
            color: self.color,
            order: self.order as int,
        }
    }
}

impl Clone for Label {
    fn clone(&self) -> (copy: Self)
        ensures
            copy == *self,
    {
        let message = match &self.message {
            Some(m) => Some(m.clone()),
            None => None,
        };
        Label { span: self.span.clone(), message, color: self.color, order: self.order }
    }
}

impl Label {
    /// A label at `span`, without message or colour, of order 0.
    pub fn new(span: Span) -> (label: Self)
        ensures
            label@ == LabelView::new(span@),
    {
        Label { span, message: None, color: None, order: 0 }
    }

    /// The same label with the message `message`.
    pub fn with_message(self, message: &str) -> (label: Self)
        ensures
            label@ == self@.with_message(message@),
    {
        Label {
            span: self.span,
            message: Some(message.to_owned()),
            color: self.color,
            order: self.order,
        }
    }

    /// The same label drawn in `color`.
    pub fn with_color(self, color: Color) -> (label: Self)
        ensures
            label@ == self@.with_color(color),
    {
        Label { span: self.span, message: self.message, color: Some(color), order: self.order }
    }

    /// The same label with the order `order`. Among labels that point at the
    /// same place, one of lower order is drawn in front.
    pub fn with_order(self, order: i32) -> (label: Self)
        ensures
            label@ == self@.with_order(order as int),
    {
        Label { span: self.span, message: self.message, color: self.color, order }
    }
}

/// The views of the labels of `labels`, in order.
pub open spec fn label_views(labels: Seq<Label>) -> Seq<LabelView> {
    labels.map_values(|l: Label| l@)
}

/// The name of `kind`, as it opens the title of a report.
pub open spec fn kind_name(kind: ErrorReportKind) -> Seq<char> {
    match kind {
        ErrorReportKind::SyntaxError => "SyntaxError"@,
        ErrorReportKind::UnexpectedCharacter => "UnexpectedCharacter"@,
        ErrorReportKind::UnexpectedToken => "UnexpectedToken"@,
        ErrorReportKind::DidYouMean => "DidYouMean"@,
        ErrorReportKind::Custom => "Custom"@,
    }
}

/// The title of a report of kind `kind` about `message`: the message alone
/// for `Custom`, and else the name of the kind, a colon, a space and the
/// message.
pub open spec fn title_of(kind: ErrorReportKind, message: Seq<char>) -> Seq<char> {
    if kind == ErrorReportKind::Custom {
        message
    } else {
        kind_name(kind) + ": "@ + message
    }
}

impl ErrorReportKind {
    /// The name of the kind.
    pub fn name(self) -> (name: &'static str)
        ensures
            name@ == kind_name(self),
    {
        match self {
            ErrorReportKind::SyntaxError => "SyntaxError",
            ErrorReportKind::UnexpectedCharacter => "UnexpectedCharacter",
            ErrorReportKind::UnexpectedToken => "UnexpectedToken",
            ErrorReportKind::DidYouMean => "DidYouMean",
            ErrorReportKind::Custom => "Custom",
        }
    }
}

/// One diagnostic: what went wrong, where, and what to show about it.
#[derive(Debug)]
pub struct ErrorReport {
    kind: ErrorReportKind,
    span: Span,
    title: String,
    labels: Vec<Label>,
    debug_labels: Vec<Label>,
    note: Option<String>,
}

/// The mathematical content of an [`ErrorReport`].
pub struct ErrorReportView {
    pub kind: ErrorReportKind,
    pub span: SpanView,
    pub title: Seq<char>,
    pub labels: Seq<LabelView>,
    pub debug_labels: Seq<LabelView>,
    pub note: Option<Seq<char>>,
}

impl ErrorReportView {
    /// The report of kind `kind` at `span` about `message`, without labels
    /// and without a note.
    pub open spec fn new(kind: ErrorReportKind, span: SpanView, message: Seq<char>) -> Self {
        ErrorReportView {
            kind,
            span,
            title: title_of(kind, message),
            labels: Seq::empty(),
            debug_labels: Seq::empty(),
            note: None,
        }
    }

    /// The same report with `label` after its other labels.
    pub open spec fn with_label(self, label: LabelView) -> Self {
        ErrorReportView { labels: self.labels.push(label), ..self }
    }

    /// The same report with `label` after its other labels for debugging.
    pub open spec fn with_debug_label(self, label: LabelView) -> Self {
        ErrorReportView { debug_labels: self.debug_labels.push(label), ..self }
    }

    /// The same report with the note `note` in place of any other.
    pub open spec fn with_note(self, note: Seq<char>) -> Self {
        ErrorReportView { note: Some(note), ..self }
    }
}

impl View for ErrorReport {
    type V = ErrorReportView;

    closed spec fn view(&self) -> ErrorReportView {
        ErrorReportView {
            kind: self.kind,
            span: self.span@,
            title: self.title@,
            labels: label_views(self.labels@),
            debug_labels: label_views(self.debug_labels@),
            note: match self.note {
                Some(n) => Some(n@),
                None => None,
            },
        }
    }
}

/// The views of the reports of `reports`, in order.
pub open spec fn report_views(reports: Seq<ErrorReport>) -> Seq<ErrorReportView> {
    reports.map_values(|r: ErrorReport| r@)
}

impl ErrorReport {
    /// A report of kind `kind` at `span` about `message`, without labels and
    /// without a note.
    pub fn new(kind: ErrorReportKind, span: Span, message: String) -> (report: Self)
        ensures
            report@ == ErrorReportView::new(kind, span@, message@),
    {
        let title = match kind {
            ErrorReportKind::Custom => message,
            _ => {
                let mut title = kind.name().to_owned();
                title.append(": ");
                title.append(message.as_str());
                title
            },
        };
        let report = ErrorReport {
            kind,
            span,
            title,
            labels: Vec::new(),
            debug_labels: Vec::new(),
            note: None,
        };
        assert(label_views(report.labels@) =~= Seq::empty());
        assert(label_views(report.debug_labels@) =~= Seq::empty());
        report
    }

    /// The same report with `label` after its other labels.
    pub fn with_label(self, label: Label) -> (report: Self)
        ensures
            report@ == self@.with_label(label@),
    {
        let mut report = self;
        report.labels.push(label);
        assert(label_views(report.labels@) =~= label_views(self.labels@).push(label@));
        report
    }

    /// The same report with `label` after its other labels for debugging.
    pub fn with_debug_label(self, label: Label) -> (report: Self)
        ensures
            report@ == self@.with_debug_label(label@),
    {
        let mut report = self;
        report.debug_labels.push(label);
        assert(label_views(report.debug_labels@) =~= label_views(self.debug_labels@).push(
            label@,
        ));
        report
    }

    /// What went wrong.
    pub fn kind(&self) -> (kind: ErrorReportKind)
        ensures
            kind == self@.kind,
    {
        self.kind
    }

    /// Where it went wrong.
    pub fn span(&self) -> (span: &Span)
        ensures
            span@ == self@.span,
    {
        &self.span
    }

    /// The line that heads the report.
    pub fn title(&self) -> (title: &str)
        ensures
            title@ == self@.title,
    {
        self.title.as_str()
    }

    /// The labels, in the order in which they were attached.
    pub fn labels(&self) -> (labels: &Vec<Label>)
        ensures
            label_views(labels@) == self@.labels,
    {
        &self.labels
    }

    /// The labels meant for debugging, in the order in which they were
    /// attached.
    pub fn debug_labels(&self) -> (labels: &Vec<Label>)
        ensures
            label_views(labels@) == self@.debug_labels,
    {
        &self.debug_labels
    }

    /// The note, if the report has one.
    pub fn note(&self) -> (note: &Option<String>)
        ensures
            match *note {
                Some(n) => self@.note == Some(n@),
                None => self@.note is None,
            },
    {
        &self.note
    }

    /// The same report with the note `note` in place of any other.
    pub fn with_note(self, note: String) -> (report: Self)
        ensures
            report@ == self@.with_note(note@),
    {
        let mut report = self;
        report.note = Some(note);
        report
    }
}

/// What heads a shown report.
#[derive(Debug)]
pub enum Heading {
    /// The usual heading of an error.
    Error,
    /// A heading of its own, in its own colour.
    Custom { text: String, color: Color },
}

/// The mathematical content of a [`Heading`].
pub enum HeadingView {
    Error,
    Custom { text: Seq<char>, color: Color },
}

impl View for Heading {
    type V = HeadingView;

    open spec fn view(&self) -> HeadingView {
        match *self {
            Heading::Error => HeadingView::Error,
            Heading::Custom { text, color } => HeadingView::Custom { text: text@, color },
        }
    }
}

/// What is shown of one report at one level: everything that a drawing of
/// the report against its source needs.
#[derive(Debug)]
pub struct Rendering {
    pub heading: Heading,
    /// The name of the source that the report is about.
    pub source: String,
    /// Where in the source the report points.
    pub offset: usize,
    pub message: String,
    /// Whether the report is drawn on as few lines as can be.
    pub compact: bool,
    pub labels: Vec<Label>,
    pub note: Option<String>,
}

/// The mathematical content of a [`Rendering`].
pub struct RenderingView {
    pub heading: HeadingView,
    pub source: Seq<char>,
    pub offset: nat,
    pub message: Seq<char>,
    pub compact: bool,
    pub labels: Seq<LabelView>,
    pub note: Option<Seq<char>>,
}

impl View for Rendering {
    type V = RenderingView;

    open spec fn view(&self) -> RenderingView {
        RenderingView {
            heading: self.heading@,
            source: self.source@,
            offset: self.offset as nat,
            message: self.message@,
            compact: self.compact,
            labels: label_views(self.labels@),
            note: match self.note {
                Some(n) => Some(n@),
                None => None,
            },
        }
    }
}

/// The views of the renderings of `renderings`, in order.
pub open spec fn rendering_views(renderings: Seq<Rendering>) -> Seq<RenderingView> {
    renderings.map_values(|r: Rendering| r@)
}

/// The labels of `report` that are shown at `level`: none at `Compact`, the
/// labels at `Normal`, and at `Debug` the labels and after them those meant
/// for debugging.
pub open spec fn shown_labels(report: ErrorReportView, level: ErrorLevel) -> Seq<LabelView> {
    match level {
        ErrorLevel::Debug => report.labels + report.debug_labels,
        ErrorLevel::Normal => report.labels,
        _ => Seq::empty(),
    }
}

/// What is shown of `report` at `level`. At `Compact` the heading names the
/// place of the report and the drawing is compact; at the other levels the
/// heading is that of an error.
pub open spec fn rendering_of(report: ErrorReportView, level: ErrorLevel) -> RenderingView {
    RenderingView {
        heading: if level == ErrorLevel::Compact {
            HeadingView::Custom {
                text: "["@ + location_text(report.span) + "] Error"@,
                color: Color::Red,
            }
        } else {
            HeadingView::Error
        },
        source: report.span.source,
        offset: report.span.start,
        message: report.title,
        compact: level == ErrorLevel::Compact,
        labels: shown_labels(report, level),
        note: report.note,
    }
}

/// What is shown of each of `reports` at `level`, in their order: nothing at
/// `Silent`.
pub open spec fn renderings_of(reports: Seq<ErrorReportView>, level: ErrorLevel) -> Seq<
    RenderingView,
> {
    if level == ErrorLevel::Silent {
        Seq::empty()
    } else {
        reports.map_values(|r: ErrorReportView| rendering_of(r, level))
    }
}

/// The line that closes the output of `emitted` reports at `level`: none
/// where nothing is shown or nothing was reported, and else the count.
pub open spec fn summary_of(level: ErrorLevel, emitted: nat) -> Option<Seq<char>> {
    if level == ErrorLevel::Silent || emitted == 0 {
        None
    } else {
        Some(
            "Emitted "@ + decimal(emitted) + (if emitted == 1 {
                " error."@
            } else {
                " errors."@
            }),
        )
    }
}

/// Copies the labels of `from` to the end of `into`.
fn copy_labels(into: &mut Vec<Label>, from: &Vec<Label>)
    ensures
        label_views(final(into)@) == label_views(old(into)@) + label_views(from@),
{
    let mut i: usize = 0;
    assert(label_views(into@) + label_views(from@.take(0)) =~= label_views(into@));
    while i < from.len()
        invariant
            i <= from.len(),
            label_views(into@) == label_views(old(into)@) + label_views(from@.take(i as int)),
        decreases from.len() - i,
    {
        let label = from[i].clone();
        let ghost before = into@;
        into.push(label);
        proof {
            assert(label_views(before.push(label)) =~= label_views(before).push(label@));
            assert(from@.take(i + 1) =~= from@.take(i as int).push(from@[i as int]));
            assert(label_views(from@.take(i as int).push(from@[i as int])) =~= label_views(
                from@.take(i as int),
            ).push(label@));
            assert(label_views(into@) =~= label_views(old(into)@) + label_views(
                from@.take(i + 1),
            ));
        }
        i += 1;
    }
    assert(from@.take(from.len() as int) =~= from@);
}

impl Clone for ErrorReport {
    fn clone(&self) -> (copy: Self)
        ensures
            copy@ == self@,
    {
        let mut labels: Vec<Label> = Vec::new();
        let mut debug_labels: Vec<Label> = Vec::new();
        assert(label_views(labels@) =~= Seq::empty());
        copy_labels(&mut labels, &self.labels);
        copy_labels(&mut debug_labels, &self.debug_labels);
        assert(label_views(labels@) =~= label_views(self.labels@));
        assert(label_views(debug_labels@) =~= label_views(self.debug_labels@));
        let note = match &self.note {
            Some(n) => Some(n.clone()),
            None => None,
        };
        ErrorReport {
            kind: self.kind,
            span: self.span.clone(),
            title: self.title.clone(),
            labels,
            debug_labels,
            note,
        }
    }
}

impl ErrorReport {
    /// What is shown of the report at `level`. Nothing is shown at `Silent`,
    /// so that level cannot be asked for.
    pub fn render(&self, level: ErrorLevel) -> (rendering: Rendering)
        requires
            level != ErrorLevel::Silent,
        ensures
            rendering@ == rendering_of(self@, level),
    {
        let mut labels: Vec<Label> = Vec::new();
        assert(label_views(labels@) =~= Seq::empty());
        let heading = match level {
            ErrorLevel::Compact => {
                let mut text = "[".to_owned();
                text.append(self.span.to_string().as_str());
                text.append("] Error");
                Heading::Custom { text, color: Color::Red }
            },
            ErrorLevel::Normal => {
                copy_labels(&mut labels, &self.labels);
                Heading::Error
            },
            _ => {
                copy_labels(&mut labels, &self.labels);
                copy_labels(&mut labels, &self.debug_labels);
                Heading::Error
            },
        };
        assert(label_views(labels@) =~= shown_labels(self@, level));
        let note = match &self.note {
            Some(n) => Some(n.clone()),
            None => None,
        };
        Rendering {
            heading,
            source: self.span.filename.clone(),
            offset: self.span.start,
            message: self.title.clone(),
            compact: level == ErrorLevel::Compact,
            labels,
            note,
        }
    }
}

/// What is shown of each of `reports` at `level`, in their order: nothing at
/// `Silent`.
pub fn render_all(level: ErrorLevel, reports: &Vec<ErrorReport>) -> (renderings: Vec<Rendering>)
    ensures
        rendering_views(renderings@) == renderings_of(report_views(reports@), level),
{
    let mut renderings: Vec<Rendering> = Vec::new();
    assert(rendering_views(renderings@) =~= Seq::empty());
    if level == ErrorLevel::Silent {
        return renderings;
    }
    let mut i: usize = 0;
    assert(renderings_of(report_views(reports@.take(0)), level) =~= Seq::empty());
    while i < reports.len()
        invariant
            i <= reports.len(),
            level != ErrorLevel::Silent,
            rendering_views(renderings@) == renderings_of(
                report_views(reports@.take(i as int)),
                level,
            ),
        decreases reports.len() - i,
    {
        let rendering = reports[i].render(level);
        let ghost before = renderings@;
        renderings.push(rendering);
        proof {
            assert(rendering_views(before.push(rendering)) =~= rendering_views(before).push(
                rendering@,
            ));
            assert(reports@.take(i + 1) =~= reports@.take(i as int).push(reports@[i as int]));
            assert(report_views(reports@.take(i as int).push(reports@[i as int]))
                =~= report_views(reports@.take(i as int)).push(reports@[i as int]@));
            assert(renderings_of(
                report_views(reports@.take(i as int)).push(reports@[i as int]@),
                level,
            ) =~= renderings_of(report_views(reports@.take(i as int)), level).push(rendering@));
        }
        i += 1;
    }
    assert(reports@.take(reports.len() as int) =~= reports@);
    renderings
}

/// The line that closes the output of `emitted` reports at `level`.
pub fn summary(level: ErrorLevel, emitted: usize) -> (line: Option<String>)
    ensures
        match line {
            Some(text) => summary_of(level, emitted as nat) == Some(text@),
            None => summary_of(level, emitted as nat) is None,
        },
{
    if level == ErrorLevel::Silent || emitted == 0 {
        return None;
    }
    let mut text = "Emitted ".to_owned();
    push_decimal(&mut text, emitted);
    if emitted == 1 {
        text.append(" error.");
    } else {
        text.append(" errors.");
    }
    Some(text)
}

} // verus!
