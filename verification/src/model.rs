use vstd::prelude::*;

verus! {

// == Message =============================================
/// The text carried by an interaction.
#[derive(Debug, Ord, PartialOrd, Eq, PartialEq, Hash, Clone)]
pub struct Message(pub String);

impl View for Message {
    type V = Seq<char>;

    open spec fn view(&self) -> Seq<char> {
        self.0@
    }
}

// == Line ================================================
/// One line of the document: its ordinal, its trimmed text and what it was
/// classified as.
#[derive(Debug)]
pub struct Line {
    pub line_number: usize,
    pub line_contents: LineContents,
    pub line_data: String,
}

/// The mathematical value of a [`Line`].
pub struct LineView {
    pub line_number: nat,
    pub line_contents: LineKind,
    pub line_data: Seq<char>,
}

impl View for Line {
    type V = LineView;

    open spec fn view(&self) -> LineView {
        LineView {
            line_number: self.line_number as nat,
            line_contents: self.line_contents@,
            line_data: self.line_data@,
        }
    }
}

// == Line Contents =======================================
/// What a line is. Exactly one variant holds of every line.
#[derive(Debug, PartialOrd, PartialEq)]
pub enum LineContents {
    Invalid,
    Empty,
    Comment,
    MetaData(MetaDataType),
    Interaction(FromParticipant, ToParticipant),
    InteractionWithMessage(FromParticipant, ToParticipant, InteractionMessage),
}

/// The mathematical value of a [`LineContents`].
pub enum LineKind {
    Invalid,
    Empty,
    Comment,
    MetaData(MetaDataKind),
    Interaction(Seq<char>, Seq<char>),
    InteractionWithMessage(Seq<char>, Seq<char>, Seq<char>),
}

impl View for LineContents {
    type V = LineKind;

    open spec fn view(&self) -> LineKind {
        match self {
            LineContents::Invalid => LineKind::Invalid,
            LineContents::Empty => LineKind::Empty,
            LineContents::Comment => LineKind::Comment,
            LineContents::MetaData(kind) => LineKind::MetaData(kind@),
            LineContents::Interaction(from, to) => LineKind::Interaction(from@, to@),
            LineContents::InteractionWithMessage(from, to, message) => {
                LineKind::InteractionWithMessage(from@, to@, message@)
            },
        }
    }
}

impl LineContents {
    /// The two names of an interaction line, the one before the arrow first;
    /// `None` for every other line. Both resolvers go by this test.
    pub fn endpoints(&self) -> (ends: Option<(&String, &String)>)
        ensures
            ends is Some <==> self@.is_interaction(),
            ends matches Some((from, to)) ==> from@ == self@.from_name() && to@
                == self@.to_name(),
    {
        match self {
            LineContents::Interaction(from, to) => Some((&from.0, &to.0)),
            LineContents::InteractionWithMessage(from, to, _) => Some((&from.0, &to.0)),
            _ => None,
        }
    }
}

impl LineKind {
    /// Whether the line names the two ends of an interaction. Both resolvers
    /// count exactly these lines.
    pub open spec fn is_interaction(self) -> bool {
        self is Interaction || self is InteractionWithMessage
    }

    /// The name on the left of the arrow.
    pub open spec fn from_name(self) -> Seq<char>
        recommends
            self.is_interaction(),
    {
        match self {
            LineKind::Interaction(from, _) => from,
            LineKind::InteractionWithMessage(from, _, _) => from,
            _ => Seq::empty(),
        }
    }

    /// The name on the right of the arrow.
    pub open spec fn to_name(self) -> Seq<char>
        recommends
            self.is_interaction(),
    {
        match self {
            LineKind::Interaction(_, to) => to,
            LineKind::InteractionWithMessage(_, to, _) => to,
            _ => Seq::empty(),
        }
    }

    /// The message after the colon, where the line has one.
    pub open spec fn message(self) -> Option<Seq<char>> {
        match self {
            LineKind::InteractionWithMessage(_, _, message) => Some(message),
            _ => None,
        }
    }
}

/// The directive of a metadata line.
#[derive(Debug, PartialOrd, PartialEq)]
pub enum MetaDataType {
    Style(String),
    Title(String),
    Author(String),
    Date,
    Invalid,
}

/// The mathematical value of a [`MetaDataType`].
pub enum MetaDataKind {
    Style(Seq<char>),
    Title(Seq<char>),
    Author(Seq<char>),
    Date,
    Invalid,
}

impl View for MetaDataType {
    type V = MetaDataKind;

    open spec fn view(&self) -> MetaDataKind {
        match self {
            MetaDataType::Style(name) => MetaDataKind::Style(name@),
            MetaDataType::Title(title) => MetaDataKind::Title(title@),
            MetaDataType::Author(author) => MetaDataKind::Author(author@),
            MetaDataType::Date => MetaDataKind::Date,
            MetaDataType::Invalid => MetaDataKind::Invalid,
        }
    }
}

/// The name before the arrow of an interaction line.
#[derive(Debug, PartialEq, Eq, PartialOrd, Ord)]
pub struct FromParticipant(pub String);

impl View for FromParticipant {
    type V = Seq<char>;

    open spec fn view(&self) -> Seq<char> {
        self.0@
    }
}

/// The name after the arrow of an interaction line.
#[derive(Debug, PartialEq, Eq, PartialOrd, Ord)]
pub struct ToParticipant(pub String);

impl View for ToParticipant {
    type V = Seq<char>;

    open spec fn view(&self) -> Seq<char> {
        self.0@
    }
}

/// What follows the colon of an interaction line.
#[derive(Debug, PartialEq, Eq, PartialOrd, Ord)]
pub struct InteractionMessage(pub String);

impl View for InteractionMessage {
    type V = Seq<char>;

    open spec fn view(&self) -> Seq<char> {
        self.0@
    }
}

// == Header ==============================================
/// The head of a diagram. It holds nothing yet.
#[derive(Debug)]
pub struct Header {}

// == Geometry ============================================
/// A box in pixels: where it starts and how far it extends.
#[derive(Debug, Copy, Clone, Ord, PartialOrd, Eq, PartialEq, Hash)]
pub struct Rect {
    pub x: usize,
    pub y: usize,
    pub w: usize,
    pub h: usize,
}

/// An extent in pixels: what a label measures, or what the canvas needs.
#[derive(Debug, Copy, Clone, Eq, PartialEq)]
pub struct Size {
    pub height: usize,
    pub width: usize,
}

// == Participant =========================================
/// One end of an interaction, placed on the canvas.
#[derive(Debug, Clone, Ord, PartialOrd, Eq, PartialEq, Hash)]
pub struct Participant {
    pub name: String,
    pub index: usize,
    pub active_from: usize,
    pub active_to: usize,
    pub rect: Rect,
}

/// The mathematical value of a [`Participant`].
pub struct ParticipantView {
    pub name: Seq<char>,
    pub index: nat,
    pub active_from: nat,
    pub active_to: nat,
    pub x: nat,
    pub y: nat,
    pub w: nat,
    pub h: nat,
}

impl View for Participant {
    type V = ParticipantView;

    open spec fn view(&self) -> ParticipantView {
        ParticipantView {
            name: self.name@,
            index: self.index as nat,
            active_from: self.active_from as nat,
            active_to: self.active_to as nat,
            x: self.rect.x as nat,
            y: self.rect.y as nat,
            w: self.rect.w as nat,
            h: self.rect.h as nat,
        }
    }
}

impl Participant {
    /// A participant that has only been named: it is mentioned nowhere yet
    /// and has no place.
    pub fn new(name: &str, count: usize) -> (participant: Participant)
        ensures
            participant@ == (ParticipantView {
                name: name@,
                index: count as nat,
                active_from: 0,
                active_to: 0,
                x: 0,
                y: 0,
                w: 0,
                h: 0,
            }),
    {
        Participant {
            name: name.to_owned(),
            index: count,
            active_from: 0,
            active_to: 0,
            rect: Rect { x: 0, y: 0, w: 0, h: 0 },
        }
    }
}

// == Interaction Type ====================================
/// The direction of an interaction, read off the order of its two ends.
#[derive(Debug, Copy, Clone, PartialEq, Eq, PartialOrd, Ord)]
pub enum InteractionType {
    L2R,
    R2L,
    SelfRef,
}

// == Interaction =========================================
/// One arrow of the diagram. Its two ends are positions in the diagram's
/// participant list, so a participant is stored once only.
#[derive(Debug, Clone, PartialEq, Eq)]
pub struct Interaction {
    pub index: usize,
    pub from_participant: usize,
    pub to_participant: usize,
    pub interaction_type: InteractionType,
    pub message: Option<Message>,
}

/// The mathematical value of an [`Interaction`].
pub struct InteractionView {
    pub index: nat,
    pub from_participant: nat,
    pub to_participant: nat,
    pub interaction_type: InteractionType,
    pub message: Option<Seq<char>>,
}

impl View for Interaction {
    type V = InteractionView;

    open spec fn view(&self) -> InteractionView {
        InteractionView {
            index: self.index as nat,
            from_participant: self.from_participant as nat,
            to_participant: self.to_participant as nat,
            interaction_type: self.interaction_type,
            message: match self.message {
                Some(message) => Some(message@),
                None => None,
            },
        }
    }
}

/// The participants of a diagram, in order of first mention.
pub type ParticipantSet = Vec<Participant>;

/// The interactions of a diagram, in document order.
pub type InteractionSet = Vec<Interaction>;

// == Configuration =======================================
/// Where a run reads its text and where it writes its drawing.
#[derive(Debug, Clone)]
pub struct Config {
    pub input_source: Source,
    pub output_path: String,
}

/// Where the text of a document comes from.
#[derive(Debug, Clone)]
pub enum Source {
    StdIn,
    File(String),
    Example,
}

/// Where the text comes from: the example if that was asked for, else the
/// file if one was named, else standard input.
pub fn resolve_input_source(example: bool, input_file: Option<String>) -> (source: Source)
    ensures
        match source {
            Source::Example => example,
            Source::File(name) => !example && input_file == Some(name),
            Source::StdIn => !example && input_file is None,
        },
{
    if example {
        Source::Example
    } else {
        match input_file {
            Some(name) => Source::File(name),
            None => Source::StdIn,
        }
    }
}

// == Parse Error =========================================
/// Why a parse was given up.
#[derive(Debug, Clone, PartialEq, Eq)]
pub enum ParseError {
    /// An interaction line names a participant that the participant list
    /// does not hold.
    InteractionParseFail { line_number: usize, name: String },
    /// The label of a participant could not be measured.
    MeasureFail { name: String },
    /// The diagram is wider or taller than a `usize` can say.
    LayoutOverflow,
}

/// The mathematical value of a [`ParseError`].
pub enum ParseErrorView {
    InteractionParseFail { line_number: nat, name: Seq<char> },
    MeasureFail { name: Seq<char> },
    LayoutOverflow,
}

impl View for ParseError {
    type V = ParseErrorView;

    open spec fn view(&self) -> ParseErrorView {
        match self {
            ParseError::InteractionParseFail { line_number, name } => {
                ParseErrorView::InteractionParseFail {
                    line_number: *line_number as nat,
                    name: name@,
                }
            },
            ParseError::MeasureFail { name } => ParseErrorView::MeasureFail { name: name@ },
            ParseError::LayoutOverflow => ParseErrorView::LayoutOverflow,
        }
    }
}

} // verus!
