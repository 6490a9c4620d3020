use crate::model::{Interaction, Participant, ParticipantView};
use crate::parsing::participant::views;
use crate::theme::Theme;
use vstd::prelude::*;

verus! {

// == Rendering Constants =================================
/// The distances, in pixels, that the canvas is sized with.
#[derive(Debug, Copy, Clone, PartialEq, Eq)]
pub enum RenderingConstants {
    /// Between the edge of the canvas and its frame.
    DiagramPadding,
    /// Between the frame and the participants.
    DiagramMargin,
    /// Between one participant and the next.
    ParticipantHGap,
    /// Between the box of a participant and its label.
    ParticipantPadding,
    /// Between one interaction and the next.
    GapBetweenInteractions,
}

impl RenderingConstants {
    /// The distance in pixels.
    pub open spec fn spec_value(self) -> int {
        match self {
            RenderingConstants::DiagramPadding => 10,
            RenderingConstants::DiagramMargin => 15,
            RenderingConstants::ParticipantHGap => 25,
            RenderingConstants::ParticipantPadding => 10,
            RenderingConstants::GapBetweenInteractions => 25,
        }
    }

    /// The distance in pixels.
    pub fn value(&self) -> (pixels: usize)
        ensures
            pixels == self.spec_value(),
    {
        match *self {
            RenderingConstants::DiagramPadding => 10,
            RenderingConstants::DiagramMargin => 15,
            RenderingConstants::ParticipantHGap => 25,
            RenderingConstants::ParticipantPadding => 10,
            RenderingConstants::GapBetweenInteractions => 25,
        }
    }
}

// == The size of the canvas ==============================
/// The widths of the first `n` labels, added up.
pub open spec fn label_widths(participants: Seq<ParticipantView>, n: int) -> int
    decreases n,
{
    if n <= 0 {
        0
    } else {
        label_widths(participants, n - 1) + participants[n - 1].w
    }
}

/// The height of the tallest of the first `n` participants.
pub open spec fn row_height(participants: Seq<ParticipantView>, n: int) -> int
    decreases n,
{
    if n <= 0 {
        0
    } else if row_height(participants, n - 1) >= participants[n - 1].h {
        row_height(participants, n - 1)
    } else {
        participants[n - 1].h as int
    }
}

/// How wide the canvas is: padding and margin on both sides, the labels, a
/// gap between each participant and the next, and padding on both sides of
/// each label.
pub open spec fn canvas_width(participants: Seq<ParticipantView>) -> int {
    2 * RenderingConstants::DiagramPadding.spec_value() + 2
        * RenderingConstants::DiagramMargin.spec_value() + label_widths(
        participants,
        participants.len() as int,
    ) + (participants.len() - 1) * RenderingConstants::ParticipantHGap.spec_value()
        + participants.len() * (2 * RenderingConstants::ParticipantPadding.spec_value())
}

/// How high the canvas is: padding and margin above and below, the row of
/// participants, and a gap for each interaction.
pub open spec fn canvas_height(participants: Seq<ParticipantView>, interactions: nat) -> int {
    2 * RenderingConstants::DiagramPadding.spec_value() + 2
        * RenderingConstants::DiagramMargin.spec_value() + row_height(
        participants,
        participants.len() as int,
    ) + interactions * RenderingConstants::GapBetweenInteractions.spec_value()
}

/// The sum of the label widths only grows with more labels.
pub proof fn lemma_label_widths_grow(participants: Seq<ParticipantView>, i: int, j: int)
    requires
        0 <= i <= j,
    ensures
        0 <= label_widths(participants, i) <= label_widths(participants, j),
    decreases j,
{
    if i < j {
        lemma_label_widths_grow(participants, i, j - 1);
    } else if i > 0 {
        lemma_label_widths_grow(participants, i - 1, i - 1);
    }
}

// == Rendering Context ===================================
/// What a drawing of a diagram starts from: the size of its canvas and the
/// theme.
#[derive(Debug, Copy, Clone, PartialEq, Eq)]
pub struct RenderingContext {
    pub diagram_width: usize,
    pub diagram_height: usize,
    pub theme: Theme,
}

impl RenderingContext {
    /// Sizes the canvas for a diagram; `None` where its width or its height
    /// is beyond `usize::MAX`.
    pub fn create(
        interactions: &[Interaction],
        participants: &[Participant],
        theme: Theme,
    ) -> (context: Option<RenderingContext>)
        ensures
            match context {
                Some(context) => {
                    &&& context.diagram_width == canvas_width(views(participants@))
                    &&& context.diagram_height == canvas_height(
                        views(participants@),
                        interactions.len() as nat,
                    )
                    &&& context.theme == theme
                },
                None => canvas_width(views(participants@)) > usize::MAX || canvas_height(
                    views(participants@),
                    interactions.len() as nat,
                ) > usize::MAX,
            },
    {
        let diagram_height = match RenderingContext::calculate_diagram_height(
            interactions,
            participants,
        ) {
            Some(height) => height,
            None => {
                return None;
            },
        };
        let diagram_width = match RenderingContext::calculate_diagram_width(participants) {
            Some(width) => width,
            None => {
                return None;
            },
        };
        Some(RenderingContext { diagram_width, diagram_height, theme })
    }

    /// The height of the canvas, or `None` where it is beyond `usize::MAX`.
    pub fn calculate_diagram_height(
        interactions: &[Interaction],
        participants: &[Participant],
    ) -> (height: Option<usize>)
        ensures
            match height {
                Some(height) => height == canvas_height(
                    views(participants@),
                    interactions.len() as nat,
                ),
                None => canvas_height(views(participants@), interactions.len() as nat)
                    > usize::MAX,
            },
    {
        let mut row: usize = 0;
        let mut k: usize = 0;
        while k < participants.len()
            invariant
                k <= participants.len(),
                row == row_height(views(participants@), k as int),
            decreases participants.len() - k,
        {
            if participants[k].rect.h > row {
                row = participants[k].rect.h;
            }
            k += 1;
        }
        let frame: usize = RenderingConstants::DiagramPadding.value() * 2
            + RenderingConstants::DiagramMargin.value() * 2;
        let gaps = match interactions.len().checked_mul(
            RenderingConstants::GapBetweenInteractions.value(),
        ) {
            Some(gaps) => gaps,
            None => {
                return None;
            },
        };
        let top = match frame.checked_add(row) {
            Some(top) => top,
            None => {
                return None;
            },
        };
        top.checked_add(gaps)
    }

    /// The width of the canvas, or `None` where it is beyond `usize::MAX`.
    pub fn calculate_diagram_width(participants: &[Participant]) -> (width: Option<usize>)
        ensures
            match width {
                Some(width) => width == canvas_width(views(participants@)),
                None => canvas_width(views(participants@)) > usize::MAX,
            },
    {
        let count = participants.len();
        let frame: usize = RenderingConstants::DiagramPadding.value() * 2
            + RenderingConstants::DiagramMargin.value() * 2;
        if count == 0 {
            return Some(frame - RenderingConstants::ParticipantHGap.value());
        }
        let mut labels: usize = 0;
        let mut k: usize = 0;
        while k < count
            invariant
                count == participants.len(),
                k <= count,
                labels == label_widths(views(participants@), k as int),
            decreases count - k,
        {
            proof {
                lemma_label_widths_grow(views(participants@), k as int + 1, count as int);
            }
            labels = match labels.checked_add(participants[k].rect.w) {
                Some(labels) => labels,
                None => {
                    return None;
                },
            };
            k += 1;
        }
        let gaps = match (count - 1).checked_mul(RenderingConstants::ParticipantHGap.value()) {
            Some(gaps) => gaps,
            None => {
                return None;
            },
        };
        let paddings = match count.checked_mul(
            2 * RenderingConstants::ParticipantPadding.value(),
        ) {
            Some(paddings) => paddings,
            None => {
                return None;
            },
        };
        let inner = match frame.checked_add(labels) {
            Some(inner) => inner,
            None => {
                return None;
            },
        };
        let spaced = match inner.checked_add(gaps) {
            Some(spaced) => spaced,
            None => {
                return None;
            },
        };
        spaced.checked_add(paddings)
    }
}

} // verus!
