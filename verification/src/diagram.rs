use crate::model::{
    Config, Header, InteractionSet, InteractionView, LineKind, ParseError, ParseErrorView,
    ParticipantSet, ParticipantView, Size,
};
use crate::parsing::document::Document;
use crate::parsing::interaction::{
    bearing, interaction_views, knows, lemma_bearing, lemma_mentions_of_interactions, names_of,
    resolved_interactions, InteractionParser,
};
use crate::parsing::participant::{
    all_measured, cursor, distinct, kinds, lemma_distinct, measured, mentions, participant_names,
    resolved, views, ParticipantParser,
};
use crate::rendering::render_context::{canvas_height, canvas_width, RenderingContext};
use crate::theme::Theme;
use vstd::prelude::*;

verus! {

// == Diagram =============================================
/// A diagram, resolved and placed: what a drawing is made from.
#[derive(Debug)]
pub struct Diagram {
    pub theme: Theme,
    pub header: Header,
    pub interactions: InteractionSet,
    pub participants: ParticipantSet,
    pub config: Config,
    pub canvas_width: usize,
    pub canvas_height: usize,
}

/// The mathematical value of a [`Diagram`].
pub struct DiagramView {
    pub participants: Seq<ParticipantView>,
    pub interactions: Seq<InteractionView>,
    pub canvas_width: nat,
    pub canvas_height: nat,
}

impl View for Diagram {
    type V = DiagramView;

    open spec fn view(&self) -> DiagramView {
        DiagramView {
            participants: views(self.participants@),
            interactions: interaction_views(self.interactions@),
            canvas_width: self.canvas_width as nat,
            canvas_height: self.canvas_height as nat,
        }
    }
}

/// The diagram of a document whose lines are `kinds`, where the labels of
/// its participants measure `sizes`.
pub open spec fn diagram_of(kinds: Seq<LineKind>, sizes: Seq<Option<Size>>, theme: Theme)
    -> DiagramView {
    let participants = resolved(kinds, sizes, theme);
    DiagramView {
        participants,
        interactions: resolved_interactions(kinds, participants),
        canvas_width: canvas_width(participants) as nat,
        canvas_height: canvas_height(participants, bearing(kinds).len()) as nat,
    }
}

/// Whether the diagram of `kinds` can be laid out in `usize`: the row of
/// participants ends within it, and so do the width and the height of the
/// canvas.
pub open spec fn fits(kinds: Seq<LineKind>, sizes: Seq<Option<Size>>, theme: Theme) -> bool {
    let participants = resolved(kinds, sizes, theme);
    &&& cursor(sizes, participant_names(kinds).len() as int, theme) <= usize::MAX
    &&& canvas_width(participants) <= usize::MAX
    &&& canvas_height(participants, bearing(kinds).len()) <= usize::MAX
}

/// The mathematical value of what `Diagram::parse` returns.
pub open spec fn outcome_view(result: Result<Diagram, ParseError>) -> Result<
    DiagramView,
    ParseErrorView,
> {
    match result {
        Ok(diagram) => Ok(diagram@),
        Err(error) => Err(error@),
    }
}

/// Whether `result` is what parsing the document `kinds` comes to, where
/// the labels of its participants measure `sizes`: `MeasureFail` with the
/// name of the first participant without a size; else `LayoutOverflow`
/// where the diagram does not fit; else the diagram. Never a failure on a
/// name.
pub open spec fn is_outcome(
    kinds: Seq<LineKind>,
    sizes: Seq<Option<Size>>,
    theme: Theme,
    result: Result<DiagramView, ParseErrorView>,
) -> bool {
    match result {
        Ok(diagram) => {
            &&& all_measured(sizes, participant_names(kinds).len() as int)
            &&& fits(kinds, sizes, theme)
            &&& diagram == diagram_of(kinds, sizes, theme)
        },
        Err(ParseErrorView::MeasureFail { name }) => exists|k: int|
            0 <= k < participant_names(kinds).len() && all_measured(sizes, k) && !measured(
                sizes,
                k,
            ) && name == #[trigger] participant_names(kinds)[k],
        Err(ParseErrorView::LayoutOverflow) => {
            &&& all_measured(sizes, participant_names(kinds).len() as int)
            &&& !fits(kinds, sizes, theme)
        },
        Err(ParseErrorView::InteractionParseFail { .. }) => false,
    }
}

/// The participants of a document have the names of every interaction line
/// of it: the second pass finds what the first pass found.
pub proof fn lemma_passes_agree(
    kinds: Seq<LineKind>,
    sizes: Seq<Option<Size>>,
    theme: Theme,
    i: int,
)
    requires
        0 <= i < kinds.len(),
        kinds[i].is_interaction(),
    ensures
        knows(resolved(kinds, sizes, theme), kinds[i]),
{
    let m = mentions(kinds);
    let participants = resolved(kinds, sizes, theme);
    lemma_bearing(kinds);
    lemma_mentions_of_interactions(kinds);
    lemma_distinct(m);
    assert(bearing(kinds).contains(i));
    assert(names_of(participants) =~= distinct(m));
}

impl Diagram {
    /// Builds the diagram of a document: resolves its participants, then
    /// its interactions against them, then sizes the canvas. `sizes[k]` is
    /// what the label of participant `k` measures, in the order of
    /// `ParticipantParser::names`, or `None` where measuring it failed.
    ///
    /// Fails with `MeasureFail` on the first participant without a size,
    /// else with `LayoutOverflow` where the diagram does not fit in `usize`.
    /// It never fails on a name.
    pub fn parse(document: Document, theme: Theme, sizes: &[Option<Size>]) -> (result: Result<
        Diagram,
        ParseError,
    >)
        ensures
            is_outcome(kinds(document.lines@), sizes@, theme, outcome_view(result)),
            result matches Ok(diagram) ==> diagram.theme == theme && diagram.config
                == document.config,
    {
        let ghost all = kinds(document.lines@);
        let participants = match ParticipantParser::parse(&document.lines, &theme, sizes) {
            Ok(participants) => participants,
            Err(error) => {
                return Err(error);
            },
        };
        let interactions = match InteractionParser::parse(&document.lines, &participants) {
            Ok(interactions) => interactions,
            Err(error) => {
                proof {
                    assert forall|i: int| 0 <= i < all.len() && (#[trigger] all[i]).is_interaction()
                        implies knows(views(participants@), all[i]) by {
                        lemma_passes_agree(all, sizes@, theme, i);
                    }
                }
                return Err(error);
            },
        };
        proof {
            assert(interaction_views(interactions@).len() == interactions.len());
        }
        let context = match RenderingContext::create(&interactions, &participants, theme) {
            Some(context) => context,
            None => {
                return Err(ParseError::LayoutOverflow);
            },
        };
        Ok(
            Diagram {
                theme,
                header: Header {  },
                interactions,
                participants,
                config: document.config,
                canvas_width: context.diagram_width,
                canvas_height: context.diagram_height,
            },
        )
    }

    /// The size of the canvas.
    pub fn size(&self) -> (size: Size)
        ensures
            size.width == self@.canvas_width,
            size.height == self@.canvas_height,
    {
        Size { height: self.canvas_height, width: self.canvas_width }
    }
}

} // verus!
