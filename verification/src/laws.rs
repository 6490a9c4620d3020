use crate::diagram::{diagram_of, is_outcome, lemma_passes_agree, DiagramView};
use crate::model::{LineKind, ParseErrorView, ParticipantView, Size};
use crate::parsing::document::document_kinds;
use crate::parsing::interaction::{
    bearing, direction, lemma_bearing, lemma_mentions_of_interactions, names_of,
};
use crate::parsing::participant::{
    all_measured, discovered, distinct, first_mention, last_mention, lemma_cursor_grows,
    lemma_distinct, lemma_first_mention, lemma_last_mention, lemma_max_height, measured, mentions,
    participant_names, placed, resolved,
};
use crate::rendering::render_context::{
    canvas_height, canvas_width, label_widths, lemma_label_widths_grow, RenderingConstants,
};
use crate::theme::Theme;
use vstd::prelude::*;

verus! {

// == One input, one diagram ==============================
/// Parsing is a function of its input: whatever two runs on the same
/// lines, the same sizes and the same theme come to, a diagram or a
/// failure, is the same.
pub proof fn law_same_input_same_diagram(
    raw: Seq<Seq<char>>,
    sizes: Seq<Option<Size>>,
    theme: Theme,
    first: Result<DiagramView, ParseErrorView>,
    second: Result<DiagramView, ParseErrorView>,
)
    requires
        is_outcome(document_kinds(raw), sizes, theme, first),
        is_outcome(document_kinds(raw), sizes, theme, second),
    ensures
        first == second,
{
}

// == Participants ========================================
/// The participants stand in the order of their first mention and are
/// numbered in that order from 0, so that their indices are the numbers
/// below their count, each once. No two have one name, and their names are
/// the names that the interaction lines mention, and no others.
pub proof fn law_participants_in_order_of_first_mention(
    kinds: Seq<LineKind>,
    sizes: Seq<Option<Size>>,
    theme: Theme,
)
    ensures
        forall|i: int|
            0 <= i < resolved(kinds, sizes, theme).len() ==> (#[trigger] resolved(
                kinds,
                sizes,
                theme,
            )[i]).index == i,
        forall|i: int, j: int|
            0 <= i < j < resolved(kinds, sizes, theme).len() ==> (#[trigger] resolved(
                kinds,
                sizes,
                theme,
            )[i]).name != (#[trigger] resolved(kinds, sizes, theme)[j]).name,
        forall|i: int, j: int|
            0 <= i < j < resolved(kinds, sizes, theme).len() ==> first_mention(
                mentions(kinds),
                (#[trigger] resolved(kinds, sizes, theme)[i]).name,
            ) < first_mention(mentions(kinds), (#[trigger] resolved(kinds, sizes, theme)[j]).name),
        forall|name: Seq<char>| #[trigger]
            names_of(resolved(kinds, sizes, theme)).contains(name) <==> mentions(kinds).contains(
                name,
            ),
{
    let m = mentions(kinds);
    let participants = resolved(kinds, sizes, theme);
    lemma_distinct(m);
    assert(names_of(participants) =~= distinct(m));
}

/// Whether `name` is one of the two ends of interaction `k`, the mentions
/// being `m`.
pub open spec fn is_end(m: Seq<Seq<char>>, k: int, name: Seq<char>) -> bool {
    0 <= k && 2 * k + 1 < m.len() && (m[2 * k] == name || m[2 * k + 1] == name)
}

/// The span of a participant starts at the first interaction that it is an
/// end of and ends at the last: it is an end of both, every interaction
/// that it is an end of lies between them, and the start does not come
/// after the end.
pub proof fn law_span_is_first_to_last_mention(
    kinds: Seq<LineKind>,
    sizes: Seq<Option<Size>>,
    theme: Theme,
    i: int,
)
    requires
        0 <= i < resolved(kinds, sizes, theme).len(),
    ensures
        resolved(kinds, sizes, theme)[i].active_from <= resolved(kinds, sizes, theme)[i].active_to,
        is_end(
            mentions(kinds),
            resolved(kinds, sizes, theme)[i].active_from as int,
            resolved(kinds, sizes, theme)[i].name,
        ),
        is_end(
            mentions(kinds),
            resolved(kinds, sizes, theme)[i].active_to as int,
            resolved(kinds, sizes, theme)[i].name,
        ),
        forall|k: int| #[trigger]
            is_end(mentions(kinds), k, resolved(kinds, sizes, theme)[i].name) ==> resolved(
                kinds,
                sizes,
                theme,
            )[i].active_from <= k <= resolved(kinds, sizes, theme)[i].active_to,
{
    let m = mentions(kinds);
    let name = resolved(kinds, sizes, theme)[i].name;
    lemma_distinct(m);
    lemma_mentions_of_interactions(kinds);
    assert(distinct(m).contains(name));
    lemma_first_mention(m, name);
    lemma_last_mention(m, name);
}

/// Placed participants stand side by side, left to right in their order,
/// with at least the gap between one and the next, and all are as high as
/// the tallest label.
pub proof fn law_participants_stand_side_by_side(
    found: Seq<ParticipantView>,
    sizes: Seq<Option<Size>>,
    theme: Theme,
    i: int,
    j: int,
)
    requires
        0 <= i < j < found.len(),
        all_measured(sizes, found.len() as int),
    ensures
        placed(found, sizes, theme)[i].x + placed(found, sizes, theme)[i].w + theme.partic_h_gap
            <= placed(found, sizes, theme)[j].x,
        placed(found, sizes, theme)[i].h == placed(found, sizes, theme)[j].h,
        sizes[i]->0.height <= placed(found, sizes, theme)[i].h,
        sizes[j]->0.height <= placed(found, sizes, theme)[j].h,
{
    lemma_cursor_grows(sizes, 0, i, theme);
    lemma_cursor_grows(sizes, i + 1, j, theme);
    lemma_max_height(sizes, found.len() as int, i);
    lemma_max_height(sizes, found.len() as int, j);
}

// == Interactions ========================================
/// Whether the interactions of a diagram fit its participants: they are
/// numbered from 0 in their order; both ends of each are participants of
/// the diagram; each points the way its ends stand; and each lies within
/// the spans of both its ends.
pub open spec fn interactions_fit(diagram: DiagramView) -> bool {
    forall|k: int|
        0 <= k < diagram.interactions.len() ==> {
            let interaction = #[trigger] diagram.interactions[k];
            let from = interaction.from_participant as int;
            let to = interaction.to_participant as int;
            &&& interaction.index == k
            &&& from < diagram.participants.len()
            &&& to < diagram.participants.len()
            &&& interaction.interaction_type == direction(from as nat, to as nat)
            &&& diagram.participants[from].active_from <= k <= diagram.participants[from].active_to
            &&& diagram.participants[to].active_from <= k <= diagram.participants[to].active_to
        }
}

/// The two passes agree: in the diagram of a document there is one
/// interaction for each interaction line, and the interactions fit the
/// participants.
pub proof fn law_interactions_fit_participants(
    kinds: Seq<LineKind>,
    sizes: Seq<Option<Size>>,
    theme: Theme,
)
    ensures
        diagram_of(kinds, sizes, theme).interactions.len() == bearing(kinds).len(),
        interactions_fit(diagram_of(kinds, sizes, theme)),
{
    let diagram = diagram_of(kinds, sizes, theme);
    let participants = diagram.participants;
    let m = mentions(kinds);
    lemma_mentions_of_interactions(kinds);
    lemma_distinct(m);
    assert(names_of(participants) =~= distinct(m));
    assert forall|k: int| 0 <= k < diagram.interactions.len() implies {
        let interaction = #[trigger] diagram.interactions[k];
        let from = interaction.from_participant as int;
        let to = interaction.to_participant as int;
        &&& interaction.index == k
        &&& from < participants.len()
        &&& to < participants.len()
        &&& interaction.interaction_type == direction(from as nat, to as nat)
        &&& participants[from].active_from <= k <= participants[from].active_to
        &&& participants[to].active_from <= k <= participants[to].active_to
    } by {
        let line = bearing(kinds)[k];
        let kind = kinds[line];
        let from = first_mention(distinct(m), kind.from_name());
        let to = first_mention(distinct(m), kind.to_name());
        lemma_first_mention(distinct(m), kind.from_name());
        lemma_first_mention(distinct(m), kind.to_name());
        assert(is_end(m, k, kind.from_name()));
        assert(is_end(m, k, kind.to_name()));
        law_span_is_first_to_last_mention(kinds, sizes, theme, from);
        law_span_is_first_to_last_mention(kinds, sizes, theme, to);
    }
}

// == The size of the canvas ==============================
/// With the same number of participants, wider labels give a wider canvas:
/// if no label gets narrower and one gets wider, the canvas gets wider.
pub proof fn law_width_grows_with_label_width(
    narrow: Seq<ParticipantView>,
    wide: Seq<ParticipantView>,
    k: int,
)
    requires
        narrow.len() == wide.len(),
        forall|i: int| 0 <= i < narrow.len() ==> narrow[i].w <= wide[i].w,
        0 <= k < narrow.len(),
        narrow[k].w < wide[k].w,
    ensures
        canvas_width(narrow) < canvas_width(wide),
{
    lemma_label_widths_compare(narrow, wide, narrow.len() as int, k);
}

/// The labels up to `n` add up to no less where none is narrower, and to
/// more where label `k` among them is wider.
proof fn lemma_label_widths_compare(
    narrow: Seq<ParticipantView>,
    wide: Seq<ParticipantView>,
    n: int,
    k: int,
)
    requires
        0 <= n <= narrow.len() == wide.len(),
        forall|i: int| 0 <= i < narrow.len() ==> narrow[i].w <= wide[i].w,
        0 <= k < narrow.len(),
        narrow[k].w < wide[k].w,
    ensures
        label_widths(narrow, n) <= label_widths(wide, n),
        k < n ==> label_widths(narrow, n) < label_widths(wide, n),
    decreases n,
{
    if n > 0 {
        lemma_label_widths_compare(narrow, wide, n - 1, k);
    }
}

/// With the same labels, more participants give a wider canvas.
pub proof fn law_width_grows_with_count(few: Seq<ParticipantView>, many: Seq<ParticipantView>)
    requires
        few.len() < many.len(),
        forall|i: int| 0 <= i < few.len() ==> few[i].w == many[i].w,
    ensures
        canvas_width(few) < canvas_width(many),
{
    lemma_label_widths_prefix(few, many, few.len() as int);
    lemma_label_widths_grow(many, few.len() as int, many.len() as int);
    assert(RenderingConstants::ParticipantPadding.spec_value() == 10);
}

/// Equal labels add up to the same.
proof fn lemma_label_widths_prefix(few: Seq<ParticipantView>, many: Seq<ParticipantView>, n: int)
    requires
        0 <= n <= few.len() <= many.len(),
        forall|i: int| 0 <= i < few.len() ==> few[i].w == many[i].w,
    ensures
        label_widths(few, n) == label_widths(many, n),
    decreases n,
{
    if n > 0 {
        lemma_label_widths_prefix(few, many, n - 1);
    }
}

/// With the same participants, more interactions give a higher canvas.
pub proof fn law_height_grows_with_interactions(
    participants: Seq<ParticipantView>,
    few: nat,
    many: nat,
)
    requires
        few < many,
    ensures
        canvas_height(participants, few) < canvas_height(participants, many),
{
}

} // verus!
