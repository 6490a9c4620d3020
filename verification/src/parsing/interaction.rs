use crate::model::{
    Interaction, InteractionSet, InteractionType, InteractionView, Line, LineContents, LineKind,
    Message, ParseError, Participant, ParticipantSet, ParticipantView,
};
use crate::parsing::participant::{
    find_participant, first_mention, kinds, lemma_first_mention, mentions, views,
};
use vstd::prelude::*;

verus! {

// == Which lines count ===================================
/// The positions of the lines that bear an interaction, in document order.
/// Interaction `k` of a document is the line at `bearing(kinds)[k]`.
pub open spec fn bearing(kinds: Seq<LineKind>) -> Seq<int>
    decreases kinds.len(),
{
    if kinds.len() == 0 {
        Seq::empty()
    } else if kinds.last().is_interaction() {
        bearing(kinds.drop_last()).push(kinds.len() - 1)
    } else {
        bearing(kinds.drop_last())
    }
}

/// `bearing` holds the positions of the interaction lines, and of no other
/// line, in rising order.
pub proof fn lemma_bearing(kinds: Seq<LineKind>)
    ensures
        bearing(kinds).len() <= kinds.len(),
        forall|k: int|
            0 <= k < bearing(kinds).len() ==> 0 <= #[trigger] bearing(kinds)[k] < kinds.len()
                && kinds[bearing(kinds)[k]].is_interaction(),
        forall|j: int, k: int|
            0 <= j < k < bearing(kinds).len() ==> #[trigger] bearing(kinds)[j] < #[trigger] bearing(
                kinds,
            )[k],
        forall|i: int|
            0 <= i < kinds.len() && kinds[i].is_interaction() ==> bearing(kinds).contains(i),
    decreases kinds.len(),
{
    if kinds.len() > 0 {
        let front = kinds.drop_last();
        lemma_bearing(front);
        let b = bearing(kinds);
        let bf = bearing(front);
        assert forall|i: int| 0 <= i < kinds.len() && kinds[i].is_interaction() implies b.contains(
            i,
        ) by {
            if i < front.len() {
                assert(bf.contains(i));
                let k = choose|k: int| 0 <= k < bf.len() && bf[k] == i;
                assert(b[k] == i);
            } else {
                assert(b[b.len() - 1] == i);
            }
        }
    }
}

/// Both resolvers count the same lines: the two names of interaction `k`
/// are mentions `2 * k` and `2 * k + 1`.
pub proof fn lemma_mentions_of_interactions(kinds: Seq<LineKind>)
    ensures
        mentions(kinds).len() == 2 * bearing(kinds).len(),
        forall|k: int|
            0 <= k < bearing(kinds).len() ==> mentions(kinds)[2 * k] == kinds[#[trigger] bearing(
                kinds,
            )[k]].from_name() && mentions(kinds)[2 * k + 1] == kinds[bearing(kinds)[k]].to_name(),
    decreases kinds.len(),
{
    if kinds.len() > 0 {
        let front = kinds.drop_last();
        lemma_mentions_of_interactions(front);
        lemma_bearing(front);
    }
}

// == What an interaction line resolves to ================
/// The names of a list of participants.
pub open spec fn names_of(participants: Seq<ParticipantView>) -> Seq<Seq<char>> {
    Seq::new(participants.len(), |j: int| participants[j].name)
}

/// Whether both names of an interaction line are names of participants.
pub open spec fn knows(participants: Seq<ParticipantView>, kind: LineKind) -> bool {
    names_of(participants).contains(kind.from_name()) && names_of(participants).contains(
        kind.to_name(),
    )
}

/// The name of `kind` that no participant has: the one before the arrow, if
/// that is missing.
pub open spec fn unknown_name(participants: Seq<ParticipantView>, kind: LineKind) -> Seq<char> {
    if !names_of(participants).contains(kind.from_name()) {
        kind.from_name()
    } else {
        kind.to_name()
    }
}

/// Which way an interaction points, by the indices of its two ends.
pub open spec fn direction(from_index: nat, to_index: nat) -> InteractionType {
    if from_index < to_index {
        InteractionType::L2R
    } else if from_index == to_index {
        InteractionType::SelfRef
    } else {
        InteractionType::R2L
    }
}

/// Interaction `k`, read off the line `kind`: its two ends are the first
/// participants of those names.
pub open spec fn interaction_of(kind: LineKind, k: int, participants: Seq<ParticipantView>)
    -> InteractionView {
    let from = first_mention(names_of(participants), kind.from_name());
    let to = first_mention(names_of(participants), kind.to_name());
    InteractionView {
        index: k as nat,
        from_participant: from as nat,
        to_participant: to as nat,
        interaction_type: direction(participants[from].index, participants[to].index),
        message: kind.message(),
    }
}

/// The interactions of a document, given its participants: one for each
/// interaction line, in document order, numbered from 0.
pub open spec fn resolved_interactions(kinds: Seq<LineKind>, participants: Seq<ParticipantView>)
    -> Seq<InteractionView> {
    Seq::new(
        bearing(kinds).len(),
        |k: int| interaction_of(kinds[bearing(kinds)[k]], k, participants),
    )
}

/// The mathematical values of a list of interactions.
pub open spec fn interaction_views(interactions: Seq<Interaction>) -> Seq<InteractionView> {
    Seq::new(interactions.len(), |k: int| interactions[k]@)
}

/// One more line adds its position to those that bear an interaction, or
/// nothing.
pub proof fn lemma_bearing_step(kinds: Seq<LineKind>, i: int)
    requires
        0 <= i < kinds.len(),
    ensures
        bearing(kinds.take(i + 1)) == if kinds[i].is_interaction() {
            bearing(kinds.take(i)).push(i)
        } else {
            bearing(kinds.take(i))
        },
{
    assert(kinds.take(i + 1).drop_last() =~= kinds.take(i));
}

// == Interaction Parser ==================================
/// Binds the interaction lines of a document to its participants.
#[derive(Debug)]
pub struct InteractionParser;

impl InteractionParser {
    /// Which way an interaction from `f` to `t` points.
    pub fn interaction_type(f: &Participant, t: &Participant) -> (kind: InteractionType)
        ensures
            kind == direction(f@.index, t@.index),
    {
        if f.index < t.index {
            InteractionType::L2R
        } else if f.index == t.index {
            InteractionType::SelfRef
        } else {
            InteractionType::R2L
        }
    }

    /// Resolves the interactions of a document against its participants:
    /// one for each interaction line, in document order, numbered from 0.
    ///
    /// Fails on the first interaction line with a name that no participant
    /// has, and says which line and which name.
    pub fn parse(document: &[Line], participants: &ParticipantSet) -> (result: Result<
        InteractionSet,
        ParseError,
    >)
        ensures
            match result {
                Ok(interactions) => {
                    &&& forall|i: int|
                        0 <= i < document.len() && (#[trigger] kinds(document@)[i]).is_interaction()
                            ==> knows(views(participants@), kinds(document@)[i])
                    &&& interaction_views(interactions@) == resolved_interactions(
                        kinds(document@),
                        views(participants@),
                    )
                },
                Err(ParseError::InteractionParseFail { line_number, name }) => exists|i: int|
                    {
                        &&& 0 <= i < document.len()
                        &&& (#[trigger] kinds(document@)[i]).is_interaction()
                        &&& !knows(views(participants@), kinds(document@)[i])
                        &&& forall|j: int|
                            0 <= j < i && (#[trigger] kinds(document@)[j]).is_interaction()
                                ==> knows(views(participants@), kinds(document@)[j])
                        &&& line_number == document[i].line_number
                        &&& name@ == unknown_name(views(participants@), kinds(document@)[i])
                    },
                Err(_) => false,
            },
    {
        let mut interactions: Vec<Interaction> = Vec::new();
        let mut i: usize = 0;
        let ghost all = kinds(document@);
        let ghost those = views(participants@);
        while i < document.len()
            invariant
                i <= document.len(),
                all == kinds(document@),
                those == views(participants@),
                names_of(those).len() == participants.len(),
                forall|j: int|
                    0 <= j < participants.len() ==> #[trigger] names_of(those)[j]
                        == participants[j].name@,
                forall|j: int|
                    0 <= j < i && (#[trigger] all[j]).is_interaction() ==> knows(those, all[j]),
                interaction_views(interactions@) == resolved_interactions(
                    all.take(i as int),
                    those,
                ),
            decreases document.len() - i,
        {
            proof {
                lemma_bearing_step(all, i as int);
                lemma_bearing(all.take(i as int));
                assert(interaction_views(interactions@).len() == interactions.len());
            }
            match document[i].line_contents.endpoints() {
                Some((from_name, to_name)) => {
                    proof {
                        lemma_first_mention(names_of(those), from_name@);
                        lemma_first_mention(names_of(those), to_name@);
                    }
                    let from = match find_participant(participants, from_name) {
                        Some(from) => from,
                        None => {
                            let name = from_name.clone();
                            return Err(
                                ParseError::InteractionParseFail {
                                    line_number: document[i].line_number,
                                    name,
                                },
                            );
                        },
                    };
                    let to = match find_participant(participants, to_name) {
                        Some(to) => to,
                        None => {
                            let name = to_name.clone();
                            proof {
                                assert(names_of(those)[from as int] == from_name@);
                            }
                            return Err(
                                ParseError::InteractionParseFail {
                                    line_number: document[i].line_number,
                                    name,
                                },
                            );
                        },
                    };
                    let message = match &document[i].line_contents {
                        LineContents::InteractionWithMessage(_, _, m) => Some(Message(m.0.clone())),
                        _ => None,
                    };
                    let ghost before = interactions@;
                    let interaction = Interaction {
                        index: interactions.len(),
                        from_participant: from,
                        to_participant: to,
                        interaction_type: InteractionParser::interaction_type(
                            &participants[from],
                            &participants[to],
                        ),
                        message,
                    };
                    proof {
                        assert(names_of(those)[from as int] == from_name@);
                        assert(names_of(those)[to as int] == to_name@);
                    }
                    interactions.push(interaction);
                    proof {
                        let next = resolved_interactions(all.take(i as int + 1), those);
                        let prev = resolved_interactions(all.take(i as int), those);
                        assert forall|k: int| 0 <= k < interactions.len() implies interaction_views(
                            interactions@,
                        )[k] == next[k] by {
                            if k < before.len() {
                                assert(interaction_views(before)[k] == prev[k]);
                            }
                        }
                    }
                },
                None => {},
            }
            i += 1;
        }
        proof {
            assert(all.take(i as int) =~= all);
        }
        Ok(interactions)
    }
}

} // verus!
