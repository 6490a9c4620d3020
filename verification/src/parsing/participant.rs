use crate::model::{
    Line, LineKind, ParseError, Participant, ParticipantSet, ParticipantView, Rect, Size,
};
use crate::theme::Theme;
use vstd::prelude::*;

verus! {

// == What the lines mention ==============================
/// What each line was classified as, in document order.
pub open spec fn kinds(lines: Seq<Line>) -> Seq<LineKind> {
    Seq::new(lines.len(), |i: int| lines[i].line_contents@)
}

/// The names that the interaction lines mention, in document order, the
/// name before the arrow ahead of the name after it. Mentions `2 * k` and
/// `2 * k + 1` are the two ends of interaction `k`.
pub open spec fn mentions(kinds: Seq<LineKind>) -> Seq<Seq<char>>
    decreases kinds.len(),
{
    if kinds.len() == 0 {
        Seq::empty()
    } else {
        let before = mentions(kinds.drop_last());
        let kind = kinds.last();
        if kind.is_interaction() {
            before.push(kind.from_name()).push(kind.to_name())
        } else {
            before
        }
    }
}

/// Where `name` is mentioned first, or -1 where it is not mentioned.
pub open spec fn first_mention(m: Seq<Seq<char>>, name: Seq<char>) -> int
    decreases m.len(),
{
    if m.len() == 0 {
        -1
    } else {
        let earlier = first_mention(m.drop_last(), name);
        if earlier >= 0 {
            earlier
        } else if m.last() == name {
            m.len() - 1
        } else {
            -1
        }
    }
}

/// Where `name` is mentioned last, or -1 where it is not mentioned.
pub open spec fn last_mention(m: Seq<Seq<char>>, name: Seq<char>) -> int
    decreases m.len(),
{
    if m.len() == 0 {
        -1
    } else if m.last() == name {
        m.len() - 1
    } else {
        last_mention(m.drop_last(), name)
    }
}

/// The names of `m`, each once, in the order of their first mention.
pub open spec fn distinct(m: Seq<Seq<char>>) -> Seq<Seq<char>>
    decreases m.len(),
{
    if m.len() == 0 {
        Seq::empty()
    } else if m.drop_last().contains(m.last()) {
        distinct(m.drop_last())
    } else {
        distinct(m.drop_last()).push(m.last())
    }
}

// == Facts about mentions ================================
/// `first_mention` is the least position that holds the name.
pub proof fn lemma_first_mention(m: Seq<Seq<char>>, name: Seq<char>)
    ensures
        -1 <= first_mention(m, name) < m.len(),
        first_mention(m, name) >= 0 <==> m.contains(name),
        first_mention(m, name) >= 0 ==> m[first_mention(m, name)] == name,
        forall|i: int| 0 <= i < first_mention(m, name) ==> m[i] != name,
    decreases m.len(),
{
    if m.len() > 0 {
        let front = m.drop_last();
        lemma_first_mention(front, name);
        if m.contains(name) && !front.contains(name) {
            let i = choose|i: int| 0 <= i < m.len() && m[i] == name;
            if i < m.len() - 1 {
                assert(front[i] == name);
            }
        }
        let p = first_mention(m, name);
        assert forall|i: int| 0 <= i < p implies m[i] != name by {
            if first_mention(front, name) >= 0 {
                assert(m[i] == front[i]);
            } else {
                assert(m[i] == front[i]);
            }
        }
    }
}

/// `last_mention` is the greatest position that holds the name.
pub proof fn lemma_last_mention(m: Seq<Seq<char>>, name: Seq<char>)
    ensures
        -1 <= last_mention(m, name) < m.len(),
        last_mention(m, name) >= 0 <==> m.contains(name),
        last_mention(m, name) >= 0 ==> m[last_mention(m, name)] == name,
        forall|i: int| last_mention(m, name) < i < m.len() ==> m[i] != name,
        first_mention(m, name) <= last_mention(m, name),
    decreases m.len(),
{
    if m.len() > 0 {
        let front = m.drop_last();
        lemma_last_mention(front, name);
        if m.last() == name {
            assert(m[m.len() - 1] == name);
        } else {
            let p = last_mention(m, name);
            assert forall|i: int| p < i < m.len() implies m[i] != name by {
                if i < m.len() - 1 {
                    assert(m[i] == front[i]);
                }
            }
        }
    }
}

/// What one more mention does to the first and last mention of every name.
pub proof fn lemma_mention_push(m: Seq<Seq<char>>, next: Seq<char>, name: Seq<char>)
    ensures
        first_mention(m.push(next), name) == if m.contains(name) {
            first_mention(m, name)
        } else if next == name {
            m.len() as int
        } else {
            -1
        },
        last_mention(m.push(next), name) == if next == name {
            m.len() as int
        } else {
            last_mention(m, name)
        },
{
    assert(m.push(next).drop_last() =~= m);
    lemma_first_mention(m, name);
}

/// `distinct` holds exactly the names mentioned, each once, ordered by first
/// mention.
pub proof fn lemma_distinct(m: Seq<Seq<char>>)
    ensures
        forall|name: Seq<char>| #[trigger] distinct(m).contains(name) <==> m.contains(name),
        forall|i: int, j: int|
            0 <= i < j < distinct(m).len() ==> #[trigger] distinct(m)[i] != #[trigger] distinct(
                m,
            )[j],
        forall|i: int, j: int|
            0 <= i < j < distinct(m).len() ==> first_mention(m, #[trigger] distinct(m)[i])
                < first_mention(m, #[trigger] distinct(m)[j]),
        distinct(m).len() <= m.len(),
    decreases m.len(),
{
    if m.len() > 0 {
        let front = m.drop_last();
        let d = distinct(m);
        let df = distinct(front);
        lemma_distinct(front);
        assert(front.push(m.last()) =~= m);
        assert forall|name: Seq<char>| #[trigger] d.contains(name) <==> m.contains(name) by {
            if d.contains(name) {
                let i = choose|i: int| 0 <= i < d.len() && d[i] == name;
                if i < df.len() {
                    assert(df.contains(name));
                }
            }
            if m.contains(name) {
                let k = choose|k: int| 0 <= k < m.len() && m[k] == name;
                if k < front.len() {
                    assert(df.contains(name));
                    let i = choose|i: int| 0 <= i < df.len() && df[i] == name;
                    assert(d[i] == name);
                } else if front.contains(name) {
                    let i = choose|i: int| 0 <= i < df.len() && df[i] == name;
                } else {
                    assert(d[d.len() - 1] == name);
                }
            }
        }
        assert forall|i: int, j: int| 0 <= i < j < d.len() implies #[trigger] d[i]
            != #[trigger] d[j] && first_mention(m, d[i]) < first_mention(m, d[j]) by {
            lemma_mention_push(front, m.last(), d[j]);
            lemma_first_mention(front, d[i]);
            assert(df.contains(d[i]));
        }
    }
}

// == Discovery ==========================================
/// The participants, in order of first mention, before they are placed: each
/// with its position in that order and the first and last interaction that
/// mentions it.
pub open spec fn discovered(m: Seq<Seq<char>>) -> Seq<ParticipantView> {
    Seq::new(
        distinct(m).len(),
        |i: int|
            ParticipantView {
                name: distinct(m)[i],
                index: i as nat,
                active_from: (first_mention(m, distinct(m)[i]) / 2) as nat,
                active_to: (last_mention(m, distinct(m)[i]) / 2) as nat,
                x: 0,
                y: 0,
                w: 0,
                h: 0,
            },
    )
}

/// The mathematical values of a list of participants.
pub open spec fn views(participants: Seq<Participant>) -> Seq<ParticipantView> {
    Seq::new(participants.len(), |i: int| participants[i]@)
}

/// The position of the participant called `name`, where there is one.
pub fn find_participant(participants: &Vec<Participant>, name: &String) -> (found: Option<usize>)
    ensures
        match found {
            Some(k) => k < participants.len() && participants[k as int].name@ == name@
                && forall|j: int| 0 <= j < k ==> participants[j].name@ != name@,
            None => forall|j: int| 0 <= j < participants.len() ==> participants[j].name@ != name@,
        },
{
    let mut k: usize = 0;
    while k < participants.len()
        invariant
            k <= participants.len(),
            forall|j: int| 0 <= j < k ==> participants[j].name@ != name@,
        decreases participants.len() - k,
    {
        if participants[k].name == *name {
            return Some(k);
        }
        k += 1;
    }
    None
}

/// Takes note that interaction `at` mentions `name`.
fn note_mention(
    participants: &mut Vec<Participant>,
    name: &String,
    at: usize,
    Ghost(m): Ghost<Seq<Seq<char>>>,
)
    requires
        views(old(participants)@) == discovered(m),
        at == m.len() / 2,
    ensures
        views(final(participants)@) == discovered(m.push(name@)),
{
    let found = find_participant(participants, name);
    proof {
        lemma_distinct(m);
        assert(m.push(name@).drop_last() =~= m);
        assert forall|other: Seq<char>| true implies {
            &&& first_mention(m.push(name@), other) == if m.contains(other) {
                first_mention(m, other)
            } else if name@ == other {
                m.len() as int
            } else {
                -1
            }
            &&& last_mention(m.push(name@), other) == if name@ == other {
                m.len() as int
            } else {
                last_mention(m, other)
            }
        } by {
            lemma_mention_push(m, name@, other);
        }
        assert(views(participants@).len() == participants.len());
        assert forall|j: int| 0 <= j < distinct(m).len() implies participants@[j].name@
            == distinct(m)[j] by {
            assert(views(participants@)[j] == participants@[j]@);
        }
    }
    match found {
        Some(k) => {
            proof {
                assert(distinct(m)[k as int] == name@);
                assert(distinct(m).contains(name@));
            }
            let ghost before = participants@;
            let seen = Participant {
                name: participants[k].name.clone(),
                index: participants[k].index,
                active_from: participants[k].active_from,
                active_to: at,
                rect: participants[k].rect,
            };
            participants.set(k, seen);
            proof {
                assert forall|j: int| 0 <= j < participants.len() implies views(participants@)[j]
                    == discovered(m.push(name@))[j] by {
                    assert(views(before)[j] == discovered(m)[j]);
                }
            }
        },
        None => {
            proof {
                if m.contains(name@) {
                    assert(distinct(m).contains(name@));
                }
            }
            let ghost before = participants@;
            let index = participants.len();
            participants.push(
                Participant {
                    name: name.clone(),
                    index,
                    active_from: at,
                    active_to: at,
                    rect: Rect { x: 0, y: 0, w: 0, h: 0 },
                },
            );
            proof {
                assert forall|j: int| 0 <= j < participants.len() implies views(participants@)[j]
                    == discovered(m.push(name@))[j] by {
                    if j < before.len() {
                        assert(views(before)[j] == discovered(m)[j]);
                    }
                }
            }
        },
    }
}

/// One more line adds its two names to the mentions, or nothing.
pub proof fn lemma_mentions_step(kinds: Seq<LineKind>, i: int)
    requires
        0 <= i < kinds.len(),
    ensures
        mentions(kinds.take(i + 1)) == if kinds[i].is_interaction() {
            mentions(kinds.take(i)).push(kinds[i].from_name()).push(kinds[i].to_name())
        } else {
            mentions(kinds.take(i))
        },
{
    assert(kinds.take(i + 1).drop_last() =~= kinds.take(i));
}

/// The participants of a document in order of first mention, not yet
/// placed: all four sides of `rect` are 0.
pub fn discover(document: &[Line]) -> (participants: Vec<Participant>)
    ensures
        views(participants@) == discovered(mentions(kinds(document@))),
{
    let mut participants: Vec<Participant> = Vec::new();
    let mut at: usize = 0;
    let mut i: usize = 0;
    let ghost all = kinds(document@);
    while i < document.len()
        invariant
            i <= document.len(),
            at <= i,
            all == kinds(document@),
            mentions(all.take(i as int)).len() == 2 * at,
            views(participants@) == discovered(mentions(all.take(i as int))),
        decreases document.len() - i,
    {
        proof {
            lemma_mentions_step(all, i as int);
        }
        let ghost before = mentions(all.take(i as int));
        match document[i].line_contents.endpoints() {
            Some((from, to)) => {
                note_mention(&mut participants, from, at, Ghost(before));
                note_mention(&mut participants, to, at, Ghost(before.push(from@)));
                at += 1;
            },
            None => {},
        }
        i += 1;
    }
    proof {
        assert(all.take(i as int) =~= all);
    }
    participants
}

// == Placement ===========================================
/// Whether label `k` has been measured.
pub open spec fn measured(sizes: Seq<Option<Size>>, k: int) -> bool {
    0 <= k < sizes.len() && sizes[k] is Some
}

/// Whether each of the first `n` labels has been measured.
pub open spec fn all_measured(sizes: Seq<Option<Size>>, n: int) -> bool {
    forall|k: int| 0 <= k < n ==> measured(sizes, k)
}

/// Where participant `k` starts: at the border, behind the labels of those
/// before it and a gap after each.
pub open spec fn cursor(sizes: Seq<Option<Size>>, k: int, theme: Theme) -> int
    decreases k,
{
    if k <= 0 {
        theme.document_border_width as int
    } else {
        cursor(sizes, k - 1, theme) + sizes[k - 1]->0.width + theme.partic_h_gap
    }
}

/// The height of the tallest of the first `n` labels.
pub open spec fn max_height(sizes: Seq<Option<Size>>, n: int) -> int
    decreases n,
{
    if n <= 0 {
        0
    } else if max_height(sizes, n - 1) >= sizes[n - 1]->0.height {
        max_height(sizes, n - 1)
    } else {
        sizes[n - 1]->0.height as int
    }
}

/// The participants `found`, placed: side by side from the border on, each
/// as wide as its label and all as high as the tallest label.
pub open spec fn placed(found: Seq<ParticipantView>, sizes: Seq<Option<Size>>, theme: Theme) -> Seq<
    ParticipantView,
> {
    Seq::new(
        found.len(),
        |i: int|
            ParticipantView {
                name: found[i].name,
                index: found[i].index,
                active_from: found[i].active_from,
                active_to: found[i].active_to,
                x: cursor(sizes, i, theme) as nat,
                y: theme.document_border_width as nat,
                w: sizes[i]->0.width as nat,
                h: max_height(sizes, found.len() as int) as nat,
            },
    )
}

/// The cursor only moves right.
pub proof fn lemma_cursor_grows(sizes: Seq<Option<Size>>, i: int, j: int, theme: Theme)
    requires
        0 <= i <= j,
    ensures
        theme.document_border_width <= cursor(sizes, i, theme) <= cursor(sizes, j, theme),
    decreases j,
{
    if i < j {
        lemma_cursor_grows(sizes, i, j - 1, theme);
    } else if i > 0 {
        lemma_cursor_grows(sizes, i - 1, i - 1, theme);
    }
}

/// No label is taller than the tallest.
pub proof fn lemma_max_height(sizes: Seq<Option<Size>>, n: int, k: int)
    requires
        0 <= k < n,
        all_measured(sizes, n),
    ensures
        sizes[k]->0.height <= max_height(sizes, n) <= usize::MAX,
        0 <= max_height(sizes, n),
    decreases n,
{
    if k < n - 1 {
        lemma_max_height(sizes, n - 1, k);
    } else if n > 1 {
        lemma_max_height(sizes, n - 1, 0);
    } else {
        assert(max_height(sizes, 0) == 0);
    }
}

/// Places participants that `discover` found. `sizes[k]` is what the label
/// of participant `k` measures, `None` where measuring it failed.
pub fn place(found: Vec<Participant>, theme: &Theme, sizes: &[Option<Size>]) -> (result: Result<
    Vec<Participant>,
    ParseError,
>)
    ensures
        match result {
            Ok(participants) => {
                &&& all_measured(sizes@, found.len() as int)
                &&& cursor(sizes@, found.len() as int, *theme) <= usize::MAX
                &&& views(participants@) == placed(views(found@), sizes@, *theme)
            },
            Err(ParseError::MeasureFail { name }) => exists|k: int|
                0 <= k < found.len() && all_measured(sizes@, k) && !measured(sizes@, k) && name@
                    == #[trigger] found[k].name@,
            Err(ParseError::LayoutOverflow) => {
                &&& all_measured(sizes@, found.len() as int)
                &&& cursor(sizes@, found.len() as int, *theme) > usize::MAX
            },
            Err(ParseError::InteractionParseFail { .. }) => false,
        },
{
    let n = found.len();
    let mut k: usize = 0;
    let mut tallest: usize = 0;
    while k < n
        invariant
            n == found.len(),
            k <= n,
            all_measured(sizes@, k as int),
            tallest == max_height(sizes@, k as int),
        decreases n - k,
    {
        if k >= sizes.len() {
            let name = found[k].name.clone();
            assert(!measured(sizes@, k as int) && name@ == found[k as int].name@);
            return Err(ParseError::MeasureFail { name });
        }
        match sizes[k] {
            None => {
                let name = found[k].name.clone();
                assert(!measured(sizes@, k as int) && name@ == found[k as int].name@);
                return Err(ParseError::MeasureFail { name });
            },
            Some(size) => {
                if size.height > tallest {
                    tallest = size.height;
                }
            },
        }
        k += 1;
    }
    proof {
        if n > 0 {
            assert(measured(sizes@, n - 1));
        }
    }
    let mut participants: Vec<Participant> = Vec::new();
    let mut x: usize = theme.document_border_width;
    let mut i: usize = 0;
    while i < n
        invariant
            n == found.len(),
            i <= n,
            n <= sizes.len(),
            all_measured(sizes@, n as int),
            tallest == max_height(sizes@, n as int),
            x == cursor(sizes@, i as int, *theme),
            participants.len() == i,
            forall|j: int|
                0 <= j < i ==> (#[trigger] participants[j])@ == placed(
                    views(found@),
                    sizes@,
                    *theme,
                )[j],
        decreases n - i,
    {
        assert(measured(sizes@, i as int));
        let size = match sizes[i] {
            Some(size) => size,
            None => Size { height: 0, width: 0 },
        };
        proof {
            lemma_cursor_grows(sizes@, i as int + 1, n as int, *theme);
        }
        let wide = match x.checked_add(size.width) {
            Some(wide) => wide,
            None => {
                return Err(ParseError::LayoutOverflow);
            },
        };
        let next = match wide.checked_add(theme.partic_h_gap) {
            Some(next) => next,
            None => {
                return Err(ParseError::LayoutOverflow);
            },
        };
        participants.push(
            Participant {
                name: found[i].name.clone(),
                index: found[i].index,
                active_from: found[i].active_from,
                active_to: found[i].active_to,
                rect: Rect { x, y: theme.document_border_width, w: size.width, h: tallest },
            },
        );
        x = next;
        i += 1;
    }
    Ok(participants)
}

// == Participant Parser ==================================
/// The participants of a document: those that `discovered` finds among the
/// mentions of its interaction lines, placed by `placed`.
pub open spec fn resolved(kinds: Seq<LineKind>, sizes: Seq<Option<Size>>, theme: Theme) -> Seq<
    ParticipantView,
> {
    placed(discovered(mentions(kinds)), sizes, theme)
}

/// The names of the participants of a document, in order of first mention.
pub open spec fn participant_names(kinds: Seq<LineKind>) -> Seq<Seq<char>> {
    distinct(mentions(kinds))
}

/// Finds the participants of a document and places them.
#[derive(Debug)]
pub struct ParticipantParser;

impl Default for ParticipantParser {
    fn default() -> Self {
        ParticipantParser {  }
    }
}

impl ParticipantParser {
    /// The names of the participants in order of first mention: the labels
    /// to measure, in the order in which `parse` wants their sizes.
    pub fn names(document: &[Line]) -> (names: Vec<String>)
        ensures
            names.len() == participant_names(kinds(document@)).len(),
            forall|k: int|
                0 <= k < names.len() ==> (#[trigger] names[k])@ == participant_names(
                    kinds(document@),
                )[k],
    {
        let found = discover(document);
        let mut names: Vec<String> = Vec::new();
        let mut k: usize = 0;
        assert(discovered(mentions(kinds(document@))).len() == participant_names(
            kinds(document@),
        ).len());
        while k < found.len()
            invariant
                k <= found.len(),
                names.len() == k,
                views(found@) == discovered(mentions(kinds(document@))),
                forall|j: int|
                    0 <= j < k ==> (#[trigger] names[j])@ == participant_names(
                        kinds(document@),
                    )[j],
            decreases found.len() - k,
        {
            proof {
                let m = mentions(kinds(document@));
                assert(discovered(m).len() == distinct(m).len());
                assert(views(found@)[k as int] == found[k as int]@);
            }
            names.push(found[k].name.clone());
            k += 1;
        }
        names
    }

    /// Resolves the participants of a document. Only its interaction lines
    /// count. A participant gets its index and the start of its span where
    /// it is mentioned first and the end of its span where it is mentioned
    /// last; `sizes[k]` is what the label of participant `k` measures, or
    /// `None` where measuring it failed.
    ///
    /// Fails with `MeasureFail` on the first participant without a size,
    /// else with `LayoutOverflow` where the row of participants ends beyond
    /// `usize::MAX`.
    pub fn parse(document: &[Line], theme: &Theme, sizes: &[Option<Size>]) -> (result: Result<
        ParticipantSet,
        ParseError,
    >)
        ensures
            match result {
                Ok(participants) => {
                    &&& all_measured(
                        sizes@,
                        participant_names(kinds(document@)).len() as int,
                    )
                    &&& cursor(sizes@, participant_names(kinds(document@)).len() as int, *theme)
                        <= usize::MAX
                    &&& views(participants@) == resolved(kinds(document@), sizes@, *theme)
                },
                Err(ParseError::MeasureFail { name }) => exists|k: int|
                    0 <= k < participant_names(kinds(document@)).len() && all_measured(sizes@, k)
                        && !measured(sizes@, k) && name@ == #[trigger] participant_names(
                        kinds(document@),
                    )[k],
                Err(ParseError::LayoutOverflow) => {
                    &&& all_measured(
                        sizes@,
                        participant_names(kinds(document@)).len() as int,
                    )
                    &&& cursor(sizes@, participant_names(kinds(document@)).len() as int, *theme)
                        > usize::MAX
                },
                Err(ParseError::InteractionParseFail { .. }) => false,
            },
    {
        let found = discover(document);
        let ghost names = participant_names(kinds(document@));
        proof {
            assert(discovered(mentions(kinds(document@))).len() == names.len());
            assert(views(found@).len() == found.len());
            assert forall|k: int| 0 <= k < found.len() implies found[k].name@ == names[k] by {
                assert(views(found@)[k] == found[k]@);
            }
        }
        let ghost count = found.len() as int;
        let ghost those = found@;
        let result = place(found, theme, sizes);
        proof {
            match &result {
                Err(ParseError::MeasureFail { name }) => {
                    let k = choose|k: int|
                        0 <= k < count && all_measured(sizes@, k) && !measured(sizes@, k) && name@
                            == #[trigger] those[k].name@;
                    assert(name@ == names[k]);
                },
                _ => {},
            }
        }
        result
    }
}

} // verus!
