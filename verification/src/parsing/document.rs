use crate::chars::{
    contains_arrow, find_space, has_arrow, is_whitespace, lemma_trimmed, same_text, to_chars, trim,
    trimmed,
};
use crate::model::{
    Config, FromParticipant, InteractionMessage, Line, LineContents, LineKind, LineView,
    MetaDataKind, MetaDataType, ToParticipant,
};
use crate::parsing::participant::kinds;
use crate::pattern::{captures, groups_view, pattern_captures, pattern_is_valid};
use vstd::prelude::*;
use vstd::string::StrSliceExecFns;

verus! {

/// What an interaction line looks like: a name, an arrow of dashes and
/// heads with white space on both sides, a name without a colon and, after
/// an optional colon, the rest.
pub const INTERACTION_PATTERN: &'static str = "^(.+)(\\s+-+>+\\s+)([^:]+):?(.*)$";

// == What a line is ======================================
/// The directive of the metadata line `text`, which has been trimmed: the
/// word up to the first white space chooses it, and what follows that word,
/// trimmed, is its value.
pub open spec fn metadata_kind(text: Seq<char>) -> MetaDataKind {
    let end = find_space(text, 0);
    let word = text.subrange(0, end);
    let value = trimmed(text.subrange(end, text.len() as int));
    if word == ":theme"@ {
        MetaDataKind::Style(value)
    } else if word == ":title"@ {
        MetaDataKind::Title(value)
    } else if word == ":author"@ {
        MetaDataKind::Author(value)
    } else if word == ":date"@ {
        MetaDataKind::Date
    } else {
        MetaDataKind::Invalid
    }
}

/// What the pattern engine finds of `pattern` in `text`; nothing, where it
/// refuses the pattern.
pub open spec fn captured(pattern: Seq<char>, text: Seq<char>) -> Option<Seq<Option<Seq<char>>>> {
    if pattern_is_valid(pattern) {
        pattern_captures(pattern, text)
    } else {
        None
    }
}

/// Whether `groups` are the groups of a match of the interaction pattern:
/// the whole match and four groups, of which the two names and the rest
/// took part.
pub open spec fn is_interaction_match(groups: Seq<Option<Seq<char>>>) -> bool {
    groups.len() == 5 && groups[1] is Some && groups[3] is Some && groups[4] is Some
}

/// What a line with an arrow is, given what the interaction pattern
/// captured of it: the names are groups 1 and 3, trimmed; the message is
/// group 4, trimmed, where that is not empty.
pub open spec fn interaction_kind(found: Option<Seq<Option<Seq<char>>>>) -> LineKind {
    match found {
        Some(groups) => if is_interaction_match(groups) {
            let from = trimmed(groups[1]->0);
            let to = trimmed(groups[3]->0);
            if groups[4]->0.len() > 0 {
                LineKind::InteractionWithMessage(from, to, trimmed(groups[4]->0))
            } else {
                LineKind::Interaction(from, to)
            }
        } else {
            LineKind::Invalid
        },
        None => LineKind::Invalid,
    }
}

/// What the line `raw` is. The first of these that applies decides: an
/// empty line, a comment, a metadata line, a line with an arrow, which is
/// an interaction if the interaction pattern matches it.
pub open spec fn classify(raw: Seq<char>) -> LineKind {
    let text = trimmed(raw);
    if text.len() == 0 {
        LineKind::Empty
    } else if text[0] == '#' {
        LineKind::Comment
    } else if text[0] == ':' {
        LineKind::MetaData(metadata_kind(text))
    } else if has_arrow(text) {
        interaction_kind(captured(INTERACTION_PATTERN@, text))
    } else {
        LineKind::Invalid
    }
}

/// What each line of a document is, the texts of its lines being `raw`.
pub open spec fn document_kinds(raw: Seq<Seq<char>>) -> Seq<LineKind> {
    Seq::new(raw.len(), |i: int| classify(raw[i]))
}

/// The record of line `line_number`, whose text is `raw`.
pub open spec fn line_of(line_number: nat, raw: Seq<char>) -> LineView {
    LineView { line_number, line_contents: classify(raw), line_data: trimmed(raw) }
}

// == Document ============================================
/// A document: its lines, each classified, and the configuration it was
/// read with.
#[derive(Debug)]
pub struct Document {
    pub config: Config,
    pub lines: Vec<Line>,
    pub is_valid: bool,
}

/// Whether a line was refused: it is `Invalid`, or a metadata line whose
/// directive is.
pub open spec fn is_refused(kind: LineKind) -> bool {
    kind == LineKind::Invalid || kind == LineKind::MetaData(MetaDataKind::Invalid)
}

impl Document {
    /// The positions of the lines that were refused, in rising order. Such
    /// lines do not stop a parse; they are there to be reported.
    pub fn refused_lines(&self) -> (refused: Vec<usize>)
        ensures
            forall|k: int| 0 <= k < refused.len() ==> (#[trigger] refused[k]) < self.lines.len(),
            forall|j: int, k: int| 0 <= j < k < refused.len() ==> refused[j] < refused[k],
            forall|p: usize|
                p < self.lines.len() ==> (#[trigger] refused@.contains(p) <==> is_refused(
                    kinds(self.lines@)[p as int],
                )),
    {
        let mut refused: Vec<usize> = Vec::new();
        let mut i: usize = 0;
        while i < self.lines.len()
            invariant
                i <= self.lines.len(),
                forall|k: int| 0 <= k < refused.len() ==> (#[trigger] refused[k]) < i,
                forall|j: int, k: int| 0 <= j < k < refused.len() ==> refused[j] < refused[k],
                forall|p: usize|
                    p < i ==> (#[trigger] refused@.contains(p) <==> is_refused(
                        kinds(self.lines@)[p as int],
                    )),
            decreases self.lines.len() - i,
        {
            let bad = match &self.lines[i].line_contents {
                LineContents::Invalid => true,
                LineContents::MetaData(MetaDataType::Invalid) => true,
                _ => false,
            };
            let ghost before = refused@;
            if bad {
                refused.push(i);
            }
            proof {
                assert forall|p: usize| p < i + 1 implies (#[trigger] refused@.contains(p)
                    <==> is_refused(kinds(self.lines@)[p as int])) by {
                    if before.contains(p) {
                        let k = choose|k: int| 0 <= k < before.len() && before[k] == p;
                        assert(refused@[k] == p);
                    }
                    if bad {
                        assert(refused@[refused.len() - 1] == i);
                    }
                }
            }
            i += 1;
        }
        refused
    }
}

// == Document Parser =====================================
/// Turns lines of text into classified lines, each by itself.
pub struct DocumentParser;

impl DocumentParser {
    /// Classifies each line by itself: line `i` of the document is
    /// `line_of(i, line[i])`.
    pub fn parse(line: &[String], config: Config) -> (document: Document)
        ensures
            document.config == config,
            document.is_valid,
            document.lines.len() == line.len(),
            forall|i: int|
                0 <= i < line.len() ==> (#[trigger] document.lines[i])@ == line_of(
                    i as nat,
                    line[i]@,
                ),
            kinds(document.lines@) == document_kinds(texts(line@)),
    {
        let mut lines: Vec<Line> = Vec::new();
        let mut i: usize = 0;
        while i < line.len()
            invariant
                i <= line.len(),
                lines.len() == i,
                forall|k: int| 0 <= k < i ==> (#[trigger] lines[k])@ == line_of(k as nat, line[k]@),
            decreases line.len() - i,
        {
            lines.push(DocumentParser::parse_line(i, line[i].as_str()));
            i += 1;
        }
        Document { lines, config, is_valid: true }
    }

    /// The record of one line: its number, its text without the white space
    /// at its ends, and what it is.
    pub fn parse_line(line_number: usize, line: &str) -> (record: Line)
        ensures
            record@ == line_of(line_number as nat, line@),
    {
        let line_data = trim(line);
        let cs = to_chars(line_data.as_str());
        proof {
            lemma_trimmed(line@);
        }
        let line_contents = if cs.len() == 0 {
            LineContents::Empty
        } else if cs[0] == '#' {
            LineContents::Comment
        } else if cs[0] == ':' {
            DocumentParser::parse_metadata(line_data.as_str())
        } else if contains_arrow(&cs) {
            DocumentParser::parse_interaction(line_data.as_str())
        } else {
            LineContents::Invalid
        };
        Line { line_number, line_data, line_contents }
    }

    /// What a line with an arrow is: an interaction, if the interaction
    /// pattern matches the trimmed line, with what `interaction_kind` reads
    /// off the match.
    pub fn parse_interaction(line: &str) -> (contents: LineContents)
        ensures
            contents@ == interaction_kind(captured(INTERACTION_PATTERN@, trimmed(line@))),
    {
        let text = trim(line);
        match captures(INTERACTION_PATTERN, text.as_str()) {
            Ok(found) => DocumentParser::interaction_from(found),
            Err(_) => LineContents::Invalid,
        }
    }

    /// What a line with an arrow is, given what the interaction pattern
    /// captured of it.
    pub fn interaction_from(found: Option<Vec<Option<String>>>) -> (contents: LineContents)
        ensures
            contents@ == interaction_kind(groups_view(found)),
    {
        match found {
            Some(groups) => {
                if groups.len() != 5 {
                    return LineContents::Invalid;
                }
                match (&groups[1], &groups[3], &groups[4]) {
                    (Some(from), Some(to), Some(rest)) => {
                        let from_name = FromParticipant(trim(from.as_str()));
                        let to_name = ToParticipant(trim(to.as_str()));
                        if rest.as_str().unicode_len() > 0 {
                            let msg = InteractionMessage(trim(rest.as_str()));
                            LineContents::InteractionWithMessage(from_name, to_name, msg)
                        } else {
                            LineContents::Interaction(from_name, to_name)
                        }
                    },
                    _ => LineContents::Invalid,
                }
            },
            None => LineContents::Invalid,
        }
    }

    /// The directive of a metadata line: `MetaData` for every line, with
    /// `Invalid` inside for a word that is none of the four directives.
    pub fn parse_metadata(line: &str) -> (contents: LineContents)
        ensures
            contents@ == LineKind::MetaData(metadata_kind(trimmed(line@))),
    {
        let text = trim(line);
        let cs = to_chars(text.as_str());
        let mut end: usize = 0;
        while end < cs.len() && !is_whitespace(cs[end])
            invariant
                end <= cs.len(),
                find_space(cs@, 0) == find_space(cs@, end as int),
            decreases cs.len() - end,
        {
            end += 1;
        }
        let word = text.as_str().substring_char(0, end);
        let rest = text.as_str().substring_char(end, cs.len());
        let kind = if same_text(word, ":theme") {
            MetaDataType::Style(trim(rest))
        } else if same_text(word, ":title") {
            MetaDataType::Title(trim(rest))
        } else if same_text(word, ":author") {
            MetaDataType::Author(trim(rest))
        } else if same_text(word, ":date") {
            MetaDataType::Date
        } else {
            MetaDataType::Invalid
        };
        LineContents::MetaData(kind)
    }
}

// == Lines ===============================================
/// The first position from `i` on that holds a line feed, or the length of
/// `s` where none follows.
pub open spec fn find_newline(s: Seq<char>, i: int) -> int
    decreases s.len() - i,
{
    if 0 <= i < s.len() && s[i] != '\n' {
        find_newline(s, i + 1)
    } else {
        i
    }
}

/// `s` without the carriage return at its end, if it has one.
pub open spec fn without_return(s: Seq<char>) -> Seq<char> {
    if s.len() > 0 && s.last() == '\r' {
        s.drop_last()
    } else {
        s
    }
}

/// The lines of `s` from position `start` on. A line ends at a line feed,
/// or at a carriage return with a line feed behind it, and holds neither;
/// what follows the last line feed is a line if it is not empty.
pub open spec fn lines_from(s: Seq<char>, start: int) -> Seq<Seq<char>>
    decreases s.len() - start,
{
    if start < 0 || start >= s.len() {
        Seq::empty()
    } else {
        let end = find_newline(s, start);
        if start <= end < s.len() {
            seq![without_return(s.subrange(start, end))] + lines_from(s, end + 1)
        } else {
            seq![s.subrange(start, s.len() as int)]
        }
    }
}

/// The lines of `s`.
pub open spec fn lines_of(s: Seq<char>) -> Seq<Seq<char>> {
    lines_from(s, 0)
}

/// The texts of a list of strings.
pub open spec fn texts(lines: Seq<String>) -> Seq<Seq<char>> {
    Seq::new(lines.len(), |i: int| lines[i]@)
}

/// The lines of a text, each as a string of its own.
pub fn str_to_vec(s: &str) -> (lines: Vec<String>)
    ensures
        texts(lines@) == lines_of(s@),
{
    let cs = to_chars(s);
    let mut lines: Vec<String> = Vec::new();
    let mut start: usize = 0;
    let mut i: usize = 0;
    while i < cs.len()
        invariant
            cs@ == s@,
            start <= i <= cs.len(),
            find_newline(cs@, start as int) == find_newline(cs@, i as int),
            lines_of(cs@) == texts(lines@) + lines_from(cs@, start as int),
        decreases cs.len() - i,
    {
        if cs[i] == '\n' {
            let end = if i > start && cs[i - 1] == '\r' {
                i - 1
            } else {
                i
            };
            let line = s.substring_char(start, end).to_owned();
            lines.push(line);
            proof {
                assert(line@ == without_return(cs@.subrange(start as int, i as int)));
            }
            start = i + 1;
        }
        i += 1;
    }
    if start < cs.len() {
        let line = s.substring_char(start, cs.len()).to_owned();
        lines.push(line);
    }
    lines
}

} // verus!
