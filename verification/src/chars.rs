use vstd::prelude::*;
use vstd::std_specs::iter::IteratorSpec;
use vstd::string::StrSliceExecFns;

verus! {

// == White space =========================================
/// Whether `c` is white space: one of the characters with the Unicode
/// property `White_Space`, which are the controls from tab to carriage
/// return, the space, next line, the no-break space, the ogham space mark,
/// the spaces from en quad to hair space, the line and the paragraph
/// separator, the narrow no-break space, the medium mathematical space and
/// the ideographic space.
pub open spec fn is_white_space(c: char) -> bool {
    let n = c as u32;
    ||| 0x09 <= n <= 0x0D
    ||| n == 0x20
    ||| n == 0x85
    ||| n == 0xA0
    ||| n == 0x1680
    ||| 0x2000 <= n <= 0x200A
    ||| n == 0x2028
    ||| n == 0x2029
    ||| n == 0x202F
    ||| n == 0x205F
    ||| n == 0x3000
}

/// Whether `c` is white space.
pub fn is_whitespace(c: char) -> (white: bool)
    ensures
        white == is_white_space(c),
{
    let n = c as u32;
    (0x09 <= n && n <= 0x0D) || n == 0x20 || n == 0x85 || n == 0xA0 || n == 0x1680 || (0x2000 <= n
        && n <= 0x200A) || n == 0x2028 || n == 0x2029 || n == 0x202F || n == 0x205F || n == 0x3000
}

/// The first position from `i` on that holds no white space, or the length
/// of `s` where only white space follows.
pub open spec fn skip_space(s: Seq<char>, i: int) -> int
    decreases s.len() - i,
{
    if 0 <= i < s.len() && is_white_space(s[i]) {
        skip_space(s, i + 1)
    } else {
        i
    }
}

/// The end of the last stretch before `j` that holds no white space, or 0
/// where only white space comes before `j`.
pub open spec fn skip_space_back(s: Seq<char>, j: int) -> int
    decreases j,
{
    if 0 < j <= s.len() && is_white_space(s[j - 1]) {
        skip_space_back(s, j - 1)
    } else {
        j
    }
}

/// The first position from `i` on that holds white space, or the length of
/// `s` where none follows.
pub open spec fn find_space(s: Seq<char>, i: int) -> int
    decreases s.len() - i,
{
    if 0 <= i < s.len() && !is_white_space(s[i]) {
        find_space(s, i + 1)
    } else {
        i
    }
}

/// `s` without the white space at its two ends.
pub open spec fn trimmed(s: Seq<char>) -> Seq<char> {
    let start = skip_space(s, 0);
    let end = skip_space_back(s, s.len() as int);
    if start < end {
        s.subrange(start, end)
    } else {
        Seq::empty()
    }
}

/// Whether `s` holds an arrow: a dash with an arrow head right behind it.
pub open spec fn has_arrow(s: Seq<char>) -> bool {
    exists|i: int| 0 <= i && i + 1 < s.len() && s[i] == '-' && #[trigger] s[i + 1] == '>'
}

/// What `skip_space` skips is white space, and it stops at the first
/// character that is none.
pub proof fn lemma_skip_space(s: Seq<char>, i: int)
    requires
        0 <= i <= s.len(),
    ensures
        i <= skip_space(s, i) <= s.len(),
        forall|k: int| i <= k < skip_space(s, i) ==> is_white_space(#[trigger] s[k]),
        skip_space(s, i) < s.len() ==> !is_white_space(s[skip_space(s, i)]),
    decreases s.len() - i,
{
    if i < s.len() && is_white_space(s[i]) {
        lemma_skip_space(s, i + 1);
    }
}

/// What `skip_space_back` skips is white space, and it stops behind the
/// last character that is none.
pub proof fn lemma_skip_space_back(s: Seq<char>, j: int)
    requires
        0 <= j <= s.len(),
    ensures
        0 <= skip_space_back(s, j) <= j,
        forall|k: int| skip_space_back(s, j) <= k < j ==> is_white_space(#[trigger] s[k]),
        skip_space_back(s, j) > 0 ==> !is_white_space(s[skip_space_back(s, j) - 1]),
    decreases j,
{
    if 0 < j && is_white_space(s[j - 1]) {
        lemma_skip_space_back(s, j - 1);
    }
}

/// What has been trimmed has no white space at either end.
pub proof fn lemma_trimmed(s: Seq<char>)
    ensures
        trimmed(s).len() <= s.len(),
        trimmed(s).len() > 0 ==> !is_white_space(trimmed(s)[0]) && !is_white_space(
            trimmed(s).last(),
        ),
        trimmed(trimmed(s)) == trimmed(s),
{
    lemma_skip_space(s, 0);
    lemma_skip_space_back(s, s.len() as int);
}

// == Characters ==========================================
/// The characters of `s`, in order.
pub fn to_chars(s: &str) -> (v: Vec<char>)
    ensures
        v@ == s@,
{
    let mut v: Vec<char> = Vec::new();
    for c in it: s.chars()
        invariant
            it.seq() == s@,
            v@ == s@.subrange(0, it.index() as int),
    {
        v.push(c);
    }
    v
}

/// Where `trimmed` starts and ends in `cs`; both are 0 where nothing is
/// left.
pub fn trim_bounds(cs: &Vec<char>) -> (bounds: (usize, usize))
    ensures
        bounds.0 <= bounds.1 <= cs.len(),
        trimmed(cs@) == cs@.subrange(bounds.0 as int, bounds.1 as int),
        bounds.0 < bounds.1 ==> bounds.0 == skip_space(cs@, 0) && bounds.1 == skip_space_back(
            cs@,
            cs.len() as int,
        ),
        bounds.0 == bounds.1 ==> bounds.0 == 0 && trimmed(cs@).len() == 0,
{
    let mut start: usize = 0;
    while start < cs.len() && is_whitespace(cs[start])
        invariant
            start <= cs.len(),
            skip_space(cs@, 0) == skip_space(cs@, start as int),
        decreases cs.len() - start,
    {
        start += 1;
    }
    let mut end: usize = cs.len();
    while end > 0 && is_whitespace(cs[end - 1])
        invariant
            end <= cs.len(),
            skip_space_back(cs@, cs.len() as int) == skip_space_back(cs@, end as int),
        decreases end,
    {
        end -= 1;
    }
    if start < end {
        (start, end)
    } else {
        (0, 0)
    }
}

/// `s` without the white space at its two ends.
pub fn trim(s: &str) -> (t: String)
    ensures
        t@ == trimmed(s@),
{
    let cs = to_chars(s);
    let (start, end) = trim_bounds(&cs);
    s.substring_char(start, end).to_owned()
}

/// Whether `cs` holds an arrow.
pub fn contains_arrow(cs: &Vec<char>) -> (found: bool)
    ensures
        found == has_arrow(cs@),
{
    let mut i: usize = 1;
    while i < cs.len()
        invariant
            1 <= i,
            forall|k: int|
                0 <= k && k + 1 < i && k + 1 < cs.len() ==> !(cs[k] == '-' && #[trigger] cs[k + 1]
                    == '>'),
        decreases cs.len() - i,
    {
        if cs[i - 1] == '-' && cs[i] == '>' {
            assert(cs@[(i - 1) + 1] == '>');
            return true;
        }
        i += 1;
    }
    false
}

/// Whether two strings hold the same characters.
pub fn same_text(a: &str, b: &str) -> (same: bool)
    ensures
        same == (a@ == b@),
{
    let x = to_chars(a);
    let y = to_chars(b);
    if x.len() != y.len() {
        return false;
    }
    let mut i: usize = 0;
    while i < x.len()
        invariant
            i <= x.len(),
            x.len() == y.len(),
            x@ == a@,
            y@ == b@,
            forall|k: int| 0 <= k < i ==> x[k] == y[k],
        decreases x.len() - i,
    {
        if x[i] != y[i] {
            return false;
        }
        i += 1;
    }
    assert(x@ =~= y@);
    true
}

} // verus!
