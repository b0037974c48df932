//! Finding a JSON object in the text around it.
use vstd::prelude::*;
use crate::text::{chars_of, string_of};

verus! {

// ---------------------------------------------------------------------------
// Balanced objects

/// Where the object ends whose scan stands at `i`, `depth` braces deep, inside a
/// quoted text or not, after a backslash in it or not; nothing if it does not end.
pub open spec fn closing(s: Seq<char>, i: int, depth: nat, quoted: bool, escaped: bool) -> Option<
    int,
>
    decreases s.len() - i,
{
    if i < 0 || i >= s.len() {
        None
    } else if quoted {
        if escaped {
            closing(s, i + 1, depth, true, false)
        } else if s[i] == '\\' {
            closing(s, i + 1, depth, true, true)
        } else {
            closing(s, i + 1, depth, s[i] != '"', false)
        }
    } else if s[i] == '"' {
        closing(s, i + 1, depth, true, false)
    } else if s[i] == '{' {
        closing(s, i + 1, depth + 1, false, false)
    } else if s[i] == '}' {
        if depth <= 1 {
            Some(i + 1)
        } else {
            closing(s, i + 1, (depth - 1) as nat, false, false)
        }
    } else {
        closing(s, i + 1, depth, false, false)
    }
}

/// Where the balanced object that starts at `i` ends; nothing if none does.
pub open spec fn object_end(s: Seq<char>, i: int) -> Option<int> {
    if 0 <= i < s.len() && s[i] == '{' {
        closing(s, i + 1, 1, false, false)
    } else {
        None
    }
}

/// The first balanced object at or after `from`: its start and its end.
pub open spec fn first_object(s: Seq<char>, from: int) -> Option<(int, int)>
    decreases s.len() - from,
{
    if from < 0 || from >= s.len() {
        None
    } else {
        match object_end(s, from) {
            Some(end) => Some((from, end)),
            None => first_object(s, from + 1),
        }
    }
}

// ---------------------------------------------------------------------------
// Fences

/// Whether a fence, three backticks, stands at `i`.
pub open spec fn is_fence(s: Seq<char>, i: int) -> bool {
    0 <= i && i + 3 <= s.len() && s[i] == '`' && s[i + 1] == '`' && s[i + 2] == '`'
}

/// Where the first fence at or after `from` stands.
pub open spec fn fence_from(s: Seq<char>, from: int) -> Option<int>
    decreases s.len() - from,
{
    if from < 0 || from >= s.len() {
        None
    } else if is_fence(s, from) {
        Some(from)
    } else {
        fence_from(s, from + 1)
    }
}

/// What the first fence opens, up to the fence that closes it or the end.
pub open spec fn fenced(s: Seq<char>) -> Option<Seq<char>> {
    match fence_from(s, 0) {
        Some(open) => match fence_from(s, open + 3) {
            Some(close) => Some(s.subrange(open + 3, close)),
            None => Some(s.skip(open + 3)),
        },
        None => None,
    }
}

/// The first balanced object of a text.
pub open spec fn first_object_text(s: Seq<char>) -> Option<Seq<char>> {
    match first_object(s, 0) {
        Some((start, end)) => Some(s.subrange(start, end)),
        None => None,
    }
}

/// The JSON object that an answer most likely means: the first one inside its
/// fence, else the first one anywhere.
pub open spec fn candidate(s: Seq<char>) -> Option<Seq<char>> {
    match fenced(s) {
        Some(inside) => match first_object_text(inside) {
            Some(t) => Some(t),
            None => first_object_text(s),
        },
        None => first_object_text(s),
    }
}

// ---------------------------------------------------------------------------
// The search

proof fn lemma_closing_range(s: Seq<char>, i: int, depth: nat, quoted: bool, escaped: bool)
    ensures
        closing(s, i, depth, quoted, escaped) matches Some(end) ==> i < end <= s.len() && s[end - 1]
            == '}',
    decreases s.len() - i,
{
    if 0 <= i < s.len() {
        if quoted {
            if escaped {
                lemma_closing_range(s, i + 1, depth, true, false);
            } else if s[i] == '\\' {
                lemma_closing_range(s, i + 1, depth, true, true);
            } else {
                lemma_closing_range(s, i + 1, depth, s[i] != '"', false);
            }
        } else if s[i] == '"' {
            lemma_closing_range(s, i + 1, depth, true, false);
        } else if s[i] == '{' {
            lemma_closing_range(s, i + 1, depth + 1, false, false);
        } else if s[i] == '}' {
            if depth > 1 {
                lemma_closing_range(s, i + 1, (depth - 1) as nat, false, false);
            }
        } else {
            lemma_closing_range(s, i + 1, depth, false, false);
        }
    }
}

/// Finds the end of the balanced object that starts at `i`.
fn find_end(v: &Vec<char>, i: usize) -> (end: Option<usize>)
    requires
        i < v@.len(),
        v@[i as int] == '{',
    ensures
        match end {
            Some(e) => object_end(v@, i as int) == Some(e as int) && i < e <= v@.len(),
            None => object_end(v@, i as int) is None,
        },
{
    let n: usize = v.len();
    let mut at: usize = i + 1;
    let mut depth: usize = 1;
    let mut quoted = false;
    let mut escaped = false;
    while at < n
        invariant
            n == v@.len(),
            i < at <= n,
            1 <= depth <= at - i,
            escaped ==> quoted,
            object_end(v@, i as int) == closing(v@, at as int, depth as nat, quoted, escaped),
        decreases n - at,
    {
        let c: char = v[at];
        if quoted {
            if escaped {
                escaped = false;
            } else if c == '\\' {
                escaped = true;
            } else if c == '"' {
                quoted = false;
            }
        } else if c == '"' {
            quoted = true;
        } else if c == '{' {
            depth = depth + 1;
        } else if c == '}' {
            if depth == 1 {
                return Some(at + 1);
            }
            depth = depth - 1;
        }
        at = at + 1;
    }
    None
}

/// Finds the first balanced object.
fn find_object(v: &Vec<char>) -> (found: Option<(usize, usize)>)
    ensures
        match found {
            Some((start, end)) => first_object(v@, 0) == Some((start as int, end as int)) && start
                <= end <= v@.len(),
            None => first_object(v@, 0) is None,
        },
{
    let mut from: usize = 0;
    while from < v.len()
        invariant
            from <= v@.len(),
            first_object(v@, 0) == first_object(v@, from as int),
        decreases v@.len() - from,
    {
        if v[from] == '{' {
            match find_end(v, from) {
                Some(end) => {
                    return Some((from, end));
                },
                None => {},
            }
        }
        from = from + 1;
    }
    None
}

/// Finds the first fence at or after `from`.
fn find_fence(v: &Vec<char>, from: usize) -> (found: Option<usize>)
    requires
        from <= v@.len(),
    ensures
        match found {
            Some(i) => fence_from(v@, from as int) == Some(i as int) && from <= i && i + 3
                <= v@.len(),
            None => fence_from(v@, from as int) is None,
        },
{
    let mut i: usize = from;
    while i < v.len()
        invariant
            from <= i <= v@.len(),
            fence_from(v@, from as int) == fence_from(v@, i as int),
        decreases v@.len() - i,
    {
        if v.len() - i >= 3 && v[i] == '`' && v[i + 1] == '`' && v[i + 2] == '`' {
            return Some(i);
        }
        i = i + 1;
    }
    None
}

/// The first balanced object of a text, as a string.
fn object_text(v: &Vec<char>) -> (found: Option<String>)
    ensures
        match found {
            Some(t) => first_object_text(v@) == Some(t@),
            None => first_object_text(v@) is None,
        },
{
    match find_object(v) {
        Some((start, end)) => Some(string_of(v, start, end)),
        None => None,
    }
}

/// Looks for the JSON object that an answer most likely means.
pub fn extract_json_candidate(raw: &str) -> (found: Option<String>)
    ensures
        match found {
            Some(t) => candidate(raw@) == Some(t@),
            None => candidate(raw@) is None,
        },
{
    let v = chars_of(raw);
    match find_fence(&v, 0) {
        Some(open) => {
            let close: usize = match find_fence(&v, open + 3) {
                Some(close) => close,
                None => v.len(),
            };
            let inside = chars_of(string_of(&v, open + 3, close).as_str());
            assert(v@.subrange(open + 3, v@.len() as int) =~= v@.skip(open + 3));
            match object_text(&inside) {
                Some(t) => Some(t),
                None => object_text(&v),
            }
        },
        None => object_text(&v),
    }
}

// ---------------------------------------------------------------------------
// Laws

proof fn lemma_first_object_range(s: Seq<char>, from: int)
    ensures
        first_object(s, from) matches Some((start, end)) ==> from <= start < end <= s.len()
            && s[start] == '{' && s[end - 1] == '}',
    decreases s.len() - from,
{
    if 0 <= from < s.len() {
        lemma_closing_range(s, from + 1, 1, false, false);
        if object_end(s, from) is None {
            lemma_first_object_range(s, from + 1);
        }
    }
}

/// Whether a text occurs in another in one piece.
pub open spec fn is_part(t: Seq<char>, s: Seq<char>) -> bool {
    exists|a: int, b: int| 0 <= a <= b <= s.len() && t == #[trigger] s.subrange(a, b)
}

/// What is extracted is a piece of the answer and runs from an opening brace to a
/// closing one.
pub proof fn law_candidate_is_part(s: Seq<char>)
    ensures
        candidate(s) matches Some(t) ==> is_part(t, s) && t.len() >= 2 && t[0] == '{' && t.last()
            == '}',
{
    lemma_first_object_range(s, 0);
    if let Some(t) = candidate(s) {
        if let Some(inside) = fenced(s) {
            lemma_fence_range(s, 0);
            let open = fence_from(s, 0)->0;
            lemma_fence_range(s, open + 3);
            lemma_first_object_range(inside, 0);
            if let Some((a, b)) = first_object(inside, 0) {
                assert(t =~= s.subrange(open + 3 + a, open + 3 + b));
            } else {
                let (a, b) = first_object(s, 0)->0;
                assert(t == s.subrange(a, b));
            }
        } else {
            let (a, b) = first_object(s, 0)->0;
            assert(t == s.subrange(a, b));
        }
    }
}

proof fn lemma_fence_range(s: Seq<char>, from: int)
    ensures
        fence_from(s, from) matches Some(i) ==> from <= i && is_fence(s, i),
    decreases s.len() - from,
{
    if 0 <= from < s.len() && !is_fence(s, from) {
        lemma_fence_range(s, from + 1);
    }
}

/// A scan sees only what lies between where it stands and where it ends.
proof fn lemma_closing_moves(
    s: Seq<char>,
    i: int,
    depth: nat,
    quoted: bool,
    escaped: bool,
    before: Seq<char>,
    after: Seq<char>,
)
    requires
        0 <= i,
        closing(s, i, depth, quoted, escaped) is Some,
    ensures
        closing(before + s + after, before.len() + i, depth, quoted, escaped) == Some(
            before.len() + closing(s, i, depth, quoted, escaped)->0,
        ),
    decreases s.len() - i,
{
    let w = before + s + after;
    assert(w[before.len() + i] == s[i]);
    if quoted {
        if escaped {
            lemma_closing_moves(s, i + 1, depth, true, false, before, after);
        } else if s[i] == '\\' {
            lemma_closing_moves(s, i + 1, depth, true, true, before, after);
        } else {
            lemma_closing_moves(s, i + 1, depth, s[i] != '"', false, before, after);
        }
    } else if s[i] == '"' {
        lemma_closing_moves(s, i + 1, depth, true, false, before, after);
    } else if s[i] == '{' {
        lemma_closing_moves(s, i + 1, depth + 1, false, false, before, after);
    } else if s[i] == '}' {
        if depth > 1 {
            lemma_closing_moves(s, i + 1, (depth - 1) as nat, false, false, before, after);
        }
    } else {
        lemma_closing_moves(s, i + 1, depth, false, false, before, after);
    }
}

/// Whether a text is one balanced object from its first character to its last.
pub open spec fn is_object_text(t: Seq<char>) -> bool {
    object_end(t, 0) == Some(t.len() as int)
}

proof fn lemma_first_after(before: Seq<char>, t: Seq<char>, after: Seq<char>, from: int)
    requires
        is_object_text(t),
        !before.contains('{'),
        0 <= from <= before.len(),
    ensures
        first_object(before + t + after, from) == Some(
            (before.len() as int, (before.len() + t.len()) as int),
        ),
    decreases before.len() - from,
{
    let w = before + t + after;
    if from < before.len() {
        assert(w[from] == before[from]);
        lemma_first_after(before, t, after, from + 1);
    } else {
        assert(w[from] == t[0]);
        lemma_closing_moves(t, 1, 1, false, false, before, after);
    }
}

/// An object in plain prose is found, when nothing before it opens a brace and
/// there is no fence.
pub proof fn law_unwraps_prose(before: Seq<char>, t: Seq<char>, after: Seq<char>)
    requires
        is_object_text(t),
        !before.contains('{'),
        fence_from(before + t + after, 0) is None,
    ensures
        candidate(before + t + after) == Some(t),
{
    lemma_first_after(before, t, after, 0);
    let w = before + t + after;
    assert(w.subrange(before.len() as int, (before.len() + t.len()) as int) =~= t);
}

proof fn lemma_no_fence_before(s: Seq<char>, from: int, at: int)
    requires
        0 <= from <= at < s.len(),
        forall|k: int| from <= k < at ==> #[trigger] s[k] != '`',
        is_fence(s, at),
    ensures
        fence_from(s, from) == Some(at),
    decreases at - from,
{
    if from < at {
        assert(s[from] != '`');
        lemma_no_fence_before(s, from + 1, at);
    }
}

/// An object put in a fence marked as JSON, between two texts.
pub open spec fn in_fence(before: Seq<char>, t: Seq<char>, after: Seq<char>) -> Seq<char> {
    before + "```json\n"@ + t + "\n```"@ + after
}

/// An object in a fence marked as JSON is found, whatever else stands around the
/// fence, as long as the two backtick runs around the object are the first fences.
pub proof fn law_unwraps_fence(before: Seq<char>, t: Seq<char>, after: Seq<char>)
    requires
        is_object_text(t),
        fence_from(in_fence(before, t, after), 0) == Some(before.len() as int),
        fence_from(in_fence(before, t, after), before.len() as int + 3) == Some(
            before.len() as int + 9 + t.len(),
        ),
    ensures
        candidate(in_fence(before, t, after)) == Some(t),
{
    reveal_strlit("```json\n");
    reveal_strlit("\n```");
    let open = "```json\n"@;
    let w = in_fence(before, t, after);
    let a = before.len() as int;
    let tag = open.skip(3);
    let inside = w.subrange(a + 3, a + 9 + t.len());
    assert(tag.len() == 5);
    assert(inside =~= tag + t + seq!['\n']);
    assert(tag[0] == open[3] && tag[1] == open[4] && tag[2] == open[5] && tag[3] == open[6]
        && tag[4] == open[7]);
    lemma_first_after(tag, t, seq!['\n'], 0);
    assert(inside.subrange(5, (5 + t.len()) as int) =~= t);
}

/// With no backtick before it or in it, an object in a fence marked as JSON is found.
pub proof fn law_unwraps_plain_fence(before: Seq<char>, t: Seq<char>, after: Seq<char>)
    requires
        is_object_text(t),
        !before.contains('`'),
        !t.contains('`'),
    ensures
        candidate(in_fence(before, t, after)) == Some(t),
{
    reveal_strlit("```json\n");
    reveal_strlit("\n```");
    let open = "```json\n"@;
    let close = "\n```"@;
    let w = in_fence(before, t, after);
    let a = before.len() as int;
    let b = a + 9 + t.len();
    assert(w[a] == open[0] && w[a + 1] == open[1] && w[a + 2] == open[2]);
    assert forall|k: int| 0 <= k < a implies #[trigger] w[k] != '`' by {
        assert(w[k] == before[k]);
    }
    lemma_no_fence_before(w, 0, a);
    assert(w[b] == close[1] && w[b + 1] == close[2] && w[b + 2] == close[3]);
    assert forall|k: int| a + 3 <= k < b implies #[trigger] w[k] != '`' by {
        if k < a + 8 {
            assert(w[k] == open[k - a]);
        } else if k < a + 8 + t.len() {
            assert(w[k] == t[k - a - 8]);
        } else {
            assert(w[k] == close[0]);
        }
    }
    lemma_no_fence_before(w, a + 3, b);
    law_unwraps_fence(before, t, after);
}

// ---------------------------------------------------------------------------
// Laws: where an object ends

/// What a reader knows after a stretch of text: how many more braces it saw open than
/// close outside quoted text, whether it stands inside quoted text, and whether a
/// backslash there takes the next character's meaning away.
pub struct Reading {
    pub depth: int,
    pub quoted: bool,
    pub escaped: bool,
}

/// What a reader knows after the characters from `from` up to, not including, `to`.
pub open spec fn read_through(s: Seq<char>, from: int, to: int) -> Reading
    decreases to - from,
{
    if to <= from {
        Reading { depth: 0, quoted: false, escaped: false }
    } else {
        let r = read_through(s, from, to - 1);
        let c = s[to - 1];
        if r.quoted {
            Reading {
                depth: r.depth,
                quoted: r.escaped || c != '"',
                escaped: !r.escaped && c == '\\',
            }
        } else if c == '"' {
            Reading { depth: r.depth, quoted: true, escaped: false }
        } else if c == '{' {
            Reading { depth: r.depth + 1, quoted: false, escaped: false }
        } else if c == '}' {
            Reading { depth: r.depth - 1, quoted: false, escaped: false }
        } else {
            Reading { depth: r.depth, quoted: false, escaped: false }
        }
    }
}

proof fn lemma_closing_reads(s: Seq<char>, start: int, i: int)
    requires
        0 <= start < i <= s.len(),
        forall|j: int| start < j <= i ==> (#[trigger] read_through(s, start, j)).depth > 0,
    ensures
        ({
            let r = read_through(s, start, i);
            match closing(s, i, r.depth as nat, r.quoted, r.escaped) {
                Some(end) => {
                    &&& i < end <= s.len()
                    &&& read_through(s, start, end).depth == 0
                    &&& forall|j: int|
                        start < j < end ==> (#[trigger] read_through(s, start, j)).depth > 0
                },
                None => forall|j: int|
                    start < j <= s.len() ==> (#[trigger] read_through(s, start, j)).depth > 0,
            }
        }),
    decreases s.len() - i,
{
    if i < s.len() {
        let r = read_through(s, start, i);
        let q = read_through(s, start, i + 1);
        if q.depth > 0 {
            lemma_closing_reads(s, start, i + 1);
        } else {
            assert(q.depth == 0 && s[i] == '}' && !r.quoted && r.depth == 1);
        }
    }
}

/// An object ends at the brace that matches its first one: there, and not before, as
/// many braces have closed as have opened, those in quoted text left aside. If that
/// place does not come, it does not end.
pub proof fn law_object_ends_at_matching_brace(s: Seq<char>, start: int, end: int)
    requires
        0 <= start < s.len(),
        s[start] == '{',
    ensures
        object_end(s, start) == Some(end) <==> {
            &&& start < end <= s.len()
            &&& read_through(s, start, end).depth == 0
            &&& forall|j: int| start < j < end ==> (#[trigger] read_through(s, start, j)).depth > 0
        },
{
    reveal_with_fuel(read_through, 3);
    assert(read_through(s, start, start + 1).depth == 1);
    lemma_closing_reads(s, start, start + 1);
    if let Some(e) = object_end(s, start) {
        if start < end <= s.len() && read_through(s, start, end).depth == 0 && (forall|j: int|
            start < j < end ==> (#[trigger] read_through(s, start, j)).depth > 0) {
            assert(end >= e);
            if e < end {
                assert(read_through(s, start, e).depth > 0);
            }
        }
    }
}

/// Only a brace opens an object.
pub proof fn law_objects_start_with_a_brace(s: Seq<char>, start: int)
    ensures
        object_end(s, start) is Some ==> 0 <= start < s.len() && s[start] == '{',
{
}

// ---------------------------------------------------------------------------
// Laws: what an object may hold

/// Whether a text has neither braces nor quotes.
pub open spec fn is_plain(s: Seq<char>) -> bool {
    forall|i: int| 0 <= i < s.len() ==> (#[trigger] s[i]) != '{' && s[i] != '}' && s[i] != '"'
}

/// Whether a text is quoted, with neither quotes nor backslashes inside.
pub open spec fn is_quoted(s: Seq<char>) -> bool {
    &&& s.len() >= 2
    &&& s[0] == '"' && s.last() == '"'
    &&& forall|i: int| 0 < i < s.len() - 1 ==> (#[trigger] s[i]) != '"' && s[i] != '\\'
}

/// Texts run together.
pub open spec fn run_together(parts: Seq<Seq<char>>) -> Seq<char>
    decreases parts.len(),
{
    if parts.len() == 0 {
        Seq::empty()
    } else {
        parts[0] + run_together(parts.skip(1))
    }
}

proof fn lemma_plain_is_passed(w: Seq<char>, off: int, p: Seq<char>, k: int, depth: nat)
    requires
        is_plain(p),
        0 <= off,
        off + p.len() <= w.len(),
        forall|i: int| 0 <= i < p.len() ==> w[off + i] == #[trigger] p[i],
        0 <= k <= p.len(),
    ensures
        closing(w, off + k, depth, false, false) == closing(w, off + p.len(), depth, false, false),
    decreases p.len() - k,
{
    if k < p.len() {
        assert(w[off + k] == p[k]);
        lemma_plain_is_passed(w, off, p, k + 1, depth);
    }
}

proof fn lemma_quoted_is_passed(w: Seq<char>, off: int, p: Seq<char>, k: int, depth: nat)
    requires
        is_quoted(p),
        0 <= off,
        off + p.len() <= w.len(),
        forall|i: int| 0 <= i < p.len() ==> w[off + i] == #[trigger] p[i],
        0 < k < p.len(),
    ensures
        closing(w, off + k, depth, true, false) == closing(w, off + p.len(), depth, false, false),
    decreases p.len() - k,
{
    assert(w[off + k] == p[k]);
    if k < p.len() - 1 {
        lemma_quoted_is_passed(w, off, p, k + 1, depth);
    }
}

proof fn lemma_object_is_passed(
    w: Seq<char>,
    off: int,
    p: Seq<char>,
    k: int,
    inner: nat,
    quoted: bool,
    escaped: bool,
    depth: nat,
)
    requires
        0 <= off,
        off + p.len() <= w.len(),
        forall|i: int| 0 <= i < p.len() ==> w[off + i] == #[trigger] p[i],
        0 <= k,
        inner >= 1,
        depth >= 1,
        closing(p, k, inner, quoted, escaped) == Some(p.len() as int),
    ensures
        closing(w, off + k, (depth + inner) as nat, quoted, escaped) == closing(
            w,
            off + p.len(),
            depth,
            false,
            false,
        ),
    decreases p.len() - k,
{
    if k < p.len() {
        assert(w[off + k] == p[k]);
        if quoted {
            if escaped {
                lemma_object_is_passed(w, off, p, k + 1, inner, true, false, depth);
            } else if p[k] == '\\' {
                lemma_object_is_passed(w, off, p, k + 1, inner, true, true, depth);
            } else {
                lemma_object_is_passed(w, off, p, k + 1, inner, p[k] != '"', false, depth);
            }
        } else if p[k] == '"' {
            lemma_object_is_passed(w, off, p, k + 1, inner, true, false, depth);
        } else if p[k] == '{' {
            lemma_object_is_passed(w, off, p, k + 1, inner + 1, false, false, depth);
        } else if p[k] == '}' {
            if inner > 1 {
                lemma_object_is_passed(w, off, p, k + 1, (inner - 1) as nat, false, false, depth);
            }
        } else {
            lemma_object_is_passed(w, off, p, k + 1, inner, false, false, depth);
        }
    }
}

proof fn lemma_parts_are_passed(w: Seq<char>, off: int, parts: Seq<Seq<char>>)
    requires
        0 <= off,
        off + run_together(parts).len() <= w.len(),
        forall|i: int|
            0 <= i < run_together(parts).len() ==> w[off + i] == #[trigger] run_together(parts)[i],
        forall|i: int|
            0 <= i < parts.len() ==> is_plain(#[trigger] parts[i]) || is_quoted(parts[i])
                || is_object_text(parts[i]),
    ensures
        closing(w, off, 1, false, false) == closing(
            w,
            off + run_together(parts).len(),
            1,
            false,
            false,
        ),
    decreases parts.len(),
{
    if parts.len() > 0 {
        let p = parts[0];
        let all = run_together(parts);
        let rest = run_together(parts.skip(1));
        assert forall|i: int| 0 <= i < p.len() implies w[off + i] == #[trigger] p[i] by {
            assert(all[i] == p[i]);
        }
        assert forall|i: int| 0 <= i < rest.len() implies w[off + p.len() + i] == #[trigger] rest[i] by {
            assert(all[p.len() + i] == rest[i]);
        }
        assert forall|i: int| 0 <= i < parts.skip(1).len() implies is_plain(
            #[trigger] parts.skip(1)[i],
        ) || is_quoted(parts.skip(1)[i]) || is_object_text(parts.skip(1)[i]) by {
            assert(parts.skip(1)[i] == parts[i + 1]);
        }
        if is_plain(p) {
            lemma_plain_is_passed(w, off, p, 0, 1);
        } else if is_quoted(p) {
            assert(w[off] == p[0]);
            lemma_quoted_is_passed(w, off, p, 1, 1);
        } else {
            assert(w[off] == p[0]);
            lemma_object_is_passed(w, off, p, 1, 1, false, false, 1);
        }
        lemma_parts_are_passed(w, off + p.len(), parts.skip(1));
    }
}

/// Braces around any number of balanced objects, quoted texts and plain texts, side by
/// side, are one balanced object again. Braces inside quoted text do not count.
pub proof fn law_objects_nest(parts: Seq<Seq<char>>)
    requires
        forall|i: int|
            0 <= i < parts.len() ==> is_plain(#[trigger] parts[i]) || is_quoted(parts[i])
                || is_object_text(parts[i]),
    ensures
        is_object_text(seq!['{'] + run_together(parts) + seq!['}']),
{
    let inner = run_together(parts);
    let w = seq!['{'] + inner + seq!['}'];
    assert forall|i: int| 0 <= i < inner.len() implies w[1 + i] == #[trigger] inner[i] by {}
    lemma_parts_are_passed(w, 1, parts);
    assert(w[1 + inner.len() as int] == '}');
    assert(w[0] == '{');
}

/// Two balanced objects side by side inside braces are one balanced object.
pub proof fn law_two_objects_side_by_side(
    a: Seq<char>,
    t1: Seq<char>,
    b: Seq<char>,
    t2: Seq<char>,
    c: Seq<char>,
)
    requires
        is_plain(a),
        is_plain(b),
        is_plain(c),
        is_object_text(t1),
        is_object_text(t2),
    ensures
        is_object_text(seq!['{'] + a + t1 + b + t2 + c + seq!['}']),
{
    let parts = seq![a, t1, b, t2, c];
    reveal_with_fuel(run_together, 6);
    assert(parts.skip(1) =~= seq![t1, b, t2, c]);
    assert(parts.skip(1).skip(1) =~= seq![b, t2, c]);
    assert(parts.skip(1).skip(1).skip(1) =~= seq![t2, c]);
    assert(parts.skip(1).skip(1).skip(1).skip(1) =~= seq![c]);
    assert(parts.skip(1).skip(1).skip(1).skip(1).skip(1) =~= Seq::<Seq<char>>::empty());
    assert(run_together(parts) =~= a + t1 + b + t2 + c);
    assert forall|i: int| 0 <= i < parts.len() implies is_plain(#[trigger] parts[i]) || is_quoted(
        parts[i],
    ) || is_object_text(parts[i]) by {
        assert(i == 0 || i == 1 || i == 2 || i == 3 || i == 4);
    }
    law_objects_nest(parts);
    assert(seq!['{'] + (a + t1 + b + t2 + c) + seq!['}'] =~= seq!['{'] + a + t1 + b + t2 + c + seq![
        '}',
    ]);
}

// ---------------------------------------------------------------------------
// Laws: which object is taken

proof fn lemma_first_is_first(s: Seq<char>, from: int)
    requires
        0 <= from,
    ensures
        match first_object(s, from) {
            Some((a, b)) => {
                &&& from <= a < s.len()
                &&& object_end(s, a) == Some(b)
                &&& forall|k: int| from <= k < a ==> (#[trigger] object_end(s, k)) is None
            },
            None => forall|k: int| from <= k ==> (#[trigger] object_end(s, k)) is None,
        },
    decreases s.len() - from,
{
    if from < s.len() && object_end(s, from) is None {
        lemma_first_is_first(s, from + 1);
    }
}

/// The end of an object does not depend on where the object stands in a text.
proof fn lemma_end_in_piece(s: Seq<char>, a: int, b: int, k: int)
    requires
        0 <= a <= b <= s.len(),
        0 <= k,
        object_end(s.subrange(a, b), k) is Some,
    ensures
        object_end(s, a + k) == Some(a + object_end(s.subrange(a, b), k)->0),
{
    let t = s.subrange(a, b);
    let before = s.subrange(0, a);
    let after = s.subrange(b, s.len() as int);
    assert(before + t + after =~= s);
    lemma_closing_moves(t, k + 1, 1, false, false, before, after);
}

/// A text cut out where an object starts and ends is that object, balanced in itself.
proof fn lemma_cut_is_object(s: Seq<char>, i: int, depth: nat, quoted: bool, escaped: bool, a: int, e: int)
    requires
        0 <= a <= i,
        closing(s, i, depth, quoted, escaped) == Some(e),
    ensures
        closing(s.subrange(a, e), i - a, depth, quoted, escaped) == Some(e - a),
    decreases s.len() - i,
{
    lemma_closing_range(s, i, depth, quoted, escaped);
    let t = s.subrange(a, e);
    assert(t[i - a] == s[i]);
    if quoted {
        if escaped {
            lemma_cut_is_object(s, i + 1, depth, true, false, a, e);
        } else if s[i] == '\\' {
            lemma_cut_is_object(s, i + 1, depth, true, true, a, e);
        } else {
            lemma_cut_is_object(s, i + 1, depth, s[i] != '"', false, a, e);
        }
    } else if s[i] == '"' {
        lemma_cut_is_object(s, i + 1, depth, true, false, a, e);
    } else if s[i] == '{' {
        lemma_cut_is_object(s, i + 1, depth + 1, false, false, a, e);
    } else if s[i] == '}' {
        if depth > 1 {
            lemma_cut_is_object(s, i + 1, (depth - 1) as nat, false, false, a, e);
        }
    } else {
        lemma_cut_is_object(s, i + 1, depth, false, false, a, e);
    }
}

/// What is extracted is a balanced object from its first character to its last.
pub proof fn law_candidate_is_balanced(s: Seq<char>)
    ensures
        candidate(s) matches Some(t) ==> is_object_text(t),
{
    if let Some(t) = candidate(s) {
        lemma_first_is_first(s, 0);
        if let Some(inside) = fenced(s) {
            lemma_first_is_first(inside, 0);
            if let Some((a, b)) = first_object(inside, 0) {
                lemma_cut_is_object(inside, a + 1, 1, false, false, a, b);
                lemma_closing_range(inside, a + 1, 1, false, false);
            } else {
                let (a, b) = first_object(s, 0)->0;
                lemma_cut_is_object(s, a + 1, 1, false, false, a, b);
                lemma_closing_range(s, a + 1, 1, false, false);
            }
        } else {
            let (a, b) = first_object(s, 0)->0;
            lemma_cut_is_object(s, a + 1, 1, false, false, a, b);
            lemma_closing_range(s, a + 1, 1, false, false);
        }
    }
}

/// Something is extracted just if there is a balanced object anywhere in the answer.
pub proof fn law_candidate_is_found(s: Seq<char>)
    ensures
        candidate(s) is Some <==> exists|k: int| (#[trigger] object_end(s, k)) is Some,
{
    lemma_first_is_first(s, 0);
    if let Some((a, b)) = first_object(s, 0) {
        assert(object_end(s, a) is Some);
    }
    if let Some(inside) = fenced(s) {
        lemma_fence_range(s, 0);
        let open = fence_from(s, 0)->0;
        lemma_fence_range(s, open + 3);
        lemma_first_is_first(inside, 0);
        let close = match fence_from(s, open + 3) {
            Some(close) => close,
            None => s.len() as int,
        };
        assert(inside =~= s.subrange(open + 3, close));
        if let Some((a, b)) = first_object(inside, 0) {
            lemma_end_in_piece(s, open + 3, close, a);
            assert(object_end(s, open + 3 + a) is Some);
        }
    }
    if exists|k: int| (#[trigger] object_end(s, k)) is Some {
        let k = choose|k: int| (#[trigger] object_end(s, k)) is Some;
        assert(0 <= k);
    }
}

/// In an answer without three backticks in a row, the object extracted is the first one:
/// no balanced object starts before it.
pub proof fn law_candidate_is_first(s: Seq<char>, k: int)
    requires
        forall|i: int| !#[trigger] is_fence(s, i),
        0 <= k,
        object_end(s, k) is Some,
    ensures
        exists|a: int| 0 <= a <= k && (#[trigger] object_end(s, a)) is Some && candidate(s) == Some(
            s.subrange(a, object_end(s, a)->0),
        ) && forall|j: int| 0 <= j < a ==> (#[trigger] object_end(s, j)) is None,
{
    lemma_fence_range(s, 0);
    lemma_first_is_first(s, 0);
    let (a, b) = first_object(s, 0)->0;
    assert(object_end(s, a) is Some);
    if k < a {
        assert(object_end(s, k) is None);
    }
}

/// An object in a fence is found, whatever marks the fence, as long as the two runs of
/// backticks around it are the first fences and no brace comes before it in the fence.
pub proof fn law_unwraps_any_fence(
    before: Seq<char>,
    mark: Seq<char>,
    t: Seq<char>,
    tail: Seq<char>,
    after: Seq<char>,
)
    requires
        is_object_text(t),
        !mark.contains('{'),
        fence_from(before + "```"@ + mark + t + tail + "```"@ + after, 0) == Some(
            before.len() as int,
        ),
        fence_from(before + "```"@ + mark + t + tail + "```"@ + after, before.len() as int + 3)
            == Some((before.len() + 3 + mark.len() + t.len() + tail.len()) as int),
    ensures
        candidate(before + "```"@ + mark + t + tail + "```"@ + after) == Some(t),
{
    reveal_strlit("```");
    let w = before + "```"@ + mark + t + tail + "```"@ + after;
    let a = before.len() + 3;
    let b = a + mark.len() + t.len() + tail.len();
    let inside = w.subrange(a as int, b as int);
    assert(inside =~= mark + t + tail);
    lemma_first_after(mark, t, tail, 0);
    assert(inside.subrange(mark.len() as int, (mark.len() + t.len()) as int) =~= t);
}

/// A fence that is not closed reaches to the end of the answer.
pub proof fn law_unwraps_open_fence(before: Seq<char>, mark: Seq<char>, t: Seq<char>, tail: Seq<char>)
    requires
        is_object_text(t),
        !mark.contains('{'),
        fence_from(before + "```"@ + mark + t + tail, 0) == Some(before.len() as int),
        fence_from(before + "```"@ + mark + t + tail, before.len() as int + 3) is None,
    ensures
        candidate(before + "```"@ + mark + t + tail) == Some(t),
{
    reveal_strlit("```");
    let w = before + "```"@ + mark + t + tail;
    let inside = w.skip(before.len() as int + 3);
    assert(inside =~= mark + t + tail);
    lemma_first_after(mark, t, tail, 0);
    assert(inside.subrange(mark.len() as int, (mark.len() + t.len()) as int) =~= t);
}

/// A fence is three backticks in a row, and the first one at or after a place is the one
/// before which there is none.
pub proof fn law_first_fence(s: Seq<char>, from: int, at: int)
    requires
        0 <= from,
    ensures
        fence_from(s, from) == Some(at) <==> {
            &&& from <= at && at + 3 <= s.len()
            &&& s[at] == '`' && s[at + 1] == '`' && s[at + 2] == '`'
            &&& forall|k: int|
                from <= k < at ==> !((#[trigger] s[k]) == '`' && s[k + 1] == '`' && s[k + 2] == '`')
        },
    decreases s.len() - from,
{
    if from < s.len() && !is_fence(s, from) {
        law_first_fence(s, from + 1, at);
        if from == at {
            assert(s[at] == s[from]);
        }
        if from < at && at + 3 <= s.len() {
            assert(!(s[from] == '`' && s[from + 1] == '`' && s[from + 2] == '`'));
        }
    } else if from < s.len() {
        if from < at && at + 3 <= s.len() {
            assert(s[from] == '`' && s[from + 1] == '`' && s[from + 2] == '`');
        }
    }
}

/// Inside a fence the first balanced object counts. If there is none, the first one
/// anywhere counts.
pub proof fn law_fence_comes_first(s: Seq<char>, open: int, close: int, a: int, b: int)
    requires
        fence_from(s, 0) == Some(open),
        fence_from(s, open + 3) matches Some(c) ==> close == c,
        fence_from(s, open + 3) is None ==> close == s.len(),
        0 <= a,
    ensures
        ({
            let inside = s.subrange(open + 3, close);
            &&& object_end(inside, a) == Some(b) && (forall|j: int|
                0 <= j < a ==> (#[trigger] object_end(inside, j)) is None) ==> candidate(s) == Some(
                inside.subrange(a, b),
            )
            &&& (forall|j: int| (#[trigger] object_end(inside, j)) is None) && object_end(s, a)
                == Some(b) && (forall|j: int|
                0 <= j < a ==> (#[trigger] object_end(s, j)) is None) ==> candidate(s) == Some(
                s.subrange(a, b),
            )
        }),
{
    lemma_fence_range(s, 0);
    lemma_fence_range(s, open + 3);
    let inside = s.subrange(open + 3, close);
    assert(fenced(s)->0 =~= inside);
    lemma_first_is_first(inside, 0);
    lemma_first_is_first(s, 0);
    if let Some((x, y)) = first_object(inside, 0) {
        assert(object_end(inside, x) is Some);
        if x < a {
            assert(object_end(inside, x) is Some);
        }
        if a < x {
            assert(object_end(inside, a) is None);
        }
    } else {
        assert(object_end(inside, a) is None);
    }
    if let Some((x, y)) = first_object(s, 0) {
        assert(object_end(s, x) is Some);
        if a < x {
            assert(object_end(s, a) is None);
        }
    } else {
        assert(object_end(s, a) is None);
    }
}

} // verus!
