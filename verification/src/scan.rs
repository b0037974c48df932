//! Cutting, trimming and replacing in text.
use vstd::prelude::*;
use vstd::string::*;
use crate::text::{chars_of, string_of, texts};

verus! {

// ---------------------------------------------------------------------------
// White space

/// Whether a character has the Unicode property `White_Space`.
pub open spec fn is_space(c: char) -> bool {
    let u = c as u32;
    ||| 0x9 <= u <= 0xd
    ||| u == 0x20
    ||| u == 0x85
    ||| u == 0xa0
    ||| u == 0x1680
    ||| 0x2000 <= u <= 0x200a
    ||| u == 0x2028
    ||| u == 0x2029
    ||| u == 0x202f
    ||| u == 0x205f
    ||| u == 0x3000
}

/// Tells whether a character is white space.
pub fn space(c: char) -> (yes: bool)
    ensures
        yes == is_space(c),
{
    let u: u32 = c as u32;
    (0x9 <= u && u <= 0xd) || u == 0x20 || u == 0x85 || u == 0xa0 || u == 0x1680 || (0x2000 <= u
        && u <= 0x200a) || u == 0x2028 || u == 0x2029 || u == 0x202f || u == 0x205f || u == 0x3000
}

/// A text without its leading white space.
pub open spec fn trim_front(s: Seq<char>) -> Seq<char>
    decreases s.len(),
{
    if s.len() > 0 && is_space(s[0]) {
        trim_front(s.skip(1))
    } else {
        s
    }
}

/// A text without its trailing white space.
pub open spec fn trim_back(s: Seq<char>) -> Seq<char>
    decreases s.len(),
{
    if s.len() > 0 && is_space(s.last()) {
        trim_back(s.drop_last())
    } else {
        s
    }
}

/// A text without the white space around it.
pub open spec fn trimmed(s: Seq<char>) -> Seq<char> {
    trim_back(trim_front(s))
}

/// Removes the white space around a text.
pub fn trim(s: &str) -> (t: String)
    ensures
        t@ == trimmed(s@),
{
    let v = chars_of(s);
    let mut from: usize = 0;
    assert(s@.skip(0) =~= s@);
    while from < v.len() && space(v[from])
        invariant
            v@ == s@,
            from <= v@.len(),
            trim_front(s@) == trim_front(s@.skip(from as int)),
        decreases v@.len() - from,
    {
        assert(s@.skip(from as int).skip(1) =~= s@.skip(from + 1));
        from = from + 1;
    }
    let ghost front = s@.skip(from as int);
    assert(trim_front(s@) == front);
    let mut to: usize = v.len();
    assert(s@.subrange(from as int, to as int) =~= front);
    while from < to && space(v[to - 1])
        invariant
            v@ == s@,
            from <= to <= v@.len(),
            trim_back(front) == trim_back(s@.subrange(from as int, to as int)),
        decreases to,
    {
        assert(s@.subrange(from as int, to as int).drop_last() =~= s@.subrange(
            from as int,
            to - 1,
        ));
        assert(s@.subrange(from as int, to as int).last() == s@[to - 1]);
        to = to - 1;
    }
    let ghost rest = s@.subrange(from as int, to as int);
    assert(rest.len() > 0 ==> rest.last() == s@[to - 1]);
    string_of(&v, from, to)
}

// ---------------------------------------------------------------------------
// Ends and prefixes

/// A text without the run of `c` at its end.
pub open spec fn without_trailing(s: Seq<char>, c: char) -> Seq<char>
    decreases s.len(),
{
    if s.len() > 0 && s.last() == c {
        without_trailing(s.drop_last(), c)
    } else {
        s
    }
}

/// Removes the run of `c` at the end of a text.
pub fn strip_trailing(s: &str, c: char) -> (t: String)
    ensures
        t@ == without_trailing(s@, c),
{
    let v = chars_of(s);
    let mut to: usize = v.len();
    assert(s@.take(to as int) =~= s@);
    while 0 < to && v[to - 1] == c
        invariant
            v@ == s@,
            to <= v@.len(),
            without_trailing(s@, c) == without_trailing(s@.take(to as int), c),
        decreases to,
    {
        assert(s@.take(to as int).drop_last() =~= s@.take(to - 1));
        to = to - 1;
    }
    assert(s@.take(to as int) =~= s@.subrange(0, to as int));
    string_of(&v, 0, to)
}

/// The part of a text before the first `c`, or all of it.
pub open spec fn up_to(s: Seq<char>, c: char) -> Seq<char>
    decreases s.len(),
{
    if s.len() == 0 || s[0] == c {
        Seq::empty()
    } else {
        seq![s[0]] + up_to(s.skip(1), c)
    }
}

/// Cuts a text before the first `c`.
pub fn cut_at(s: &str, c: char) -> (t: String)
    ensures
        t@ == up_to(s@, c),
{
    let v = chars_of(s);
    let mut to: usize = 0;
    assert(s@.skip(0) =~= s@);
    assert(s@.take(0) + up_to(s@, c) =~= up_to(s@, c));
    while to < v.len() && v[to] != c
        invariant
            v@ == s@,
            to <= v@.len(),
            up_to(s@, c) == s@.take(to as int) + up_to(s@.skip(to as int), c),
        decreases v@.len() - to,
    {
        assert(s@.skip(to as int).skip(1) =~= s@.skip(to + 1));
        assert(s@.take(to as int) + (seq![s@[to as int]] + up_to(s@.skip(to + 1), c)) =~= s@.take(
            to + 1,
        ) + up_to(s@.skip(to + 1), c));
        to = to + 1;
    }
    assert(s@.subrange(0, to as int) =~= s@.take(to as int) + Seq::<char>::empty());
    string_of(&v, 0, to)
}

/// The first `n` characters of a text, or all of it if it is shorter.
pub open spec fn first_chars(s: Seq<char>, n: nat) -> Seq<char> {
    if s.len() <= n {
        s
    } else {
        s.take(n as int)
    }
}

/// Keeps at most the first `n` characters of a text.
pub fn clip(s: &str, n: usize) -> (t: String)
    ensures
        t@ == first_chars(s@, n as nat),
{
    let v = chars_of(s);
    let to: usize = if v.len() <= n {
        v.len()
    } else {
        n
    };
    assert(s@.subrange(0, to as int) =~= first_chars(s@, n as nat));
    string_of(&v, 0, to)
}

// ---------------------------------------------------------------------------
// Lines

/// The pieces of a text between its newlines.
pub open spec fn lines_of(s: Seq<char>) -> Seq<Seq<char>>
    decreases s.len(),
{
    if s.len() == 0 {
        seq![Seq::empty()]
    } else {
        let head = lines_of(s.drop_last());
        if s.last() == '\n' {
            head.push(Seq::empty())
        } else {
            head.drop_last().push(head.last().push(s.last()))
        }
    }
}

/// The lines that hold more than white space, trimmed, the last one first.
pub open spec fn filled_lines_backwards(lines: Seq<Seq<char>>) -> Seq<Seq<char>>
    decreases lines.len(),
{
    if lines.len() == 0 {
        Seq::empty()
    } else {
        let line = trimmed(lines.last());
        let rest = filled_lines_backwards(lines.drop_last());
        if line.len() == 0 {
            rest
        } else {
            seq![line] + rest
        }
    }
}

/// Splits a text at its newlines.
pub fn split_lines(s: &str) -> (lines: Vec<String>)
    ensures
        texts(lines@) == lines_of(s@),
{
    let v = chars_of(s);
    let mut lines: Vec<String> = Vec::new();
    let mut current = String::new();
    let mut i: usize = 0;
    assert(texts(lines@).push(current@) =~= lines_of(s@.take(0)));
    while i < v.len()
        invariant
            v@ == s@,
            i <= v@.len(),
            texts(lines@).push(current@) == lines_of(s@.take(i as int)),
        decreases v@.len() - i,
    {
        let c: char = v[i];
        let ghost head = texts(lines@).push(current@);
        assert(s@.take(i + 1).drop_last() =~= s@.take(i as int));
        assert(head.drop_last() =~= texts(lines@));
        if c == '\n' {
            lines.push(current);
            current = String::new();
            assert(texts(lines@) =~= head);
        } else {
            current.push(c);
        }
        i = i + 1;
    }
    assert(s@.take(s@.len() as int) =~= s@);
    let ghost before = texts(lines@).push(current@);
    lines.push(current);
    assert(texts(lines@) =~= before);
    lines
}

/// The lines of a text that hold more than white space, trimmed, the last one first.
pub fn last_lines_first(s: &str) -> (found: Vec<String>)
    ensures
        texts(found@) == filled_lines_backwards(lines_of(s@)),
{
    let lines = split_lines(s);
    let ghost all = lines_of(s@);
    let mut found: Vec<String> = Vec::new();
    let mut i: usize = lines.len();
    assert(all.take(i as int) =~= all);
    assert(texts(found@) + filled_lines_backwards(all) =~= filled_lines_backwards(all));
    while 0 < i
        invariant
            texts(lines@) == all,
            i <= lines@.len(),
            filled_lines_backwards(all) == texts(found@) + filled_lines_backwards(
                all.take(i as int),
            ),
        decreases i,
    {
        let ghost before = texts(found@);
        let line = trim(lines[i - 1].as_str());
        proof {
            assert(all.take(i as int).drop_last() =~= all.take(i - 1));
            assert(all.take(i as int).last() == texts(lines@)[i - 1]);
        }
        if !line.as_str().is_empty() {
            found.push(line);
            assert(texts(found@) =~= before.push(line@));
            assert(before + (seq![line@] + filled_lines_backwards(all.take(i - 1)))
                =~= before.push(line@) + filled_lines_backwards(all.take(i - 1)));
        }
        i = i - 1;
    }
    assert(texts(found@) + Seq::<Seq<char>>::empty() =~= texts(found@));
    found
}

/// Texts one after another with a separator between neighbours.
pub open spec fn joined(parts: Seq<Seq<char>>, sep: Seq<char>) -> Seq<char>
    decreases parts.len(),
{
    if parts.len() == 0 {
        Seq::empty()
    } else if parts.len() == 1 {
        parts[0]
    } else {
        joined(parts.drop_last(), sep) + sep + parts.last()
    }
}

/// Joins texts with a separator.
pub fn join(parts: &Vec<String>, sep: &str) -> (s: String)
    ensures
        s@ == joined(texts(parts@), sep@),
{
    let ghost all = texts(parts@);
    let mut s = String::new();
    let mut i: usize = 0;
    while i < parts.len()
        invariant
            all == texts(parts@),
            i <= parts@.len(),
            s@ == joined(all.take(i as int), sep@),
        decreases parts@.len() - i,
    {
        if i > 0 {
            s.append(sep);
        }
        s.append(parts[i].as_str());
        proof {
            assert(all.take(i + 1).drop_last() =~= all.take(i as int));
            assert(all.take(i + 1).last() == parts@[i as int]@);
            assert(i == 0 ==> s@ =~= parts@[0]@);
        }
        i = i + 1;
    }
    assert(all.take(all.len() as int) =~= all);
    s
}

// ---------------------------------------------------------------------------
// Replacing

/// Whether a text begins with a pattern.
pub open spec fn starts(s: Seq<char>, pat: Seq<char>) -> bool {
    pat.len() <= s.len() && s.take(pat.len() as int) == pat
}

/// A text in which every occurrence of a pattern, taken from the left without
/// overlap, has given way to another text.
pub open spec fn replaced(s: Seq<char>, pat: Seq<char>, with: Seq<char>) -> Seq<char>
    recommends
        pat.len() > 0,
    decreases s.len(),
{
    if s.len() == 0 || pat.len() == 0 {
        s
    } else if starts(s, pat) {
        with + replaced(s.skip(pat.len() as int), pat, with)
    } else {
        seq![s[0]] + replaced(s.skip(1), pat, with)
    }
}

/// Tells whether `pat` occurs in `v` at `at`.
fn occurs_at(v: &Vec<char>, at: usize, pat: &Vec<char>) -> (yes: bool)
    requires
        at <= v@.len(),
    ensures
        yes == starts(v@.skip(at as int), pat@),
{
    let ghost rest = v@.skip(at as int);
    if v.len() - at < pat.len() {
        return false;
    }
    let mut k: usize = 0;
    while k < pat.len()
        invariant
            k <= pat@.len(),
            at + pat@.len() <= v@.len() <= usize::MAX,
            rest == v@.skip(at as int),
            forall|j: int| 0 <= j < k ==> rest[j] == #[trigger] pat@[j],
        decreases pat@.len() - k,
    {
        if v[at + k] != pat[k] {
            assert(rest.take(pat@.len() as int)[k as int] != pat@[k as int]);
            return false;
        }
        k = k + 1;
    }
    assert(rest.take(pat@.len() as int) =~= pat@);
    true
}

/// Replaces every occurrence of `pat`.
pub fn replace(s: &str, pat: &str, with: &str) -> (t: String)
    requires
        pat@.len() > 0,
    ensures
        t@ == replaced(s@, pat@, with@),
{
    let v = chars_of(s);
    let p = chars_of(pat);
    let mut t = String::new();
    let mut i: usize = 0;
    assert(s@.skip(0) =~= s@);
    assert(t@ + replaced(s@, pat@, with@) =~= replaced(s@, pat@, with@));
    while i < v.len()
        invariant
            v@ == s@,
            p@ == pat@,
            pat@.len() > 0,
            i <= v@.len(),
            replaced(s@, pat@, with@) == t@ + replaced(s@.skip(i as int), pat@, with@),
        decreases v@.len() - i,
    {
        let ghost before = t@;
        let ghost rest = s@.skip(i as int);
        if occurs_at(&v, i, &p) {
            t.append(with);
            assert(rest.skip(pat@.len() as int) =~= s@.skip(i + pat@.len()));
            assert(before + (with@ + replaced(s@.skip(i + pat@.len()), pat@, with@)) =~= t@
                + replaced(s@.skip(i + pat@.len()), pat@, with@));
            i = i + p.len();
        } else {
            t.push(v[i]);
            assert(rest.skip(1) =~= s@.skip(i + 1));
            assert(before + (seq![rest[0]] + replaced(s@.skip(i + 1), pat@, with@)) =~= t@
                + replaced(s@.skip(i + 1), pat@, with@));
            i = i + 1;
        }
    }
    assert(t@ + Seq::<char>::empty() =~= t@);
    t
}

/// Whether a pattern occurs somewhere in a text.
pub open spec fn occurs(s: Seq<char>, pat: Seq<char>) -> bool {
    exists|i: int| 0 <= i <= s.len() && starts(#[trigger] s.skip(i), pat)
}

/// A text in which the pattern does not occur is left as it is.
pub proof fn law_replace_absent(s: Seq<char>, pat: Seq<char>, with: Seq<char>)
    requires
        !occurs(s, pat),
    ensures
        replaced(s, pat, with) == s,
    decreases s.len(),
{
    if s.len() > 0 && pat.len() > 0 {
        assert(s.skip(0) =~= s);
        assert(!starts(s, pat));
        let rest = s.skip(1);
        assert forall|i: int| 0 <= i <= rest.len() implies !starts(#[trigger] rest.skip(i), pat) by {
            assert(rest.skip(i) =~= s.skip(i + 1));
        }
        law_replace_absent(rest, pat, with);
        assert(seq![s[0]] + rest =~= s);
    }
}

/// What trimming leaves has no white space at either end.
pub proof fn law_trimmed_ends(s: Seq<char>)
    ensures
        trimmed(s).len() > 0 ==> !is_space(trimmed(s)[0]) && !is_space(trimmed(s).last()),
{
    lemma_trim_front(s);
    lemma_trim_back(trim_front(s));
}

proof fn lemma_trim_front(s: Seq<char>)
    ensures
        trim_front(s).len() > 0 ==> !is_space(trim_front(s)[0]),
    decreases s.len(),
{
    if s.len() > 0 && is_space(s[0]) {
        lemma_trim_front(s.skip(1));
    }
}

proof fn lemma_trim_back(s: Seq<char>)
    ensures
        trim_back(s).len() > 0 ==> !is_space(trim_back(s).last()) && s.len() > 0 && trim_back(s)[0]
            == s[0],
    decreases s.len(),
{
    if s.len() > 0 && is_space(s.last()) {
        lemma_trim_back(s.drop_last());
    }
}

/// Whether a text is white space only.
pub open spec fn all_space(s: Seq<char>) -> bool {
    forall|i: int| 0 <= i < s.len() ==> is_space(#[trigger] s[i])
}

proof fn lemma_trim_front_cuts(s: Seq<char>) -> (n: int)
    ensures
        0 <= n <= s.len(),
        trim_front(s) == s.skip(n),
        all_space(s.take(n)),
    decreases s.len(),
{
    if s.len() > 0 && is_space(s[0]) {
        let m = lemma_trim_front_cuts(s.skip(1));
        assert(s.skip(1).skip(m) =~= s.skip(m + 1));
        assert forall|i: int| 0 <= i < m + 1 implies is_space(#[trigger] s.take(m + 1)[i]) by {
            if i > 0 {
                assert(s.skip(1).take(m)[i - 1] == s[i]);
            }
        }
        m + 1
    } else {
        assert(s.skip(0) =~= s);
        0
    }
}

proof fn lemma_trim_back_cuts(s: Seq<char>) -> (n: int)
    ensures
        0 <= n <= s.len(),
        trim_back(s) == s.take(n),
        all_space(s.skip(n)),
    decreases s.len(),
{
    if s.len() > 0 && is_space(s.last()) {
        let m = lemma_trim_back_cuts(s.drop_last());
        assert(s.drop_last().take(m) =~= s.take(m));
        assert forall|i: int| 0 <= i < s.skip(m).len() implies is_space(#[trigger] s.skip(m)[i]) by {
            if i < s.len() - m - 1 {
                assert(s.drop_last().skip(m)[i] == s[m + i]);
            }
        }
        m
    } else {
        assert(s.take(s.len() as int) =~= s);
        s.len() as int
    }
}

/// Trimming takes off white space at the two ends, and nothing else.
pub proof fn law_trimming_takes_space_only(s: Seq<char>)
    ensures
        exists|a: int, b: int|
            0 <= a <= b <= s.len() && trimmed(s) == #[trigger] s.subrange(a, b) && all_space(
                s.subrange(0, a),
            ) && all_space(s.subrange(b, s.len() as int)),
{
    let a = lemma_trim_front_cuts(s);
    let n = lemma_trim_back_cuts(s.skip(a));
    let b = a + n;
    assert(s.skip(a).take(n) =~= s.subrange(a, b));
    assert(s.subrange(0, a) =~= s.take(a));
    assert(s.subrange(b, s.len() as int) =~= s.skip(a).skip(n));
}

proof fn lemma_trim_front_of(a: Seq<char>, t: Seq<char>)
    requires
        all_space(a),
        t.len() > 0 ==> !is_space(t[0]),
    ensures
        trim_front(a + t) == t,
    decreases a.len(),
{
    let w = a + t;
    if a.len() > 0 {
        assert(w[0] == a[0]);
        assert(w.skip(1) =~= a.skip(1) + t);
        assert forall|i: int| 0 <= i < a.skip(1).len() implies is_space(#[trigger] a.skip(1)[i]) by {
            assert(a.skip(1)[i] == a[i + 1]);
        }
        lemma_trim_front_of(a.skip(1), t);
    } else {
        assert(w =~= t);
    }
}

proof fn lemma_trim_back_of(t: Seq<char>, b: Seq<char>)
    requires
        all_space(b),
        t.len() > 0 ==> !is_space(t.last()),
    ensures
        trim_back(t + b) == t,
    decreases b.len(),
{
    let w = t + b;
    if b.len() > 0 {
        assert(w.last() == b.last());
        assert(w.drop_last() =~= t + b.drop_last());
        assert forall|i: int| 0 <= i < b.drop_last().len() implies is_space(
            #[trigger] b.drop_last()[i],
        ) by {
            assert(b.drop_last()[i] == b[i]);
        }
        lemma_trim_back_of(t, b.drop_last());
    } else {
        assert(w =~= t);
    }
}

/// White space around a text that neither starts nor ends with it is trimmed away.
pub proof fn law_trimmed_of_padded(a: Seq<char>, t: Seq<char>, b: Seq<char>)
    requires
        all_space(a),
        all_space(b),
        t.len() > 0,
        !is_space(t[0]),
        !is_space(t.last()),
    ensures
        trimmed(a + t + b) == t,
{
    assert(a + t + b =~= a + (t + b));
    assert((t + b)[0] == t[0]);
    lemma_trim_front_of(a, t + b);
    lemma_trim_back_of(t, b);
}

/// Blanks, tabs and line ends are white space; visible ASCII characters are not.
pub proof fn law_ascii_space(c: char)
    requires
        (c as u32) < 128,
    ensures
        is_space(c) <==> c == ' ' || ('\t' <= c <= '\r'),
{
}

/// Stripping takes off the run of one character at the end, all of it and no more.
pub proof fn law_stripping_takes_the_run(s: Seq<char>, c: char)
    ensures
        ({
            let t = without_trailing(s, c);
            &&& t.len() <= s.len()
            &&& t == s.take(t.len() as int)
            &&& t.len() > 0 ==> t.last() != c
            &&& forall|i: int| t.len() <= i < s.len() ==> (#[trigger] s[i]) == c
        }),
    decreases s.len(),
{
    if s.len() > 0 && s.last() == c {
        law_stripping_takes_the_run(s.drop_last(), c);
        let t = without_trailing(s, c);
        assert(s.drop_last().take(t.len() as int) =~= s.take(t.len() as int));
        assert forall|i: int| t.len() <= i < s.len() implies (#[trigger] s[i]) == c by {
            if i < s.len() - 1 {
                assert(s.drop_last()[i] == s[i]);
            }
        }
    } else {
        assert(s.take(s.len() as int) =~= s);
    }
}

/// Cutting keeps what comes before the first `c`, or everything if there is none.
pub proof fn law_cut_before_first(s: Seq<char>, c: char)
    ensures
        ({
            let t = up_to(s, c);
            &&& t.len() <= s.len()
            &&& t == s.take(t.len() as int)
            &&& !t.contains(c)
            &&& t.len() < s.len() ==> s[t.len() as int] == c
        }),
    decreases s.len(),
{
    if s.len() > 0 && s[0] != c {
        law_cut_before_first(s.skip(1), c);
        let t = up_to(s, c);
        let r = up_to(s.skip(1), c);
        assert(t =~= s.take(t.len() as int)) by {
            assert forall|i: int| 0 <= i < t.len() implies t[i] == s[i] by {
                if i > 0 {
                    assert(t[i] == r[i - 1]);
                    assert(r[i - 1] == s.skip(1).take(r.len() as int)[i - 1]);
                }
            }
        }
        assert forall|i: int| 0 <= i < t.len() implies t[i] != c by {
            if i > 0 {
                assert(t[i] == r[i - 1]);
                assert(r.contains(r[i - 1]));
            }
        }
        if t.len() < s.len() {
            assert(s[t.len() as int] == s.skip(1)[r.len() as int]);
        }
    } else {
        assert(up_to(s, c) =~= s.take(0));
    }
}

/// Clipping keeps at most so many characters, and the first ones.
pub proof fn law_clipped(s: Seq<char>, n: nat)
    ensures
        first_chars(s, n).len() == (if s.len() <= n { s.len() } else { n }),
        forall|i: int| 0 <= i < first_chars(s, n).len() ==> (#[trigger] first_chars(s, n)[i]) == s[i],
{
}

/// Lines hold no line end, and joined by line ends they are the text again.
pub proof fn law_lines_join_again(s: Seq<char>)
    ensures
        lines_of(s).len() > 0,
        joined(lines_of(s), seq!['\n']) == s,
        forall|i: int| 0 <= i < lines_of(s).len() ==> !(#[trigger] lines_of(s)[i]).contains('\n'),
    decreases s.len(),
{
    if s.len() > 0 {
        let head = lines_of(s.drop_last());
        law_lines_join_again(s.drop_last());
        let all = lines_of(s);
        let n = all.len() as int;
        let nl = seq!['\n'];
        if s.last() == '\n' {
            assert(all.drop_last() =~= head);
            assert(joined(all, nl) =~= s) by {
                assert(joined(head, nl) + nl + Seq::<char>::empty() =~= s);
            }
            assert forall|i: int| 0 <= i < all.len() implies !(#[trigger] all[i]).contains('\n') by {
                if i < n - 1 {
                    assert(all[i] == head[i]);
                } else {
                    assert(all[i] =~= Seq::<char>::empty());
                }
            }
        } else {
            assert(all.drop_last() =~= head.drop_last());
            assert(all.last() =~= head.last().push(s.last()));
            if head.len() == 1 {
                assert(joined(all, nl) == all[0]);
                assert(joined(head, nl) == head[0]);
                assert(all[0] =~= s);
            } else {
                assert(joined(all, nl) =~= joined(head, nl).push(s.last()));
                assert(joined(all, nl) =~= s);
            }
            assert forall|i: int| 0 <= i < all.len() implies !(#[trigger] all[i]).contains('\n') by {
                if i < n - 1 {
                    assert(all[i] == head[i]);
                } else {
                    assert(!head[n - 1].contains('\n'));
                    assert forall|j: int| 0 <= j < all[i].len() implies all[i][j] != '\n' by {
                        if j < all[i].len() - 1 {
                            assert(all[i][j] == head[n - 1][j]);
                            assert(head[n - 1].contains(head[n - 1][j]));
                        }
                    }
                }
            }
        }
    } else {
        assert(lines_of(s)[0] =~= Seq::<char>::empty());
        assert(s =~= Seq::<char>::empty());
    }
}

/// Every line that holds more than white space is there, trimmed, and nothing else is.
pub proof fn law_filled_lines(lines: Seq<Seq<char>>, t: Seq<char>)
    ensures
        filled_lines_backwards(lines).contains(t) <==> t.len() > 0 && exists|i: int|
            0 <= i < lines.len() && t == trimmed(#[trigger] lines[i]),
    decreases lines.len(),
{
    if lines.len() > 0 {
        let head = lines.drop_last();
        let line = trimmed(lines.last());
        let rest = filled_lines_backwards(head);
        let all = filled_lines_backwards(lines);
        law_filled_lines(head, t);
        if all.contains(t) {
            let k = choose|k: int| 0 <= k < all.len() && all[k] == t;
            if line.len() > 0 {
                if k == 0 {
                    assert(t == trimmed(lines[lines.len() - 1]));
                } else {
                    assert(rest[k - 1] == t);
                    assert(rest.contains(t));
                }
            }
            if rest.contains(t) {
                let i = choose|i: int| 0 <= i < head.len() && t == trimmed(#[trigger] head[i]);
                assert(t == trimmed(lines[i]));
            }
        }
        if t.len() > 0 && exists|i: int| 0 <= i < lines.len() && t == trimmed(#[trigger] lines[i]) {
            let i = choose|i: int| 0 <= i < lines.len() && t == trimmed(#[trigger] lines[i]);
            if i < lines.len() - 1 {
                assert(head[i] == lines[i]);
                assert(rest.contains(t));
                let k = choose|k: int| 0 <= k < rest.len() && rest[k] == t;
                if line.len() > 0 {
                    assert(all[k + 1] == t);
                } else {
                    assert(all[k] == t);
                }
            } else {
                assert(all[0] == t);
            }
        }
    }
}

/// Later lines come before earlier ones.
pub proof fn law_last_line_comes_first(lines: Seq<Seq<char>>, more: Seq<Seq<char>>)
    ensures
        filled_lines_backwards(lines + more) == filled_lines_backwards(more)
            + filled_lines_backwards(lines),
    decreases more.len(),
{
    let all = lines + more;
    if more.len() > 0 {
        assert(all.drop_last() =~= lines + more.drop_last());
        assert(all.last() == more.last());
        law_last_line_comes_first(lines, more.drop_last());
        assert(filled_lines_backwards(all) =~= filled_lines_backwards(more)
            + filled_lines_backwards(lines));
    } else {
        assert(all =~= lines);
        assert(filled_lines_backwards(all) =~= filled_lines_backwards(more)
            + filled_lines_backwards(lines));
    }
}

/// One text is itself when joined; two are joined with the separator between them.
pub proof fn law_joined(parts: Seq<Seq<char>>, last: Seq<char>, sep: Seq<char>)
    ensures
        joined(seq![last], sep) == last,
        parts.len() > 0 ==> joined(parts.push(last), sep) == joined(parts, sep) + sep + last,
        joined(Seq::<Seq<char>>::empty(), sep) == Seq::<char>::empty(),
{
    assert(parts.push(last).drop_last() =~= parts);
}

/// The first occurrence of a pattern gives way, and so do those after it.
pub proof fn law_replace_first(a: Seq<char>, pat: Seq<char>, b: Seq<char>, with: Seq<char>)
    requires
        pat.len() > 0,
        !a.contains(pat[0]),
    ensures
        replaced(a + pat + b, pat, with) == a + with + replaced(b, pat, with),
    decreases a.len(),
{
    let w = a + pat + b;
    if a.len() > 0 {
        assert(w[0] == a[0]);
        assert(a.contains(a[0]));
        assert(!starts(w, pat)) by {
            if starts(w, pat) {
                assert(w.take(pat.len() as int)[0] == pat[0]);
            }
        }
        assert(w.skip(1) =~= a.skip(1) + pat + b);
        assert forall|i: int| 0 <= i < a.skip(1).len() implies a.skip(1)[i] != pat[0] by {
            assert(a.contains(a[i + 1]));
        }
        law_replace_first(a.skip(1), pat, b, with);
        assert(seq![a[0]] + (a.skip(1) + with + replaced(b, pat, with)) =~= a + with + replaced(
            b,
            pat,
            with,
        ));
    } else {
        assert(w.take(pat.len() as int) =~= pat);
        assert(w.skip(pat.len() as int) =~= b);
        assert(with + replaced(b, pat, with) =~= a + with + replaced(b, pat, with));
    }
}

/// A text in which the first character of the pattern does not occur is left as it is.
pub proof fn law_replace_without_start(s: Seq<char>, pat: Seq<char>, with: Seq<char>)
    requires
        pat.len() > 0,
        !s.contains(pat[0]),
    ensures
        replaced(s, pat, with) == s,
{
    assert forall|i: int| 0 <= i <= s.len() implies !starts(#[trigger] s.skip(i), pat) by {
        if starts(s.skip(i), pat) {
            assert(s.skip(i).take(pat.len() as int)[0] == s[i]);
            assert(s.contains(s[i]));
        }
    }
    law_replace_absent(s, pat, with);
}

/// The leftmost occurrence of a pattern gives way, and what comes before it stays.
pub proof fn law_replace_leftmost(a: Seq<char>, pat: Seq<char>, b: Seq<char>, with: Seq<char>)
    requires
        pat.len() > 0,
        forall|i: int| 0 <= i < a.len() ==> !starts(#[trigger] (a + pat + b).skip(i), pat),
    ensures
        replaced(a + pat + b, pat, with) == a + with + replaced(b, pat, with),
    decreases a.len(),
{
    let w = a + pat + b;
    if a.len() > 0 {
        assert(w.skip(0) =~= w);
        let r = a.skip(1) + pat + b;
        assert(w.skip(1) =~= r);
        assert forall|i: int| 0 <= i < a.skip(1).len() implies !starts(#[trigger] r.skip(i), pat) by {
            assert(r.skip(i) =~= w.skip(i + 1));
        }
        law_replace_leftmost(a.skip(1), pat, b, with);
        assert(seq![a[0]] + (a.skip(1) + with + replaced(b, pat, with)) =~= a + with + replaced(
            b,
            pat,
            with,
        ));
    } else {
        assert(w.take(pat.len() as int) =~= pat);
        assert(w.skip(pat.len() as int) =~= b);
        assert(with + replaced(b, pat, with) =~= a + with + replaced(b, pat, with));
    }
}

/// A text starts with a pattern just if it is the pattern and something more, or nothing.
pub proof fn law_starts(s: Seq<char>, pat: Seq<char>)
    ensures
        starts(s, pat) <==> exists|rest: Seq<char>| s == #[trigger] (pat + rest),
{
    if starts(s, pat) {
        let rest = s.skip(pat.len() as int);
        assert(s =~= pat + rest);
    }
    if exists|rest: Seq<char>| s == #[trigger] (pat + rest) {
        let rest = choose|rest: Seq<char>| s == #[trigger] (pat + rest);
        assert(s.take(pat.len() as int) =~= pat);
    }
}

} // verus!
