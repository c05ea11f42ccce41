//! Operations on text as sequences of characters.

use vstd::prelude::*;
use vstd::string::StrSliceExecFns;
use vstd::string::StringExecFns;

verus! {

/// Whether `needle` stands in `hay` at position `at`.
pub open spec fn occurs_at(hay: Seq<char>, needle: Seq<char>, at: int) -> bool {
    &&& 0 <= at
    &&& at + needle.len() <= hay.len()
    &&& hay.subrange(at, at + needle.len()) == needle
}

/// Whether `needle` stands somewhere in `hay`.
pub open spec fn contains_text(hay: Seq<char>, needle: Seq<char>) -> bool {
    exists|at: int| occurs_at(hay, needle, at)
}

/// `hay` with every occurrence of `needle` taken out, found from the left
/// and without overlap. An empty `needle` takes nothing out.
pub open spec fn without_all(hay: Seq<char>, needle: Seq<char>) -> Seq<char>
    decreases hay.len(),
{
    if needle.len() == 0 || hay.len() < needle.len() {
        hay
    } else if hay.take(needle.len() as int) == needle {
        without_all(hay.skip(needle.len() as int), needle)
    } else {
        seq![hay[0]] + without_all(hay.skip(1), needle)
    }
}

/// The number of characters of `s` before its first line feed, or all of
/// them where it holds none.
pub open spec fn line_len(s: Seq<char>) -> nat
    decreases s.len(),
{
    if s.len() == 0 || s[0] == '\n' {
        0
    } else {
        1 + line_len(s.skip(1))
    }
}

/// `line` without the carriage return at its end, if it ends in one.
pub open spec fn without_return(line: Seq<char>) -> Seq<char> {
    if line.len() > 0 && line.last() == '\r' {
        line.drop_last()
    } else {
        line
    }
}

/// The lines of `s`. A line ends at a line feed, and a carriage return just
/// before the line feed goes with it. What follows the last line feed is a
/// line too, unless it is empty.
pub open spec fn lines_of(s: Seq<char>) -> Seq<Seq<char>>
    decreases s.len(),
{
    if s.len() == 0 {
        Seq::empty()
    } else {
        let n = line_len(s);
        if n >= s.len() {
            seq![s]
        } else {
            seq![without_return(s.take(n as int))] + lines_of(s.skip(n as int + 1))
        }
    }
}

/// `lines` put together, with a line feed between one and the next.
pub open spec fn join_lines(lines: Seq<Seq<char>>) -> Seq<char>
    decreases lines.len(),
{
    if lines.len() == 0 {
        Seq::empty()
    } else if lines.len() == 1 {
        lines[0]
    } else {
        join_lines(lines.drop_last()) + seq!['\n'] + lines.last()
    }
}

/// A stretch without a line feed that ends at a line feed, or at the end
/// of `s`, is the first line of `s`.
pub proof fn lemma_line_len(s: Seq<char>, n: int)
    requires
        0 <= n <= s.len(),
        forall|j: int| 0 <= j < n ==> s[j] != '\n',
        n == s.len() || s[n] == '\n',
    ensures
        line_len(s) == n,
    decreases n,
{
    if n > 0 {
        lemma_line_len(s.skip(1), n - 1);
    }
}

/// The characters of `s`, in order.
pub fn chars_of(s: &str) -> (chars: Vec<char>)
    ensures
        chars@ == s@,
{
    let mut chars: Vec<char> = Vec::new();
    for c in it: s.chars()
        invariant
            chars@ == s@.take(it.index() as int),
            it.seq() == s@,
    {
        chars.push(c);
    }
    chars
}

/// Whether `a` and `b` are the same text.
pub fn same_text(a: &str, b: &str) -> (same: bool)
    ensures
        same == (a@ == b@),
{
    let left = chars_of(a);
    let right = chars_of(b);
    if left.len() != right.len() {
        return false;
    }
    let found = matches_at(&left, &right, 0);
    assert(a@.subrange(0, b@.len() as int) =~= a@);
    found
}

/// Whether `needle` stands in `hay` at position `at`.
pub fn matches_at(hay: &Vec<char>, needle: &Vec<char>, at: usize) -> (found: bool)
    requires
        at + needle.len() <= hay.len(),
    ensures
        found == occurs_at(hay@, needle@, at as int),
{
    let mut k: usize = 0;
    while k < needle.len()
        invariant
            k <= needle.len(),
            at + needle.len() <= hay.len(),
            forall|j: int| 0 <= j < k ==> hay@[at + j] == needle@[j],
        decreases needle.len() - k,
    {
        if hay[at + k] != needle[k] {
            assert(hay@.subrange(at as int, at + needle.len())[k as int] == hay@[at + k]);
            return false;
        }
        k += 1;
    }
    assert(hay@.subrange(at as int, at + needle.len()) =~= needle@);
    true
}

/// Whether `needle` stands somewhere in `hay`.
pub fn contains(hay: &str, needle: &str) -> (found: bool)
    ensures
        found == contains_text(hay@, needle@),
{
    let chars = chars_of(hay);
    let pattern = chars_of(needle);
    if pattern.len() > chars.len() {
        return false;
    }
    if pattern.len() == 0 {
        assert(hay@.subrange(0, 0) =~= needle@);
        assert(occurs_at(hay@, needle@, 0));
        return true;
    }
    let mut at: usize = 0;
    while chars.len() - at >= pattern.len()
        invariant
            at <= chars.len(),
            chars@ == hay@,
            pattern@ == needle@,
            0 < pattern.len() <= chars.len(),
            forall|j: int| 0 <= j < at ==> !occurs_at(hay@, needle@, j),
        decreases chars.len() - at,
    {
        if matches_at(&chars, &pattern, at) {
            return true;
        }
        at += 1;
    }
    false
}

/// `hay` with every occurrence of `needle` taken out.
pub fn remove_all(hay: &str, needle: &str) -> (rest: String)
    ensures
        rest@ == without_all(hay@, needle@),
{
    let chars = chars_of(hay);
    let pattern = chars_of(needle);
    let mut rest = String::new();
    if pattern.len() == 0 {
        rest.append(hay);
        return rest;
    }
    let mut at: usize = 0;
    assert(hay@.skip(0) =~= hay@);
    assert(rest@ + hay@ =~= hay@);
    while at < chars.len()
        invariant
            at <= chars.len(),
            chars@ == hay@,
            pattern@ == needle@,
            pattern.len() > 0,
            rest@ + without_all(hay@.skip(at as int), needle@) == without_all(hay@, needle@),
        decreases chars.len() - at,
    {
        let ghost tail = hay@.skip(at as int);
        if chars.len() - at < pattern.len() {
            let ghost before = rest@;
            rest.append(hay.substring_char(at, chars.len()));
            proof {
                assert(hay@.subrange(at as int, chars.len() as int) =~= tail);
                assert(hay@.skip(chars.len() as int) =~= Seq::<char>::empty());
                assert(rest@ + Seq::<char>::empty() =~= before + tail);
            }
            at = chars.len();
        } else if matches_at(&chars, &pattern, at) {
            proof {
                assert(tail.take(pattern.len() as int) =~= hay@.subrange(
                    at as int,
                    at + pattern.len(),
                ));
                assert(tail.skip(pattern.len() as int) =~= hay@.skip(at + pattern.len()));
            }
            at += pattern.len();
        } else {
            let ghost before = rest@;
            rest.append(hay.substring_char(at, at + 1));
            proof {
                assert(tail.take(pattern.len() as int) =~= hay@.subrange(
                    at as int,
                    at + pattern.len(),
                ));
                assert(tail.skip(1) =~= hay@.skip(at + 1));
                assert(hay@.subrange(at as int, at + 1) =~= seq![tail[0]]);
                assert(rest@ + without_all(hay@.skip(at + 1), needle@) =~= before + without_all(
                    tail,
                    needle@,
                ));
            }
            at += 1;
        }
    }
    assert(hay@.skip(at as int) =~= Seq::<char>::empty());
    assert(rest@ + Seq::<char>::empty() =~= rest@);
    rest
}

/// The lines of `text`, in order.
pub fn lines(text: &str) -> (all: Vec<String>)
    ensures
        all@.map_values(|line: String| line@) == lines_of(text@),
{
    let chars = chars_of(text);
    let mut all: Vec<String> = Vec::new();
    let mut start: usize = 0;
    assert(text@.skip(0) =~= text@);
    assert(all@.map_values(|line: String| line@) + lines_of(text@) =~= lines_of(text@));
    while start < chars.len()
        invariant
            start <= chars.len(),
            chars@ == text@,
            all@.map_values(|line: String| line@) + lines_of(text@.skip(start as int)) == lines_of(
                text@,
            ),
        decreases chars.len() - start,
    {
        let ghost tail = text@.skip(start as int);
        let ghost before = all@.map_values(|line: String| line@);
        let mut end: usize = start;
        while end < chars.len() && chars[end] != '\n'
            invariant
                start <= end <= chars.len(),
                chars@ == text@,
                forall|j: int| start <= j < end ==> chars@[j] != '\n',
            decreases chars.len() - end,
        {
            end += 1;
        }
        proof {
            lemma_line_len(tail, end - start);
            assert(tail.take(end - start) =~= text@.subrange(start as int, end as int));
        }
        if end == chars.len() {
            all.push(String::from_str(text.substring_char(start, end)));
            proof {
                assert(text@.subrange(start as int, end as int) =~= tail);
                assert(text@.skip(end as int) =~= Seq::<char>::empty());
                assert(all@.map_values(|line: String| line@) =~= before.push(tail));
                assert(before.push(tail) + Seq::<Seq<char>>::empty() =~= before + seq![tail]);
            }
            start = end;
        } else {
            let cut: usize = if end > start && chars[end - 1] == '\r' {
                end - 1
            } else {
                end
            };
            all.push(String::from_str(text.substring_char(start, cut)));
            proof {
                let line = text@.subrange(start as int, end as int);
                let cleaned = without_return(line);
                assert(text@.subrange(start as int, cut as int) =~= cleaned);
                assert(tail.skip(end - start + 1) =~= text@.skip(end + 1));
                assert(all@.map_values(|line: String| line@) =~= before.push(cleaned));
                assert(before.push(cleaned) + lines_of(text@.skip(end + 1)) =~= before + (
                seq![cleaned] + lines_of(text@.skip(end + 1))));
            }
            start = end + 1;
        }
    }
    assert(text@.skip(start as int) =~= Seq::<char>::empty());
    assert(all@.map_values(|line: String| line@) + Seq::<Seq<char>>::empty() =~= all@.map_values(
        |line: String| line@,
    ));
    all
}

} // verus!
