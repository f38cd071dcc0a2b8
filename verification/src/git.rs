//! Reading what git prints: branch lists, the current branch and the root of
//! the repository. Running git is left to the caller; the functions here
//! take its output as text.

use vstd::prelude::*;
use crate::error::GgoError;
use crate::text::{chars_of, string_of, texts};

verus! {

/// Whether a character is whitespace: one of the code points to which
/// Unicode gives the property `White_Space`.
pub open spec fn is_whitespace(c: char) -> bool {
    let code = c as u32;
    ||| 0x09 <= code <= 0x0d
    ||| code == 0x20
    ||| code == 0x85
    ||| code == 0xa0
    ||| code == 0x1680
    ||| 0x2000 <= code <= 0x200a
    ||| code == 0x2028
    ||| code == 0x2029
    ||| code == 0x202f
    ||| code == 0x205f
    ||| code == 0x3000
}

/// Whether a character is whitespace.
pub fn char_is_whitespace(c: char) -> (yes: bool)
    ensures
        yes == is_whitespace(c),
{
    let code: u32 = c as u32;
    (0x09 <= code && code <= 0x0d) || code == 0x20 || code == 0x85 || code == 0xa0 || code
        == 0x1680 || (0x2000 <= code && code <= 0x200a) || code == 0x2028 || code == 0x2029
        || code == 0x202f || code == 0x205f || code == 0x3000
}

/// Whether `c` is the mark that git puts before the current branch.
pub open spec fn is_star(c: char) -> bool {
    c == '*'
}

/// How many characters at the start of `s` satisfy `skip`.
pub open spec fn leading(s: Seq<char>, skip: spec_fn(char) -> bool) -> nat
    decreases s.len(),
{
    if s.len() > 0 && skip(s[0]) {
        1 + leading(s.drop_first(), skip)
    } else {
        0
    }
}

/// How many characters at the end of `s` satisfy `skip`.
pub open spec fn trailing(s: Seq<char>, skip: spec_fn(char) -> bool) -> nat
    decreases s.len(),
{
    if s.len() > 0 && skip(s.last()) {
        1 + trailing(s.drop_last(), skip)
    } else {
        0
    }
}

/// `s` without the characters at its start that satisfy `skip`.
pub open spec fn without_leading(s: Seq<char>, skip: spec_fn(char) -> bool) -> Seq<char> {
    s.skip(leading(s, skip) as int)
}

/// `s` without the characters at its end that satisfy `skip`.
pub open spec fn without_trailing(s: Seq<char>, skip: spec_fn(char) -> bool) -> Seq<char> {
    s.take(s.len() - trailing(s, skip))
}

/// `s` without whitespace at its start and at its end.
pub open spec fn trimmed(s: Seq<char>) -> Seq<char> {
    without_trailing(without_leading(s, |c: char| is_whitespace(c)), |c: char| is_whitespace(c))
}

/// The branch name on one line of a branch list: the line without the
/// whitespace around it and without the mark of the current branch.
pub open spec fn branch_of_line(line: Seq<char>) -> Seq<char> {
    trimmed(without_leading(trimmed(line), |c: char| is_star(c)))
}

/// The branch names on the lines of a branch list.
pub open spec fn branches_of_lines(lines: Seq<Seq<char>>) -> Seq<Seq<char>> {
    lines.map_values(|line: Seq<char>| branch_of_line(line))
}

/// The report for a repository that is on no branch.
pub open spec fn detached_head() -> Seq<char> {
    "Not on a branch (detached HEAD)"@
}

/// Where the first `count` characters satisfy `skip`, the count of leading
/// ones is `count` plus that of the rest.
proof fn lemma_leading_prefix(s: Seq<char>, skip: spec_fn(char) -> bool, count: int)
    requires
        0 <= count <= s.len(),
        forall|i: int| 0 <= i < count ==> skip(#[trigger] s[i]),
    ensures
        leading(s, skip) == count + leading(s.skip(count), skip),
    decreases count,
{
    if count == 0 {
        assert(s.skip(0) =~= s);
    } else {
        let rest = s.drop_first();
        assert forall|i: int| 0 <= i < count - 1 implies skip(#[trigger] rest[i]) by {
            assert(rest[i] == s[i + 1]);
        }
        lemma_leading_prefix(rest, skip, count - 1);
        assert(rest.skip(count - 1) =~= s.skip(count));
    }
}

/// Where the last `count` characters satisfy `skip`, the count of trailing
/// ones is `count` plus that of the rest.
proof fn lemma_trailing_suffix(s: Seq<char>, skip: spec_fn(char) -> bool, count: int)
    requires
        0 <= count <= s.len(),
        forall|i: int| s.len() - count <= i < s.len() ==> skip(#[trigger] s[i]),
    ensures
        trailing(s, skip) == count + trailing(s.take(s.len() - count), skip),
    decreases count,
{
    if count == 0 {
        assert(s.take(s.len() as int) =~= s);
    } else {
        let rest = s.drop_last();
        assert forall|i: int| rest.len() - (count - 1) <= i < rest.len() implies skip(
            #[trigger] rest[i],
        ) by {
            assert(rest[i] == s[i]);
        }
        lemma_trailing_suffix(rest, skip, count - 1);
        assert(rest.take(rest.len() - (count - 1)) =~= s.take(s.len() - count));
    }
}

/// The characters of `chars` from `from` up to `to`.
fn slice_of(chars: &Vec<char>, from: usize, to: usize) -> (out: Vec<char>)
    requires
        from <= to <= chars@.len(),
    ensures
        out@ == chars@.subrange(from as int, to as int),
{
    let mut out: Vec<char> = Vec::new();
    let mut i: usize = from;
    while i < to
        invariant
            from <= i <= to,
            to <= chars@.len(),
            out@ == chars@.subrange(from as int, i as int),
        decreases to - i,
    {
        out.push(chars[i]);
        proof {
            assert(chars@.subrange(from as int, i as int).push(chars@[i as int])
                =~= chars@.subrange(from as int, i + 1));
        }
        i += 1;
    }
    out
}

/// Removes the whitespace at the start and at the end, as `str::trim` does.
pub fn trim(chars: &Vec<char>) -> (out: Vec<char>)
    ensures
        out@ == trimmed(chars@),
{
    let ghost ws = |c: char| is_whitespace(c);
    let n: usize = chars.len();
    let mut start: usize = 0;
    while start < n && char_is_whitespace(chars[start])
        invariant
            n == chars@.len(),
            start <= n,
            forall|i: int| 0 <= i < start ==> is_whitespace(#[trigger] chars@[i]),
        decreases n - start,
    {
        start += 1;
    }
    let mut end: usize = n;
    while end > start && char_is_whitespace(chars[end - 1])
        invariant
            n == chars@.len(),
            start <= end <= n,
            forall|i: int| end <= i < n ==> is_whitespace(#[trigger] chars@[i]),
        decreases end,
    {
        end -= 1;
    }
    proof {
        lemma_leading_prefix(chars@, ws, start as int);
        let rest = chars@.skip(start as int);
        if start < n {
            assert(rest[0] == chars@[start as int]);
            assert(!ws(rest[0]));
        }
        assert(leading(rest, ws) == 0);
        assert(without_leading(chars@, ws) == rest);
        assert forall|i: int| rest.len() - (n - end) <= i < rest.len() implies ws(
            #[trigger] rest[i],
        ) by {
            assert(rest[i] == chars@[i + start]);
        }
        lemma_trailing_suffix(rest, ws, n - end);
        let kept = rest.take(rest.len() - (n - end));
        if end > start {
            assert(kept.last() == chars@[end - 1]);
            assert(!ws(kept.last()));
        }
        assert(trailing(kept, ws) == 0);
        assert(kept =~= chars@.subrange(start as int, end as int));
    }
    slice_of(chars, start, end)
}

/// Removes the marks of the current branch at the start.
fn strip_stars(chars: &Vec<char>) -> (out: Vec<char>)
    ensures
        out@ == without_leading(chars@, |c: char| is_star(c)),
{
    let ghost star = |c: char| is_star(c);
    let n: usize = chars.len();
    let mut start: usize = 0;
    while start < n && chars[start] == '*'
        invariant
            n == chars@.len(),
            start <= n,
            forall|i: int| 0 <= i < start ==> is_star(#[trigger] chars@[i]),
        decreases n - start,
    {
        start += 1;
    }
    proof {
        lemma_leading_prefix(chars@, star, start as int);
        let rest = chars@.skip(start as int);
        if start < n {
            assert(rest[0] == chars@[start as int]);
            assert(!star(rest[0]));
        }
        assert(leading(rest, star) == 0);
        assert(rest =~= chars@.subrange(start as int, n as int));
    }
    slice_of(chars, start, n)
}

/// The branch name on one line of what `git branch` prints.
pub fn parse_branch_line(line: &str) -> (branch: String)
    ensures
        branch@ == branch_of_line(line@),
{
    let chars = chars_of(line);
    let outer = trim(&chars);
    let unmarked = strip_stars(&outer);
    let inner = trim(&unmarked);
    string_of(&inner)
}

/// The branch names on the lines of what `git branch` prints, in order.
pub fn parse_branch_lines(lines: &[String]) -> (branches: Vec<String>)
    ensures
        texts(branches@) == branches_of_lines(texts(lines@)),
{
    let mut branches: Vec<String> = Vec::new();
    let mut i: usize = 0;
    while i < lines.len()
        invariant
            i <= lines@.len(),
            branches@.len() == i,
            forall|q: int| 0 <= q < i ==> (#[trigger] branches@[q])@ == branch_of_line(lines@[q]@),
        decreases lines@.len() - i,
    {
        branches.push(parse_branch_line(lines[i].as_str()));
        i += 1;
    }
    proof {
        assert(texts(branches@) =~= branches_of_lines(texts(lines@)));
    }
    branches
}

/// The text that git printed, without the whitespace around it.
pub fn parse_output(output: &str) -> (value: String)
    ensures
        value@ == trimmed(output@),
{
    let chars = chars_of(output);
    let inner = trim(&chars);
    string_of(&inner)
}

/// The current branch from what `git branch --show-current` prints: the
/// text without the whitespace around it, and an error if nothing is left,
/// as on a detached head.
pub fn parse_current_branch(output: &str) -> (branch: Result<String, GgoError>)
    ensures
        trimmed(output@).len() > 0 ==> (branch matches Ok(name) && name@ == trimmed(output@)),
        trimmed(output@).len() == 0 ==> (branch matches Err(GgoError::Other(words)) && words@
            == detached_head()),
{
    let name = parse_output(output);
    if name.as_str().unicode_len() == 0 {
        Err(GgoError::Other("Not on a branch (detached HEAD)".to_owned()))
    } else {
        Ok(name)
    }
}

} // verus!
