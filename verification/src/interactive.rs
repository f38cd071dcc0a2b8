//! What the interactive menu shows: one option for each candidate branch,
//! with its score and usage, and the line of text that presents it.

use vstd::prelude::*;
use crate::frecency::{
    format_relative_time, frecency_ranking, relative_time, sort_branches_by_frecency,
    ScoredBranch,
};
use crate::order::pair_views;
use crate::text::{chars_of, decimal, decimal_chars, string_of, texts};

verus! {

/// A branch as the menu offers it.
#[derive(Debug, Clone)]
pub struct BranchOption {
    pub name: String,
    pub score: i64,
    pub switch_count: i64,
    pub last_used: Option<i64>,
}

/// `s` cut to at most `max_len` characters: unchanged if it fits, else its
/// first `max_len - 3` characters (none if `max_len` is below three)
/// followed by three dots.
pub open spec fn truncated(s: Seq<char>, max_len: int) -> Seq<char> {
    if s.len() <= max_len {
        s
    } else {
        s.take(
            if max_len >= 3 {
                max_len - 3
            } else {
                0
            },
        ) + seq!['.', '.', '.']
    }
}

/// `s` followed by spaces up to a width of `width` characters.
pub open spec fn padded_right(s: Seq<char>, width: int) -> Seq<char> {
    if s.len() >= width {
        s
    } else {
        s + Seq::new((width - s.len()) as nat, |i: int| ' ')
    }
}

/// `s` preceded by spaces up to a width of `width` characters.
pub open spec fn padded_left(s: Seq<char>, width: int) -> Seq<char> {
    if s.len() >= width {
        s
    } else {
        Seq::new((width - s.len()) as nat, |i: int| ' ') + s
    }
}

/// A score in millionths, rounded to tenths of a point.
pub open spec fn tenths(score: int) -> int {
    (score + 50000) / 100000
}

/// How the menu words a score: the points with one decimal for a score
/// above zero, and `new` otherwise.
pub open spec fn score_words(score: int) -> Seq<char> {
    if score > 0 {
        "score: "@ + decimal(tenths(score) / 10) + seq!['.'] + decimal(tenths(score) % 10)
    } else {
        "new"@
    }
}

/// How the menu words a number of checkouts.
pub open spec fn usage_words(switch_count: int) -> Seq<char> {
    if switch_count > 0 {
        decimal(switch_count) + " switches"@
    } else {
        "never used"@
    }
}

/// How the menu words the time of last use, as seen at `now`.
pub open spec fn time_words(last_used: Option<i64>, now: int) -> Seq<char> {
    match last_used {
        Some(time) => relative_time(now - time),
        None => "never"@,
    }
}

/// The line of the menu for an option, as seen at `now`: the name in forty
/// columns, score and usage in twelve each, then the time of last use.
pub open spec fn option_line(option: BranchOption, now: int) -> Seq<char> {
    padded_right(truncated(option.name@, 40), 40) + " │ "@ + padded_left(
        score_words(option.score as int),
        12,
    ) + " │ "@ + padded_left(usage_words(option.switch_count as int), 12) + " │ "@ + time_words(
        option.last_used,
        now,
    )
}

/// The usage of the first of the scored branches from position `start` on
/// that carries `name`: its count and its time of last use.
pub open spec fn first_usage_from(scored: Seq<ScoredBranch>, name: Seq<char>, start: int)
    -> Option<(i64, i64)>
    decreases scored.len() - start,
{
    if start < 0 || start >= scored.len() {
        None
    } else if scored[start].name@ == name {
        Some((scored[start].switch_count, scored[start].last_used))
    } else {
        first_usage_from(scored, name, start + 1)
    }
}

/// Whether `option` offers the branch `name` with the score `score` and
/// the usage that the scored branches hold for it.
pub open spec fn offers(option: BranchOption, name: Seq<char>, score: i64, records: Seq<ScoredBranch>)
    -> bool {
    &&& option.name@ == name
    &&& option.score == score
    &&& match first_usage_from(records, name, 0) {
        Some(usage) => option.switch_count == usage.0 && option.last_used == Some(usage.1),
        None => option.switch_count == 0 && option.last_used is None,
    }
}

/// Cuts a string to at most `max_len` characters, ending in three dots
/// where something was cut off. Lengths count characters, not bytes.
pub fn truncate(s: &str, max_len: usize) -> (out: String)
    ensures
        out@ == truncated(s@, max_len as int),
{
    let chars = chars_of(s);
    if chars.len() <= max_len {
        return s.to_owned();
    }
    let keep: usize = if max_len >= 3 {
        max_len - 3
    } else {
        0
    };
    let mut out: Vec<char> = Vec::new();
    let mut i: usize = 0;
    while i < keep
        invariant
            i <= keep,
            keep <= chars@.len(),
            out@ == chars@.take(i as int),
        decreases keep - i,
    {
        out.push(chars[i]);
        proof {
            assert(chars@.take(i as int).push(chars@[i as int]) =~= chars@.take(i + 1));
        }
        i += 1;
    }
    out.push('.');
    out.push('.');
    out.push('.');
    proof {
        assert(out@ =~= chars@.take(keep as int) + seq!['.', '.', '.']);
    }
    string_of(&out)
}

/// Appends spaces to `out` until it has `count` more characters.
fn push_spaces(out: &mut Vec<char>, count: usize)
    ensures
        final(out)@ == old(out)@ + Seq::new(count as nat, |i: int| ' '),
{
    let mut i: usize = 0;
    proof {
        assert(out@ =~= old(out)@ + Seq::new(0, |i: int| ' '));
    }
    while i < count
        invariant
            i <= count,
            out@ == old(out)@ + Seq::new(i as nat, |i: int| ' '),
        decreases count - i,
    {
        out.push(' ');
        proof {
            assert(out@ =~= old(out)@ + Seq::new((i + 1) as nat, |i: int| ' '));
        }
        i += 1;
    }
}

/// Appends the characters of `s` to `out`.
fn push_all(out: &mut Vec<char>, s: &Vec<char>)
    ensures
        final(out)@ == old(out)@ + s@,
{
    let mut i: usize = 0;
    proof {
        assert(out@ =~= old(out)@ + s@.take(0));
    }
    while i < s.len()
        invariant
            i <= s@.len(),
            out@ == old(out)@ + s@.take(i as int),
        decreases s@.len() - i,
    {
        out.push(s[i]);
        proof {
            assert(out@ =~= old(out)@ + s@.take(i + 1));
        }
        i += 1;
    }
    proof {
        assert(s@.take(s@.len() as int) =~= s@);
    }
}

/// Appends `s` to `out`, followed by spaces up to `width` characters.
fn push_padded_right(out: &mut Vec<char>, s: &Vec<char>, width: usize)
    ensures
        final(out)@ == old(out)@ + padded_right(s@, width as int),
{
    push_all(out, s);
    if s.len() < width {
        push_spaces(out, width - s.len());
        proof {
            assert(final(out)@ =~= old(out)@ + padded_right(s@, width as int));
        }
    }
}

/// Appends `s` to `out`, preceded by spaces up to `width` characters.
fn push_padded_left(out: &mut Vec<char>, s: &Vec<char>, width: usize)
    ensures
        final(out)@ == old(out)@ + padded_left(s@, width as int),
{
    if s.len() < width {
        push_spaces(out, width - s.len());
    }
    push_all(out, s);
    proof {
        assert(final(out)@ =~= old(out)@ + padded_left(s@, width as int));
    }
}

/// Words a score for the menu.
pub fn score_text(score: i64) -> (words: Vec<char>)
    ensures
        words@ == score_words(score as int),
{
    if score > 0 {
        let rounded: i128 = (score as i128 + 50000) / 100000;
        let mut words = chars_of("score: ");
        let whole = decimal_chars((rounded / 10) as i64);
        let part = decimal_chars((rounded % 10) as i64);
        push_all(&mut words, &whole);
        words.push('.');
        push_all(&mut words, &part);
        proof {
            assert(words@ =~= score_words(score as int));
        }
        words
    } else {
        chars_of("new")
    }
}

/// Words a number of checkouts for the menu.
pub fn usage_text(switch_count: i64) -> (words: Vec<char>)
    ensures
        words@ == usage_words(switch_count as int),
{
    if switch_count > 0 {
        let mut words = decimal_chars(switch_count);
        let unit = chars_of(" switches");
        push_all(&mut words, &unit);
        words
    } else {
        chars_of("never used")
    }
}

impl BranchOption {
    /// The line of the menu for this option, as seen at `now`.
    pub fn label(&self, now: i64) -> (line: String)
        ensures
            line@ == option_line(*self, now as int),
    {
        let name = truncate(self.name.as_str(), 40);
        let name_chars = chars_of(name.as_str());
        let bar = chars_of(" │ ");
        let time = match self.last_used {
            Some(time) => format_relative_time(time, now),
            None => "never".to_owned(),
        };
        let time_chars = chars_of(time.as_str());
        let mut line: Vec<char> = Vec::new();
        push_padded_right(&mut line, &name_chars, 40);
        push_all(&mut line, &bar);
        let score = score_text(self.score);
        push_padded_left(&mut line, &score, 12);
        push_all(&mut line, &bar);
        let usage = usage_text(self.switch_count);
        push_padded_left(&mut line, &usage, 12);
        push_all(&mut line, &bar);
        push_all(&mut line, &time_chars);
        proof {
            assert(line@ =~= option_line(*self, now as int));
        }
        string_of(&line)
    }
}

/// The usage that the first scored branch with the name `name` holds.
fn first_usage(scored: &[ScoredBranch], name: &String) -> (usage: Option<(i64, i64)>)
    ensures
        usage == first_usage_from(scored@, name@, 0),
{
    let mut i: usize = 0;
    while i < scored.len()
        invariant
            i <= scored@.len(),
            first_usage_from(scored@, name@, 0) == first_usage_from(scored@, name@, i as int),
        decreases scored@.len() - i,
    {
        if scored[i].name == *name {
            return Some((scored[i].switch_count, scored[i].last_used));
        }
        i += 1;
    }
    None
}

/// The options of the menu for `branches`: one for each branch, the
/// highest frecency score first, each with the usage on record for it.
pub fn branch_options(branches: &[String], scored: &[ScoredBranch]) -> (options: Vec<BranchOption>)
    ensures
        options@.len() == branches@.len(),
        forall|p: int|
            0 <= p < options@.len() ==> offers(
                #[trigger] options@[p],
                frecency_ranking(texts(branches@), scored@)[p].0,
                frecency_ranking(texts(branches@), scored@)[p].1,
                scored@,
            ),
{
    let ranked = sort_branches_by_frecency(branches, scored);
    let mut options: Vec<BranchOption> = Vec::new();
    let mut p: usize = 0;
    proof {
        let target = frecency_ranking(texts(branches@), scored@);
        assert(pair_views(ranked@) == target);
        assert(target.len() == branches@.len());
        assert forall|q: int| 0 <= q < ranked@.len() implies (#[trigger] ranked@[q]).0@
            == target[q].0 && ranked@[q].1 == target[q].1 by {
            assert(pair_views(ranked@)[q] == (ranked@[q].0@, ranked@[q].1));
        }
    }
    while p < ranked.len()
        invariant
            p <= ranked@.len(),
            options@.len() == p,
            forall|q: int|
                0 <= q < p ==> offers(
                    #[trigger] options@[q],
                    ranked@[q].0@,
                    ranked@[q].1,
                    scored@,
                ),
        decreases ranked@.len() - p,
    {
        let name = &ranked[p].0;
        let usage = first_usage(scored, name);
        let option = match usage {
            Some(found) => BranchOption {
                name: name.clone(),
                score: ranked[p].1,
                switch_count: found.0,
                last_used: Some(found.1),
            },
            None => BranchOption {
                name: name.clone(),
                score: ranked[p].1,
                switch_count: 0,
                last_used: None,
            },
        };
        options.push(option);
        p += 1;
    }
    options
}

} // verus!
