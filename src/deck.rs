//! Deck lists: tallying significant lines in first-seen order, and turning
//! the tallied identifiers into records once their names are known.

use vstd::prelude::*;
use crate::record::{YdkRecord, texts};
use crate::schema::occurrences;

verus! {

/// What `char::is_numeric` answers for `c`.
pub uninterp spec fn numeric_char(c: char) -> bool;

/// Relies on `char::is_numeric`: whether the character is in one of
/// Unicode's number categories, which depends on the character alone.
#[verifier::external_body]
fn is_numeric(c: char) -> (r: bool)
    ensures
        r == numeric_char(c),
{
    c.is_numeric()
}

/// A line counts only when it starts with a numeric character.
pub open spec fn significant(line: Seq<char>) -> bool {
    line.len() > 0 && numeric_char(line[0])
}

/// The position of the first entry of `es` whose identifier is `id`, or -1.
pub open spec fn index_of(es: Seq<(Seq<char>, int)>, id: Seq<char>) -> int
    decreases es.len(),
{
    if es.len() == 0 {
        -1
    } else if index_of(es.drop_last(), id) >= 0 {
        index_of(es.drop_last(), id)
    } else if es.last().0 == id {
        es.len() - 1
    } else {
        -1
    }
}

/// The tally after one more line: a significant line already seen has its
/// count raised by one, a new one is appended with count one, any other
/// line changes nothing.
pub open spec fn add_line(es: Seq<(Seq<char>, int)>, line: Seq<char>) -> Seq<(Seq<char>, int)> {
    if !significant(line) {
        es
    } else if index_of(es, line) >= 0 {
        es.update(index_of(es, line), (line, es[index_of(es, line)].1 + 1))
    } else {
        es.push((line, 1))
    }
}

/// The tally of a deck list: each distinct significant line with the number
/// of times it occurs, in the order of first occurrence.
pub open spec fn tally(lines: Seq<Seq<char>>) -> Seq<(Seq<char>, int)>
    decreases lines.len(),
{
    if lines.len() == 0 {
        seq![]
    } else {
        add_line(tally(lines.drop_last()), lines.last())
    }
}

/// The identifiers and counts of deck-list entries.
pub open spec fn entries_view(v: Seq<YdkRecord>) -> Seq<(Seq<char>, int)> {
    v.map_values(|e: YdkRecord| (e.id@, e.count as int))
}

proof fn lemma_index_of_first(es: Seq<(Seq<char>, int)>, id: Seq<char>, j: int)
    requires
        -1 <= j < es.len(),
        j >= 0 ==> es[j].0 == id,
        forall|k: int| 0 <= k < es.len() && (j < 0 || k < j) ==> (#[trigger] es[k]).0 != id,
    ensures
        index_of(es, id) == j,
    decreases es.len(),
{
    if es.len() > 0 {
        if j == es.len() - 1 {
            lemma_index_of_first(es.drop_last(), id, -1);
        } else {
            lemma_index_of_first(es.drop_last(), id, j);
        }
    }
}

/// Tallies the lines of a deck list: one entry per distinct line that starts
/// with a numeric character, holding the whole line and how often it occurs,
/// in the order in which each line first occurs. Other lines are skipped.
pub fn tally_ydk_lines(lines: &Vec<String>) -> (r: Vec<YdkRecord>)
    requires
        lines@.len() <= i32::MAX,
    ensures
        entries_view(r@) == tally(texts(lines@)),
{
    let ghost ls = texts(lines@);
    let mut entries: Vec<YdkRecord> = Vec::new();
    let mut i: usize = 0;
    while i < lines.len()
        invariant
            i <= lines@.len() <= i32::MAX,
            ls == texts(lines@),
            entries_view(entries@) == tally(ls.take(i as int)),
            forall|k: int| 0 <= k < entries@.len() ==> 1 <= (#[trigger] entries@[k]).count <= i,
        decreases lines.len() - i,
    {
        let ghost es = entries_view(entries@);
        assert(ls.take(i as int + 1).drop_last() == ls.take(i as int));
        assert(ls.take(i as int + 1).last() == lines@[i as int]@);
        let line = &lines[i];
        let n = line.as_str().unicode_len();
        if n > 0 && is_numeric(line.as_str().get_char(0)) {
            let mut j: usize = 0;
            let mut found = false;
            while j < entries.len() && !found
                invariant
                    j <= entries@.len(),
                    es == entries_view(entries@),
                    forall|k: int| 0 <= k < j ==> (#[trigger] es[k]).0 != line@,
                    found ==> j < entries@.len() && es[j as int].0 == line@,
                decreases entries.len() - j, if found { 0int } else { 1int },
            {
                if entries[j].id == *line {
                    found = true;
                } else {
                    j = j + 1;
                }
            }
            if found {
                proof {
                    lemma_index_of_first(es, line@, j as int);
                }
                let e = YdkRecord { id: entries[j].id.clone(), count: entries[j].count + 1 };
                entries.set(j, e);
                assert(entries_view(entries@) =~= es.update(j as int, (line@, es[j as int].1 + 1)));
            } else {
                proof {
                    lemma_index_of_first(es, line@, -1);
                }
                entries.push(YdkRecord { id: line.clone(), count: 1 });
                assert(entries_view(entries@) =~= es.push((line@, 1)));
            }
        }
        i = i + 1;
    }
    assert(ls.take(i as int) == ls);
    entries
}

proof fn lemma_index_of_found(es: Seq<(Seq<char>, int)>, id: Seq<char>)
    ensures
        index_of(es, id) >= 0 ==> index_of(es, id) < es.len() && es[index_of(es, id)].0 == id,
        index_of(es, id) < 0 ==> index_of(es, id) == -1 && forall|k: int|
            0 <= k < es.len() ==> (#[trigger] es[k]).0 != id,
    decreases es.len(),
{
    if es.len() > 0 {
        lemma_index_of_found(es.drop_last(), id);
        assert(forall|k: int| 0 <= k < es.len() - 1 ==> es.drop_last()[k] == es[k]);
    }
}

proof fn lemma_occurs(s: Seq<Seq<char>>, x: Seq<char>)
    requires
        occurrences(s, x) > 0,
    ensures
        exists|i: int| 0 <= i < s.len() && s[i] == x,
    decreases s.len(),
{
    if s.last() != x {
        lemma_occurs(s.drop_last(), x);
        let i = choose|i: int| 0 <= i < s.drop_last().len() && s.drop_last()[i] == x;
        assert(s[i] == x);
    } else {
        assert(s[s.len() - 1] == x);
    }
}

/// The tally of a deck list holds each identifier once, only significant
/// lines, each with the number of times the line occurs, and every
/// significant line of the list.
pub proof fn lemma_tally_entries(lines: Seq<Seq<char>>)
    ensures
        forall|a: int, b: int|
            0 <= a < b < tally(lines).len() ==> (#[trigger] tally(lines)[a]).0 != (
            #[trigger] tally(lines)[b]).0,
        forall|k: int|
            0 <= k < tally(lines).len() ==> significant((#[trigger] tally(lines)[k]).0)
                && tally(lines)[k].1 == occurrences(lines, tally(lines)[k].0),
        forall|i: int|
            0 <= i < lines.len() && significant(#[trigger] lines[i]) ==> exists|k: int|
                0 <= k < tally(lines).len() && (#[trigger] tally(lines)[k]).0 == lines[i],
    decreases lines.len(),
{
    if lines.len() > 0 {
        let pre = lines.drop_last();
        let l = lines.last();
        let t = tally(pre);
        let t2 = tally(lines);
        lemma_tally_entries(pre);
        lemma_index_of_found(t, l);
        assert(forall|i: int| 0 <= i < pre.len() ==> pre[i] == lines[i]);
        if !significant(l) {
            assert(t2 == t);
            assert forall|k: int| 0 <= k < t2.len() implies significant((#[trigger] t2[k]).0)
                && t2[k].1 == occurrences(lines, t2[k].0) by {
                assert(t2[k].0 != l);
            }
        } else if index_of(t, l) >= 0 {
            let idx = index_of(t, l);
            assert(t2 == t.update(idx, (l, t[idx].1 + 1)));
            assert forall|k: int| 0 <= k < t2.len() implies significant((#[trigger] t2[k]).0)
                && t2[k].1 == occurrences(lines, t2[k].0) by {
                if k != idx {
                    assert(t2[k] == t[k]);
                    assert(t[k].0 != t[idx].0);
                }
            }
            assert forall|i: int|
                0 <= i < lines.len() && significant(#[trigger] lines[i]) implies exists|k: int|
                0 <= k < t2.len() && (#[trigger] t2[k]).0 == lines[i] by {
                if i < pre.len() {
                    assert(significant(pre[i]));
                    let k = choose|k: int| 0 <= k < t.len() && (#[trigger] t[k]).0 == pre[i];
                    assert(t2[k].0 == t[k].0);
                } else {
                    assert(t2[idx].0 == lines[i]);
                }
            }
        } else {
            assert(t2 == t.push((l, 1)));
            if occurrences(pre, l) > 0 {
                lemma_occurs(pre, l);
                let i = choose|i: int| 0 <= i < pre.len() && pre[i] == l;
                assert(significant(pre[i]));
            }
            assert forall|k: int| 0 <= k < t2.len() implies significant((#[trigger] t2[k]).0)
                && t2[k].1 == occurrences(lines, t2[k].0) by {
                if k < t.len() {
                    assert(t2[k] == t[k]);
                }
            }
            assert forall|i: int|
                0 <= i < lines.len() && significant(#[trigger] lines[i]) implies exists|k: int|
                0 <= k < t2.len() && (#[trigger] t2[k]).0 == lines[i] by {
                if i < pre.len() {
                    assert(significant(pre[i]));
                    let k = choose|k: int| 0 <= k < t.len() && (#[trigger] t[k]).0 == pre[i];
                    assert(t2[k].0 == t[k].0);
                } else {
                    assert(t2[t.len() as int].0 == lines[i]);
                }
            }
        }
    }
}

} // verus!
