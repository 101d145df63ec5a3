//! Text as a sequence of lines.
//!
//! A text is cut at every newline character. The cut never yields an empty
//! sequence: a text without newline is one line, and each newline starts one
//! more line, which may be empty.

use vstd::prelude::*;

verus! {

/// The character that separates two lines.
pub open spec fn newline() -> char {
    '\n'
}

/// The lines of `s`, in order: what lies between its newline characters.
pub open spec fn split_lines(s: Seq<char>) -> Seq<Seq<char>>
    decreases s.len(),
{
    if s.len() == 0 {
        seq![Seq::<char>::empty()]
    } else {
        let front = split_lines(s.drop_last());
        if s.last() == newline() {
            front.push(Seq::<char>::empty())
        } else {
            front.update(front.len() - 1, front.last().push(s.last()))
        }
    }
}

/// The text whose lines are `ls`: the lines with one newline between each two
/// neighbours.
pub open spec fn join_lines(ls: Seq<Seq<char>>) -> Seq<char>
    decreases ls.len(),
{
    if ls.len() == 0 {
        Seq::<char>::empty()
    } else if ls.len() == 1 {
        ls[0]
    } else {
        join_lines(ls.drop_last()) + seq![newline()] + ls.last()
    }
}

/// No newline occurs in `line`.
pub open spec fn is_line(line: Seq<char>) -> bool {
    forall|i: int| 0 <= i < line.len() ==> line[i] != newline()
}

/// `ls` is what a cut can yield: at least one line, none with a newline in it.
pub open spec fn are_lines(ls: Seq<Seq<char>>) -> bool {
    &&& ls.len() >= 1
    &&& forall|j: int| 0 <= j < ls.len() ==> is_line(#[trigger] ls[j])
}

/// The number of lines of `s`.
pub open spec fn line_count(s: Seq<char>) -> nat {
    split_lines(s).len()
}

/// A text has at least one line, and no more lines than characters plus one.
pub proof fn lemma_line_count_bounds(s: Seq<char>)
    ensures
        1 <= split_lines(s).len() <= s.len() + 1,
    decreases s.len(),
{
    if s.len() > 0 {
        lemma_line_count_bounds(s.drop_last());
    }
}

/// Every line of a text, with the newlines that separate the lines, fits in
/// the text.
pub proof fn lemma_line_len_bound(s: Seq<char>, j: int)
    requires
        0 <= j < split_lines(s).len(),
    ensures
        split_lines(s)[j].len() + split_lines(s).len() - 1 <= s.len(),
    decreases s.len(),
{
    if s.len() > 0 {
        let front = split_lines(s.drop_last());
        lemma_line_count_bounds(s.drop_last());
        if s.last() == newline() {
            if j < front.len() {
                lemma_line_len_bound(s.drop_last(), j);
            }
        } else {
            lemma_line_len_bound(s.drop_last(), j);
        }
    }
}

/// The lines of a text hold no newline.
pub proof fn lemma_split_are_lines(s: Seq<char>)
    ensures
        are_lines(split_lines(s)),
    decreases s.len(),
{
    lemma_line_count_bounds(s);
    if s.len() > 0 {
        lemma_split_are_lines(s.drop_last());
        let front = split_lines(s.drop_last());
        if s.last() != newline() {
            let grown = front.last().push(s.last());
            assert(is_line(front.last()));
            assert(is_line(grown));
        }
    }
}

/// Appending a character to the last of the lines appends it to the text.
pub proof fn lemma_join_grow_last(ls: Seq<Seq<char>>, c: char)
    requires
        ls.len() >= 1,
    ensures
        join_lines(ls.update(ls.len() - 1, ls.last().push(c))) == join_lines(ls).push(c),
{
    let grown = ls.update(ls.len() - 1, ls.last().push(c));
    if ls.len() == 1 {
        assert(grown[0] == ls[0].push(c));
    } else {
        assert(grown.drop_last() =~= ls.drop_last());
        assert(join_lines(grown) =~= join_lines(ls).push(c));
    }
}

/// Joining the lines of a text gives the text back.
pub proof fn lemma_join_split(s: Seq<char>)
    ensures
        join_lines(split_lines(s)) == s,
    decreases s.len(),
{
    if s.len() == 0 {
        assert(join_lines(split_lines(s)) =~= s);
    } else {
        let front = split_lines(s.drop_last());
        lemma_join_split(s.drop_last());
        lemma_line_count_bounds(s.drop_last());
        if s.last() == newline() {
            let all = front.push(Seq::<char>::empty());
            assert(all.drop_last() =~= front);
            assert(join_lines(all) =~= s.drop_last().push(newline()));
            assert(s.drop_last().push(s.last()) =~= s);
        } else {
            lemma_join_grow_last(front, s.last());
            assert(s.drop_last().push(s.last()) =~= s);
        }
    }
}

/// The lines of two texts written one after the other: the last line of the
/// first runs on into the first line of the second.
pub open spec fn glue(a: Seq<Seq<char>>, b: Seq<Seq<char>>) -> Seq<Seq<char>>
    recommends
        a.len() >= 1,
        b.len() >= 1,
{
    a.drop_last().push(a.last() + b[0]) + b.drop_first()
}

/// Cutting a concatenation: the lines of `a + b` are those of `a` and of `b`,
/// glued at the seam.
pub proof fn lemma_split_concat(a: Seq<char>, b: Seq<char>)
    ensures
        split_lines(a + b) == glue(split_lines(a), split_lines(b)),
    decreases b.len(),
{
    let la = split_lines(a);
    let lb = split_lines(b);
    lemma_line_count_bounds(a);
    lemma_line_count_bounds(b);
    if b.len() == 0 {
        assert(a + b =~= a);
        assert(la.last() + lb[0] =~= la.last());
        assert(glue(la, lb) =~= la);
    } else {
        let b0 = b.drop_last();
        let l0 = split_lines(b0);
        lemma_split_concat(a, b0);
        lemma_line_count_bounds(b0);
        assert((a + b).drop_last() =~= a + b0);
        assert((a + b).last() == b.last());
        let g0 = glue(la, l0);
        if b.last() == newline() {
            assert(g0.push(Seq::<char>::empty()) =~= glue(la, lb));
        } else {
            let c = b.last();
            if l0.len() == 1 {
                assert(la.last() + l0[0].push(c) =~= (la.last() + l0[0]).push(c));
            }
            assert(g0.update(g0.len() - 1, g0.last().push(c)) =~= glue(la, lb));
        }
    }
}

/// A text without newline is one line.
pub proof fn lemma_split_line(line: Seq<char>)
    requires
        is_line(line),
    ensures
        split_lines(line) == seq![line],
    decreases line.len(),
{
    if line.len() == 0 {
        assert(line =~= Seq::<char>::empty());
    } else {
        lemma_split_line(line.drop_last());
        assert(line[line.len() - 1] != newline());
        assert(line.drop_last().push(line.last()) =~= line);
        assert(seq![line.drop_last()].update(0, line) =~= seq![line]);
    }
}

/// A single newline separates two empty lines.
pub proof fn lemma_split_newline()
    ensures
        split_lines(seq![newline()]) == seq![Seq::<char>::empty(), Seq::<char>::empty()],
{
    let s = seq![newline()];
    assert(s.drop_last() =~= Seq::<char>::empty());
    reveal_with_fuel(split_lines, 2);
    assert(split_lines(s) =~= seq![Seq::<char>::empty(), Seq::<char>::empty()]);
}

/// Cutting what was joined gives the lines back.
pub proof fn lemma_split_join(ls: Seq<Seq<char>>)
    requires
        are_lines(ls),
    ensures
        split_lines(join_lines(ls)) == ls,
    decreases ls.len(),
{
    if ls.len() == 1 {
        lemma_split_line(ls[0]);
        assert(seq![ls[0]] =~= ls);
    } else {
        let front = ls.drop_last();
        assert(are_lines(front));
        lemma_split_join(front);
        lemma_split_newline();
        lemma_split_line(ls.last());
        let head = join_lines(front) + seq![newline()];
        lemma_split_concat(join_lines(front), seq![newline()]);
        lemma_split_concat(head, ls.last());
        assert(front.last() + Seq::<char>::empty() =~= front.last());
        assert(Seq::<char>::empty() + ls.last() =~= ls.last());
        assert(glue(glue(front, split_lines(seq![newline()])), seq![ls.last()]) =~= ls);
    }
}

/// The length of a joined text: the lengths of the lines and one newline
/// between each two.
pub open spec fn joined_len(ls: Seq<Seq<char>>) -> int
    decreases ls.len(),
{
    if ls.len() == 0 {
        0
    } else if ls.len() == 1 {
        ls[0].len() as int
    } else {
        joined_len(ls.drop_last()) + 1 + ls.last().len()
    }
}

/// `join_lines` yields a text of length `joined_len`.
pub proof fn lemma_joined_len(ls: Seq<Seq<char>>)
    ensures
        join_lines(ls).len() == joined_len(ls),
    decreases ls.len(),
{
    if ls.len() > 1 {
        lemma_joined_len(ls.drop_last());
    }
}

/// Replacing one line changes the joined length by the difference of the two
/// lines' lengths.
pub proof fn lemma_joined_len_update(ls: Seq<Seq<char>>, j: int, line: Seq<char>)
    requires
        0 <= j < ls.len(),
    ensures
        joined_len(ls.update(j, line)) == joined_len(ls) - ls[j].len() + line.len(),
    decreases ls.len(),
{
    let changed = ls.update(j, line);
    if ls.len() > 1 {
        if j == ls.len() - 1 {
            assert(changed.drop_last() =~= ls.drop_last());
        } else {
            lemma_joined_len_update(ls.drop_last(), j, line);
            assert(changed.drop_last() =~= ls.drop_last().update(j, line));
        }
    }
}

/// Inserting a character into one line makes the joined text one longer.
pub proof fn lemma_insert_in_line_len(ls: Seq<Seq<char>>, j: int, i: int, c: char)
    requires
        0 <= j < ls.len(),
        0 <= i <= ls[j].len(),
    ensures
        join_lines(ls.update(j, ls[j].insert(i, c))).len() == join_lines(ls).len() + 1,
{
    lemma_joined_len(ls);
    lemma_joined_len(ls.update(j, ls[j].insert(i, c)));
    lemma_joined_len_update(ls, j, ls[j].insert(i, c));
}

/// A text of one line is that line, and holds no newline.
pub proof fn lemma_single_line(s: Seq<char>)
    requires
        split_lines(s).len() <= 1,
    ensures
        split_lines(s) == seq![s],
        is_line(s),
{
    lemma_line_count_bounds(s);
    lemma_join_split(s);
    lemma_split_are_lines(s);
    assert(split_lines(s) =~= seq![s]);
    assert(is_line(split_lines(s)[0]));
}

/// Joining two runs of lines: the joined runs with a newline between them.
pub proof fn lemma_join_concat(a: Seq<Seq<char>>, b: Seq<Seq<char>>)
    requires
        a.len() >= 1,
        b.len() >= 1,
    ensures
        join_lines(a + b) == join_lines(a) + seq![newline()] + join_lines(b),
    decreases b.len(),
{
    assert((a + b).drop_last() =~= a + b.drop_last());
    assert((a + b).last() == b.last());
    if b.len() == 1 {
        assert(a + b.drop_last() =~= a);
    } else {
        lemma_join_concat(a, b.drop_last());
        assert(join_lines(a + b) =~= join_lines(a) + seq![newline()] + join_lines(b));
    }
}

/// A line cut at any column gives two lines.
pub proof fn lemma_cut_line(line: Seq<char>, i: int)
    requires
        is_line(line),
        0 <= i <= line.len(),
    ensures
        is_line(line.take(i)),
        is_line(line.skip(i)),
{
    assert forall|k: int| 0 <= k < line.skip(i).len() implies line.skip(i)[k] != newline() by {
        assert(line.skip(i)[k] == line[i + k]);
    }
}

/// Two lines written one after the other are a line.
pub proof fn lemma_concat_lines(a: Seq<char>, b: Seq<char>)
    requires
        is_line(a),
        is_line(b),
    ensures
        is_line(a + b),
{
    assert forall|k: int| 0 <= k < (a + b).len() implies (a + b)[k] != newline() by {
        if k < a.len() {
            assert((a + b)[k] == a[k]);
        } else {
            assert((a + b)[k] == b[k - a.len()]);
        }
    }
}

/// A line stays a line when a character other than the newline goes in.
pub proof fn lemma_insert_keeps_line(line: Seq<char>, i: int, c: char)
    requires
        is_line(line),
        0 <= i <= line.len(),
        c != newline(),
    ensures
        is_line(line.insert(i, c)),
{
    let grown = line.insert(i, c);
    assert forall|k: int| 0 <= k < grown.len() implies grown[k] != newline() by {
        if k < i {
            assert(grown[k] == line[k]);
        } else if k > i {
            assert(grown[k] == line[k - 1]);
        }
    }
}

/// A line stays a line when a character leaves it.
pub proof fn lemma_remove_keeps_line(line: Seq<char>, i: int)
    requires
        is_line(line),
        0 <= i < line.len(),
    ensures
        is_line(line.remove(i)),
{
    let less = line.remove(i);
    assert forall|k: int| 0 <= k < less.len() implies less[k] != newline() by {
        if k < i {
            assert(less[k] == line[k]);
        } else {
            assert(less[k] == line[k + 1]);
        }
    }
}

/// The lines `ls` with line `j` cut in two at column `i`.
pub open spec fn cut_at(ls: Seq<Seq<char>>, j: int, i: int) -> Seq<Seq<char>> {
    ls.take(j).push(ls[j].take(i)).push(ls[j].skip(i)) + ls.skip(j + 1)
}

/// The lines `ls` with line `j` and the line above it made one.
pub open spec fn merge_at(ls: Seq<Seq<char>>, j: int) -> Seq<Seq<char>> {
    ls.take(j - 1).push(ls[j - 1] + ls[j]) + ls.skip(j + 1)
}

/// A newline put into a line cuts the line: the joined text is that of the
/// lines with the line cut in two.
pub proof fn lemma_join_cut(ls: Seq<Seq<char>>, j: int, i: int)
    requires
        0 <= j < ls.len(),
        0 <= i <= ls[j].len(),
    ensures
        join_lines(ls.update(j, ls[j].insert(i, newline()))) == join_lines(cut_at(ls, j, i)),
{
    let left = ls[j].take(i);
    let right = ls[j].skip(i);
    let mid = ls[j].insert(i, newline());
    let above = ls.take(j);
    let below = ls.skip(j + 1);
    assert(mid =~= left + seq![newline()] + right);
    let two = seq![left, right];
    assert(two.drop_last() =~= seq![left]);
    assert(join_lines(seq![left]) == left);
    assert(join_lines(two) =~= mid);
    let head = above + seq![mid];
    let head_cut = above + two;
    if above.len() >= 1 {
        lemma_join_concat(above, seq![mid]);
        lemma_join_concat(above, two);
    } else {
        assert(head =~= seq![mid]);
        assert(head_cut =~= two);
    }
    assert(join_lines(head) == join_lines(head_cut));
    if below.len() >= 1 {
        lemma_join_concat(head, below);
        lemma_join_concat(head_cut, below);
    } else {
        assert(head + below =~= head);
        assert(head_cut + below =~= head_cut);
    }
    assert(ls.update(j, mid) =~= head + below);
    assert(cut_at(ls, j, i) =~= head_cut + below);
}

/// Lines stay lines when one of them is cut in two.
pub proof fn lemma_cut_are_lines(ls: Seq<Seq<char>>, j: int, i: int)
    requires
        are_lines(ls),
        0 <= j < ls.len(),
        0 <= i <= ls[j].len(),
    ensures
        are_lines(cut_at(ls, j, i)),
{
    let cut = cut_at(ls, j, i);
    lemma_cut_line(ls[j], i);
    assert forall|k: int| 0 <= k < cut.len() implies is_line(#[trigger] cut[k]) by {
        if k < j {
            assert(cut[k] == ls[k]);
        } else if k == j {
            assert(cut[k] == ls[j].take(i));
        } else if k == j + 1 {
            assert(cut[k] == ls[j].skip(i));
        } else {
            assert(cut[k] == ls[k - 1]);
        }
    }
}

/// Lines stay lines when two neighbours are made one.
pub proof fn lemma_merge_are_lines(ls: Seq<Seq<char>>, j: int)
    requires
        are_lines(ls),
        1 <= j < ls.len(),
    ensures
        are_lines(merge_at(ls, j)),
{
    let merged = merge_at(ls, j);
    lemma_concat_lines(ls[j - 1], ls[j]);
    assert forall|k: int| 0 <= k < merged.len() implies is_line(#[trigger] merged[k]) by {
        if k < j - 1 {
            assert(merged[k] == ls[k]);
        } else if k == j - 1 {
            assert(merged[k] == ls[j - 1] + ls[j]);
        } else {
            assert(merged[k] == ls[k + 1]);
        }
    }
}

/// Lines stay lines when one of them is replaced by a line.
pub proof fn lemma_update_are_lines(ls: Seq<Seq<char>>, j: int, line: Seq<char>)
    requires
        are_lines(ls),
        0 <= j < ls.len(),
        is_line(line),
    ensures
        are_lines(ls.update(j, line)),
{
    let changed = ls.update(j, line);
    assert forall|k: int| 0 <= k < changed.len() implies is_line(#[trigger] changed[k]) by {
        if k != j {
            assert(changed[k] == ls[k]);
        }
    }
}

/// Two texts with the same lines are the same text.
pub proof fn lemma_split_injective(s: Seq<char>, t: Seq<char>)
    requires
        split_lines(s) == split_lines(t),
    ensures
        s == t,
{
    lemma_join_split(s);
    lemma_join_split(t);
}

} // verus!
