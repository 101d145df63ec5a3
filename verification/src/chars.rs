//! Moving between strings and the characters they hold.

use vstd::prelude::*;
use crate::lines::{join_lines, newline, split_lines};

verus! {

/// `String::push` appends the character to the end of the string.
pub assume_specification[ String::push ](s: &mut String, ch: char)
    ensures
        final(s)@ == old(s)@.push(ch),
;

/// The characters of `s`, in order.
pub fn to_chars(s: &str) -> (r: Vec<char>)
    ensures
        r@ == s@,
{
    let mut r: Vec<char> = Vec::new();
    for c in it: s.chars()
        invariant
            r@ == it.seq().take(it.index() as int),
            it.seq() == s@,
    {
        r.push(c);
    }
    r
}

/// The string that holds the characters `cs`, in order.
pub fn from_chars(cs: &Vec<char>) -> (r: String)
    ensures
        r@ == cs@,
{
    let mut r = String::new();
    let mut i: usize = 0;
    while i < cs.len()
        invariant
            i <= cs.len(),
            r@ == cs@.take(i as int),
        decreases cs.len() - i,
    {
        r.push(cs[i]);
        i += 1;
        assert(cs@.take(i as int) =~= cs@.take(i - 1).push(cs@[i - 1]));
    }
    assert(cs@.take(cs.len() as int) =~= cs@);
    r
}

/// The string that holds the characters of `cs` from place `from` up to, and
/// not including, place `to`.
pub fn from_chars_range(cs: &Vec<char>, from: usize, to: usize) -> (r: String)
    requires
        from <= to <= cs.len(),
    ensures
        r@ == cs@.subrange(from as int, to as int),
{
    let mut r = String::new();
    let mut i: usize = from;
    while i < to
        invariant
            from <= i <= to <= cs.len(),
            r@ == cs@.subrange(from as int, i as int),
        decreases to - i,
    {
        r.push(cs[i]);
        i += 1;
        assert(cs@.subrange(from as int, i as int) =~= cs@.subrange(from as int, i - 1).push(
            cs@[i - 1],
        ));
    }
    r
}

/// What a vector of lines holds: the characters of each, in order.
pub open spec fn rows(ls: Seq<Vec<char>>) -> Seq<Seq<char>> {
    Seq::new(ls.len(), |j: int| ls[j]@)
}

/// Cuts `cs` into its lines.
pub fn split(cs: &Vec<char>) -> (r: Vec<Vec<char>>)
    ensures
        rows(r@) == split_lines(cs@),
        r.len() >= 1,
{
    let mut done: Vec<Vec<char>> = Vec::new();
    let mut line: Vec<char> = Vec::new();
    let mut i: usize = 0;
    while i < cs.len()
        invariant
            i <= cs.len(),
            rows(done@).push(line@) == split_lines(cs@.take(i as int)),
        decreases cs.len() - i,
    {
        let ghost before = rows(done@).push(line@);
        let c = cs[i];
        assert(cs@.take(i + 1).drop_last() =~= cs@.take(i as int));
        if c == '\n' {
            done.push(line);
            line = Vec::new();
            assert(rows(done@).push(line@) =~= before.push(Seq::<char>::empty()));
        } else {
            line.push(c);
            assert(rows(done@).push(line@) =~= before.update(
                before.len() - 1,
                before.last().push(c),
            ));
        }
        i += 1;
    }
    assert(cs@.take(cs.len() as int) =~= cs@);
    let ghost all = rows(done@).push(line@);
    done.push(line);
    assert(rows(done@) =~= all);
    done
}

/// Writes the lines `ls` one after the other, with a newline between each two.
pub fn join(ls: &Vec<Vec<char>>) -> (r: Vec<char>)
    ensures
        r@ == join_lines(rows(ls@)),
{
    let mut r: Vec<char> = Vec::new();
    let mut j: usize = 0;
    while j < ls.len()
        invariant
            j <= ls.len(),
            r@ == join_lines(rows(ls@).take(j as int)),
        decreases ls.len() - j,
    {
        let ghost head = r@;
        if j > 0 {
            r.push('\n');
        }
        let ghost base = r@;
        let line = &ls[j];
        let mut i: usize = 0;
        while i < line.len()
            invariant
                i <= line.len(),
                r@ == base + line@.take(i as int),
            decreases line.len() - i,
        {
            r.push(line[i]);
            i += 1;
            assert(line@.take(i as int) =~= line@.take(i - 1).push(line@[i - 1]));
            assert(base + line@.take(i - 1).push(line@[i - 1]) =~= (base + line@.take(i - 1)).push(
                line@[i - 1],
            ));
        }
        assert(line@.take(line.len() as int) =~= line@);
        let ghost upto = rows(ls@).take(j + 1);
        assert(upto.drop_last() =~= rows(ls@).take(j as int));
        assert(upto.last() == line@);
        if j == 0 {
            assert(head =~= Seq::<char>::empty());
            assert(r@ =~= line@);
        } else {
            assert(base =~= head + seq![newline()]);
        }
        j += 1;
    }
    assert(rows(ls@).take(ls.len() as int) =~= rows(ls@));
    r
}

} // verus!
