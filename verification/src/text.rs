//! The text model of the buffer: a sequence of lines, the plain text that
//! joins them with `'\n'`, and the split that takes plain text apart again.

use vstd::prelude::*;

verus! {

/// The lines of `s`, cut at every `'\n'` (the newlines themselves are dropped).
/// Text with `k` newlines has `k + 1` lines; the empty text is one empty line.
pub open spec fn split_lines(s: Seq<char>) -> Seq<Seq<char>>
    decreases s.len(),
{
    if s.len() == 0 {
        seq![Seq::<char>::empty()]
    } else {
        let prev = split_lines(s.drop_last());
        if s.last() == '\n' {
            prev.push(Seq::<char>::empty())
        } else {
            prev.update(prev.len() - 1, prev.last().push(s.last()))
        }
    }
}

/// The lines joined into one text, with a `'\n'` between each two.
pub open spec fn join_lines(lines: Seq<Seq<char>>) -> Seq<char>
    decreases lines.len(),
{
    if lines.len() == 0 {
        Seq::<char>::empty()
    } else if lines.len() == 1 {
        lines[0]
    } else {
        join_lines(lines.drop_last()) + seq!['\n'] + lines.last()
    }
}

/// The text holds no newline.
pub open spec fn plain(s: Seq<char>) -> bool {
    forall|i: int| 0 <= i < s.len() ==> #[trigger] s[i] != '\n'
}

/// No line holds a newline.
pub open spec fn no_newlines(lines: Seq<Seq<char>>) -> bool {
    forall|i: int| 0 <= i < lines.len() ==> plain(#[trigger] lines[i])
}

/// The plain view of a vector of character vectors.
pub open spec fn lines_view(v: Seq<Vec<char>>) -> Seq<Seq<char>> {
    v.map_values(|l: Vec<char>| l@)
}

/// Splitting always yields at least one line.
pub proof fn lemma_split_nonempty(s: Seq<char>)
    ensures
        split_lines(s).len() >= 1,
    decreases s.len(),
{
    if s.len() > 0 {
        lemma_split_nonempty(s.drop_last());
    }
}

proof fn lemma_join_push(lines: Seq<Seq<char>>, l: Seq<char>)
    requires
        lines.len() >= 1,
    ensures
        join_lines(lines.push(l)) == join_lines(lines) + seq!['\n'] + l,
{
    assert(lines.push(l).drop_last() =~= lines);
}

proof fn lemma_join_extend_last(lines: Seq<Seq<char>>, c: char)
    requires
        lines.len() >= 1,
    ensures
        join_lines(lines.update(lines.len() - 1, lines.last().push(c))) == join_lines(lines).push(c),
{
    let u = lines.update(lines.len() - 1, lines.last().push(c));
    if lines.len() > 1 {
        assert(u.drop_last() =~= lines.drop_last());
        assert(join_lines(u) =~= join_lines(lines).push(c));
    }
}

/// Joining the lines that a text splits into gives back that text.
pub proof fn lemma_join_split(s: Seq<char>)
    ensures
        join_lines(split_lines(s)) == s,
    decreases s.len(),
{
    if s.len() == 0 {
    } else {
        let p = s.drop_last();
        lemma_join_split(p);
        lemma_split_nonempty(p);
        let prev = split_lines(p);
        if s.last() == '\n' {
            lemma_join_push(prev, Seq::<char>::empty());
            assert(p + seq!['\n'] + Seq::<char>::empty() =~= s);
        } else {
            lemma_join_extend_last(prev, s.last());
            assert(p.push(s.last()) =~= s);
        }
    }
}

/// Splitting `a + b`, where `b` holds no newline, extends the last line of `a`'s split by `b`.
proof fn lemma_split_append_plain(a: Seq<char>, b: Seq<char>)
    requires
        plain(b),
    ensures
        split_lines(a + b) == ({
            let p = split_lines(a);
            p.update(p.len() - 1, p.last() + b)
        }),
    decreases b.len(),
{
    lemma_split_nonempty(a);
    let p = split_lines(a);
    if b.len() == 0 {
        assert(a + b =~= a);
        assert(p.last() + b =~= p.last());
        assert(p.update(p.len() - 1, p.last() + b) =~= p);
    } else {
        let b0 = b.drop_last();
        assert(plain(b0)) by {
            assert forall|i: int| 0 <= i < b0.len() implies #[trigger] b0[i] != '\n' by {
                assert(b0[i] == b[i]);
            }
        }
        lemma_split_append_plain(a, b0);
        assert((a + b).drop_last() =~= a + b0);
        assert(b.last() != '\n') by {
            assert(b[b.len() - 1] == b.last());
        }
        assert((a + b).last() == b.last());
        assert((p.last() + b0).push(b.last()) =~= p.last() + b);
        let q = p.update(p.len() - 1, p.last() + b0);
        assert(q.last() == p.last() + b0);
        assert(q.update(q.len() - 1, q.last().push(b.last())) =~= p.update(
            p.len() - 1,
            p.last() + b,
        ));
    }
}

/// Splitting the joined text of lines that hold no newline gives back those lines.
pub proof fn lemma_split_join(lines: Seq<Seq<char>>)
    requires
        lines.len() >= 1,
        no_newlines(lines),
    ensures
        split_lines(join_lines(lines)) == lines,
    decreases lines.len(),
{
    if lines.len() == 1 {
        assert(plain(lines[0]));
        lemma_split_append_plain(Seq::<char>::empty(), lines[0]);
        assert(Seq::<char>::empty() + lines[0] =~= lines[0]);
        assert(split_lines(Seq::<char>::empty()) =~= seq![Seq::<char>::empty()]);
        assert(Seq::<char>::empty() + lines[0] =~= lines[0]);
        assert(seq![Seq::<char>::empty()].update(0, Seq::<char>::empty() + lines[0]) =~= lines);
    } else {
        let init = lines.drop_last();
        assert(no_newlines(init)) by {
            assert forall|i: int| 0 <= i < init.len() implies plain(#[trigger] init[i]) by {
                assert(init[i] == lines[i]);
            }
        }
        lemma_split_join(init);
        let a = join_lines(init) + seq!['\n'];
        assert(a.drop_last() =~= join_lines(init));
        assert(split_lines(a) == init.push(Seq::<char>::empty()));
        assert(plain(lines.last())) by {
            assert(lines.last() == lines[lines.len() - 1]);
        }
        lemma_split_append_plain(a, lines.last());
        let p = init.push(Seq::<char>::empty());
        assert(Seq::<char>::empty() + lines.last() =~= lines.last());
        assert(p.update(p.len() - 1, p.last() + lines.last()) =~= lines);
    }
}

/// No line of a split holds a newline.
pub proof fn lemma_split_no_newlines(s: Seq<char>)
    ensures
        no_newlines(split_lines(s)),
    decreases s.len(),
{
    if s.len() > 0 {
        let p = s.drop_last();
        lemma_split_no_newlines(p);
        lemma_split_nonempty(p);
        let prev = split_lines(p);
        if s.last() == '\n' {
            assert(plain(Seq::<char>::empty()));
            lemma_no_newlines_push(prev, Seq::<char>::empty());
        } else {
            let l = prev.last().push(s.last());
            assert(plain(prev[prev.len() - 1]));
            assert(plain(l)) by {
                assert forall|i: int| 0 <= i < l.len() implies #[trigger] l[i] != '\n' by {
                    if i < l.len() - 1 {
                        assert(l[i] == prev.last()[i]);
                    }
                }
            }
            lemma_no_newlines_update(prev, prev.len() - 1, l);
        }
    }
}

/// Concatenated plain texts are plain.
pub proof fn lemma_plain_concat(a: Seq<char>, b: Seq<char>)
    requires
        plain(a),
        plain(b),
    ensures
        plain(a + b),
{
    assert forall|i: int| 0 <= i < (a + b).len() implies #[trigger] (a + b)[i] != '\n' by {
        if i < a.len() {
            assert((a + b)[i] == a[i]);
        } else {
            assert((a + b)[i] == b[i - a.len()]);
        }
    }
}

/// A part of a plain text is plain.
pub proof fn lemma_plain_subrange(a: Seq<char>, i: int, j: int)
    requires
        plain(a),
        0 <= i <= j <= a.len(),
    ensures
        plain(a.subrange(i, j)),
{
    assert forall|k: int| 0 <= k < a.subrange(i, j).len() implies #[trigger] a.subrange(i, j)[k]
        != '\n' by {
        assert(a.subrange(i, j)[k] == a[i + k]);
    }
}

/// Removing a character keeps a text plain.
pub proof fn lemma_plain_remove(a: Seq<char>, i: int)
    requires
        plain(a),
        0 <= i < a.len(),
    ensures
        plain(a.remove(i)),
{
    assert forall|k: int| 0 <= k < a.remove(i).len() implies #[trigger] a.remove(i)[k] != '\n' by {
        if k < i {
            assert(a.remove(i)[k] == a[k]);
        } else {
            assert(a.remove(i)[k] == a[k + 1]);
        }
    }
}

/// Replacing a line by a plain one keeps the lines free of newlines.
pub proof fn lemma_no_newlines_update(lines: Seq<Seq<char>>, i: int, l: Seq<char>)
    requires
        no_newlines(lines),
        plain(l),
        0 <= i < lines.len(),
    ensures
        no_newlines(lines.update(i, l)),
{
    assert forall|k: int| 0 <= k < lines.update(i, l).len() implies plain(
        #[trigger] lines.update(i, l)[k],
    ) by {
        if k != i {
            assert(lines.update(i, l)[k] == lines[k]);
        }
    }
}

/// Adding a plain line at the end keeps the lines free of newlines.
pub proof fn lemma_no_newlines_push(lines: Seq<Seq<char>>, l: Seq<char>)
    requires
        no_newlines(lines),
        plain(l),
    ensures
        no_newlines(lines.push(l)),
{
    assert forall|k: int| 0 <= k < lines.push(l).len() implies plain(#[trigger] lines.push(l)[k]) by {
        if k < lines.len() {
            assert(lines.push(l)[k] == lines[k]);
        }
    }
}

/// Inserting a plain line keeps the lines free of newlines.
pub proof fn lemma_no_newlines_insert(lines: Seq<Seq<char>>, i: int, l: Seq<char>)
    requires
        no_newlines(lines),
        plain(l),
        0 <= i <= lines.len(),
    ensures
        no_newlines(lines.insert(i, l)),
{
    assert forall|k: int| 0 <= k < lines.insert(i, l).len() implies plain(
        #[trigger] lines.insert(i, l)[k],
    ) by {
        if k < i {
            assert(lines.insert(i, l)[k] == lines[k]);
        } else if k > i {
            assert(lines.insert(i, l)[k] == lines[k - 1]);
        }
    }
}

/// Removing a line keeps the lines free of newlines.
pub proof fn lemma_no_newlines_remove(lines: Seq<Seq<char>>, i: int)
    requires
        no_newlines(lines),
        0 <= i < lines.len(),
    ensures
        no_newlines(lines.remove(i)),
{
    assert forall|k: int| 0 <= k < lines.remove(i).len() implies plain(
        #[trigger] lines.remove(i)[k],
    ) by {
        if k < i {
            assert(lines.remove(i)[k] == lines[k]);
        } else {
            assert(lines.remove(i)[k] == lines[k + 1]);
        }
    }
}

/// Each line preceded by a newline, all concatenated: the joined text with one more
/// newline in front.
pub open spec fn newline_prefixed(lines: Seq<Seq<char>>) -> Seq<char>
    decreases lines.len(),
{
    if lines.len() == 0 {
        Seq::<char>::empty()
    } else {
        newline_prefixed(lines.drop_last()) + seq!['\n'] + lines.last()
    }
}

/// The position in the joined text of column `col` of line `row`: the characters of
/// the lines above, one newline after each, and `col`.
pub open spec fn text_offset(lines: Seq<Seq<char>>, row: nat, col: nat) -> nat {
    newline_prefixed(lines.take(row as int)).len() + col
}

/// The joined text is the newline-prefixed text without its first newline.
pub proof fn lemma_join_prefixed(lines: Seq<Seq<char>>)
    requires
        lines.len() >= 1,
    ensures
        newline_prefixed(lines).len() >= 1,
        join_lines(lines) == newline_prefixed(lines).skip(1),
    decreases lines.len(),
{
    let init = lines.drop_last();
    if lines.len() == 1 {
        assert(newline_prefixed(init) =~= Seq::<char>::empty());
        assert((Seq::<char>::empty() + seq!['\n'] + lines.last()).skip(1) =~= lines[0]);
    } else {
        lemma_join_prefixed(init);
        let p = newline_prefixed(init);
        assert((p + seq!['\n'] + lines.last()).skip(1) =~= p.skip(1) + seq!['\n'] + lines.last());
    }
}

/// Newline-prefixing maps concatenation of line sequences to concatenation of texts.
pub proof fn lemma_prefixed_concat(a: Seq<Seq<char>>, b: Seq<Seq<char>>)
    ensures
        newline_prefixed(a + b) == newline_prefixed(a) + newline_prefixed(b),
    decreases b.len(),
{
    if b.len() == 0 {
        assert(a + b =~= a);
        assert(newline_prefixed(b) =~= Seq::<char>::empty());
        assert(newline_prefixed(a) + newline_prefixed(b) =~= newline_prefixed(a));
    } else {
        lemma_prefixed_concat(a, b.drop_last());
        assert((a + b).drop_last() =~= a + b.drop_last());
        assert((a + b).last() == b.last());
        assert(newline_prefixed(a + b) =~= newline_prefixed(a) + newline_prefixed(b));
    }
}

/// The newline-prefixed text around line `r`: the lines above, a newline, line `r`,
/// and the lines below.
pub proof fn lemma_prefixed_at(lines: Seq<Seq<char>>, r: int)
    requires
        0 <= r < lines.len(),
    ensures
        newline_prefixed(lines) == newline_prefixed(lines.take(r)) + seq!['\n'] + lines[r]
            + newline_prefixed(lines.skip(r + 1)),
{
    let t = lines.take(r);
    let u = lines.skip(r + 1);
    let one = seq![lines[r]];
    assert(lines =~= t + one + u);
    lemma_prefixed_concat(t + one, u);
    lemma_prefixed_concat(t, one);
    assert(one.drop_last() =~= Seq::<Seq<char>>::empty());
    assert(newline_prefixed(one.drop_last()) =~= Seq::<char>::empty());
    assert(one.last() == lines[r]);
    assert(newline_prefixed(one) =~= seq!['\n'] + lines[r]);
    assert(newline_prefixed(t) + newline_prefixed(one) + newline_prefixed(u) =~= newline_prefixed(
        t,
    ) + seq!['\n'] + lines[r] + newline_prefixed(u));
}

/// Appends one character to a string.
///
/// Trusted: `std::string::String::push`, which the std documentation describes as
/// appending the given `char` to the end of the string.
#[verifier::external_body]
pub fn push_char(s: &mut String, c: char)
    ensures
        final(s)@ == old(s)@.push(c),
{
    s.push(c);
}

/// The lines of `content`, split at every `'\n'`.
pub fn split_content(content: &str) -> (lines: Vec<Vec<char>>)
    ensures
        lines_view(lines@) == split_lines(content@),
{
    let mut done: Vec<Vec<char>> = Vec::new();
    let mut cur: Vec<char> = Vec::new();
    assert(content@.take(0) =~= Seq::<char>::empty());
    assert(lines_view(done@).push(cur@) =~= seq![Seq::<char>::empty()]);
    for c in it: content.chars()
        invariant
            it.seq() == content@,
            lines_view(done@).push(cur@) == split_lines(content@.take(it.index() as int)),
    {
        let ghost pre = content@.take(it.index() as int);
        let ghost next = content@.take(it.index() + 1);
        let ghost old_done = lines_view(done@);
        let ghost old_cur = cur@;
        assert(next.drop_last() =~= pre);
        assert(next.last() == c);
        if c == '\n' {
            let finished = cur;
            done.push(finished);
            cur = Vec::new();
            assert(lines_view(done@) =~= old_done.push(old_cur));
            assert(lines_view(done@).push(cur@) =~= old_done.push(old_cur).push(Seq::<char>::empty()));
        } else {
            cur.push(c);
            assert(lines_view(done@).push(cur@) =~= old_done.push(old_cur).update(
                old_done.len() as int,
                old_cur.push(c),
            ));
        }
    }
    assert(content@.take(content@.len() as int) =~= content@);
    let ghost old_done = lines_view(done@);
    let ghost old_cur = cur@;
    done.push(cur);
    assert(lines_view(done@) =~= old_done.push(old_cur));
    done
}

/// The lines joined with a `'\n'` between each two, as one string.
pub fn join_content(lines: &Vec<Vec<char>>) -> (s: String)
    ensures
        s@ == join_lines(lines_view(lines@)),
{
    let mut s = String::new();
    let n = lines.len();
    let mut i: usize = 0;
    while i < n
        invariant
            n == lines@.len(),
            i <= n,
            s@ == join_lines(lines_view(lines@).take(i as int)),
        decreases n - i,
    {
        let ghost before = s@;
        let line = &lines[i];
        if i > 0 {
            push_char(&mut s, '\n');
        }
        let ghost mid = s@;
        let m = line.len();
        let mut j: usize = 0;
        while j < m
            invariant
                m == line@.len(),
                j <= m,
                s@ == mid + line@.take(j as int),
            decreases m - j,
        {
            push_char(&mut s, line[j]);
            assert(line@.take(j + 1) =~= line@.take(j as int).push(line@[j as int]));
            j = j + 1;
        }
        let ghost v = lines_view(lines@);
        assert(line@.take(m as int) =~= line@);
        assert(v[i as int] == line@);
        assert(v.take(i + 1).drop_last() =~= v.take(i as int));
        if i == 0 {
            assert(v.take(1) =~= seq![line@]);
            assert(s@ =~= line@);
        } else {
            assert(s@ =~= join_lines(v.take(i as int)) + seq!['\n'] + line@);
        }
        i = i + 1;
    }
    assert(lines_view(lines@).take(n as int) =~= lines_view(lines@));
    s
}

} // verus!
