//! The searcher's laws, each stated over all inputs and proved:
//! order preservation, the relation between the two matchers, the effect
//! of case folding, empty inputs, and line-terminator agnosticism.

use vstd::prelude::*;

use crate::searcher::line_matches;
use crate::searcher::line_matches_insensitive;
use crate::searcher::matches_of;
use crate::searcher::matches_of_insensitive;
use crate::searcher::search_insensitive_spec;
use crate::searcher::search_spec;
use crate::text::contains_at;
use crate::text::first_index_of;
use crate::text::lemma_first_index_of;
use crate::text::lines_spec;
use crate::text::lower_char;
use crate::text::strip_cr;
use crate::text::lower_seq;

verus! {

/// `xs` can be obtained from `ys` by deleting elements, keeping the order
/// of what remains.
pub open spec fn is_subsequence_of(xs: Seq<Seq<char>>, ys: Seq<Seq<char>>) -> bool
    decreases ys.len(),
{
    if xs.len() == 0 {
        true
    } else if ys.len() == 0 {
        false
    } else if xs.last() == ys.last() {
        is_subsequence_of(xs.drop_last(), ys.drop_last()) || is_subsequence_of(xs, ys.drop_last())
    } else {
        is_subsequence_of(xs, ys.drop_last())
    }
}

/// Every element of a subsequence is an element of the full sequence.
pub proof fn lemma_subsequence_contains(xs: Seq<Seq<char>>, ys: Seq<Seq<char>>)
    requires
        is_subsequence_of(xs, ys),
    ensures
        forall|l: Seq<char>| xs.contains(l) ==> ys.contains(l),
    decreases ys.len(),
{
    if xs.len() == 0 {
    } else if ys.len() == 0 {
    } else if xs.last() == ys.last() && is_subsequence_of(xs.drop_last(), ys.drop_last()) {
        lemma_subsequence_contains(xs.drop_last(), ys.drop_last());
        assert forall|l: Seq<char>| xs.contains(l) implies ys.contains(l) by {
            let i = choose|i: int| 0 <= i < xs.len() && xs[i] == l;
            if i < xs.len() - 1 {
                assert(xs.drop_last()[i] == l);
                assert(xs.drop_last().contains(l));
                assert(ys.drop_last().contains(l));
                let j = choose|j: int| 0 <= j < ys.drop_last().len() && ys.drop_last()[j] == l;
                assert(ys[j] == l);
            } else {
                assert(ys[ys.len() - 1] == l);
            }
        }
    } else {
        lemma_subsequence_contains(xs, ys.drop_last());
        assert forall|l: Seq<char>| xs.contains(l) implies ys.contains(l) by {
            assert(ys.drop_last().contains(l));
            let j = choose|j: int| 0 <= j < ys.drop_last().len() && ys.drop_last()[j] == l;
            assert(ys[j] == l);
        }
    }
}

proof fn lemma_matches_subsequence(lines: Seq<Seq<char>>, q: Seq<char>)
    ensures
        is_subsequence_of(matches_of(lines, q), lines),
    decreases lines.len(),
{
    reveal(Seq::filter);
    if lines.len() == 0 {
    } else {
        lemma_matches_subsequence(lines.drop_last(), q);
        let md = matches_of(lines.drop_last(), q);
        if line_matches(lines.last(), q) {
            assert(matches_of(lines, q) == md.push(lines.last()));
            assert(md.push(lines.last()).drop_last() =~= md);
        } else {
            assert(matches_of(lines, q) == md);
        }
    }
}

proof fn lemma_matches_insensitive_subsequence(lines: Seq<Seq<char>>, q: Seq<char>)
    ensures
        is_subsequence_of(matches_of_insensitive(lines, q), lines),
    decreases lines.len(),
{
    reveal(Seq::filter);
    if lines.len() == 0 {
    } else {
        lemma_matches_insensitive_subsequence(lines.drop_last(), q);
        let md = matches_of_insensitive(lines.drop_last(), q);
        if line_matches_insensitive(lines.last(), q) {
            assert(matches_of_insensitive(lines, q) == md.push(lines.last()));
            assert(md.push(lines.last()).drop_last() =~= md);
        } else {
            assert(matches_of_insensitive(lines, q) == md);
        }
    }
}

/// Order preservation: for any query and contents, the matches of either
/// matcher form a subsequence of the line sequence of the contents — they
/// appear in the same order as in the contents, without duplication.
pub proof fn lemma_order_preservation(q: Seq<char>, c: Seq<char>)
    ensures
        is_subsequence_of(search_spec(q, c), lines_spec(c)),
        is_subsequence_of(search_insensitive_spec(q, c), lines_spec(c)),
{
    lemma_matches_subsequence(lines_spec(c), q);
    lemma_matches_insensitive_subsequence(lines_spec(c), q);
}

/// A line that contains the query verbatim also contains it after both
/// sides are lowercased.
proof fn lemma_sensitive_implies_insensitive(l: Seq<char>, q: Seq<char>)
    ensures
        line_matches(l, q) ==> line_matches_insensitive(l, q),
{
    if line_matches(l, q) {
        let i = choose|i: int| contains_at(l, q, i);
        assert(lower_seq(l).subrange(i, i + q.len() as int) =~= lower_seq(q));
        assert(contains_at(lower_seq(l), lower_seq(q), i));
    }
}

proof fn lemma_matches_refine(lines: Seq<Seq<char>>, q: Seq<char>)
    ensures
        is_subsequence_of(matches_of(lines, q), matches_of_insensitive(lines, q)),
    decreases lines.len(),
{
    reveal(Seq::filter);
    if lines.len() == 0 {
    } else {
        lemma_matches_refine(lines.drop_last(), q);
        lemma_sensitive_implies_insensitive(lines.last(), q);
        let sd = matches_of(lines.drop_last(), q);
        let id = matches_of_insensitive(lines.drop_last(), q);
        if line_matches(lines.last(), q) {
            assert(matches_of(lines, q) == sd.push(lines.last()));
            assert(matches_of_insensitive(lines, q) == id.push(lines.last()));
            assert(sd.push(lines.last()).drop_last() =~= sd);
            assert(id.push(lines.last()).drop_last() =~= id);
        } else if line_matches_insensitive(lines.last(), q) {
            assert(matches_of(lines, q) == sd);
            assert(matches_of_insensitive(lines, q) == id.push(lines.last()));
            assert(id.push(lines.last()).drop_last() =~= id);
        } else {
            assert(matches_of(lines, q) == sd);
            assert(matches_of_insensitive(lines, q) == id);
        }
    }
}

/// Subset property: every case-sensitive match is a case-insensitive
/// match, and the former even form a subsequence of the latter.
pub proof fn lemma_subset(q: Seq<char>, c: Seq<char>)
    ensures
        is_subsequence_of(search_spec(q, c), search_insensitive_spec(q, c)),
        forall|l: Seq<char>|
            search_spec(q, c).contains(l) ==> search_insensitive_spec(q, c).contains(l),
{
    lemma_matches_refine(lines_spec(c), q);
    lemma_subsequence_contains(search_spec(q, c), search_insensitive_spec(q, c));
}

proof fn lemma_matches_all(lines: Seq<Seq<char>>)
    ensures
        matches_of(lines, Seq::empty()) == lines,
    decreases lines.len(),
{
    reveal(Seq::filter);
    if lines.len() == 0 {
    } else {
        lemma_matches_all(lines.drop_last());
        assert(lines.last().subrange(0, 0) =~= Seq::<char>::empty());
        assert(contains_at(lines.last(), Seq::empty(), 0));
        assert(matches_of(lines, Seq::empty()) == lines.drop_last().push(lines.last()));
        assert(lines.drop_last().push(lines.last()) =~= lines);
    }
}

/// Lowercasing is idempotent.
pub proof fn lemma_lower_idempotent(s: Seq<char>)
    ensures
        lower_seq(lower_seq(s)) == lower_seq(s),
{
    assert(lower_seq(lower_seq(s)) =~= lower_seq(s));
}

proof fn lemma_matches_insensitive_fold_query(lines: Seq<Seq<char>>, q: Seq<char>)
    ensures
        matches_of_insensitive(lines, lower_seq(q)) == matches_of_insensitive(lines, q),
    decreases lines.len(),
{
    reveal(Seq::filter);
    lemma_lower_idempotent(q);
    if lines.len() == 0 {
    } else {
        lemma_matches_insensitive_fold_query(lines.drop_last(), q);
    }
}

/// Case folding of the query: lowercasing the query beforehand does not
/// change what the case-insensitive matcher yields.
pub proof fn lemma_case_fold_query(q: Seq<char>, c: Seq<char>)
    ensures
        search_insensitive_spec(lower_seq(q), c) == search_insensitive_spec(q, c),
{
    lemma_matches_insensitive_fold_query(lines_spec(c), q);
}

/// The lines of a text, lowercased line by line.
pub open spec fn lower_lines(ls: Seq<Seq<char>>) -> Seq<Seq<char>> {
    ls.map_values(|l: Seq<char>| lower_seq(l))
}

proof fn lemma_first_nl_lower(s: Seq<char>)
    ensures
        first_index_of(lower_seq(s), '\n') == first_index_of(s, '\n'),
{
    lemma_first_index_of(s, '\n');
    lemma_first_index_of(lower_seq(s), '\n');
    let f1 = first_index_of(s, '\n');
    let f2 = first_index_of(lower_seq(s), '\n');
    if f1 < f2 {
        assert(lower_seq(s)[f1] == lower_char(s[f1]));
        assert(false);
    }
    if f2 < f1 {
        assert(lower_seq(s)[f2] == lower_char(s[f2]));
        assert(false);
    }
}

proof fn lemma_strip_cr_lower(l: Seq<char>)
    ensures
        strip_cr(lower_seq(l)) == lower_seq(strip_cr(l)),
{
    if l.len() > 0 {
        assert(lower_seq(l).last() == lower_char(l.last()));
        if l.last() == '\r' {
            assert(lower_seq(l).drop_last() =~= lower_seq(l.drop_last()));
        }
    }
}

proof fn lemma_lines_lower(c: Seq<char>)
    ensures
        lines_spec(lower_seq(c)) == lower_lines(lines_spec(c)),
    decreases c.len(),
{
    if c.len() == 0 {
        assert(lower_lines(lines_spec(c)) =~= Seq::<Seq<char>>::empty());
    } else {
        lemma_first_nl_lower(c);
        lemma_first_index_of(c, '\n');
        let i = first_index_of(c, '\n');
        if 0 <= i < c.len() {
            let rest = c.subrange(i + 1, c.len() as int);
            lemma_lines_lower(rest);
            assert(lower_seq(c).subrange(i + 1, c.len() as int) =~= lower_seq(rest));
            assert(lower_seq(c).subrange(0, i) =~= lower_seq(c.subrange(0, i)));
            lemma_strip_cr_lower(c.subrange(0, i));
            assert(lower_lines(seq![strip_cr(c.subrange(0, i))] + lines_spec(rest)) =~= seq![
                lower_seq(strip_cr(c.subrange(0, i))),
            ] + lower_lines(lines_spec(rest)));
        } else {
            assert(lower_lines(seq![c]) =~= seq![lower_seq(c)]);
        }
    }
}

proof fn lemma_matches_insensitive_lower_lines(lines: Seq<Seq<char>>, q: Seq<char>)
    ensures
        matches_of_insensitive(lower_lines(lines), q) == lower_lines(
            matches_of_insensitive(lines, q),
        ),
    decreases lines.len(),
{
    reveal(Seq::filter);
    if lines.len() == 0 {
        assert(lower_lines(lines).len() == 0);
        assert(lower_lines(Seq::<Seq<char>>::empty()) =~= Seq::<Seq<char>>::empty());
    } else {
        lemma_matches_insensitive_lower_lines(lines.drop_last(), q);
        lemma_lower_idempotent(lines.last());
        assert(lower_lines(lines).drop_last() =~= lower_lines(lines.drop_last()));
        assert(lower_lines(lines).last() == lower_seq(lines.last()));
        if line_matches_insensitive(lines.last(), q) {
            assert(lower_lines(matches_of_insensitive(lines.drop_last(), q).push(lines.last()))
                =~= lower_lines(matches_of_insensitive(lines.drop_last(), q)).push(
                lower_seq(lines.last()),
            ));
        } else {
        }
    }
}

/// Case folding of the contents: lowercasing the text beforehand selects
/// exactly the same lines, each then yielded in its lowercased form.
pub proof fn lemma_case_fold_contents(q: Seq<char>, c: Seq<char>)
    ensures
        search_insensitive_spec(q, lower_seq(c)) == lower_lines(search_insensitive_spec(q, c)),
{
    lemma_lines_lower(c);
    lemma_matches_insensitive_lower_lines(lines_spec(c), q);
}

/// Empty query: the case-sensitive matcher yields every line.
pub proof fn lemma_empty_query(c: Seq<char>)
    ensures
        search_spec(Seq::empty(), c) == lines_spec(c),
{
    lemma_matches_all(lines_spec(c));
}

/// A text with every `\n` replaced by `\r\n`.
pub open spec fn crlf_of(c: Seq<char>) -> Seq<char>
    decreases c.len(),
{
    if c.len() == 0 {
        Seq::empty()
    } else if c[0] == '\n' {
        seq!['\r', '\n'] + crlf_of(c.drop_first())
    } else {
        seq![c[0]] + crlf_of(c.drop_first())
    }
}

proof fn lemma_crlf_id(c: Seq<char>)
    requires
        forall|k: int| 0 <= k < c.len() ==> c[k] != '\n',
    ensures
        crlf_of(c) == c,
    decreases c.len(),
{
    if c.len() == 0 {
        assert(crlf_of(c) =~= c);
    } else {
        assert forall|k: int| 0 <= k < c.drop_first().len() implies c.drop_first()[k]
            != '\n' by {
            assert(c.drop_first()[k] == c[k + 1]);
        }
        lemma_crlf_id(c.drop_first());
        assert(seq![c[0]] + c.drop_first() =~= c);
    }
}

proof fn lemma_crlf_split(c: Seq<char>, f: int)
    requires
        0 <= f < c.len(),
        c[f] == '\n',
        forall|k: int| 0 <= k < f ==> c[k] != '\n',
    ensures
        crlf_of(c) == c.subrange(0, f) + seq!['\r', '\n'] + crlf_of(
            c.subrange(f + 1, c.len() as int),
        ),
    decreases c.len(),
{
    if f == 0 {
        assert(c.subrange(0, 0) =~= Seq::<char>::empty());
        assert(c.subrange(1, c.len() as int) =~= c.drop_first());
        assert(c.subrange(0, 0) + seq!['\r', '\n'] + crlf_of(c.drop_first()) =~= seq!['\r', '\n']
            + crlf_of(c.drop_first()));
    } else {
        let d = c.drop_first();
        assert forall|k: int| 0 <= k < f - 1 implies d[k] != '\n' by {
            assert(d[k] == c[k + 1]);
        }
        assert(d[f - 1] == c[f]);
        lemma_crlf_split(d, f - 1);
        assert(seq![c[0]] + d.subrange(0, f - 1) =~= c.subrange(0, f));
        assert(d.subrange(f, d.len() as int) =~= c.subrange(f + 1, c.len() as int));
        assert(seq![c[0]] + (d.subrange(0, f - 1) + seq!['\r', '\n'] + crlf_of(
            d.subrange(f, d.len() as int),
        )) =~= c.subrange(0, f) + seq!['\r', '\n'] + crlf_of(c.subrange(f + 1, c.len() as int)));
    }
}

proof fn lemma_lines_crlf(c: Seq<char>)
    requires
        forall|k: int| 0 <= k < c.len() ==> c[k] != '\r',
    ensures
        lines_spec(crlf_of(c)) == lines_spec(c),
    decreases c.len(),
{
    lemma_first_index_of(c, '\n');
    let f = first_index_of(c, '\n');
    if c.len() == 0 {
        assert(crlf_of(c) =~= c);
    } else if f == c.len() {
        lemma_crlf_id(c);
    } else {
        let rest = c.subrange(f + 1, c.len() as int);
        lemma_crlf_split(c, f);
        assert forall|k: int| 0 <= k < rest.len() implies rest[k] != '\r' by {
            assert(rest[k] == c[f + 1 + k]);
        }
        lemma_lines_crlf(rest);
        let t = crlf_of(c);
        assert(t.len() == f + 2 + crlf_of(rest).len());
        assert forall|k: int| 0 <= k < f + 1 implies t[k] != '\n' by {
            if k < f {
                assert(t[k] == c.subrange(0, f)[k]);
                assert(t[k] == c[k]);
            } else {
                assert(t[f] == '\r');
            }
        }
        assert(t[f + 1] == '\n');
        lemma_first_index_of(t, '\n');
        let ft = first_index_of(t, '\n');
        if ft < f + 1 {
            assert(false);
        }
        if ft > f + 1 {
            assert(false);
        }
        assert(t.subrange(0, f + 1) =~= c.subrange(0, f) + seq!['\r']);
        assert(strip_cr(t.subrange(0, f + 1)) =~= c.subrange(0, f));
        assert(t.subrange(f + 2, t.len() as int) =~= crlf_of(rest));
        assert(strip_cr(c.subrange(0, f)) =~= c.subrange(0, f));
    }
}

/// Terminator agnosticism: replacing every `\n` of a carriage-return-free
/// text by `\r\n` changes what neither matcher yields.
pub proof fn lemma_terminator_agnostic(q: Seq<char>, c: Seq<char>)
    requires
        forall|k: int| 0 <= k < c.len() ==> c[k] != '\r',
    ensures
        search_spec(q, crlf_of(c)) == search_spec(q, c),
        search_insensitive_spec(q, crlf_of(c)) == search_insensitive_spec(q, c),
{
    lemma_lines_crlf(c);
}

/// Empty contents: both matchers yield the empty sequence.
pub proof fn lemma_empty_contents(q: Seq<char>)
    ensures
        search_spec(q, Seq::empty()) == Seq::<Seq<char>>::empty(),
        search_insensitive_spec(q, Seq::empty()) == Seq::<Seq<char>>::empty(),
{
    reveal(Seq::filter);
    assert(lines_spec(Seq::empty()) == Seq::<Seq<char>>::empty());
}

} // verus!
