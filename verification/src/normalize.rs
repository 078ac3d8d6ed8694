//! The line normalizer: surrounding white space is dropped and every inner
//! run of white space becomes one space.

use vstd::prelude::*;
use vstd::std_specs::iter::IteratorSpec;
use crate::text::{is_space, is_space_char};

verus! {

/// The maximal runs of characters of `s` that are not white space, in order.
pub open spec fn words(s: Seq<char>) -> Seq<Seq<char>>
    decreases s.len(),
{
    if s.len() == 0 {
        Seq::<Seq<char>>::empty()
    } else if is_space(s.last()) {
        words(s.drop_last())
    } else if s.len() >= 2 && !is_space(s[s.len() - 2]) {
        let head = words(s.drop_last());
        head.drop_last().push(head.last().push(s.last()))
    } else {
        words(s.drop_last()).push(seq![s.last()])
    }
}

/// The words of `ws` with one space between neighbours.
pub open spec fn join_words(ws: Seq<Seq<char>>) -> Seq<char>
    decreases ws.len(),
{
    if ws.len() == 0 {
        Seq::<char>::empty()
    } else if ws.len() == 1 {
        ws[0]
    } else {
        join_words(ws.drop_last()) + seq![' '] + ws.last()
    }
}

/// The normal form of a source line: its words, joined by single spaces.
pub open spec fn normalized(s: Seq<char>) -> Seq<char> {
    join_words(words(s))
}

/// A word is not empty and holds no white space.
pub open spec fn is_word(w: Seq<char>) -> bool {
    w.len() > 0 && forall|i: int| 0 <= i < w.len() ==> !is_space(#[trigger] w[i])
}

/// Every element of `ws` is a word.
pub open spec fn all_words(ws: Seq<Seq<char>>) -> bool {
    forall|k: int| 0 <= k < ws.len() ==> is_word(#[trigger] ws[k])
}

/// What `words` returns are words, and there is one as soon as the text ends
/// in a character that is no white space.
pub proof fn lemma_words_are_words(s: Seq<char>)
    ensures
        all_words(words(s)),
        s.len() > 0 && !is_space(s.last()) ==> words(s).len() > 0,
    decreases s.len(),
{
    if s.len() > 0 {
        lemma_words_are_words(s.drop_last());
    }
}

proof fn lemma_join_grow_last(ws: Seq<Seq<char>>, c: char)
    requires
        ws.len() > 0,
    ensures
        join_words(ws.drop_last().push(ws.last().push(c))) == join_words(ws).push(c),
{
    let grown = ws.drop_last().push(ws.last().push(c));
    if ws.len() > 1 {
        assert(grown.drop_last() =~= ws.drop_last());
        assert(join_words(grown) =~= join_words(ws).push(c));
    } else {
        assert(join_words(grown) =~= join_words(ws).push(c));
    }
}

proof fn lemma_join_new_word(ws: Seq<Seq<char>>, c: char)
    ensures
        join_words(ws.push(seq![c])) == if ws.len() == 0 {
            seq![c]
        } else {
            join_words(ws).push(' ').push(c)
        },
{
    let grown = ws.push(seq![c]);
    assert(grown.drop_last() =~= ws);
    if ws.len() > 0 {
        assert(join_words(grown) =~= join_words(ws).push(' ').push(c));
    }
}

/// A text in which white space occurs only as a single space between two
/// characters that are no white space.
pub open spec fn tidy(t: Seq<char>) -> bool {
    &&& t.len() > 0 ==> !is_space(t[0]) && !is_space(t.last())
    &&& forall|i: int|
        0 <= i < t.len() && is_space(#[trigger] t[i]) ==> t[i] == ' ' && 0 < i < t.len() - 1
            && !is_space(t[i + 1])
}

proof fn lemma_join_nonempty(ws: Seq<Seq<char>>)
    requires
        all_words(ws),
        ws.len() > 0,
    ensures
        join_words(ws).len() > 0,
    decreases ws.len(),
{
    assert(is_word(ws.last()));
    if ws.len() == 1 {
        assert(is_word(ws[0]));
    }
}

proof fn lemma_join_tidy(ws: Seq<Seq<char>>)
    requires
        all_words(ws),
    ensures
        tidy(join_words(ws)),
    decreases ws.len(),
{
    if ws.len() == 1 {
        assert(is_word(ws[0]));
    } else if ws.len() > 1 {
        let front = ws.drop_last();
        let j = join_words(front);
        let w = ws.last();
        let t = join_words(ws);
        assert(all_words(front)) by {
            assert forall|k: int| 0 <= k < front.len() implies is_word(#[trigger] front[k]) by {
                assert(front[k] == ws[k]);
            }
        }
        lemma_join_tidy(front);
        lemma_join_nonempty(front);
        assert(is_word(w));
        assert(t =~= j + seq![' '] + w);
        assert forall|i: int| 0 <= i < t.len() && is_space(#[trigger] t[i]) implies t[i] == ' ' && 0
            < i < t.len() - 1 && !is_space(t[i + 1]) by {
            if i < j.len() {
                assert(t[i] == j[i]);
                assert(t[i + 1] == j[i + 1]);
            } else if i == j.len() {
                assert(t[i + 1] == w[0]);
            } else {
                assert(t[i] == w[i - j.len() - 1]);
            }
        }
        assert(t[0] == j[0]);
        assert(t.last() == w.last());
    }
}

proof fn lemma_words_of_word(w: Seq<char>)
    requires
        is_word(w),
    ensures
        words(w) == seq![w],
    decreases w.len(),
{
    let front = w.drop_last();
    if front.len() == 0 {
        assert(!is_space(w[0]));
        assert(words(front) =~= Seq::<Seq<char>>::empty());
        assert(seq![w.last()] =~= w);
        assert(words(w) =~= seq![w]);
    } else {
        assert(is_word(front)) by {
            assert forall|i: int| 0 <= i < front.len() implies !is_space(#[trigger] front[i]) by {
                assert(front[i] == w[i]);
            }
        }
        lemma_words_of_word(front);
        assert(!is_space(w[w.len() - 1]) && !is_space(w[w.len() - 2]));
        assert(w.drop_last() == front);
        let head = words(front);
        assert(head.drop_last().push(head.last().push(w.last())) =~= seq![front.push(w.last())]);
        assert(front.push(w.last()) =~= w);
    }
}

proof fn lemma_words_after_gap(t: Seq<char>, w: Seq<char>)
    requires
        is_word(w),
    ensures
        words(t + seq![' '] + w) == words(t).push(w),
    decreases w.len(),
{
    let s = t + seq![' '] + w;
    let front = w.drop_last();
    assert(s.last() == w[w.len() - 1]);
    assert(!is_space(s.last()));
    assert(s.drop_last() =~= t + seq![' '] + front);
    if front.len() == 0 {
        let gap = t + seq![' '];
        assert(s.drop_last() =~= gap);
        assert(gap.drop_last() =~= t);
        assert(gap.last() == ' ');
        assert(words(gap) == words(t));
        assert(s[s.len() - 2] == ' ');
        assert(seq![s.last()] =~= w);
    } else {
        assert(is_word(front)) by {
            assert forall|i: int| 0 <= i < front.len() implies !is_space(#[trigger] front[i]) by {
                assert(front[i] == w[i]);
            }
        }
        lemma_words_after_gap(t, front);
        assert(s[s.len() - 2] == w[w.len() - 2]);
        assert(!is_space(s[s.len() - 2]));
        assert(front.push(s.last()) =~= w);
        let head = words(t).push(front);
        assert(words(s.drop_last()) == head);
        assert(head.drop_last() =~= words(t));
    }
}

proof fn lemma_words_of_join(ws: Seq<Seq<char>>)
    requires
        all_words(ws),
    ensures
        words(join_words(ws)) == ws,
    decreases ws.len(),
{
    if ws.len() == 0 {
        assert(words(join_words(ws)) =~= ws);
    } else if ws.len() == 1 {
        assert(is_word(ws[0]));
        lemma_words_of_word(ws[0]);
        assert(seq![ws[0]] =~= ws);
    } else {
        let front = ws.drop_last();
        assert(all_words(front)) by {
            assert forall|k: int| 0 <= k < front.len() implies is_word(#[trigger] front[k]) by {
                assert(front[k] == ws[k]);
            }
        }
        lemma_words_of_join(front);
        assert(is_word(ws.last()));
        lemma_words_after_gap(join_words(front), ws.last());
        assert(front.push(ws.last()) =~= ws);
    }
}

/// The normal form keeps the words of the line and is tidy.
pub proof fn lemma_normalized_keeps_words(s: Seq<char>)
    ensures
        words(normalized(s)) == words(s),
        tidy(normalized(s)),
{
    lemma_words_are_words(s);
    lemma_words_of_join(words(s));
    lemma_join_tidy(words(s));
}

/// Normalizing twice gives what normalizing once gives.
pub proof fn lemma_normalized_idempotent(s: Seq<char>)
    ensures
        normalized(normalized(s)) == normalized(s),
{
    lemma_normalized_keeps_words(s);
}

/// Brings `line` into normal form.
pub fn normalize(line: &str) -> (r: String)
    ensures
        r@ == normalized(line@),
        tidy(r@),
{
    let mut out = String::new();
    let mut in_word = false;
    let mut any = false;
    let chars = line.chars();
    assert(line@.take(0) =~= Seq::<char>::empty());
    for c in it: chars
        invariant
            it.seq() == line@,
            out@ == normalized(line@.take(it.index())),
            any == (words(line@.take(it.index())).len() > 0),
            in_word == (it.index() > 0 && !is_space(line@[it.index() - 1])),
    {
        let ghost i = it.index();
        let ghost prefix = line@.take(i + 1);
        let ghost head = words(line@.take(i));
        assert(prefix.drop_last() =~= line@.take(i));
        assert(prefix.last() == c);
        if is_space_char(c) {
            in_word = false;
        } else {
            if in_word {
                proof {
                    assert(prefix[prefix.len() - 2] == line@[i - 1]);
                    lemma_words_are_words(line@.take(i));
                    lemma_join_grow_last(head, c);
                }
            } else {
                proof {
                    lemma_join_new_word(head, c);
                }
                if any {
                    out.push(' ');
                }
            }
            out.push(c);
            in_word = true;
            any = true;
        }
    }
    proof {
        assert(line@.take(line@.len() as int) =~= line@);
        lemma_normalized_keeps_words(line@);
    }
    out
}

} // verus!
