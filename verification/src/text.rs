//! Character-level helpers shared by the parser and the emitters.

use vstd::prelude::*;
use vstd::std_specs::iter::IteratorSpec;

verus! {

/// `String::push` appends one character to the end of the string.
pub assume_specification[ String::push ](s: &mut String, ch: char)
    ensures
        final(s)@ == old(s)@.push(ch),
;

/// Whether `c` has the Unicode `White_Space` property.
pub open spec fn is_space(c: char) -> bool {
    let n = c as u32;
    ||| 0x09 <= n <= 0x0D
    ||| n == 0x20
    ||| n == 0x85
    ||| n == 0xA0
    ||| n == 0x1680
    ||| 0x2000 <= n <= 0x200A
    ||| n == 0x2028
    ||| n == 0x2029
    ||| n == 0x202F
    ||| n == 0x205F
    ||| n == 0x3000
}

/// Executable form of [`is_space`].
pub fn is_space_char(c: char) -> (r: bool)
    ensures
        r == is_space(c),
{
    let n: u32 = c as u32;
    (0x09 <= n && n <= 0x0D) || n == 0x20 || n == 0x85 || n == 0xA0 || n == 0x1680 || (0x2000 <= n
        && n <= 0x200A) || n == 0x2028 || n == 0x2029 || n == 0x202F || n == 0x205F || n == 0x3000
}

/// Pushing an element onto a vector pushes its model onto the deep view.
pub proof fn lemma_deep_view_push<T: DeepView>(before: Vec<T>, after: Vec<T>, x: T)
    requires
        after@ == before@.push(x),
    ensures
        after.deep_view() == before.deep_view().push(x.deep_view()),
{
    assert(after.deep_view() =~= before.deep_view().push(x.deep_view()));
}

/// Appending one vector to another appends the deep views.
pub proof fn lemma_deep_view_add<T: DeepView>(left: Vec<T>, right: Vec<T>, both: Vec<T>)
    requires
        both@ == left@ + right@,
    ensures
        both.deep_view() == left.deep_view() + right.deep_view(),
{
    assert(both.deep_view() =~= left.deep_view() + right.deep_view());
}

/// The pieces of `s` between line feeds: a text with `n` line feeds has
/// `n + 1` pieces, and none of them holds a line feed.
pub open spec fn split_lines(s: Seq<char>) -> Seq<Seq<char>>
    decreases s.len(),
{
    if s.len() == 0 {
        seq![Seq::<char>::empty()]
    } else {
        let head = split_lines(s.drop_last());
        if s.last() == '\n' {
            head.push(Seq::<char>::empty())
        } else {
            head.drop_last().push(head.last().push(s.last()))
        }
    }
}

/// No piece of a split text holds a line feed, and the pieces with a line
/// feed between neighbours are the text again.
pub proof fn lemma_split_lines_rejoin(s: Seq<char>)
    ensures
        split_lines(s).len() >= 1,
        forall|k: int, i: int|
            0 <= k < split_lines(s).len() && 0 <= i < split_lines(s)[k].len() ==> (
            #[trigger] split_lines(s)[k][i]) != '\n',
        joined(split_lines(s), seq!['\n']) == s,
    decreases s.len(),
{
    if s.len() == 0 {
        assert(joined(split_lines(s), seq!['\n']) =~= s);
    } else {
        let front = s.drop_last();
        let head = split_lines(front);
        let pieces = split_lines(s);
        lemma_split_lines_rejoin(front);
        if s.last() == '\n' {
            assert(pieces.drop_last() =~= head);
            assert(joined(pieces, seq!['\n']) =~= joined(head, seq!['\n']) + seq!['\n']);
            assert(front.push('\n') =~= s);
            assert(joined(head, seq!['\n']) + seq!['\n'] =~= front.push('\n'));
        } else {
            let grown = head.last().push(s.last());
            assert(pieces.last() == grown);
            assert(pieces.drop_last() =~= head.drop_last());
            if head.len() == 1 {
                assert(joined(head, seq!['\n']) == head[0]);
                assert(joined(pieces, seq!['\n']) =~= front.push(s.last()));
            } else {
                assert(joined(head, seq!['\n']) == joined(head.drop_last(), seq!['\n']) + seq![
                    '\n',
                ] + head.last());
                assert(joined(pieces, seq!['\n']) =~= joined(head, seq!['\n']).push(s.last()));
            }
            assert(front.push(s.last()) =~= s);
            assert forall|k: int, i: int|
                0 <= k < pieces.len() && 0 <= i < pieces[k].len() implies (
            #[trigger] pieces[k][i]) != '\n' by {
                if k < pieces.len() - 1 {
                    assert(pieces[k] == head[k]);
                } else if i < head.last().len() {
                    assert(pieces[k][i] == head[head.len() - 1][i]);
                }
            }
        }
    }
}

/// Splits `text` at every line feed.
pub fn lines_of(text: &str) -> (r: Vec<String>)
    ensures
        r.deep_view() == split_lines(text@),
{
    let mut done: Vec<String> = Vec::new();
    let mut cur = String::new();
    let chars = text.chars();
    assert(text@.take(0) =~= Seq::<char>::empty());
    assert(done.deep_view().push(cur@) =~= seq![Seq::<char>::empty()]);
    for c in it: chars
        invariant
            it.seq() == text@,
            done.deep_view().push(cur@) == split_lines(text@.take(it.index())),
    {
        let ghost i = it.index();
        let ghost prefix = text@.take(i + 1);
        assert(prefix.drop_last() =~= text@.take(i));
        assert(prefix.last() == c);
        if c == '\n' {
            let ghost before = done;
            done.push(cur);
            proof {
                lemma_deep_view_push(before, done, cur);
            }
            cur = String::new();
        } else {
            let ghost head = done.deep_view().push(cur@);
            assert(head.drop_last() =~= done.deep_view());
            cur.push(c);
        }
    }
    assert(text@.take(text@.len() as int) =~= text@);
    let ghost before = done;
    done.push(cur);
    proof {
        lemma_deep_view_push(before, done, cur);
    }
    done
}

/// The character of one decimal digit.
pub open spec fn digit(d: nat) -> char {
    if d == 0 {
        '0'
    } else if d == 1 {
        '1'
    } else if d == 2 {
        '2'
    } else if d == 3 {
        '3'
    } else if d == 4 {
        '4'
    } else if d == 5 {
        '5'
    } else if d == 6 {
        '6'
    } else if d == 7 {
        '7'
    } else if d == 8 {
        '8'
    } else {
        '9'
    }
}

/// The decimal numeral of `n`, without sign or leading zeros.
pub open spec fn decimal(n: nat) -> Seq<char>
    decreases n,
{
    if n < 10 {
        seq![digit(n)]
    } else {
        decimal(n / 10).push(digit(n % 10))
    }
}

fn digit_char(d: u64) -> (c: char)
    requires
        d < 10,
    ensures
        c == digit(d as nat),
{
    if d == 0 {
        '0'
    } else if d == 1 {
        '1'
    } else if d == 2 {
        '2'
    } else if d == 3 {
        '3'
    } else if d == 4 {
        '4'
    } else if d == 5 {
        '5'
    } else if d == 6 {
        '6'
    } else if d == 7 {
        '7'
    } else if d == 8 {
        '8'
    } else {
        '9'
    }
}

/// Appends the decimal numeral of `n` to `out`.
pub fn push_decimal(out: &mut String, n: u64)
    ensures
        final(out)@ == old(out)@ + decimal(n as nat),
    decreases n,
{
    if n >= 10 {
        push_decimal(out, n / 10);
    }
    out.push(digit_char(n % 10));
}

/// `s` followed by as many spaces as it lacks to `width` characters.
pub open spec fn pad_right(s: Seq<char>, width: nat) -> Seq<char> {
    if s.len() >= width {
        s
    } else {
        s + Seq::new((width - s.len()) as nat, |i: int| ' ')
    }
}

/// `s` preceded by as many spaces as it lacks to `width` characters.
pub open spec fn pad_left(s: Seq<char>, width: nat) -> Seq<char> {
    if s.len() >= width {
        s
    } else {
        Seq::new((width - s.len()) as nat, |i: int| ' ') + s
    }
}

/// Appends `count` spaces to `out`.
pub fn push_spaces(out: &mut String, count: usize)
    ensures
        final(out)@ == old(out)@ + Seq::new(count as nat, |i: int| ' '),
{
    let mut k: usize = 0;
    while k < count
        invariant
            k <= count,
            out@ == old(out)@ + Seq::new(k as nat, |i: int| ' '),
        decreases count - k,
    {
        out.push(' ');
        k += 1;
    }
}

/// Appends `s` to `out`, left-aligned in a field of `width` characters.
pub fn push_padded_right(out: &mut String, s: &str, width: usize)
    ensures
        final(out)@ == old(out)@ + pad_right(s@, width as nat),
{
    let len = s.unicode_len();
    out.append(s);
    if len < width {
        push_spaces(out, width - len);
    }
}

/// Appends `s` to `out`, right-aligned in a field of `width` characters.
pub fn push_padded_left(out: &mut String, s: &str, width: usize)
    ensures
        final(out)@ == old(out)@ + pad_left(s@, width as nat),
{
    let len = s.unicode_len();
    if len < width {
        push_spaces(out, width - len);
    }
    out.append(s);
}

/// The parts of `parts` with `separator` between neighbours.
pub open spec fn joined(parts: Seq<Seq<char>>, separator: Seq<char>) -> Seq<char>
    decreases parts.len(),
{
    if parts.len() == 0 {
        Seq::<char>::empty()
    } else if parts.len() == 1 {
        parts[0]
    } else {
        joined(parts.drop_last(), separator) + separator + parts.last()
    }
}

/// Appends the strings of `parts` to `out`, with `separator` between
/// neighbours.
pub fn push_joined(out: &mut String, parts: &Vec<String>, separator: &str)
    ensures
        final(out)@ == old(out)@ + joined(parts.deep_view(), separator@),
{
    let mut i: usize = 0;
    assert(parts.deep_view().take(0) =~= Seq::<Seq<char>>::empty());
    assert(out@ =~= old(out)@ + Seq::<char>::empty());
    while i < parts.len()
        invariant
            i <= parts.len(),
            out@ == old(out)@ + joined(parts.deep_view().take(i as int), separator@),
        decreases parts.len() - i,
    {
        let ghost done = parts.deep_view().take(i + 1);
        let ghost before = joined(parts.deep_view().take(i as int), separator@);
        assert(done.drop_last() =~= parts.deep_view().take(i as int));
        assert(done.last() == parts[i as int]@);
        if i > 0 {
            out.append(separator);
            assert(joined(done, separator@) == before + separator@ + parts[i as int]@);
        } else {
            assert(joined(done, separator@) == parts[i as int]@);
            assert(before =~= Seq::<char>::empty());
        }
        out.append(parts[i].as_str());
        assert(out@ =~= old(out)@ + joined(done, separator@));
        i += 1;
    }
    assert(parts.deep_view().take(parts.len() as int) =~= parts.deep_view());
}

} // verus!
