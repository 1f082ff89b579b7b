//! What the texts of numbers, lines and lists promise.

use crate::executor;
use crate::text;
use vstd::prelude::*;

verus! {

/// The decimal notation of a number reads back as that number, and only zero
/// begins with a zero.
pub proof fn law_decimal_reads_back(n: nat)
    ensures
        text::decimal(n).len() > 0,
        text::all_digits(text::decimal(n)),
        text::digits_value(text::decimal(n)) == n,
        text::decimal(n)[0] == '0' ==> n == 0,
        n <= u64::MAX ==> text::unsigned_value(text::decimal(n)) == Some(n as u64),
    decreases n,
{
    let d = text::decimal(n);
    if n < 10 {
        assert(d =~= seq![text::digit(n)]);
        assert(d.drop_last() =~= Seq::<char>::empty());
        assert(text::is_digit(d[0]));
        reveal_with_fuel(text::digits_value, 2);
    } else {
        law_decimal_reads_back(n / 10);
        assert(d.drop_last() =~= text::decimal(n / 10));
        assert(d.last() == text::digit(n % 10));
        assert forall|i: int| 0 <= i < d.len() implies text::is_digit(#[trigger] d[i]) by {
            if i < d.len() - 1 {
                assert(d[i] == text::decimal(n / 10)[i]);
            }
        }
        assert(d[0] == text::decimal(n / 10)[0]);
    }
    assert(text::is_digit(d[0]));
}

/// Names that hold no separator read back from their list.
pub proof fn law_joined_names_split_again(names: Seq<Seq<char>>, sep: char)
    requires
        names.len() > 0,
        forall|i: int| 0 <= i < names.len() ==> !(#[trigger] names[i]).contains(sep),
    ensures
        text::split(text::join(names, seq![sep]), sep) == names,
    decreases names.len(),
{
    assert(!names[names.len() - 1].contains(sep));
    executor::laws::lemma_split_one(names.last(), sep);
    if names.len() == 1 {
        assert(names =~= seq![names[0]]);
    } else {
        let d = names.drop_last();
        assert forall|i: int| 0 <= i < d.len() implies !(#[trigger] d[i]).contains(sep) by {
            assert(d[i] == names[i]);
        }
        law_joined_names_split_again(d, sep);
        executor::laws::lemma_split_join(text::join(d, seq![sep]), sep, names.last());
        assert(d + seq![names.last()] =~= names);
    }
}

/// A line ends at its line feed, with or without a carriage return in front,
/// and the next one begins behind it; the last line needs no line feed.
pub proof fn law_lines_end_at_their_feed(line: Seq<char>, rest: Seq<char>)
    requires
        !line.contains('\n'),
        line.len() == 0 || line.last() != '\r',
    ensures
        text::lines(line + seq!['\n'] + rest) == seq![line] + text::lines(rest),
        text::lines(line + seq!['\r', '\n'] + rest) == seq![line] + text::lines(rest),
        line.len() > 0 ==> text::lines(line) == seq![line],
        text::lines(Seq::empty()).len() == 0,
{
    executor::laws::lemma_split_one(line, '\n');
    executor::laws::lemma_split_join(line, '\n', rest);
    let carried = line + seq!['\r'];
    assert(!carried.contains('\n')) by {
        if carried.contains('\n') {
            let k = choose|k: int| 0 <= k < carried.len() && carried[k] == '\n';
            assert(k < line.len());
            assert(line[k] == '\n');
        }
    }
    executor::laws::lemma_split_one(carried, '\n');
    executor::laws::lemma_split_join(carried, '\n', rest);
    assert(carried + seq!['\n'] + rest =~= line + seq!['\r', '\n'] + rest);
    assert(carried.drop_last() =~= line);
    lemma_some_piece(rest);
    let pieces = text::split(rest, '\n');
    let one = text::split(line + seq!['\n'] + rest, '\n');
    let two = text::split(line + seq!['\r', '\n'] + rest, '\n');
    assert(one.last() == pieces.last());
    assert(two.last() == pieces.last());
    assert(text::lines(line + seq!['\n'] + rest) =~= seq![line] + text::lines(rest));
    assert(text::lines(line + seq!['\r', '\n'] + rest) =~= seq![line] + text::lines(rest));
    if line.len() > 0 {
        assert(text::lines(line) =~= seq![line]);
    }
    assert(text::split(Seq::<char>::empty(), '\n') =~= seq![Seq::<char>::empty()]);
    assert(text::lines(Seq::<char>::empty()) =~= Seq::<Seq<char>>::empty());
}

proof fn lemma_some_piece(s: Seq<char>)
    ensures
        text::split(s, '\n').len() > 0,
    decreases s.len(),
{
    if s.len() > 0 {
        lemma_some_piece(s.drop_last());
    }
}

} // verus!
