//! What the operations on text give.

use crate::text::{
    decimal, decimal_nat, digit, is_white_space, joined_path, precedes, trim_end, trim_start,
    trimmed, until_newline, without_end_slashes,
};
use vstd::prelude::*;

verus! {

/// All of `s` is white space.
pub open spec fn is_blank(s: Seq<char>) -> bool {
    forall|i: int| 0 <= i < s.len() ==> is_white_space(#[trigger] s[i])
}

/// `inner` is `s` without the white space around it: what is taken away is white space, and `inner`
/// neither begins nor ends with any.
pub open spec fn is_stripped(
    s: Seq<char>,
    before: Seq<char>,
    inner: Seq<char>,
    after: Seq<char>,
) -> bool {
    &&& s == before + inner + after
    &&& is_blank(before)
    &&& is_blank(after)
    &&& inner.len() > 0 ==> !is_white_space(inner[0]) && !is_white_space(inner.last())
}

/// `inner` is `s` without the white space around it.
pub open spec fn strips_to(s: Seq<char>, inner: Seq<char>) -> bool {
    exists|before: Seq<char>, after: Seq<char>| is_stripped(s, before, inner, after)
}

/// What stands in front is white space.
proof fn lemma_trim_start(s: Seq<char>) -> (before: Seq<char>)
    ensures
        s == before + trim_start(s),
        is_blank(before),
        trim_start(s).len() > 0 ==> !is_white_space(trim_start(s)[0]),
    decreases s.len(),
{
    if s.len() > 0 && is_white_space(s[0]) {
        let rest = lemma_trim_start(s.drop_first());
        let before = seq![s[0]] + rest;
        assert(s =~= seq![s[0]] + (rest + trim_start(s)));
        assert(s =~= before + trim_start(s));
        before
    } else {
        assert(s =~= Seq::<char>::empty() + s);
        Seq::empty()
    }
}

/// What stands behind is white space.
proof fn lemma_trim_end(s: Seq<char>) -> (after: Seq<char>)
    ensures
        s == trim_end(s) + after,
        is_blank(after),
        trim_end(s).len() > 0 ==> !is_white_space(trim_end(s).last()),
    decreases s.len(),
{
    if s.len() > 0 && is_white_space(s.last()) {
        let rest = lemma_trim_end(s.drop_last());
        let after = rest.push(s.last());
        assert(s =~= (trim_end(s) + rest).push(s.last()));
        assert(s =~= trim_end(s) + after);
        after
    } else {
        assert(s =~= s + Seq::<char>::empty());
        Seq::empty()
    }
}

/// Trimming takes away all white space at both ends and nothing else. Nothing is left exactly of a
/// text that is all white space.
pub proof fn law_trimming(s: Seq<char>)
    ensures
        strips_to(s, trimmed(s)),
        trimmed(s).len() == 0 <==> is_blank(s),
{
    let before = lemma_trim_start(s);
    let after = lemma_trim_end(trim_start(s));
    let inner = trimmed(s);
    assert(s =~= before + inner + after);
    if inner.len() > 0 {
        assert(trim_start(s)[0] == inner[0]);
        assert(s[before.len() as int] == inner[0]);
    } else {
        assert forall|i: int| 0 <= i < s.len() implies is_white_space(#[trigger] s[i]) by {
            if i < before.len() {
                assert(s[i] == before[i]);
            } else {
                assert(s[i] == after[i - before.len()]);
            }
        }
    }
    assert(is_stripped(s, before, inner, after));
}

/// `line` is the first line of `s`: it has no line feed, and nothing or a line feed follows it.
pub open spec fn begins_with_line(s: Seq<char>, line: Seq<char>) -> bool {
    &&& !line.contains('\n')
    &&& line.len() <= s.len()
    &&& s.take(line.len() as int) == line
    &&& line.len() < s.len() ==> s[line.len() as int] == '\n'
}

/// The first line goes as far as the first line feed.
pub proof fn law_first_line(s: Seq<char>)
    ensures
        begins_with_line(s, until_newline(s)),
    decreases s.len(),
{
    let line = until_newline(s);
    if s.len() == 0 || s[0] == '\n' {
        assert(s.take(0) =~= line);
    } else {
        let rest = s.drop_first();
        law_first_line(rest);
        let tail = until_newline(rest);
        assert(line =~= seq![s[0]] + tail);
        assert(s.take(line.len() as int) =~= line) by {
            assert(rest.take(tail.len() as int) == tail);
            assert forall|i: int| 0 < i < line.len() implies s[i] == #[trigger] line[i] by {
                assert(rest.take(tail.len() as int)[i - 1] == rest[i - 1]);
            }
        }
        assert forall|i: int| 0 <= i < line.len() implies #[trigger] line[i] != '\n' by {
            if i > 0 {
                assert(line[i] == tail[i - 1]);
                assert(tail.contains(tail[i - 1]));
            }
        }
    }
}

/// Taking away the slashes at the end takes away all of them and nothing else.
pub proof fn law_slashes_at_the_end(s: Seq<char>)
    ensures
        without_end_slashes(s).len() <= s.len(),
        s.take(without_end_slashes(s).len() as int) == without_end_slashes(s),
        forall|i: int| without_end_slashes(s).len() <= i < s.len() ==> #[trigger] s[i] == '/',
        without_end_slashes(s).len() > 0 ==> without_end_slashes(s).last() != '/',
    decreases s.len(),
{
    if s.len() > 0 && s.last() == '/' {
        let shorter = s.drop_last();
        law_slashes_at_the_end(shorter);
        let kept = without_end_slashes(s).len() as int;
        assert(s.take(kept) =~= shorter.take(kept));
        assert forall|i: int| kept <= i < s.len() implies #[trigger] s[i] == '/' by {
            if i < shorter.len() {
                assert(shorter[i] == '/');
            }
        }
    } else {
        assert(s.take(s.len() as int) =~= s);
    }
}

/// An absolute part stands for itself. A relative one stands behind the base with exactly one
/// separator between them, whether or not the base ends with one, and alone behind an empty base.
pub proof fn law_paths_are_joined(base: Seq<char>, part: Seq<char>)
    ensures
        part.len() > 0 && part[0] == '/' ==> joined_path(base, part) == part,
        !(part.len() > 0 && part[0] == '/') ==> {
            &&& joined_path(Seq::empty(), part) == part
            &&& joined_path(base.push('/'), part) == base + "/"@ + part
            &&& base.len() > 0 && base.last() != '/' ==> joined_path(base, part) == base + "/"@
                + part
        },
{
    reveal_strlit("/");
    assert(Seq::<char>::empty() + part =~= part);
    assert(base.push('/') + part =~= base + "/"@ + part);
}

/// `a` and `b` agree up to `k`, where `a` ends or has the smaller character.
pub open spec fn differs_at(a: Seq<char>, b: Seq<char>, k: int) -> bool {
    &&& 0 <= k <= a.len()
    &&& k < b.len()
    &&& forall|i: int| 0 <= i < k ==> #[trigger] a[i] == b[i]
    &&& k < a.len() ==> a[k] < b[k]
}

/// A name comes before another where it is a proper beginning of it, or has the smaller character at
/// the first difference.
pub proof fn law_order_of_names(a: Seq<char>, b: Seq<char>)
    ensures
        precedes(a, b) <==> exists|k: int| differs_at(a, b, k),
    decreases a.len(),
{
    if a.len() > 0 && b.len() > 0 && a[0] == b[0] {
        let x = a.drop_first();
        let y = b.drop_first();
        law_order_of_names(x, y);
        if precedes(a, b) {
            let k = choose|k: int| differs_at(x, y, k);
            assert forall|i: int| 0 <= i < k + 1 implies #[trigger] a[i] == b[i] by {
                if i > 0 {
                    assert(x[i - 1] == y[i - 1]);
                }
            }
            assert(differs_at(a, b, k + 1));
        }
        if exists|k: int| differs_at(a, b, k) {
            let k = choose|k: int| differs_at(a, b, k);
            assert(k > 0);
            assert forall|i: int| 0 <= i < k - 1 implies #[trigger] x[i] == y[i] by {
                assert(a[i + 1] == b[i + 1]);
            }
            assert(differs_at(x, y, k - 1));
        }
    } else {
        if precedes(a, b) {
            assert(differs_at(a, b, 0));
        }
        if exists|k: int| differs_at(a, b, k) {
            let k = choose|k: int| differs_at(a, b, k);
            if k > 0 {
                assert(a[0] == b[0]);
            }
        }
    }
}

/// The number that decimal digits stand for.
pub open spec fn number_of(digits: Seq<char>) -> int
    decreases digits.len(),
{
    if digits.len() == 0 {
        0
    } else {
        10 * number_of(digits.drop_last()) + (digits.last() as int - '0' as int)
    }
}

/// All of `s` are decimal digits.
pub open spec fn are_digits(s: Seq<char>) -> bool {
    forall|i: int| 0 <= i < s.len() ==> '0' <= #[trigger] s[i] <= '9'
}

/// A number reads back from its decimal digits, which have no needless zero in front. A negative
/// number has a minus sign in front of the digits of its magnitude.
pub proof fn law_numbers_read_back(n: int)
    ensures
        n >= 0 ==> {
            &&& decimal(n).len() > 0
            &&& are_digits(decimal(n))
            &&& number_of(decimal(n)) == n
            &&& decimal(n).len() > 1 ==> decimal(n)[0] != '0'
        },
        n < 0 ==> decimal(n) == "-"@ + decimal(-n),
{
    if n >= 0 {
        lemma_digits_read_back(n as nat);
    }
}

/// A digit is one character.
proof fn lemma_digit(d: nat)
    requires
        d < 10,
    ensures
        digit(d).len() == 1,
        '0' <= digit(d)[0] <= '9',
        digit(d)[0] as int == '0' as int + d,
{
    reveal_strlit("0");
    reveal_strlit("1");
    reveal_strlit("2");
    reveal_strlit("3");
    reveal_strlit("4");
    reveal_strlit("5");
    reveal_strlit("6");
    reveal_strlit("7");
    reveal_strlit("8");
    reveal_strlit("9");
}

/// A natural number reads back from its digits.
proof fn lemma_digits_read_back(n: nat)
    ensures
        decimal_nat(n).len() > 0,
        are_digits(decimal_nat(n)),
        number_of(decimal_nat(n)) == n,
        decimal_nat(n).len() > 1 ==> decimal_nat(n)[0] != '0',
        n > 0 ==> decimal_nat(n)[0] != '0',
    decreases n,
{
    let all = decimal_nat(n);
    lemma_digit(n % 10);
    if n < 10 {
        lemma_digit(n);
        assert(all.drop_last() =~= Seq::<char>::empty());
        assert(number_of(all.drop_last()) == 0);
    } else {
        let front = decimal_nat(n / 10);
        lemma_digits_read_back(n / 10);
        assert(all =~= front.push(digit(n % 10)[0]));
        assert(all.drop_last() =~= front);
        assert(all[0] == front[0]);
        assert(n == 10 * (n / 10) + n % 10);
    }
}

} // verus!
