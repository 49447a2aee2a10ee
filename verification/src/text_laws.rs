//! What the text helpers give back, told from the result.
use crate::text::{
    contains_text, decimal, digit, occurs_at, strip_0x_spec, trim_end_spec, truth_text, wire_spec,
};
use vstd::prelude::*;

verus! {

/// The number that a row of decimal digits spells.
pub open spec fn numeral_value(digits: Seq<char>) -> int
    decreases digits.len(),
{
    if digits.len() == 0 {
        0
    } else {
        10 * numeral_value(digits.drop_last()) + (digits.last() as int - 48)
    }
}

/// A decimal numeral consists of digits, spells its number, and has no leading zero
/// but for zero itself.
pub proof fn law_decimal_spells_number(n: nat)
    ensures
        decimal(n).len() > 0,
        numeral_value(decimal(n)) == n,
        forall|i: int| 0 <= i < decimal(n).len() ==> '0' <= #[trigger] decimal(n)[i] <= '9',
        decimal(n).len() > 1 ==> decimal(n)[0] != '0',
    decreases n,
{
    let s = decimal(n);
    if n < 10 {
        assert(s.drop_last() =~= Seq::<char>::empty());
        assert(numeral_value(s.drop_last()) == 0);
        assert(s.last() == digit(n));
    } else {
        law_decimal_spells_number(n / 10);
        assert(s.drop_last() =~= decimal(n / 10));
        assert(s.last() == digit(n % 10));
        assert(s[0] == decimal(n / 10)[0]);
        if decimal(n / 10).len() == 1 {
            assert(decimal(n / 10).drop_last() =~= Seq::<char>::empty());
            assert(numeral_value(decimal(n / 10).drop_last()) == 0);
            assert(decimal(n / 10)[0] == decimal(n / 10).last());
        }
        assert forall|i: int| 0 <= i < s.len() implies '0' <= #[trigger] s[i] <= '9' by {
            if i < s.len() - 1 {
                assert(s[i] == decimal(n / 10)[i]);
            }
        }
    }
}

/// The texts of the two truth values.
pub proof fn law_truth_texts()
    ensures
        truth_text(true) == "true"@,
        truth_text(false) == "false"@,
{
}

/// Trimming keeps a beginning of the text that does not end in the character, and
/// drops nothing but that character.
pub proof fn law_trim_drops_only_the_tail(s: Seq<char>, c: char)
    ensures
        trim_end_spec(s, c).len() <= s.len(),
        trim_end_spec(s, c) == s.take(trim_end_spec(s, c).len() as int),
        forall|i: int| trim_end_spec(s, c).len() <= i < s.len() ==> #[trigger] s[i] == c,
        trim_end_spec(s, c).len() > 0 ==> trim_end_spec(s, c).last() != c,
    decreases s.len(),
{
    if s.len() > 0 && s.last() == c {
        let rest = s.drop_last();
        law_trim_drops_only_the_tail(rest, c);
        let n = trim_end_spec(s, c).len() as int;
        assert(rest.take(n) =~= s.take(n));
        assert forall|i: int| n <= i < s.len() implies #[trigger] s[i] == c by {
            if i < rest.len() {
                assert(rest[i] == c);
            }
        }
    } else {
        assert(s.take(s.len() as int) =~= s);
    }
}

/// The exchange's notation keeps a beginning of the text; what it drops are points
/// followed by zeros, as many of either as there are.
pub proof fn law_wire_drops_points_and_zeros(s: Seq<char>)
    ensures
        exists|m: int| #[trigger]
            s.take(m).len() == m && {
                &&& wire_spec(s).len() <= m <= s.len()
                &&& wire_spec(s) == s.take(wire_spec(s).len() as int)
                &&& forall|i: int| wire_spec(s).len() <= i < m ==> #[trigger] s[i] == '.'
                &&& forall|i: int| m <= i < s.len() ==> #[trigger] s[i] == '0'
                &&& m > 0 ==> s[m - 1] != '0'
                &&& wire_spec(s).len() > 0 ==> wire_spec(s).last() != '.'
            },
{
    let a = trim_end_spec(s, '0');
    let w = wire_spec(s);
    law_trim_drops_only_the_tail(s, '0');
    law_trim_drops_only_the_tail(a, '.');
    let m = a.len() as int;
    assert(a.take(w.len() as int) =~= s.take(w.len() as int));
    assert forall|i: int| w.len() <= i < m implies #[trigger] s[i] == '.' by {
        assert(a[i] == s[i]);
    }
    if m > 0 {
        assert(a.last() == s[m - 1]);
    }
    assert(s.take(m).len() == m);
}

/// Stripping drops whole repetitions of `0x` from the front, and leaves none there.
pub proof fn law_strip_drops_only_prefixes(s: Seq<char>)
    ensures
        strip_0x_spec(s).len() <= s.len(),
        (s.len() - strip_0x_spec(s).len()) % 2 == 0,
        strip_0x_spec(s) == s.skip(s.len() - strip_0x_spec(s).len()),
        forall|i: int|
            0 <= i < s.len() - strip_0x_spec(s).len() ==> #[trigger] s[i] == (if i % 2 == 0 {
                '0'
            } else {
                'x'
            }),
        !(strip_0x_spec(s).len() >= 2 && strip_0x_spec(s)[0] == '0' && strip_0x_spec(s)[1] == 'x'),
    decreases s.len(),
{
    if s.len() >= 2 && s[0] == '0' && s[1] == 'x' {
        let rest = s.skip(2);
        law_strip_drops_only_prefixes(rest);
        let n = s.len() - strip_0x_spec(s).len();
        assert(rest.skip(n - 2) =~= s.skip(n));
        assert forall|i: int| 0 <= i < n implies #[trigger] s[i] == (if i % 2 == 0 {
            '0'
        } else {
            'x'
        }) by {
            if i >= 2 {
                assert(rest[i - 2] == s[i]);
            }
        }
    } else {
        assert(s.skip(0) =~= s);
    }
}

/// A needle occurs where it stands between what comes before and what comes after.
pub proof fn law_occurrence_splits(before: Seq<u8>, needle: Seq<u8>, after: Seq<u8>)
    ensures
        occurs_at(before + needle + after, needle, before.len() as int),
{
    let whole = before + needle + after;
    assert(whole.subrange(before.len() as int, (before.len() + needle.len()) as int) =~= needle);
}

/// Where a needle occurs, the haystack is what comes before, the needle, and what
/// comes after.
pub proof fn law_split_is_occurrence(haystack: Seq<u8>, needle: Seq<u8>, at: int)
    requires
        occurs_at(haystack, needle, at),
    ensures
        0 <= at <= at + needle.len() <= haystack.len(),
        haystack == haystack.take(at) + needle + haystack.skip(at + needle.len()),
{
    let middle = haystack.subrange(at, at + needle.len());
    assert(haystack =~= haystack.take(at) + middle + haystack.skip(at + needle.len()));
}

/// A list holds a text exactly if its last entry is the text or the rest of the list
/// holds it; an empty list holds none.
pub proof fn law_lists_hold_texts(list: Seq<String>, last: String, text: Seq<char>)
    ensures
        !contains_text(Seq::<String>::empty(), text),
        contains_text(list.push(last), text) <==> last@ == text || contains_text(list, text),
{
    let all = list.push(last);
    if contains_text(list, text) {
        let i = choose|i: int| 0 <= i < list.len() && #[trigger] list[i]@ == text;
        assert(all[i]@ == text);
    }
    if last@ == text {
        assert(all[list.len() as int]@ == text);
    }
    if contains_text(all, text) && last@ != text {
        let i = choose|i: int| 0 <= i < all.len() && #[trigger] all[i]@ == text;
        assert(list[i]@ == text);
    }
}

} // verus!
