//! Text helpers: comparison, decimal numerals, trimming, UTF-8 decoding and
//! byte search.
use vstd::prelude::*;
use std::str::Utf8Error;
use vstd::string::StrSliceExecFns;
use vstd::string::StringExecFns;
use vstd::utf8::{encode_utf8, valid_utf8};

verus! {

/// The error that `std::str::from_utf8` returns.
#[verifier::external_type_specification]
#[verifier::external_body]
pub struct ExUtf8Error(Utf8Error);

/// `std::str::from_utf8`: succeeds on exactly the valid UTF-8 sequences, and
/// the text then has those bytes.
pub assume_specification[ std::str::from_utf8 ](v: &[u8]) -> (r: Result<&str, Utf8Error>)
    ensures
        r is Ok <==> valid_utf8(v@),
        r matches Ok(s) ==> encode_utf8(s@) == v@,
;

/// Equal encodings come from equal texts.
pub proof fn lemma_encode_utf8_injective(a: Seq<char>, b: Seq<char>)
    ensures
        encode_utf8(a) == encode_utf8(b) ==> a == b,
{
    vstd::utf8::encode_utf8_decode_utf8(a);
    vstd::utf8::encode_utf8_decode_utf8(b);
}

/// Byte-wise equality of two slices.
pub fn same_bytes(a: &[u8], b: &[u8]) -> (r: bool)
    ensures
        r == (a@ == b@),
{
    if a.len() != b.len() {
        return false;
    }
    let mut i: usize = 0;
    while i < a.len()
        invariant
            i <= a@.len(),
            a@.len() == b@.len(),
            forall|j: int| 0 <= j < i ==> a@[j] == b@[j],
        decreases a@.len() - i,
    {
        if a[i] != b[i] {
            return false;
        }
        i += 1;
    }
    assert(a@ =~= b@);
    true
}

/// Equality of two texts.
pub fn same_text(a: &str, b: &str) -> (r: bool)
    ensures
        r == (a@ == b@),
{
    proof {
        lemma_encode_utf8_injective(a@, b@);
    }
    same_bytes(a.as_bytes(), b.as_bytes())
}

/// Does `text` occur in `list`?
pub open spec fn contains_text(list: Seq<String>, text: Seq<char>) -> bool {
    exists|i: int| 0 <= i < list.len() && #[trigger] list[i]@ == text
}

/// Membership of a text in a list.
pub fn has_text(list: &Vec<String>, text: &str) -> (r: bool)
    ensures
        r == contains_text(list@, text@),
{
    let mut i: usize = 0;
    while i < list.len()
        invariant
            i <= list@.len(),
            forall|j: int| 0 <= j < i ==> list@[j]@ != text@,
        decreases list@.len() - i,
    {
        if same_text(list[i].as_str(), text) {
            assert(list@[i as int]@ == text@);
            return true;
        }
        i += 1;
    }
    false
}

/// The decimal digit of `d`.
pub open spec fn digit(d: nat) -> char {
    ('0' as u8 + d) as char
}

/// The decimal numeral of `n`, without leading zeros.
pub open spec fn decimal(n: nat) -> Seq<char>
    decreases n,
{
    if n < 10 {
        seq![digit(n)]
    } else {
        decimal(n / 10).push(digit(n % 10))
    }
}

fn digit_text(d: u64) -> (r: &'static str)
    requires
        d < 10,
    ensures
        r@ == seq![digit(d as nat)],
{
    proof {
        reveal_strlit("0");
        reveal_strlit("1");
        reveal_strlit("2");
        reveal_strlit("3");
        reveal_strlit("4");
        reveal_strlit("5");
        reveal_strlit("6");
        reveal_strlit("7");
        reveal_strlit("8");
        reveal_strlit("9");
    }
    let r: &'static str = if d == 0 {
        "0"
    } else if d == 1 {
        "1"
    } else if d == 2 {
        "2"
    } else if d == 3 {
        "3"
    } else if d == 4 {
        "4"
    } else if d == 5 {
        "5"
    } else if d == 6 {
        "6"
    } else if d == 7 {
        "7"
    } else if d == 8 {
        "8"
    } else {
        "9"
    };
    assert(r@ =~= seq![digit(d as nat)]);
    r
}

/// Appends the decimal numeral of `n`.
pub fn push_decimal(out: &mut String, n: u64)
    ensures
        final(out)@ == old(out)@ + decimal(n as nat),
    decreases n,
{
    if n >= 10 {
        push_decimal(out, n / 10);
    }
    out.append(digit_text(n % 10));
    assert(out@ =~= old(out)@ + decimal(n as nat));
}

/// The text of a truth value, as JSON writes it.
pub open spec fn truth_text(b: bool) -> Seq<char> {
    if b {
        "true"@
    } else {
        "false"@
    }
}

/// Appends `true` or `false`.
pub fn push_truth(out: &mut String, b: bool)
    ensures
        final(out)@ == old(out)@ + truth_text(b),
{
    if b {
        out.append("true");
    } else {
        out.append("false");
    }
}

/// `s` without the longest tail that consists of `c` alone.
pub open spec fn trim_end_spec(s: Seq<char>, c: char) -> Seq<char>
    decreases s.len(),
{
    if s.len() > 0 && s.last() == c {
        trim_end_spec(s.drop_last(), c)
    } else {
        s
    }
}

/// Length of `s` once the first `len` characters have lost their tail of `c`.
fn trimmed_len(s: &str, len: usize, c: char) -> (r: usize)
    requires
        len <= s@.len(),
    ensures
        r <= len,
        s@.take(r as int) == trim_end_spec(s@.take(len as int), c),
    decreases len,
{
    if len > 0 && s.get_char(len - 1) == c {
        assert(s@.take(len as int).drop_last() =~= s@.take(len - 1));
        trimmed_len(s, len - 1, c)
    } else {
        len
    }
}

/// The exchange's notation for a number printed with six decimals: trailing
/// zeros go, then the decimal point if it is left at the end.
pub open spec fn wire_spec(fixed: Seq<char>) -> Seq<char> {
    trim_end_spec(trim_end_spec(fixed, '0'), '.')
}

proof fn lemma_trim_end_concat(a: Seq<char>, b: Seq<char>, c: char)
    ensures
        trim_end_spec(a + b, c) == (if trim_end_spec(b, c).len() == 0 {
            trim_end_spec(a, c)
        } else {
            a + trim_end_spec(b, c)
        }),
    decreases b.len(),
{
    if b.len() == 0 {
        assert(a + b =~= a);
    } else {
        assert((a + b).last() == b.last());
        if b.last() == c {
            assert((a + b).drop_last() =~= a + b.drop_last());
            lemma_trim_end_concat(a, b.drop_last(), c);
        }
    }
}

/// The exchange's notation loses nothing but the zeros at the end of the decimals,
/// and the point where no decimal is left: the digits before the point stay, also
/// where they end in zeros.
pub proof fn law_wire_keeps_integer_part(integer: Seq<char>, decimals: Seq<char>)
    requires
        integer.len() > 0,
        integer.last() != '.',
        !decimals.contains('.'),
    ensures
        wire_spec(integer.push('.') + decimals) == (if trim_end_spec(decimals, '0').len() == 0 {
            integer
        } else {
            integer.push('.') + trim_end_spec(decimals, '0')
        }),
{
    let kept = trim_end_spec(decimals, '0');
    lemma_trim_end_concat(integer.push('.'), decimals, '0');
    if kept.len() == 0 {
        assert(trim_end_spec(integer.push('.'), '0') == integer.push('.'));
        assert(integer.push('.').drop_last() =~= integer);
        assert(trim_end_spec(integer, '.') == integer);
    } else {
        lemma_trim_end_prefix(decimals, '0');
        assert(decimals.contains(decimals[kept.len() - 1]));
        assert((integer.push('.') + kept).last() == kept.last());
    }
}

proof fn lemma_trim_end_prefix(s: Seq<char>, c: char)
    ensures
        trim_end_spec(s, c).len() <= s.len(),
        trim_end_spec(s, c) == s.take(trim_end_spec(s, c).len() as int),
    decreases s.len(),
{
    if s.len() > 0 && s.last() == c {
        lemma_trim_end_prefix(s.drop_last(), c);
        let n = trim_end_spec(s, c).len() as int;
        assert(s.drop_last().take(n) =~= s.take(n));
    } else {
        assert(s.take(s.len() as int) =~= s);
    }
}

/// Turns a number printed with six decimals into the exchange's notation.
pub fn fixed_to_wire(fixed: &str) -> (r: String)
    ensures
        r@ == wire_spec(fixed@),
{
    let n: usize = fixed.unicode_len();
    assert(fixed@.take(n as int) =~= fixed@);
    let a: usize = trimmed_len(fixed, n, '0');
    let b: usize = trimmed_len(fixed, a, '.');
    assert(fixed@.subrange(0, b as int) =~= fixed@.take(b as int));
    fixed.substring_char(0, b).to_owned()
}

/// `s` without its leading repetitions of `0x`.
pub open spec fn strip_0x_spec(s: Seq<char>) -> Seq<char>
    decreases s.len(),
{
    if s.len() >= 2 && s[0] == '0' && s[1] == 'x' {
        strip_0x_spec(s.skip(2))
    } else {
        s
    }
}

/// Drops every leading `0x`.
pub fn strip_0x(s: &str) -> (r: &str)
    ensures
        r@ == strip_0x_spec(s@),
{
    let n: usize = s.unicode_len();
    let mut i: usize = 0;
    assert(s@.skip(0) =~= s@);
    while n - i >= 2 && s.get_char(i) == '0' && s.get_char(i + 1) == 'x'
        invariant
            n == s@.len(),
            i <= n,
            strip_0x_spec(s@) == strip_0x_spec(s@.skip(i as int)),
        decreases n - i,
    {
        assert(s@.skip(i as int).skip(2) =~= s@.skip(i + 2));
        i += 2;
    }
    assert(s@.subrange(i as int, n as int) =~= s@.skip(i as int));
    s.substring_char(i, n)
}

/// `needle` stands in `haystack` at position `at`.
pub open spec fn occurs_at(haystack: Seq<u8>, needle: Seq<u8>, at: int) -> bool {
    0 <= at && at + needle.len() <= haystack.len() && haystack.subrange(
        at,
        at + needle.len(),
    ) == needle
}

fn matches_at(haystack: &[u8], needle: &[u8], at: usize) -> (r: bool)
    requires
        at + needle@.len() <= haystack@.len(),
    ensures
        r == occurs_at(haystack@, needle@, at as int),
{
    let total: usize = haystack.len();
    let mut i: usize = 0;
    while i < needle.len()
        invariant
            i <= needle@.len(),
            total == haystack@.len(),
            at + needle@.len() <= total,
            forall|j: int| 0 <= j < i ==> haystack@[at + j] == needle@[j],
        decreases needle@.len() - i,
    {
        if haystack[at + i] != needle[i] {
            assert(haystack@.subrange(at as int, at + needle@.len())[i as int] != needle@[i as int]);
            return false;
        }
        i += 1;
    }
    assert(haystack@.subrange(at as int, at + needle@.len()) =~= needle@);
    true
}

/// Position of the first occurrence of `needle`.
pub fn find_bytes(haystack: &[u8], needle: &[u8]) -> (r: Option<usize>)
    requires
        needle@.len() > 0,
    ensures
        match r {
            Some(at) => occurs_at(haystack@, needle@, at as int) && forall|j: int|
                j < at ==> !occurs_at(haystack@, needle@, j),
            None => forall|j: int| !occurs_at(haystack@, needle@, j),
        },
{
    if haystack.len() < needle.len() {
        return None;
    }
    let last: usize = haystack.len() - needle.len();
    let mut at: usize = 0;
    while at <= last
        invariant
            needle@.len() > 0,
            last + needle@.len() == haystack@.len(),
            last < usize::MAX,
            at <= last + 1,
            forall|j: int| j < at ==> !occurs_at(haystack@, needle@, j),
        decreases last + 1 - at,
    {
        if matches_at(haystack, needle, at) {
            return Some(at);
        }
        at += 1;
    }
    None
}

/// Position of the first `byte` at or after `start`.
pub fn find_byte_after(haystack: &[u8], start: usize, byte: u8) -> (r: Option<usize>)
    requires
        start <= haystack@.len(),
    ensures
        match r {
            Some(at) => start <= at < haystack@.len() && haystack@[at as int] == byte && forall|
                j: int,
            |
                start <= j < at ==> haystack@[j] != byte,
            None => forall|j: int| start <= j < haystack@.len() ==> haystack@[j] != byte,
        },
{
    let mut at: usize = start;
    while at < haystack.len()
        invariant
            start <= at <= haystack@.len(),
            forall|j: int| start <= j < at ==> haystack@[j] != byte,
        decreases haystack@.len() - at,
    {
        if haystack[at] == byte {
            return Some(at);
        }
        at += 1;
    }
    None
}

} // verus!
