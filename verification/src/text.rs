//! Text: searching and cutting, decimal numbers and counted nouns.

use vstd::prelude::*;

verus! {

/// What `String::from` makes of a `&str` is a string with the same text.
pub assume_specification<'a>[ <String as From<&'a str>>::from ](s: &str) -> (res: String)
    ensures
        res@ == s@,
;

/// `pat` stands in `s` from position `i` on.
pub open spec fn occurs_at(s: Seq<char>, pat: Seq<char>, i: int) -> bool {
    &&& 0 <= i
    &&& i + pat.len() <= s.len()
    &&& s.subrange(i, i + pat.len()) == pat
}

/// `pat` stands somewhere in `s`.
pub open spec fn has_text(s: Seq<char>, pat: Seq<char>) -> bool {
    exists|i: int| occurs_at(s, pat, i)
}

/// `i` is the leftmost position of `pat` in `s`.
pub open spec fn is_first_at(s: Seq<char>, pat: Seq<char>, i: int) -> bool {
    &&& occurs_at(s, pat, i)
    &&& forall|j: int| 0 <= j < i ==> !occurs_at(s, pat, j)
}

/// `s` cut in two at the leftmost `pat`, which belongs to neither part.
pub open spec fn cut(s: Seq<char>, pat: Seq<char>) -> Option<(Seq<char>, Seq<char>)> {
    if has_text(s, pat) {
        let i = choose|i: int| is_first_at(s, pat, i);
        Some((s.subrange(0, i), s.subrange(i + pat.len(), s.len() as int)))
    } else {
        None
    }
}

/// `s` begins with `prefix`.
pub open spec fn has_prefix(s: Seq<char>, prefix: Seq<char>) -> bool {
    occurs_at(s, prefix, 0)
}

/// The leftmost position is where `cut` cuts.
pub proof fn lemma_cut_at(s: Seq<char>, pat: Seq<char>, i: int)
    requires
        is_first_at(s, pat, i),
    ensures
        cut(s, pat) == Some((s.subrange(0, i), s.subrange(i + pat.len(), s.len() as int))),
{
    let k = choose|k: int| is_first_at(s, pat, k);
    assert(is_first_at(s, pat, k));
    assert(k == i) by {
        if k < i {
            assert(!occurs_at(s, pat, k));
        }
        if i < k {
            assert(!occurs_at(s, pat, i));
        }
    }
}

/// Same text in both.
pub fn same_text(a: &str, b: &str) -> (same: bool)
    ensures
        same == (a@ == b@),
{
    a.to_string() == b.to_string()
}

/// Whether `pat` stands in `s` from the `i`-th character on.
pub fn occurs(s: &str, pat: &str, i: usize) -> (found: bool)
    ensures
        found == occurs_at(s@, pat@, i as int),
{
    let n: usize = s.unicode_len();
    let m: usize = pat.unicode_len();
    if i > n || m > n - i {
        return false;
    }
    same_text(s.substring_char(i, i + m), pat)
}

/// The leftmost position of `pat` in `s`, counted in characters.
pub fn find_text(s: &str, pat: &str) -> (at: Option<usize>)
    ensures
        match at {
            Some(i) => is_first_at(s@, pat@, i as int),
            None => !has_text(s@, pat@),
        },
{
    let n: usize = s.unicode_len();
    let mut i: usize = 0;
    while i < n
        invariant
            n == s@.len(),
            i <= n,
            forall|j: int| 0 <= j < i ==> !occurs_at(s@, pat@, j),
        decreases n - i,
    {
        if occurs(s, pat, i) {
            return Some(i);
        }
        i = i + 1;
    }
    if occurs(s, pat, n) {
        return Some(n);
    }
    None
}

/// Whether `pat` stands in `s`.
pub fn contains_text(s: &str, pat: &str) -> (found: bool)
    ensures
        found == has_text(s@, pat@),
{
    match find_text(s, pat) {
        Some(_) => true,
        None => false,
    }
}

/// Whether `s` begins with `prefix`.
pub fn starts_with(s: &str, prefix: &str) -> (found: bool)
    ensures
        found == has_prefix(s@, prefix@),
{
    occurs(s, prefix, 0)
}

/// What follows `prefix` in `s`, where `s` begins with it.
pub fn strip_prefix<'a>(s: &'a str, prefix: &str) -> (rest: Option<&'a str>)
    ensures
        match rest {
            Some(r) => has_prefix(s@, prefix@) && r@ == s@.skip(prefix@.len() as int),
            None => !has_prefix(s@, prefix@),
        },
{
    if starts_with(s, prefix) {
        let rest = s.substring_char(prefix.unicode_len(), s.unicode_len());
        assert(rest@ =~= s@.skip(prefix@.len() as int));
        Some(rest)
    } else {
        None
    }
}

/// `s` cut in two at the leftmost `pat`.
pub fn split_once<'a>(s: &'a str, pat: &str) -> (parts: Option<(&'a str, &'a str)>)
    ensures
        match parts {
            Some((a, b)) => cut(s@, pat@) == Some((a@, b@)),
            None => cut(s@, pat@) is None,
        },
{
    match find_text(s, pat) {
        Some(i) => {
            proof {
                lemma_cut_at(s@, pat@, i as int);
            }
            let end: usize = s.unicode_len();
            let after: usize = i + pat.unicode_len();
            Some((s.substring_char(0, i), s.substring_char(after, end)))
        },
        None => None,
    }
}

/// The first `n` bytes of `s`, as text; all of it where it has no more.
pub open spec fn byte_head(s: Seq<char>, n: int) -> Seq<char> {
    if vstd::utf8::encode_utf8(s).len() <= n {
        s
    } else {
        vstd::utf8::decode_utf8(vstd::utf8::encode_utf8(s).subrange(0, n))
    }
}

/// `s` can be cut behind its first `n` bytes.
pub open spec fn has_byte_head(s: Seq<char>, n: int) -> bool {
    vstd::utf8::encode_utf8(s).len() <= n || vstd::utf8::is_char_boundary(
        vstd::utf8::encode_utf8(s),
        n,
    )
}

/// The first `n` bytes of `s`, or all of them. They must not end inside a character.
pub fn take_bytes<'a>(s: &'a str, n: usize) -> (head: &'a str)
    requires
        has_byte_head(s@, n as int),
    ensures
        head@ == byte_head(s@, n as int),
{
    let bytes = s.as_bytes();
    if bytes.len() <= n {
        return s;
    }
    let (head, _tail) = s.split_at(n);
    proof {
        vstd::utf8::encode_utf8_decode_utf8(head@);
    }
    head
}

/// The decimal digits of `n`.
pub open spec fn decimal(n: nat) -> Seq<char>
    decreases n,
{
    if n < 10 {
        seq!["0123456789"@[n as int]]
    } else {
        decimal(n / 10).push("0123456789"@[(n % 10) as int])
    }
}

/// The decimal digits of `n`.
pub fn decimal_text(n: u64) -> (text: String)
    ensures
        text@ == decimal(n as nat),
    decreases n,
{
    let digits: &str = "0123456789";
    proof {
        reveal_strlit("0123456789");
    }
    let d: usize = (n % 10) as usize;
    let digit = digits.substring_char(d, d + 1);
    assert(digit@ =~= seq!["0123456789"@[d as int]]);
    if n < 10 {
        digit.to_string()
    } else {
        let mut text = decimal_text(n / 10);
        text.append(digit);
        assert(text@ =~= decimal((n / 10) as nat).push("0123456789"@[d as int]));
        text
    }
}

/// A number of things: `1 change`, `5 changes`.
pub open spec fn counted(count: nat, singular: Seq<char>) -> Seq<char> {
    if count == 1 {
        "1 "@ + singular
    } else {
        decimal(count) + " "@ + singular + "s"@
    }
}

/// A number of things, the noun in the plural unless there is exactly one.
pub fn format_count(count: usize, singular: &str) -> (text: String)
    ensures
        text@ == counted(count as nat, singular@),
{
    if count == 1 {
        let mut text = "1 ".to_string();
        text.append(singular);
        text
    } else {
        let mut text = decimal_text(count as u64);
        text.append(" ");
        text.append(singular);
        text.append("s");
        text
    }
}

/// The number that decimal digits stand for.
pub open spec fn number_of(digits: Seq<char>) -> int
    decreases digits.len(),
{
    if digits.len() == 0 {
        0
    } else {
        number_of(digits.drop_last()) * 10 + (digits.last() as int - '0' as int)
    }
}

/// The decimal digits of a number are digits, stand for it, and begin with a zero for zero
/// alone.
pub proof fn law_decimal_reads_back(n: nat)
    ensures
        number_of(decimal(n)) == n,
        decimal(n).len() > 0,
        forall|i: int| 0 <= i < decimal(n).len() ==> '0' <= #[trigger] decimal(n)[i] <= '9',
        decimal(n)[0] == '0' ==> n == 0,
    decreases n,
{
    reveal_strlit("0123456789");
    let digits = "0123456789"@;
    assert(forall|d: int| 0 <= d < 10 ==> #[trigger] digits[d] as int == '0' as int + d);
    if n < 10 {
        assert(decimal(n).drop_last() =~= Seq::empty());
        assert(decimal(n).last() == digits[n as int]);
        assert(number_of(Seq::<char>::empty()) == 0);
    } else {
        law_decimal_reads_back(n / 10);
        let rest = decimal(n / 10);
        assert(decimal(n).drop_last() =~= rest);
        assert(decimal(n).last() == digits[(n % 10) as int]);
        assert(decimal(n)[0] == rest[0]);
    }
}

/// A number of things is written as the number, the noun, and an `s` unless there is one.
pub proof fn law_counted_is_the_number_and_the_noun(count: nat, singular: Seq<char>)
    ensures
        counted(count, singular) == decimal(count) + " "@ + singular + (if count == 1 {
            ""@
        } else {
            "s"@
        }),
{
    reveal_strlit("");
    reveal_strlit(" ");
    reveal_strlit("1 ");
    reveal_strlit("0123456789");
    if count == 1 {
        assert(decimal(1) =~= seq!['1']);
        assert("1 "@ =~= decimal(1) + " "@);
        assert(decimal(1) + " "@ + singular + ""@ =~= decimal(1) + " "@ + singular);
    }
}

/// Cutting at a mark takes the mark out and loses nothing else; the part before it does not
/// reach to an earlier mark. Text that cannot be cut does not hold the mark anywhere.
pub proof fn law_cut_parts_rejoin(s: Seq<char>, mark: Seq<char>)
    ensures
        match cut(s, mark) {
            Some((head, tail)) => {
                &&& s == head + mark + tail
                &&& forall|i: int|
                    0 <= i < head.len() && i + mark.len() <= s.len() ==> #[trigger] s.subrange(
                        i,
                        i + mark.len(),
                    ) != mark
            },
            None => forall|i: int|
                0 <= i && i + mark.len() <= s.len() ==> #[trigger] s.subrange(i, i + mark.len())
                    != mark,
        },
{
    if has_text(s, mark) {
        lemma_first_exists(s, mark, choose|i: int| occurs_at(s, mark, i));
        let k = choose|k: int| is_first_at(s, mark, k);
        lemma_cut_at(s, mark, k);
        let head = s.subrange(0, k);
        let tail = s.subrange(k + mark.len(), s.len() as int);
        assert(s =~= head + mark + tail) by {
            assert(s.subrange(k, k + mark.len()) == mark);
            assert forall|j: int| 0 <= j < mark.len() implies s[k + j] == mark[j] by {
                assert(s.subrange(k, k + mark.len())[j] == s[k + j]);
            }
        }
        assert forall|i: int|
            0 <= i < head.len() && i + mark.len() <= s.len() implies #[trigger] s.subrange(
            i,
            i + mark.len(),
        ) != mark by {
            assert(!occurs_at(s, mark, i));
        }
    } else {
        assert forall|i: int|
            0 <= i && i + mark.len() <= s.len() implies #[trigger] s.subrange(i, i + mark.len())
            != mark by {
            assert(!occurs_at(s, mark, i));
        }
    }
}

/// Where a text stands somewhere there is a leftmost place.
proof fn lemma_first_exists(s: Seq<char>, pat: Seq<char>, i: int)
    requires
        occurs_at(s, pat, i),
    ensures
        exists|k: int| is_first_at(s, pat, k),
    decreases i,
{
    if forall|j: int| 0 <= j < i ==> !occurs_at(s, pat, j) {
        assert(is_first_at(s, pat, i));
    } else {
        let j = choose|j: int| 0 <= j < i && occurs_at(s, pat, j);
        lemma_first_exists(s, pat, j);
    }
}

/// The head of a text has the first `n` bytes of the text, or all of them where the text has
/// no more, and it begins the text.
pub proof fn law_byte_head_is_the_first_bytes(s: Seq<char>, n: int)
    requires
        0 <= n,
        has_byte_head(s, n),
    ensures
        vstd::utf8::encode_utf8(s).len() <= n ==> byte_head(s, n) == s,
        vstd::utf8::encode_utf8(s).len() > n ==> {
            &&& vstd::utf8::encode_utf8(byte_head(s, n)).len() == n
            &&& forall|i: int|
                0 <= i < n ==> #[trigger] vstd::utf8::encode_utf8(byte_head(s, n))[i]
                    == vstd::utf8::encode_utf8(s)[i]
            &&& exists|rest: Seq<char>| s == #[trigger] (byte_head(s, n) + rest)
        },
{
    let bytes = vstd::utf8::encode_utf8(s);
    if bytes.len() > n {
        vstd::utf8::encode_utf8_valid_utf8(s);
        vstd::utf8::valid_utf8_split(bytes, n);
        vstd::utf8::decode_utf8_split(bytes, n);
        vstd::utf8::encode_utf8_decode_utf8(s);
        vstd::utf8::decode_utf8_encode_utf8(bytes.subrange(0, n));
        let rest = vstd::utf8::decode_utf8(bytes.subrange(n, bytes.len() as int));
        assert(s == byte_head(s, n) + rest);
    }
}

} // verus!
