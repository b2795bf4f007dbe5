//! Text that goes into solver scripts: decimal numerals and symbol names.

use vstd::prelude::*;

verus! {

/// Whether `char::is_alphanumeric` holds of a character.
pub uninterp spec fn is_alphanumeric(c: char) -> bool;

/// `char::is_alphanumeric`. The result is Unicode's classification of the
/// character, which is named here and not spelled out.
#[verifier::external_body]
pub(crate) fn char_is_alphanumeric(c: char) -> (b: bool)
    ensures
        b == is_alphanumeric(c),
{
    c.is_alphanumeric()
}

/// `String::push`: the string afterwards is the string before with `c` at its end.
#[verifier::external_body]
pub(crate) fn push_char(s: &mut String, c: char)
    ensures
        final(s)@ == old(s)@.push(c),
{
    s.push(c)
}

/// The texts that a list of strings holds.
pub open spec fn strings_view(strings: Seq<String>) -> Seq<Seq<char>> {
    Seq::new(strings.len(), |i: int| strings[i]@)
}

/// The decimal digit that stands for `d`, for `d` below ten.
pub open spec fn digit_char(d: nat) -> char {
    if d == 0 {
        '0'
    } else if d == 1 {
        '1'
    } else if d == 2 {
        '2'
    } else if d == 3 {
        '3'
    } else if d == 4 {
        '4'
    } else if d == 5 {
        '5'
    } else if d == 6 {
        '6'
    } else if d == 7 {
        '7'
    } else if d == 8 {
        '8'
    } else {
        '9'
    }
}

/// The decimal numeral of `n`, without sign or leading zeros.
pub open spec fn decimal(n: nat) -> Seq<char>
    decreases n,
{
    if n < 10 {
        seq![digit_char(n)]
    } else {
        decimal(n / 10).push(digit_char(n % 10))
    }
}

/// Whether a character is a decimal digit.
pub open spec fn is_digit(c: char) -> bool {
    c == '0' || c == '1' || c == '2' || c == '3' || c == '4' || c == '5' || c == '6' || c == '7' || c == '8'
        || c == '9'
}

/// A numeral holds digits alone, and at least one.
pub proof fn lemma_decimal_digits(n: nat)
    ensures
        decimal(n).len() >= 1,
        n >= 10 ==> decimal(n).len() >= 2,
        forall|i: int| 0 <= i < decimal(n).len() ==> is_digit(#[trigger] decimal(n)[i]),
    decreases n,
{
    if n >= 10 {
        lemma_decimal_digits(n / 10);
    }
}

/// Different numbers have different numerals.
pub proof fn lemma_decimal_injective(a: nat, b: nat)
    requires
        decimal(a) == decimal(b),
    ensures
        a == b,
    decreases a,
{
    lemma_decimal_digits(a);
    lemma_decimal_digits(b);
    if a < 10 {
        assert(decimal(a)[0] == digit_char(a));
        if b >= 10 {
            assert(false);
        }
        assert(decimal(b)[0] == digit_char(b));
    } else {
        if b < 10 {
            assert(false);
        }
        let da = decimal(a / 10);
        let db = decimal(b / 10);
        assert(decimal(a).drop_last() =~= da);
        assert(decimal(b).drop_last() =~= db);
        assert(decimal(a).last() == digit_char(a % 10));
        assert(decimal(b).last() == digit_char(b % 10));
        lemma_decimal_injective(a / 10, b / 10);
    }
}

/// The name that a symbol derived from `base` has when it is the `n`-th of
/// that base: the base, an underscore and the numeral of `n`.
pub open spec fn fresh_name(base: Seq<char>, n: nat) -> Seq<char> {
    base + seq!['_'] + decimal(n)
}

/// Two derived names are the same only if they have the same base and the
/// same number.
pub proof fn lemma_fresh_names_differ(base_a: Seq<char>, a: nat, base_b: Seq<char>, b: nat)
    requires
        fresh_name(base_a, a) == fresh_name(base_b, b),
    ensures
        a == b,
        base_a == base_b,
{
    lemma_decimal_digits(a);
    lemma_decimal_digits(b);
    let name_a = fresh_name(base_a, a);
    let name_b = fresh_name(base_b, b);
    let da = decimal(a);
    let db = decimal(b);
    assert(name_a.len() == base_a.len() + 1 + da.len());
    assert(name_b.len() == base_b.len() + 1 + db.len());
    assert(name_a[base_a.len() as int] == '_');
    assert(name_b[base_b.len() as int] == '_');
    if da.len() < db.len() {
        // the underscore of the first name falls among the digits of the second
        let at = base_a.len() as int;
        assert(name_b[at] == db[at - base_b.len() - 1]);
        assert(is_digit(db[at - base_b.len() - 1]));
        assert(false);
    }
    if db.len() < da.len() {
        let at = base_b.len() as int;
        assert(name_a[at] == da[at - base_a.len() - 1]);
        assert(is_digit(da[at - base_a.len() - 1]));
        assert(false);
    }
    assert(da =~= name_a.subrange(base_a.len() as int + 1, name_a.len() as int));
    assert(db =~= name_b.subrange(base_b.len() as int + 1, name_b.len() as int));
    assert(base_a =~= name_a.subrange(0, base_a.len() as int));
    assert(base_b =~= name_b.subrange(0, base_b.len() as int));
    lemma_decimal_injective(a, b);
}

fn digit(d: u128) -> (c: char)
    requires
        d < 10,
    ensures
        c == digit_char(d as nat),
{
    if d == 0 {
        '0'
    } else if d == 1 {
        '1'
    } else if d == 2 {
        '2'
    } else if d == 3 {
        '3'
    } else if d == 4 {
        '4'
    } else if d == 5 {
        '5'
    } else if d == 6 {
        '6'
    } else if d == 7 {
        '7'
    } else if d == 8 {
        '8'
    } else {
        '9'
    }
}

/// Appends the decimal numeral of `n` to `out`.
pub fn push_decimal(out: &mut String, n: u128)
    ensures
        final(out)@ == old(out)@ + decimal(n as nat),
    decreases n,
{
    if n >= 10 {
        push_decimal(out, n / 10);
    }
    push_char(out, digit(n % 10));
}

/// A location's text with every character that is not alphanumeric replaced
/// by an underscore, so that it can stand in a symbol.
pub open spec fn sanitize(text: Seq<char>) -> Seq<char> {
    Seq::new(
        text.len(),
        |i: int|
            if is_alphanumeric(text[i]) {
                text[i]
            } else {
                '_'
            },
    )
}

/// Appends `sanitize` of `text` to `out`.
pub fn push_sanitized(out: &mut String, text: &str)
    ensures
        final(out)@ == old(out)@ + sanitize(text@),
{
    let n = text.unicode_len();
    let mut i: usize = 0;
    while i < n
        invariant
            n == text@.len(),
            i <= n,
            out@ == old(out)@ + sanitize(text@).subrange(0, i as int),
        decreases n - i,
    {
        let c = text.get_char(i);
        if char_is_alphanumeric(c) {
            push_char(out, c);
        } else {
            push_char(out, '_');
        }
        i += 1;
    }
}

/// Whether `needle` occurs in `hay` as a contiguous run of characters.
pub open spec fn occurs_in(needle: Seq<char>, hay: Seq<char>) -> bool {
    exists|k: int| 0 <= k <= hay.len() - needle.len() && #[trigger] hay.subrange(k, k + needle.len()) == needle
}

spec fn matches_at(needle: Seq<char>, hay: Seq<char>, k: int, upto: int) -> bool {
    forall|j: int| 0 <= j < upto ==> hay[k + j] == #[trigger] needle[j]
}

fn starts_at(hay: &str, hay_len: usize, needle: &str, needle_len: usize, k: usize) -> (found: bool)
    requires
        hay_len == hay@.len(),
        needle_len == needle@.len(),
        k + needle_len <= hay_len,
    ensures
        found == (hay@.subrange(k as int, k + needle_len) == needle@),
{
    let mut j: usize = 0;
    while j < needle_len
        invariant
            hay_len == hay@.len(),
            needle_len == needle@.len(),
            k + needle_len <= hay_len,
            j <= needle_len,
            matches_at(needle@, hay@, k as int, j as int),
        decreases needle_len - j,
    {
        if hay.get_char(k + j) != needle.get_char(j) {
            assert(hay@.subrange(k as int, k + needle_len)[j as int] != needle@[j as int]);
            return false;
        }
        j += 1;
    }
    assert(hay@.subrange(k as int, k + needle_len) =~= needle@);
    true
}

/// Whether two strings hold the same text.
pub fn str_equal(a: &str, b: &str) -> (same: bool)
    ensures
        same == (a@ == b@),
{
    let a_len = a.unicode_len();
    let b_len = b.unicode_len();
    if a_len != b_len {
        return false;
    }
    assert(a@.subrange(0, 0 + b_len) =~= a@);
    starts_at(a, a_len, b, b_len, 0)
}

/// Whether `needle` occurs in `hay`.
pub fn contains(hay: &str, needle: &str) -> (found: bool)
    ensures
        found == occurs_in(needle@, hay@),
{
    let hay_len = hay.unicode_len();
    let needle_len = needle.unicode_len();
    if needle_len > hay_len {
        return false;
    }
    let last = hay_len - needle_len;
    let mut k: usize = 0;
    while k < last
        invariant
            hay_len == hay@.len(),
            needle_len == needle@.len(),
            last == hay_len - needle_len,
            k <= last,
            forall|i: int| 0 <= i < k ==> #[trigger] hay@.subrange(i, i + needle_len) != needle@,
        decreases last - k,
    {
        if starts_at(hay, hay_len, needle, needle_len, k) {
            return true;
        }
        k += 1;
    }
    starts_at(hay, hay_len, needle, needle_len, last)
}

} // verus!
