//! Text primitives shared by the use cases: ordering, ASCII case folding,
//! searching, splitting, and decimal rendering, each with its meaning stated
//! over the character sequence of the text.

use vstd::prelude::*;
use vstd::string::StringSliceAdditionalSpecFns;

verus! {

/// The three-way answer of a text comparison.
#[derive(Clone, Copy, Debug, PartialEq, Eq, Structural)]
pub enum TextOrder {
    /// The left text sorts first.
    Less,
    /// The texts are equal.
    Equal,
    /// The right text sorts first.
    Greater,
}

/// Lexicographic order over characters by their scalar values: the order in
/// which a sorted map of strings keeps its keys.
pub open spec fn lex_lt(a: Seq<char>, b: Seq<char>) -> bool
    decreases a.len(),
{
    if a.len() == 0 {
        b.len() > 0
    } else if b.len() == 0 {
        false
    } else if a[0] != b[0] {
        (a[0] as int) < (b[0] as int)
    } else {
        lex_lt(a.drop_first(), b.drop_first())
    }
}

/// The lexicographic order is irreflexive.
pub proof fn lemma_lex_irreflexive(a: Seq<char>)
    ensures
        !lex_lt(a, a),
    decreases a.len(),
{
    if a.len() > 0 {
        lemma_lex_irreflexive(a.drop_first());
    }
}

/// The lexicographic order is transitive.
pub proof fn lemma_lex_transitive(a: Seq<char>, b: Seq<char>, c: Seq<char>)
    requires
        lex_lt(a, b),
        lex_lt(b, c),
    ensures
        lex_lt(a, c),
    decreases a.len(),
{
    if a.len() > 0 && b.len() > 0 && c.len() > 0 {
        if a[0] == b[0] && b[0] == c[0] {
            lemma_lex_transitive(a.drop_first(), b.drop_first(), c.drop_first());
        }
    }
}

/// The lexicographic order is total: two different texts are ordered one
/// way or the other.
pub proof fn lemma_lex_total(a: Seq<char>, b: Seq<char>)
    ensures
        a == b || lex_lt(a, b) || lex_lt(b, a),
    decreases a.len(),
{
    if a.len() > 0 && b.len() > 0 && a[0] == b[0] {
        lemma_lex_total(a.drop_first(), b.drop_first());
        if a.drop_first() == b.drop_first() {
            assert(a =~= seq![a[0]] + a.drop_first());
            assert(b =~= seq![b[0]] + b.drop_first());
        }
    } else if a.len() == 0 && b.len() == 0 {
        assert(a =~= b);
    } else if a.len() > 0 && b.len() > 0 {
        assert((a[0] as int) != (b[0] as int));
    }
}

/// The lexicographic order is asymmetric.
pub proof fn lemma_lex_asymmetric(a: Seq<char>, b: Seq<char>)
    requires
        lex_lt(a, b),
    ensures
        !lex_lt(b, a),
    decreases a.len(),
{
    if a.len() > 0 && b.len() > 0 && a[0] == b[0] {
        lemma_lex_asymmetric(a.drop_first(), b.drop_first());
    }
}

proof fn lemma_lex_skip(a: Seq<char>, b: Seq<char>, i: int)
    requires
        0 <= i < a.len(),
        i < b.len(),
        a[i] == b[i],
    ensures
        lex_lt(a.skip(i), b.skip(i)) == lex_lt(a.skip(i + 1), b.skip(i + 1)),
{
    assert(a.skip(i).drop_first() =~= a.skip(i + 1));
    assert(b.skip(i).drop_first() =~= b.skip(i + 1));
}

/// The three-way comparison a sort key answers.
pub open spec fn spec_compare(a: Seq<char>, b: Seq<char>) -> TextOrder {
    if a == b {
        TextOrder::Equal
    } else if lex_lt(a, b) {
        TextOrder::Less
    } else {
        TextOrder::Greater
    }
}

/// Compares two texts character by character.
pub fn compare(a: &str, b: &str) -> (order: TextOrder)
    ensures
        order == spec_compare(a@, b@),
        order == TextOrder::Greater ==> lex_lt(b@, a@),
{
    let a_len = a.unicode_len();
    let b_len = b.unicode_len();
    let mut i: usize = 0;
    proof {
        assert(a@.skip(0) =~= a@);
        assert(b@.skip(0) =~= b@);
    }
    while i < a_len && i < b_len
        invariant
            a_len == a@.len(),
            b_len == b@.len(),
            i <= a_len,
            i <= b_len,
            a@.subrange(0, i as int) == b@.subrange(0, i as int),
            lex_lt(a@, b@) == lex_lt(a@.skip(i as int), b@.skip(i as int)),
            lex_lt(b@, a@) == lex_lt(b@.skip(i as int), a@.skip(i as int)),
        decreases a_len - i,
    {
        let ca = a.get_char(i);
        let cb = b.get_char(i);
        if ca != cb {
            proof {
                assert(a@.skip(i as int)[0] == ca);
                assert(b@.skip(i as int)[0] == cb);
                if a@ == b@ {
                    assert(a@[i as int] == b@[i as int]);
                }
            }
            if (ca as u32) < (cb as u32) {
                return TextOrder::Less;
            } else {
                return TextOrder::Greater;
            }
        }
        proof {
            lemma_lex_skip(a@, b@, i as int);
            lemma_lex_skip(b@, a@, i as int);
            assert(a@.subrange(0, i + 1) =~= a@.subrange(0, i as int).push(ca));
            assert(b@.subrange(0, i + 1) =~= b@.subrange(0, i as int).push(cb));
        }
        i = i + 1;
    }
    if a_len == b_len {
        proof {
            assert(a@ =~= a@.subrange(0, i as int));
            assert(b@ =~= b@.subrange(0, i as int));
        }
        TextOrder::Equal
    } else if i == a_len {
        proof {
            assert(a@.skip(i as int).len() == 0);
            if a@ == b@ {
                assert(false);
            }
        }
        TextOrder::Less
    } else {
        proof {
            assert(b@.skip(i as int).len() == 0);
            assert(a@.skip(i as int).len() > 0);
            if a@ == b@ {
                assert(false);
            }
        }
        TextOrder::Greater
    }
}

/// Whether two texts are equal.
pub fn text_eq(a: &str, b: &str) -> (equal: bool)
    ensures
        equal == (a@ == b@),
{
    compare(a, b) == TextOrder::Equal
}

/// The ASCII lowercase of one character; every other character is itself.
pub open spec fn lower_char(c: char) -> char {
    if 'A' <= c && c <= 'Z' {
        ((c as u32) + 32) as char
    } else {
        c
    }
}

/// The ASCII lowercase of a text.
pub open spec fn ascii_lower(s: Seq<char>) -> Seq<char> {
    s.map_values(|c: char| lower_char(c))
}

/// The ASCII lowercase of one character.
pub fn to_lower_char(c: char) -> (lower: char)
    ensures
        lower == lower_char(c),
{
    if 'A' <= c && c <= 'Z' {
        let code: u8 = (c as u8) + 32;
        code as char
    } else {
        c
    }
}

/// Whether two texts are equal after ASCII case folding.
pub open spec fn eq_ignore_case(a: Seq<char>, b: Seq<char>) -> bool {
    ascii_lower(a) == ascii_lower(b)
}

/// Compares two texts ignoring ASCII case.
pub fn eq_ignore_ascii_case(a: &str, b: &str) -> (equal: bool)
    ensures
        equal == eq_ignore_case(a@, b@),
{
    let a_len = a.unicode_len();
    let b_len = b.unicode_len();
    if a_len != b_len {
        proof {
            assert(ascii_lower(a@).len() != ascii_lower(b@).len());
        }
        return false;
    }
    let mut i: usize = 0;
    while i < a_len
        invariant
            a_len == a@.len(),
            b_len == b@.len(),
            a_len == b_len,
            i <= a_len,
            forall|j: int| 0 <= j < i ==> lower_char(#[trigger] a@[j]) == lower_char(b@[j]),
        decreases a_len - i,
    {
        let ca = to_lower_char(a.get_char(i));
        let cb = to_lower_char(b.get_char(i));
        if ca != cb {
            proof {
                assert(ascii_lower(a@)[i as int] != ascii_lower(b@)[i as int]);
            }
            return false;
        }
        i = i + 1;
    }
    proof {
        assert(ascii_lower(a@) =~= ascii_lower(b@));
    }
    true
}

/// Whether `needle` occurs in `hay` at position `at`.
pub open spec fn occurs_at(hay: Seq<char>, needle: Seq<char>, at: int) -> bool {
    0 <= at && at + needle.len() <= hay.len() && hay.subrange(at, at + needle.len()) == needle
}

/// Whether `needle` occurs anywhere in `hay`.
pub open spec fn contains_text(hay: Seq<char>, needle: Seq<char>) -> bool {
    exists|at: int| occurs_at(hay, needle, at)
}

/// Whether the ASCII lowercase of `hay` contains `needle`.
pub fn contains_lowered(hay: &str, needle: &str) -> (found: bool)
    ensures
        found == contains_text(ascii_lower(hay@), needle@),
{
    let h_len = hay.unicode_len();
    let n_len = needle.unicode_len();
    let ghost low = ascii_lower(hay@);
    if n_len > h_len {
        proof {
            assert forall|at: int| !occurs_at(low, needle@, at) by {}
        }
        return false;
    }
    let mut at: usize = 0;
    while at <= h_len - n_len
        invariant
            h_len == hay@.len(),
            n_len == needle@.len(),
            n_len <= h_len,
            low == ascii_lower(hay@),
            at <= h_len - n_len + 1,
            forall|k: int| 0 <= k < at ==> !occurs_at(low, needle@, k),
        decreases h_len - n_len + 1 - at,
    {
        let mut j: usize = 0;
        let mut matched = true;
        while j < n_len
            invariant
                h_len == hay@.len(),
                n_len == needle@.len(),
                at + n_len <= h_len,
                low == ascii_lower(hay@),
                j <= n_len,
                matched ==> forall|m: int| 0 <= m < j ==> low[at + m] == needle@[m],
                !matched ==> !occurs_at(low, needle@, at as int),
            decreases n_len - j,
        {
            if matched {
                let c = to_lower_char(hay.get_char(at + j));
                if c != needle.get_char(j) {
                    matched = false;
                    proof {
                        assert(low.subrange(at as int, at + n_len)[j as int] != needle@[j as int]);
                    }
                }
            }
            j = j + 1;
        }
        if matched {
            proof {
                assert(low.subrange(at as int, at + n_len) =~= needle@);
                assert(occurs_at(low, needle@, at as int));
            }
            return true;
        }
        if at == h_len - n_len {
            proof {
                assert forall|k: int| !occurs_at(low, needle@, k) by {
                    if 0 <= k && k + needle@.len() <= low.len() {
                        assert(k <= at);
                    }
                }
            }
            return false;
        }
        at = at + 1;
    }
    proof {
        assert forall|k: int| !occurs_at(low, needle@, k) by {
            if 0 <= k && k + needle@.len() <= low.len() {
                assert(k < at);
            }
        }
    }
    false
}

/// Whether `hay` contains `needle`.
pub fn contains_str(hay: &str, needle: &str) -> (found: bool)
    ensures
        found == contains_text(hay@, needle@),
{
    let h_len = hay.unicode_len();
    let n_len = needle.unicode_len();
    if n_len > h_len {
        return false;
    }
    let mut at: usize = 0;
    while at <= h_len - n_len
        invariant
            h_len == hay@.len(),
            n_len == needle@.len(),
            n_len <= h_len,
            at <= h_len - n_len + 1,
            forall|k: int| 0 <= k < at ==> !occurs_at(hay@, needle@, k),
        decreases h_len - n_len + 1 - at,
    {
        let mut j: usize = 0;
        let mut matched = true;
        while j < n_len
            invariant
                h_len == hay@.len(),
                n_len == needle@.len(),
                at + n_len <= h_len,
                j <= n_len,
                matched ==> forall|m: int| 0 <= m < j ==> hay@[at + m] == needle@[m],
                !matched ==> !occurs_at(hay@, needle@, at as int),
            decreases n_len - j,
        {
            if matched {
                if hay.get_char(at + j) != needle.get_char(j) {
                    matched = false;
                    proof {
                        assert(hay@.subrange(at as int, at + n_len)[j as int] != needle@[j as int]);
                    }
                }
            }
            j = j + 1;
        }
        if matched {
            proof {
                assert(hay@.subrange(at as int, at + n_len) =~= needle@);
                assert(occurs_at(hay@, needle@, at as int));
            }
            return true;
        }
        if at == h_len - n_len {
            proof {
                assert forall|k: int| !occurs_at(hay@, needle@, k) by {
                    if 0 <= k && k + needle@.len() <= hay@.len() {
                        assert(k <= at);
                    }
                }
            }
            return false;
        }
        at = at + 1;
    }
    proof {
        assert forall|k: int| !occurs_at(hay@, needle@, k) by {
            if 0 <= k && k + needle@.len() <= hay@.len() {
                assert(k < at);
            }
        }
    }
    false
}

/// Whether `s` begins with `prefix`.
pub open spec fn has_prefix(s: Seq<char>, prefix: Seq<char>) -> bool {
    prefix.len() <= s.len() && s.subrange(0, prefix.len() as int) == prefix
}

/// Whether `s` begins with `prefix`.
pub fn starts_with(s: &str, prefix: &str) -> (begins: bool)
    ensures
        begins == has_prefix(s@, prefix@),
{
    let s_len = s.unicode_len();
    let p_len = prefix.unicode_len();
    if p_len > s_len {
        return false;
    }
    let mut j: usize = 0;
    while j < p_len
        invariant
            s_len == s@.len(),
            p_len == prefix@.len(),
            p_len <= s_len,
            j <= p_len,
            forall|m: int| 0 <= m < j ==> s@[m] == prefix@[m],
        decreases p_len - j,
    {
        if s.get_char(j) != prefix.get_char(j) {
            proof {
                assert(s@.subrange(0, p_len as int)[j as int] != prefix@[j as int]);
            }
            return false;
        }
        j = j + 1;
    }
    proof {
        assert(s@.subrange(0, p_len as int) =~= prefix@);
    }
    true
}

/// The text after a prefix, when the text begins with it.
pub fn strip_prefix<'a>(s: &'a str, prefix: &str) -> (rest: Option<&'a str>)
    ensures
        has_prefix(s@, prefix@) ==> (rest matches Some(r) && r@ == s@.skip(prefix@.len() as int)),
        !has_prefix(s@, prefix@) ==> rest is None,
{
    if starts_with(s, prefix) {
        let s_len = s.unicode_len();
        let p_len = prefix.unicode_len();
        let rest = s.substring_char(p_len, s_len);
        proof {
            assert(rest@ =~= s@.skip(prefix@.len() as int));
        }
        Some(rest)
    } else {
        None
    }
}

/// The first position of a character in a text, when it occurs.
pub open spec fn first_index_of(s: Seq<char>, c: char) -> Option<int> {
    if exists|i: int| 0 <= i < s.len() && s[i] == c {
        Some(choose|i: int| 0 <= i < s.len() && s[i] == c && forall|k: int| 0 <= k < i ==> s[k] != c)
    } else {
        None
    }
}

/// The last position of a character in a text, when it occurs.
pub open spec fn last_index_of(s: Seq<char>, c: char) -> Option<int> {
    if exists|i: int| 0 <= i < s.len() && s[i] == c {
        Some(
            choose|i: int|
                0 <= i < s.len() && s[i] == c && forall|k: int| i < k < s.len() ==> s[k] != c,
        )
    } else {
        None
    }
}

/// Finds the first position of a character.
pub fn find_char(s: &str, c: char) -> (found: Option<usize>)
    ensures
        match found {
            Some(i) => 0 <= i < s@.len() && s@[i as int] == c && forall|k: int|
                0 <= k < i ==> s@[k] != c,
            None => forall|k: int| 0 <= k < s@.len() ==> s@[k] != c,
        },
        found is Some <==> first_index_of(s@, c) is Some,
        found matches Some(i) ==> first_index_of(s@, c) == Some(i as int),
{
    let len = s.unicode_len();
    let mut i: usize = 0;
    while i < len
        invariant
            len == s@.len(),
            i <= len,
            forall|k: int| 0 <= k < i ==> s@[k] != c,
        decreases len - i,
    {
        if s.get_char(i) == c {
            proof {
                let w = choose|j: int|
                    0 <= j < s@.len() && s@[j] == c && forall|k: int| 0 <= k < j ==> s@[k] != c;
                assert(0 <= i < s@.len() && s@[i as int] == c && forall|k: int|
                    0 <= k < i ==> s@[k] != c);
                if w < i {
                    assert(s@[w] != c);
                }
                if w > i {
                    assert(s@[i as int] != c);
                }
            }
            return Some(i);
        }
        i = i + 1;
    }
    None
}

/// Finds the last position of a character.
pub fn rfind_char(s: &str, c: char) -> (found: Option<usize>)
    ensures
        match found {
            Some(i) => 0 <= i < s@.len() && s@[i as int] == c && forall|k: int|
                i < k < s@.len() ==> s@[k] != c,
            None => forall|k: int| 0 <= k < s@.len() ==> s@[k] != c,
        },
        found is Some <==> last_index_of(s@, c) is Some,
        found matches Some(i) ==> last_index_of(s@, c) == Some(i as int),
{
    let len = s.unicode_len();
    let mut i: usize = len;
    while i > 0
        invariant
            len == s@.len(),
            i <= len,
            forall|k: int| i <= k < len ==> s@[k] != c,
        decreases i,
    {
        if s.get_char(i - 1) == c {
            proof {
                let p = (i - 1) as int;
                let w = choose|j: int|
                    0 <= j < s@.len() && s@[j] == c && forall|k: int| j < k < s@.len() ==> s@[k]
                        != c;
                assert(0 <= p < s@.len() && s@[p] == c && forall|k: int|
                    p < k < s@.len() ==> s@[k] != c);
                if w < p {
                    assert(s@[p] != c);
                }
                if w > p {
                    assert(s@[w] != c);
                }
            }
            return Some(i - 1);
        }
        i = i - 1;
    }
    None
}

/// The halves of a text around the first occurrence of a character.
pub open spec fn split_first(s: Seq<char>, c: char) -> Option<(Seq<char>, Seq<char>)> {
    match first_index_of(s, c) {
        Some(i) => Some((s.subrange(0, i), s.skip(i + 1))),
        None => None,
    }
}

/// The halves of a text around the last occurrence of a character.
pub open spec fn split_last(s: Seq<char>, c: char) -> Option<(Seq<char>, Seq<char>)> {
    match last_index_of(s, c) {
        Some(i) => Some((s.subrange(0, i), s.skip(i + 1))),
        None => None,
    }
}

/// Splits a text around the first occurrence of a character.
pub fn split_once<'a>(s: &'a str, c: char) -> (halves: Option<(&'a str, &'a str)>)
    ensures
        match halves {
            Some((l, r)) => split_first(s@, c) == Some((l@, r@)),
            None => split_first(s@, c) is None,
        },
{
    match find_char(s, c) {
        Some(i) => {
            let len = s.unicode_len();
            let left = s.substring_char(0, i);
            let right = s.substring_char(i + 1, len);
            proof {
                assert(right@ =~= s@.skip(i + 1));
            }
            Some((left, right))
        },
        None => None,
    }
}

/// Splits a text around the last occurrence of a character.
pub fn rsplit_once<'a>(s: &'a str, c: char) -> (halves: Option<(&'a str, &'a str)>)
    ensures
        match halves {
            Some((l, r)) => split_last(s@, c) == Some((l@, r@)),
            None => split_last(s@, c) is None,
        },
{
    match rfind_char(s, c) {
        Some(i) => {
            let len = s.unicode_len();
            let left = s.substring_char(0, i);
            let right = s.substring_char(i + 1, len);
            proof {
                assert(right@ =~= s@.skip(i + 1));
            }
            Some((left, right))
        },
        None => None,
    }
}

/// Appends one character to a string.
///
/// Wraps `String::push`, whose documentation states that it appends the
/// given character to the end of the string.
#[verifier::external_body]
pub(crate) fn push_char(s: &mut String, c: char)
    ensures
        final(s)@ == old(s)@.push(c),
{
    s.push(c);
}

/// The decimal digits of a number, most significant first, without leading
/// zeros ("0" for zero).
pub open spec fn decimal(n: nat) -> Seq<char>
    decreases n,
{
    if n < 10 {
        seq![digit_char(n)]
    } else {
        decimal(n / 10).push(digit_char(n % 10))
    }
}

/// The character of one decimal digit.
pub open spec fn digit_char(d: nat) -> char {
    (('0' as u32) + d) as char
}

/// The value of a decimal digit character.
pub open spec fn digit_value(c: char) -> nat {
    ((c as u32) - ('0' as u32)) as nat
}

/// Whether a character is an ASCII decimal digit.
pub open spec fn is_digit(c: char) -> bool {
    '0' <= c && c <= '9'
}

/// The value of a sequence of decimal digits, most significant first.
pub open spec fn decimal_value(s: Seq<char>) -> nat
    decreases s.len(),
{
    if s.len() == 0 {
        0
    } else {
        decimal_value(s.drop_last()) * 10 + digit_value(s.last())
    }
}

/// Renders a number in decimal.
pub fn format_decimal(n: u64) -> (text: String)
    ensures
        text@ == decimal(n as nat),
    decreases n,
{
    let digit: u8 = (n % 10) as u8;
    let c = (48u8 + digit) as char;
    proof {
        assert(c == digit_char((n % 10) as nat));
    }
    if n < 10 {
        let mut text = String::new();
        push_char(&mut text, c);
        proof {
            assert(text@ =~= seq![c]);
        }
        text
    } else {
        let mut text = format_decimal(n / 10);
        push_char(&mut text, c);
        text
    }
}

/// What a parse of a run of decimal digits yields: digits only, at least
/// one, and a value that fits in 64 bits.
pub open spec fn parse_digits(s: Seq<char>) -> Option<u64> {
    if s.len() > 0 && (forall|i: int| 0 <= i < s.len() ==> is_digit(#[trigger] s[i]))
        && decimal_value(s) <= u64::MAX {
        Some(decimal_value(s) as u64)
    } else {
        None
    }
}

/// What parsing an unsigned 64-bit number yields: an optional `+` sign, then
/// a non-empty run of decimal digits whose value fits.
pub open spec fn parse_decimal(s: Seq<char>) -> Option<u64> {
    if s.len() > 0 && s[0] == '+' {
        parse_digits(s.drop_first())
    } else {
        parse_digits(s)
    }
}

/// Parses an unsigned 64-bit number as `str::parse::<u64>` does: an
/// optional `+` sign, then a non-empty run of decimal digits whose value
/// fits.
pub fn parse_u64(s: &str) -> (value: Option<u64>)
    ensures
        value == parse_decimal(s@),
{
    let len = s.unicode_len();
    if len > 0 && s.get_char(0) == '+' {
        let rest = s.substring_char(1, len);
        proof {
            assert(rest@ =~= s@.drop_first());
        }
        parse_digits_text(rest)
    } else {
        parse_digits_text(s)
    }
}

fn parse_digits_text(s: &str) -> (value: Option<u64>)
    ensures
        value == parse_digits(s@),
{
    let len = s.unicode_len();
    if len == 0 {
        return None;
    }
    let mut acc: u64 = 0;
    let mut i: usize = 0;
    while i < len
        invariant
            len == s@.len(),
            i <= len,
            forall|k: int| 0 <= k < i ==> is_digit(#[trigger] s@[k]),
            acc as nat == decimal_value(s@.subrange(0, i as int)),
        decreases len - i,
    {
        let c = s.get_char(i);
        proof {
            let pre = s@.subrange(0, i + 1);
            assert(pre.drop_last() =~= s@.subrange(0, i as int));
            assert(pre.last() == c);
        }
        if !('0' <= c && c <= '9') {
            proof {
                assert(!is_digit(s@[i as int]));
            }
            return None;
        }
        let d: u64 = ((c as u32) - 48) as u64;
        if acc > (u64::MAX - d) / 10 {
            proof {
                lemma_decimal_prefix_grows(s@, (i + 1) as int);
                assert(decimal_value(s@.subrange(0, i + 1)) == acc * 10 + d);
                assert(acc * 10 + d > u64::MAX) by (nonlinear_arith)
                    requires
                        acc > (u64::MAX - d) / 10,
                        d <= 9,
                ;
                assert(decimal_value(s@) > u64::MAX);
                assert(is_digit(s@[i as int]));
            }
            return None;
        }
        proof {
            assert(acc * 10 + d <= u64::MAX) by (nonlinear_arith)
                requires
                    acc <= (u64::MAX - d) / 10,
                    d <= 9,
            ;
        }
        acc = acc * 10 + d;
        i = i + 1;
    }
    proof {
        assert(s@.subrange(0, len as int) =~= s@);
    }
    Some(acc)
}

/// A longer digit prefix never has a smaller value.
proof fn lemma_decimal_prefix_grows(s: Seq<char>, k: int)
    requires
        0 <= k <= s.len(),
    ensures
        decimal_value(s.subrange(0, k)) <= decimal_value(s),
    decreases s.len() - k,
{
    if k < s.len() {
        lemma_decimal_prefix_grows(s, k + 1);
        let pre = s.subrange(0, k + 1);
        assert(pre.drop_last() =~= s.subrange(0, k));
        assert(decimal_value(pre) == decimal_value(s.subrange(0, k)) * 10 + digit_value(pre.last()));
    } else {
        assert(s.subrange(0, k) =~= s);
    }
}

/// Copies a text into an owned string.
pub fn to_owned_string(s: &str) -> (owned: String)
    ensures
        owned@ == s@,
{
    String::from_str(s)
}

/// The texts of a list of strings.
pub open spec fn texts(v: Seq<String>) -> Seq<Seq<char>> {
    v.map_values(|s: String| s@)
}

/// Texts joined by a separator.
pub open spec fn join(parts: Seq<Seq<char>>, separator: Seq<char>) -> Seq<char>
    decreases parts.len(),
{
    if parts.len() == 0 {
        Seq::empty()
    } else if parts.len() == 1 {
        parts[0]
    } else {
        join(parts.drop_last(), separator) + separator + parts.last()
    }
}

/// Every part of a joined text occurs in it.
pub proof fn lemma_join_contains(parts: Seq<Seq<char>>, separator: Seq<char>, k: int)
    requires
        0 <= k < parts.len(),
    ensures
        contains_text(join(parts, separator), parts[k]),
    decreases parts.len(),
{
    let joined = join(parts, separator);
    if parts.len() == 1 {
        assert(joined.subrange(0, parts[k].len() as int) =~= parts[k]);
        assert(occurs_at(joined, parts[k], 0));
    } else {
        let init = parts.drop_last();
        let front = join(init, separator) + separator;
        assert(joined == front + parts.last());
        if k == parts.len() - 1 {
            assert(joined.subrange(front.len() as int, (front.len() + parts[k].len()) as int) =~= parts[k]);
            assert(occurs_at(joined, parts[k], front.len() as int));
        } else {
            assert(init[k] == parts[k]);
            lemma_join_contains(init, separator, k);
            let at = choose|at: int| occurs_at(join(init, separator), parts[k], at);
            assert(joined.subrange(at, at + parts[k].len()) =~= join(init, separator).subrange(
                at,
                at + parts[k].len(),
            ));
            assert(occurs_at(joined, parts[k], at));
        }
    }
}

/// Joins texts with a separator.
pub fn join_texts(parts: &Vec<String>, separator: &str) -> (joined: String)
    ensures
        joined@ == join(texts(parts@), separator@),
{
    let mut out = String::new();
    let mut i: usize = 0;
    proof {
        assert(texts(parts@).subrange(0, 0) =~= Seq::<Seq<char>>::empty());
    }
    while i < parts.len()
        invariant
            i <= parts@.len(),
            out@ == join(texts(parts@).subrange(0, i as int), separator@),
        decreases parts@.len() - i,
    {
        let ghost pre = texts(parts@).subrange(0, i + 1);
        proof {
            assert(pre.drop_last() =~= texts(parts@).subrange(0, i as int));
            assert(pre.last() == parts@[i as int]@);
        }
        if i == 0 {
            out = parts[0].clone();
            proof {
                assert(pre.len() == 1);
            }
        } else {
            out.append(separator);
            out.append(parts[i].as_str());
        }
        i = i + 1;
    }
    proof {
        assert(texts(parts@).subrange(0, i as int) =~= texts(parts@));
    }
    out
}

/// The decimal rendering of a number is a non-empty run of digits whose
/// value is the number.
pub proof fn lemma_decimal_digits(n: nat)
    ensures
        decimal(n).len() > 0,
        forall|i: int| 0 <= i < decimal(n).len() ==> is_digit(#[trigger] decimal(n)[i]),
        decimal_value(decimal(n)) == n,
    decreases n,
{
    let d = digit_char(n % 10);
    assert(is_digit(d) && digit_value(d) == n % 10) by {
        assert(('0' as u32) == 48);
        assert(((48 + n % 10) as char) as u32 == 48 + n % 10);
    }
    if n < 10 {
        assert(seq![d].drop_last() =~= Seq::<char>::empty());
        assert(decimal_value(Seq::<char>::empty()) == 0);
        assert(decimal_value(seq![d]) == digit_value(d));
    } else {
        lemma_decimal_digits(n / 10);
        let s = decimal(n / 10);
        assert(s.push(d).drop_last() =~= s);
        assert(decimal_value(s.push(d)) == decimal_value(s) * 10 + digit_value(d));
        assert(n == (n / 10) * 10 + n % 10) by (nonlinear_arith);
        assert forall|i: int| 0 <= i < s.push(d).len() implies is_digit(#[trigger] s.push(d)[i]) by {
            if i < s.len() {
                assert(s.push(d)[i] == s[i]);
            }
        }
    }
}

/// Parsing the decimal rendering of a number gives the number back.
pub proof fn lemma_parse_decimal_roundtrip(n: u64)
    ensures
        parse_decimal(decimal(n as nat)) == Some(n),
{
    lemma_decimal_digits(n as nat);
    assert(is_digit(decimal(n as nat)[0]));
}

/// Splitting `left + ":" + right` at its first `:` gives back both halves
/// when the left half holds no `:`.
pub proof fn lemma_split_first_joined(left: Seq<char>, right: Seq<char>, c: char)
    requires
        forall|i: int| 0 <= i < left.len() ==> #[trigger] left[i] != c,
    ensures
        split_first(left + seq![c] + right, c) == Some((left, right)),
{
    let s = left + seq![c] + right;
    assert(s[left.len() as int] == c);
    let i = choose|i: int| 0 <= i < s.len() && s[i] == c && forall|k: int| 0 <= k < i ==> s[k] != c;
    if i < left.len() {
        assert(s[i] == left[i]);
    } else if i > left.len() {
        assert(s[left.len() as int] == c);
    }
    assert(i == left.len());
    assert(s.subrange(0, i) =~= left);
    assert(s.skip(i + 1) =~= right);
}

/// Splitting `left + c + right` at its last `c` gives back both halves when
/// the right half holds no `c`.
pub proof fn lemma_split_last_joined(left: Seq<char>, right: Seq<char>, c: char)
    requires
        forall|i: int| 0 <= i < right.len() ==> #[trigger] right[i] != c,
    ensures
        split_last(left + seq![c] + right, c) == Some((left, right)),
{
    let s = left + seq![c] + right;
    assert(s[left.len() as int] == c);
    let i = choose|i: int|
        0 <= i < s.len() && s[i] == c && forall|k: int| i < k < s.len() ==> s[k] != c;
    if i > left.len() {
        assert(s[i] == right[i - left.len() - 1]);
    } else if i < left.len() {
        assert(s[left.len() as int] == c);
    }
    assert(i == left.len());
    assert(s.subrange(0, i) =~= left);
    assert(s.skip(i + 1) =~= right);
}

/// The length of a text in bytes: that of its UTF-8 encoding.
pub open spec fn utf8_len(s: Seq<char>) -> nat {
    vstd::utf8::encode_utf8(s).len()
}

/// The length of a text in bytes, as `str::len` counts it: the length of
/// its UTF-8 encoding.
pub fn byte_len(s: &str) -> (n: usize)
    ensures
        n == utf8_len(s@),
{
    let bytes = s.as_bytes_vec();
    bytes.len()
}

/// The `Debug` rendering of a text: the text in double quotes, with the
/// characters that need it escaped.
pub uninterp spec fn debug_quoted(s: Seq<char>) -> Seq<char>;

/// Renders a text in its `Debug` form.
///
/// Wraps the `Debug` formatting of `str` (through `format!("{:?}")`); its
/// result depends on the text alone and is named, not spelled out.
#[verifier::external_body]
pub(crate) fn quoted(s: &str) -> (text: String)
    ensures
        text@ == debug_quoted(s@),
{
    format!("{s:?}")
}

} // verus!
