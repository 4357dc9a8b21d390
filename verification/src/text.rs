use vstd::prelude::*;

verus! {

/// The ASCII upper-case form of a character; other characters are unchanged.
pub open spec fn ascii_upper(c: char) -> char {
    if 'a' <= c && c <= 'z' {
        ((c as u32) - 32) as char
    } else {
        c
    }
}

/// The ASCII upper-case form of a text.
pub open spec fn ascii_upper_text(s: Seq<char>) -> Seq<char> {
    Seq::new(s.len(), |i: int| ascii_upper(s[i]))
}

/// `str::to_ascii_uppercase`: maps `a`..`z` to `A`..`Z` and keeps every other
/// character, as std documents.
#[verifier::external_body]
pub(crate) fn to_ascii_uppercase(s: &str) -> (r: String)
    ensures
        r@ == ascii_upper_text(s@),
{
    s.to_ascii_uppercase()
}

/// `str::starts_with` with a string pattern: whether `prefix` is a prefix of
/// `s`, as std documents.
#[verifier::external_body]
pub(crate) fn starts_with(s: &str, prefix: &str) -> (r: bool)
    ensures
        r == prefix@.is_prefix_of(s@),
{
    s.starts_with(prefix)
}

/// `str == str`: character-wise equality, as std documents.
#[verifier::external_body]
pub(crate) fn str_eq(a: &str, b: &str) -> (r: bool)
    ensures
        r == (a@ == b@),
{
    a == b
}

/// A character with the Unicode `White_Space` property, which is what
/// `char::is_whitespace` tests.
pub open spec fn is_unicode_whitespace(c: char) -> bool {
    ||| ('\u{9}' <= c && c <= '\u{D}')
    ||| c == ' '
    ||| c == '\u{85}'
    ||| c == '\u{A0}'
    ||| c == '\u{1680}'
    ||| ('\u{2000}' <= c && c <= '\u{200A}')
    ||| c == '\u{2028}'
    ||| c == '\u{2029}'
    ||| c == '\u{202F}'
    ||| c == '\u{205F}'
    ||| c == '\u{3000}'
}

/// A text without its leading whitespace.
pub open spec fn trim_start_ws(s: Seq<char>) -> Seq<char>
    decreases s.len(),
{
    if s.len() > 0 && is_unicode_whitespace(s[0]) {
        trim_start_ws(s.skip(1))
    } else {
        s
    }
}

/// A text without its trailing whitespace.
pub open spec fn trim_end_ws(s: Seq<char>) -> Seq<char>
    decreases s.len(),
{
    if s.len() > 0 && is_unicode_whitespace(s.last()) {
        trim_end_ws(s.drop_last())
    } else {
        s
    }
}

/// A text without its leading and trailing whitespace.
pub open spec fn trim_ws(s: Seq<char>) -> Seq<char> {
    trim_end_ws(trim_start_ws(s))
}

/// Leading blanks before a text that starts with no blank are all that
/// `trim_start_ws` removes.
proof fn lemma_trim_start_blanks(w: Seq<char>, s: Seq<char>)
    requires
        forall|i: int| 0 <= i < w.len() ==> is_unicode_whitespace(#[trigger] w[i]),
        s.len() == 0 || !is_unicode_whitespace(s[0]),
    ensures
        trim_start_ws(w + s) == s,
    decreases w.len(),
{
    if w.len() == 0 {
        assert(w + s =~= s);
    } else {
        assert((w + s).skip(1) =~= w.skip(1) + s);
        assert(w.skip(1).len() == w.len() - 1);
        assert forall|i: int| 0 <= i < w.skip(1).len() implies is_unicode_whitespace(
            #[trigger] w.skip(1)[i],
        ) by {
            assert(w.skip(1)[i] == w[i + 1]);
        }
        lemma_trim_start_blanks(w.skip(1), s);
    }
}

/// Trailing blanks after a text that ends in no blank are all that
/// `trim_end_ws` removes.
proof fn lemma_trim_end_blanks(s: Seq<char>, w: Seq<char>)
    requires
        forall|i: int| 0 <= i < w.len() ==> is_unicode_whitespace(#[trigger] w[i]),
        s.len() == 0 || !is_unicode_whitespace(s.last()),
    ensures
        trim_end_ws(s + w) == s,
    decreases w.len(),
{
    if w.len() == 0 {
        assert(s + w =~= s);
    } else {
        assert((s + w).drop_last() =~= s + w.drop_last());
        assert(w.last() == w[w.len() - 1]);
        assert forall|i: int| 0 <= i < w.drop_last().len() implies is_unicode_whitespace(
            #[trigger] w.drop_last()[i],
        ) by {
            assert(w.drop_last()[i] == w[i]);
        }
        lemma_trim_end_blanks(s, w.drop_last());
    }
}

/// Trimming a text that neither starts nor ends with a blank, with blanks
/// put around it, gives the text back.
pub proof fn lemma_trim_ws_around(w1: Seq<char>, t: Seq<char>, w2: Seq<char>)
    requires
        forall|i: int| 0 <= i < w1.len() ==> is_unicode_whitespace(#[trigger] w1[i]),
        forall|i: int| 0 <= i < w2.len() ==> is_unicode_whitespace(#[trigger] w2[i]),
        t.len() == 0 || (!is_unicode_whitespace(t[0]) && !is_unicode_whitespace(t.last())),
    ensures
        trim_ws(w1 + t + w2) == t,
{
    if t.len() == 0 {
        let w = w1 + w2;
        assert(w1 + t + w2 =~= w + t);
        assert forall|i: int| 0 <= i < w.len() implies is_unicode_whitespace(#[trigger] w[i]) by {
            if i >= w1.len() {
                assert(w[i] == w2[i - w1.len()]);
            }
        }
        lemma_trim_start_blanks(w, t);
        assert(trim_end_ws(t) == t);
    } else {
        assert(w1 + t + w2 =~= w1 + (t + w2));
        assert((t + w2)[0] == t[0]);
        lemma_trim_start_blanks(w1, t + w2);
        lemma_trim_end_blanks(t, w2);
    }
}

/// `str::trim`: the text without leading and trailing white space, as std
/// documents (white space being the Unicode `White_Space` property).
#[verifier::external_body]
pub(crate) fn trim(s: &str) -> (r: &str)
    ensures
        r@ == trim_ws(s@),
{
    s.trim()
}

/// A text without any trailing copies of `c`.
pub open spec fn strip_trailing(s: Seq<char>, c: char) -> Seq<char>
    decreases s.len(),
{
    if s.len() > 0 && s.last() == c {
        strip_trailing(s.drop_last(), c)
    } else {
        s
    }
}

/// `str::trim_end_matches` with a `char` pattern: the text with every
/// trailing copy of `c` removed, as std documents.
#[verifier::external_body]
pub(crate) fn trim_end_char(s: &str, c: char) -> (r: &str)
    ensures
        r@ == strip_trailing(s@, c),
{
    s.trim_end_matches(c)
}

/// The decimal digit character for `d` < 10.
pub open spec fn digit_char(d: nat) -> char {
    ('0' as int + d) as char
}

/// The decimal digits of a natural number, without leading zeros.
pub open spec fn decimal_digits(n: nat) -> Seq<char>
    decreases n,
{
    if n < 10 {
        seq![digit_char(n)]
    } else {
        decimal_digits(n / 10).push(digit_char(n % 10))
    }
}

/// The decimal text of an integer, with a leading `-` when negative.
pub open spec fn decimal(i: int) -> Seq<char> {
    if i < 0 {
        seq!['-'] + decimal_digits((-i) as nat)
    } else {
        decimal_digits(i as nat)
    }
}

/// `i64::to_string` (std `Display` for integers): the decimal text.
#[verifier::external_body]
pub(crate) fn i64_to_string(v: i64) -> (r: String)
    ensures
        r@ == decimal(v as int),
{
    v.to_string()
}

} // verus!
