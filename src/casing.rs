//! Conversion of identifiers between case conventions.
use vstd::prelude::*;
use crate::text::push_char;

verus! {

/// The case conventions that display names can be derived with.
#[derive(Clone, Copy, Debug, PartialEq, Eq, Structural)]
pub enum CaseStyle {
    /// The identifier is kept as written.
    Unchanged,
    /// `PascalCase` or `camelCase` becomes `snake_case`.
    Snake,
}

/// Whether `c` is one of the 128 ASCII characters.
pub open spec fn is_ascii_char(c: char) -> bool {
    (c as u32) < 128
}

pub open spec fn is_ascii_seq(s: Seq<char>) -> bool {
    forall|i: int| 0 <= i < s.len() ==> is_ascii_char(#[trigger] s[i])
}

/// Whether the character has the Unicode `Uppercase` property.
pub uninterp spec fn uppercase_of(c: char) -> bool;

/// Whether the character has the Unicode `Lowercase` property.
pub uninterp spec fn lowercase_of(c: char) -> bool;

/// Whether the character has the Unicode `Alphabetic` property.
pub uninterp spec fn alphabetic_of(c: char) -> bool;

/// The Unicode lowercase mapping of the character, one or more characters.
pub uninterp spec fn lowered_of(c: char) -> Seq<char>;

pub open spec fn is_upper(c: char) -> bool {
    if is_ascii_char(c) {
        'A' <= c && c <= 'Z'
    } else {
        uppercase_of(c)
    }
}

pub open spec fn is_lower(c: char) -> bool {
    if is_ascii_char(c) {
        'a' <= c && c <= 'z'
    } else {
        lowercase_of(c)
    }
}

pub open spec fn is_digit(c: char) -> bool {
    '0' <= c && c <= '9'
}

pub open spec fn is_letter(c: char) -> bool {
    if is_ascii_char(c) {
        ('A' <= c && c <= 'Z') || ('a' <= c && c <= 'z')
    } else {
        alphabetic_of(c)
    }
}

/// An ASCII uppercase letter becomes its lowercase form; every other
/// character is kept.
pub open spec fn ascii_lower(c: char) -> char {
    if 'A' <= c && c <= 'Z' {
        ((c as u32) + 32) as char
    } else {
        c
    }
}

/// The lowercase form of a character: the ASCII mapping for an ASCII
/// character, the Unicode mapping for any other.
pub open spec fn lower(c: char) -> Seq<char> {
    if is_ascii_char(c) {
        seq![ascii_lower(c)]
    } else {
        lowered_of(c)
    }
}

/// `c` begins a new word when it follows `p`: an uppercase letter after a
/// lowercase one, a digit after a letter, or a letter after a digit.
pub open spec fn starts_word(p: char, c: char) -> bool {
    (is_lower(p) && is_upper(c)) || (is_letter(p) && is_digit(c)) || (is_digit(p) && is_letter(
        c,
    ))
}

/// What the character at `i` becomes in snake case: lowered, with an
/// underscore in front where it begins a new word.
pub open spec fn snake_piece(s: Seq<char>, i: int) -> Seq<char> {
    if i > 0 && starts_word(s[i - 1], s[i]) {
        seq!['_'] + lower(s[i])
    } else {
        lower(s[i])
    }
}

pub open spec fn snake_prefix(s: Seq<char>, n: int) -> Seq<char>
    decreases n,
{
    if n <= 0 {
        seq![]
    } else {
        snake_prefix(s, n - 1) + snake_piece(s, n - 1)
    }
}

/// The snake case form of an identifier.
pub open spec fn snake(s: Seq<char>) -> Seq<char> {
    snake_prefix(s, s.len() as int)
}

/// An identifier under a case convention.
pub open spec fn cased(s: Seq<char>, style: CaseStyle) -> Seq<char> {
    match style {
        CaseStyle::Unchanged => s,
        CaseStyle::Snake => snake(s),
    }
}

/// An ASCII sequence with no uppercase letter and no word that begins
/// without an underscore in front.
pub open spec fn is_snake(t: Seq<char>) -> bool {
    &&& is_ascii_seq(t)
    &&& forall|j: int| 0 <= j < t.len() ==> !is_upper(#[trigger] t[j])
    &&& forall|j: int| 0 < j < t.len() ==> !starts_word(t[j - 1], #[trigger] t[j])
}

proof fn lemma_lower(c: char)
    requires
        is_ascii_char(c),
    ensures
        lower(c) == seq![ascii_lower(c)],
        is_ascii_char(ascii_lower(c)),
        !is_upper(ascii_lower(c)),
        is_letter(ascii_lower(c)) == is_letter(c),
        is_digit(ascii_lower(c)) == is_digit(c),
        ascii_lower(c) == '_' <==> c == '_',
{
}

proof fn lemma_snake_prefix(s: Seq<char>, n: int)
    requires
        is_ascii_seq(s),
        0 <= n <= s.len(),
    ensures
        is_snake(snake_prefix(s, n)),
        n > 0 ==> snake_prefix(s, n).len() > 0 && snake_prefix(s, n).last() == ascii_lower(s[n - 1]),
        n == 0 ==> snake_prefix(s, n).len() == 0,
    decreases n,
{
    if n > 0 {
        lemma_snake_prefix(s, n - 1);
        lemma_lower(s[n - 1]);
        if n > 1 {
            lemma_lower(s[n - 2]);
        }
        let p = snake_prefix(s, n - 1);
        let q = snake_piece(s, n - 1);
        let t = p + q;
        assert(forall|j: int| 0 <= j < q.len() ==> q[j] == '_' || q[j] == ascii_lower(s[n - 1]));
        assert forall|j: int| 0 <= j < t.len() implies is_ascii_char(#[trigger] t[j]) && !is_upper(t[j]) by {
            if j >= p.len() {
                assert(t[j] == q[j - p.len()]);
            }
        }
        assert forall|j: int| 0 < j < t.len() implies !starts_word(t[j - 1], #[trigger] t[j]) by {
            if j > p.len() {
                assert(t[j - 1] == q[j - 1 - p.len()]);
                assert(t[j] == q[j - p.len()]);
            } else if j == p.len() {
                assert(t[j - 1] == p.last());
                assert(t[j] == q[0]);
            }
        }
    }
}

proof fn lemma_snake_fixed(t: Seq<char>, n: int)
    requires
        is_snake(t),
        0 <= n <= t.len(),
    ensures
        snake_prefix(t, n) == t.subrange(0, n),
    decreases n,
{
    if n > 0 {
        lemma_snake_fixed(t, n - 1);
        assert(t.subrange(0, n) == t.subrange(0, n - 1).push(t[n - 1]));
        if n > 1 {
            assert(!starts_word(t[n - 2], t[n - 1]));
        }
        assert(!is_upper(t[n - 1]));
        assert(is_ascii_char(t[n - 1]));
        lemma_lower(t[n - 1]);
    }
}

/// Snake case is idempotent on ASCII identifiers: converting the snake
/// case form of one again leaves it unchanged.
pub proof fn lemma_snake_idempotent(s: Seq<char>)
    requires
        is_ascii_seq(s),
    ensures
        snake(snake(s)) == snake(s),
{
    lemma_snake_prefix(s, s.len() as int);
    let t = snake(s);
    lemma_snake_fixed(t, t.len() as int);
    assert(t.subrange(0, t.len() as int) == t);
}

/// The same law for every case convention.
pub proof fn lemma_cased_idempotent(s: Seq<char>, style: CaseStyle)
    requires
        is_ascii_seq(s),
    ensures
        cased(cased(s, style), style) == cased(s, style),
{
    if style == CaseStyle::Snake {
        lemma_snake_idempotent(s);
    }
}

/// Relies on `char::is_uppercase`: whether the character has the Unicode
/// `Uppercase` property.
#[verifier::external_body]
fn unicode_is_uppercase(c: char) -> (r: bool)
    ensures
        r == uppercase_of(c),
{
    c.is_uppercase()
}

/// Relies on `char::is_lowercase`: whether the character has the Unicode
/// `Lowercase` property.
#[verifier::external_body]
fn unicode_is_lowercase(c: char) -> (r: bool)
    ensures
        r == lowercase_of(c),
{
    c.is_lowercase()
}

/// Relies on `char::is_alphabetic`: whether the character has the Unicode
/// `Alphabetic` property.
#[verifier::external_body]
fn unicode_is_alphabetic(c: char) -> (r: bool)
    ensures
        r == alphabetic_of(c),
{
    c.is_alphabetic()
}

/// Relies on `char::to_lowercase`: the characters of the Unicode lowercase
/// mapping of `c`.
#[verifier::external_body]
fn unicode_to_lowercase(c: char) -> (r: String)
    ensures
        r@ == lowered_of(c),
{
    c.to_lowercase().to_string()
}

fn ascii_char(c: char) -> (r: bool)
    ensures
        r == is_ascii_char(c),
{
    (c as u32) < 128
}

/// Appends the lowercase form of `c`.
fn push_lower(r: &mut String, c: char)
    ensures
        final(r)@ == old(r)@ + lower(c),
{
    if ascii_char(c) {
        let l = if 'A' <= c && c <= 'Z' {
            ((c as u8) + 32) as char
        } else {
            c
        };
        push_char(r, l);
        assert(final(r)@ =~= old(r)@ + lower(c));
    } else {
        let l = unicode_to_lowercase(c);
        r.append(l.as_str());
    }
}

fn is_upper_char(c: char) -> (r: bool)
    ensures
        r == is_upper(c),
{
    if ascii_char(c) {
        'A' <= c && c <= 'Z'
    } else {
        unicode_is_uppercase(c)
    }
}

fn is_lower_char(c: char) -> (r: bool)
    ensures
        r == is_lower(c),
{
    if ascii_char(c) {
        'a' <= c && c <= 'z'
    } else {
        unicode_is_lowercase(c)
    }
}

fn is_letter_char(c: char) -> (r: bool)
    ensures
        r == is_letter(c),
{
    if ascii_char(c) {
        ('A' <= c && c <= 'Z') || ('a' <= c && c <= 'z')
    } else {
        unicode_is_alphabetic(c)
    }
}

fn is_digit_char(c: char) -> (r: bool)
    ensures
        r == is_digit(c),
{
    '0' <= c && c <= '9'
}

fn starts_word_at(p: char, c: char) -> (r: bool)
    ensures
        r == starts_word(p, c),
{
    (is_lower_char(p) && is_upper_char(c)) || (is_letter_char(p) && is_digit_char(c)) || (
    is_digit_char(p) && is_letter_char(c))
}

/// The snake case form of an identifier: `HorseAndCart` becomes
/// `horse_and_cart`.
pub fn snakify(s: &str) -> (r: String)
    ensures
        r@ == snake(s@),
{
    let n = s.unicode_len();
    let mut r = String::new();
    let mut i: usize = 0;
    while i < n
        invariant
            n == s@.len(),
            i <= n,
            r@ == snake_prefix(s@, i as int),
        decreases n - i,
    {
        let c = s.get_char(i);
        let ghost r0 = r@;
        if i > 0 && starts_word_at(s.get_char(i - 1), c) {
            push_char(&mut r, '_');
        }
        let ghost r1 = r@;
        push_lower(&mut r, c);
        proof {
            let piece = snake_piece(s@, i as int);
            assert(snake_prefix(s@, i + 1) == snake_prefix(s@, i as int) + piece);
            if i > 0 && starts_word(s@[i - 1], s@[i as int]) {
                assert(r1 == r0.push('_'));
                assert(r@ =~= r0 + piece);
            } else {
                assert(r@ =~= r0 + piece);
            }
        }
        i = i + 1;
    }
    r
}

/// An identifier under a case convention.
pub fn apply_case(s: &str, style: CaseStyle) -> (r: String)
    ensures
        r@ == cased(s@, style),
{
    match style {
        CaseStyle::Unchanged => s.to_string(),
        CaseStyle::Snake => snakify(s),
    }
}

} // verus!
