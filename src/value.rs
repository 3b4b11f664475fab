//! The dynamic value model: numbers, text and booleans, with the coercions
//! that the language applies between them.

use vstd::prelude::*;
use vstd::string::StringExecFns;

verus! {

/// Mask of the sign bit of a double.
pub const SIGN_MASK: u64 = 0x8000_0000_0000_0000;

/// Mask of the eleven exponent bits of a double.
pub const EXPONENT_MASK: u64 = 0x7ff0_0000_0000_0000;

/// Mask of the fifty-two fraction bits of a double.
pub const FRACTION_MASK: u64 = 0x000f_ffff_ffff_ffff;

/// The bit pattern of positive zero.
pub const ZERO_BITS: u64 = 0;

/// The bit pattern of one.
pub const ONE_BITS: u64 = 0x3ff0_0000_0000_0000;

/// The bit pattern of positive infinity.
pub const INFINITY_BITS: u64 = 0x7ff0_0000_0000_0000;

/// The bit pattern of negative infinity.
pub const NEG_INFINITY_BITS: u64 = 0xfff0_0000_0000_0000;

/// The bit pattern of the canonical quiet NaN.
pub const NAN_BITS: u64 = 0x7ff8_0000_0000_0000;

/// The exponent field of a double, biased.
pub open spec fn exponent_field(b: u64) -> u64 {
    (b & EXPONENT_MASK) >> 52u64
}

/// Whether the pattern is a NaN: exponent all ones, fraction non-zero.
pub open spec fn is_nan_bits(b: u64) -> bool {
    (b & EXPONENT_MASK) == EXPONENT_MASK && (b & FRACTION_MASK) != 0
}

/// Whether the pattern is an infinity: exponent all ones, fraction zero.
pub open spec fn is_infinite_bits(b: u64) -> bool {
    (b & EXPONENT_MASK) == EXPONENT_MASK && (b & FRACTION_MASK) == 0
}

/// Whether the pattern is positive or negative zero.
pub open spec fn is_zero_bits(b: u64) -> bool {
    b & !SIGN_MASK == 0
}

/// Whether the sign bit is set.
pub open spec fn is_negative_bits(b: u64) -> bool {
    b & SIGN_MASK != 0
}

/// Whether the double is a whole number (an infinity counts as one, a NaN
/// does not): the fraction bits that stand below the binary point are zero.
pub open spec fn is_integral_bits(b: u64) -> bool {
    let e = exponent_field(b);
    let f = b & FRACTION_MASK;
    if e == 0x7ff {
        f == 0
    } else if e >= 1075 {
        true
    } else if e < 1023 {
        e == 0 && f == 0
    } else {
        f & (((1u64 << ((1075 - e) as u64)) - 1) as u64) == 0
    }
}

/// The whole part of a double as an unsigned 32-bit count, saturating: 0 for
/// NaN, for negative numbers and below one; `u32::MAX` from 2^32 on, and for
/// positive infinity; otherwise the significand shifted down past the binary
/// point.
pub open spec fn count_bits(b: u64) -> u32 {
    let e = exponent_field(b);
    if is_nan_bits(b) || is_negative_bits(b) || e < 1023 {
        0
    } else if e >= 1055 {
        0xffff_ffffu32
    } else {
        (((b & FRACTION_MASK) | 0x0010_0000_0000_0000u64) >> ((1075 - e) as u64)) as u32
    }
}

/// The whole part of a double as a count, as a saturating conversion to
/// `u32` makes it.
pub fn count_of(b: u64) -> (r: u32)
    ensures
        r == count_bits(b),
{
    let e: u64 = (b & EXPONENT_MASK) >> 52u64;
    assert(e <= 0x7ff) by (bit_vector)
        requires
            e == (b & 0x7ff0_0000_0000_0000u64) >> 52u64,
    ;
    if nan_bits(b) || b & SIGN_MASK != 0 || e < 1023 {
        0
    } else if e >= 1055 {
        0xffff_ffff
    } else {
        let shift: u64 = 1075 - e;
        (((b & FRACTION_MASK) | 0x0010_0000_0000_0000u64) >> shift) as u32
    }
}

/// Whether the pattern is a NaN.
pub fn nan_bits(b: u64) -> (r: bool)
    ensures
        r == is_nan_bits(b),
{
    (b & EXPONENT_MASK) == EXPONENT_MASK && (b & FRACTION_MASK) != 0
}

/// Whether the pattern is an infinity of either sign.
pub fn infinite_bits(b: u64) -> (r: bool)
    ensures
        r == is_infinite_bits(b),
{
    (b & EXPONENT_MASK) == EXPONENT_MASK && (b & FRACTION_MASK) == 0
}

/// Whether the pattern is a zero of either sign.
pub fn zero_bits(b: u64) -> (r: bool)
    ensures
        r == is_zero_bits(b),
{
    b & !SIGN_MASK == 0
}

/// Whether the double is a whole number.
pub fn integral_bits(b: u64) -> (r: bool)
    ensures
        r == is_integral_bits(b),
{
    let e: u64 = (b & EXPONENT_MASK) >> 52u64;
    let f: u64 = b & FRACTION_MASK;
    assert(e <= 0x7ff) by (bit_vector)
        requires
            e == (b & 0x7ff0_0000_0000_0000u64) >> 52u64,
    ;
    if e == 0x7ff {
        f == 0
    } else if e >= 1075 {
        true
    } else if e < 1023 {
        e == 0 && f == 0
    } else {
        let shift: u64 = 1075 - e;
        assert(1u64 << shift >= 1) by (bit_vector)
            requires
                shift <= 52,
        ;
        f & ((1u64 << shift) - 1) == 0
    }
}


/// A dynamically typed scalar of the language.
#[derive(Debug)]
pub enum Value {
    /// A double, held as its IEEE-754 bit pattern.
    Float(u64),
    String(String),
    Bool(bool),
}

/// What `str::to_lowercase` makes of a text.
pub uninterp spec fn lower_of(s: Seq<char>) -> Seq<char>;

/// Relies on `str::to_lowercase`: the lower-case form depends on the
/// characters alone, and an empty text stays empty.
#[verifier::external_body]
fn lowercase(s: &str) -> (r: String)
    ensures
        r@ == lower_of(s@),
        s@.len() == 0 ==> r@.len() == 0,
{
    s.to_lowercase()
}

/// Whether a character has the Unicode White_Space property.
pub open spec fn is_white_space(c: char) -> bool {
    let u = c as u32;
    (0x9 <= u <= 0xd) || u == 0x20 || u == 0x85 || u == 0xa0 || u == 0x1680 || (0x2000 <= u
        <= 0x200a) || u == 0x2028 || u == 0x2029 || u == 0x202f || u == 0x205f || u == 0x3000
}

/// A text without its leading white space.
pub open spec fn trim_start(s: Seq<char>) -> Seq<char>
    decreases s.len(),
{
    if s.len() > 0 && is_white_space(s[0]) {
        trim_start(s.drop_first())
    } else {
        s
    }
}

/// A text without its trailing white space.
pub open spec fn trim_end(s: Seq<char>) -> Seq<char>
    decreases s.len(),
{
    if s.len() > 0 && is_white_space(s.last()) {
        trim_end(s.drop_last())
    } else {
        s
    }
}

/// A text without white space at either end.
pub open spec fn trimmed(s: Seq<char>) -> Seq<char> {
    trim_end(trim_start(s))
}

/// Whether a character has the Unicode White_Space property.
pub fn white_space(c: char) -> (r: bool)
    ensures
        r == is_white_space(c),
{
    let u = c as u32;
    (0x9 <= u && u <= 0xd) || u == 0x20 || u == 0x85 || u == 0xa0 || u == 0x1680 || (0x2000 <= u
        && u <= 0x200a) || u == 0x2028 || u == 0x2029 || u == 0x202f || u == 0x205f || u == 0x3000
}

/// A text without white space at either end.
pub fn trim(s: &str) -> (r: &str)
    ensures
        r@ == trimmed(s@),
{
    let n = s.unicode_len();
    let mut i: usize = 0;
    assert(s@.subrange(0, n as int) =~= s@);
    while i < n && white_space(s.get_char(i))
        invariant
            n == s@.len(),
            i <= n,
            trim_start(s@) == trim_start(s@.subrange(i as int, n as int)),
        decreases n - i,
    {
        assert(s@.subrange(i as int, n as int).drop_first() =~= s@.subrange(i + 1, n as int));
        i = i + 1;
    }
    assert(trim_start(s@) == s@.subrange(i as int, n as int));
    let mut j: usize = n;
    while j > i && white_space(s.get_char(j - 1))
        invariant
            n == s@.len(),
            i <= j <= n,
            trimmed(s@) == trim_end(s@.subrange(i as int, j as int)),
        decreases j - i,
    {
        assert(s@.subrange(i as int, j as int).drop_last() =~= s@.subrange(i as int, j - 1));
        j = j - 1;
    }
    assert(trimmed(s@) == s@.subrange(i as int, j as int));
    s.substring_char(i, j)
}

/// Whether two texts hold the same characters.
pub fn same_text(a: &str, b: &str) -> (r: bool)
    ensures
        r == (a@ == b@),
{
    let n = a.unicode_len();
    if n != b.unicode_len() {
        return false;
    }
    let mut i: usize = 0;
    while i < n
        invariant
            n == a@.len(),
            n == b@.len(),
            i <= n,
            a@.subrange(0, i as int) == b@.subrange(0, i as int),
        decreases n - i,
    {
        if a.get_char(i) != b.get_char(i) {
            assert(a@[i as int] != b@[i as int]);
            return false;
        }
        assert(a@.subrange(0, i + 1) =~= a@.subrange(0, i as int).push(a@[i as int]));
        assert(b@.subrange(0, i + 1) =~= b@.subrange(0, i as int).push(b@[i as int]));
        i = i + 1;
    }
    assert(a@ =~= a@.subrange(0, n as int));
    assert(b@ =~= b@.subrange(0, n as int));
    true
}

/// Whether a text holds the character.
pub fn has_char(s: &str, c: char) -> (r: bool)
    ensures
        r == s@.contains(c),
{
    let n = s.unicode_len();
    let mut i: usize = 0;
    while i < n
        invariant
            n == s@.len(),
            i <= n,
            forall|j: int| 0 <= j < i ==> s@[j] != c,
        decreases n - i,
    {
        if s.get_char(i) == c {
            return true;
        }
        i = i + 1;
    }
    false
}

/// The truth of an already lower-cased text: false exactly for the empty
/// text, `0` and `false`.
pub open spec fn text_truthy(folded: Seq<char>) -> bool {
    !(folded.len() == 0 || folded == "0"@ || folded == "false"@)
}

/// The truth of an already lower-cased text.
pub fn truthy_text(folded: &str) -> (r: bool)
    ensures
        r == text_truthy(folded@),
{
    !(folded.unicode_len() == 0 || same_text(folded, "0") || same_text(folded, "false"))
}

/// Lexicographic comparison of two character sequences by code point:
/// negative, zero or positive.
pub open spec fn lex_cmp(a: Seq<char>, b: Seq<char>) -> int
    decreases a.len(),
{
    if a.len() == 0 {
        if b.len() == 0 {
            0
        } else {
            -1
        }
    } else if b.len() == 0 {
        1
    } else if (a[0] as u32) < (b[0] as u32) {
        -1
    } else if (a[0] as u32) > (b[0] as u32) {
        1
    } else {
        lex_cmp(a.drop_first(), b.drop_first())
    }
}

/// The order of two texts compared without regard to case.
pub open spec fn text_order(a: Seq<char>, b: Seq<char>) -> int {
    lex_cmp(lower_of(a), lower_of(b))
}

proof fn lemma_lex_cmp_skip(a: Seq<char>, b: Seq<char>, i: int)
    requires
        0 <= i < a.len(),
        i < b.len(),
        a[i] == b[i],
    ensures
        lex_cmp(a.skip(i), b.skip(i)) == lex_cmp(a.skip(i + 1), b.skip(i + 1)),
{
    assert(a.skip(i).drop_first() =~= a.skip(i + 1));
    assert(b.skip(i).drop_first() =~= b.skip(i + 1));
}

/// Compares two texts by code point: -1, 0 or 1.
pub fn compare_folded(a: &str, b: &str) -> (r: i8)
    ensures
        r as int == lex_cmp(a@, b@),
{
    let na = a.unicode_len();
    let nb = b.unicode_len();
    let mut i: usize = 0;
    assert(a@.skip(0) =~= a@);
    assert(b@.skip(0) =~= b@);
    while i < na && i < nb
        invariant
            na == a@.len(),
            nb == b@.len(),
            i <= na,
            i <= nb,
            lex_cmp(a@, b@) == lex_cmp(a@.skip(i as int), b@.skip(i as int)),
        decreases na - i,
    {
        let ca = a.get_char(i);
        let cb = b.get_char(i);
        if (ca as u32) < (cb as u32) {
            return -1;
        }
        if (ca as u32) > (cb as u32) {
            return 1;
        }
        proof {
            lemma_lex_cmp_skip(a@, b@, i as int);
        }
        i = i + 1;
    }
    if i == na {
        if i == nb {
            0
        } else {
            -1
        }
    } else {
        1
    }
}

/// Compares two texts without regard to case: -1, 0 or 1.
pub fn compare_string(a: &str, b: &str) -> (r: i8)
    ensures
        r as int == text_order(a@, b@),
{
    let la = lowercase(a);
    let lb = lowercase(b);
    compare_folded(la.as_str(), lb.as_str())
}

/// Lexicographic comparison is antisymmetric.
pub proof fn lemma_lex_cmp_antisymmetric(a: Seq<char>, b: Seq<char>)
    ensures
        lex_cmp(a, b) == -lex_cmp(b, a),
    decreases a.len(),
{
    if a.len() > 0 && b.len() > 0 && (a[0] as u32) == (b[0] as u32) {
        lemma_lex_cmp_antisymmetric(a.drop_first(), b.drop_first());
    }
}

/// The number that a recognised literal form stands for: `Infinity`,
/// `-Infinity` and `NaN` as written, and the lower-case spellings `inf`,
/// `-inf`, `nan`, `infinity` and `-infinity` as zero. `None` for any other
/// text, which is read as a decimal number.
pub open spec fn literal_bits(t: Seq<char>) -> Option<u64> {
    if t == "Infinity"@ {
        Some(INFINITY_BITS)
    } else if t == "-Infinity"@ {
        Some(NEG_INFINITY_BITS)
    } else if t == "NaN"@ {
        Some(NAN_BITS)
    } else if t == "inf"@ || t == "-inf"@ || t == "nan"@ || t == "infinity"@ || t
        == "-infinity"@ {
        Some(ZERO_BITS)
    } else {
        None
    }
}

/// The number that a trimmed text's literal form stands for.
pub fn literal_number(t: &str) -> (r: Option<u64>)
    ensures
        r == literal_bits(t@),
{
    if same_text(t, "Infinity") {
        Some(INFINITY_BITS)
    } else if same_text(t, "-Infinity") {
        Some(NEG_INFINITY_BITS)
    } else if same_text(t, "NaN") {
        Some(NAN_BITS)
    } else if same_text(t, "inf") || same_text(t, "-inf") || same_text(t, "nan") || same_text(
        t,
        "infinity",
    ) || same_text(t, "-infinity") {
        Some(ZERO_BITS)
    } else {
        None
    }
}

/// The number that a text's literal form stands for, after white space at
/// either end is removed; `None` where the text is to be read as a decimal.
pub fn parse_number_literal(s: &str) -> (r: Option<u64>)
    ensures
        r == literal_bits(trimmed(s@)),
{
    let t = trim(s);
    literal_number(t)
}

/// The view of an optional text.
pub open spec fn text_view(r: Option<String>) -> Option<Seq<char>> {
    match r {
        Some(t) => Some(t@),
        None => None,
    }
}

impl Value {
    /// The truth of a value: a boolean is itself, a number is true unless it
    /// is zero, a text is false exactly when its lower-case form is empty,
    /// `0` or `false`.
    pub open spec fn truth(&self) -> bool {
        match self {
            Value::Bool(b) => *b,
            Value::Float(b) => !is_zero_bits(*b),
            Value::String(s) => text_truthy(lower_of(s@)),
        }
    }

    /// Whether a value counts as a whole number: a boolean does, a number
    /// when it is integral, a text when it holds no `.`.
    pub open spec fn integral(&self) -> bool {
        match self {
            Value::Bool(_) => true,
            Value::Float(b) => is_integral_bits(*b),
            Value::String(s) => !s@.contains('.'),
        }
    }

    /// The number a value stands for where that needs no decimal parsing: a
    /// number itself with NaN read as zero, a boolean as one or zero, a text
    /// in a recognised literal form. `None` for any other text.
    pub open spec fn known_number(&self) -> Option<u64> {
        match self {
            Value::Float(b) => if is_nan_bits(*b) {
                Some(ZERO_BITS)
            } else {
                Some(*b)
            },
            Value::Bool(b) => if *b {
                Some(ONE_BITS)
            } else {
                Some(ZERO_BITS)
            },
            Value::String(s) => literal_bits(trimmed(s@)),
        }
    }

    /// The text of a value where that needs no decimal formatting: a text
    /// itself, `true` or `false`, `NaN`, `Infinity`, `-Infinity`, and `0` for
    /// either zero. `None` for any other number.
    pub open spec fn known_text_of(&self) -> Option<Seq<char>> {
        match self {
            Value::String(s) => Some(s@),
            Value::Bool(b) => if *b {
                Some("true"@)
            } else {
                Some("false"@)
            },
            Value::Float(b) => if is_nan_bits(*b) {
                Some("NaN"@)
            } else if is_infinite_bits(*b) {
                if is_negative_bits(*b) {
                    Some("-Infinity"@)
                } else {
                    Some("Infinity"@)
                }
            } else if is_zero_bits(*b) {
                Some("0"@)
            } else {
                None
            },
        }
    }

    /// A copy of the value.
    pub fn duplicate(&self) -> (r: Value)
        ensures
            r == *self,
    {
        match self {
            Value::Float(b) => Value::Float(*b),
            Value::String(s) => Value::String(s.clone()),
            Value::Bool(b) => Value::Bool(*b),
        }
    }

    /// The truth of the value.
    pub fn to_bool(&self) -> (r: bool)
        ensures
            r == self.truth(),
    {
        match self {
            Value::Bool(b) => *b,
            Value::Float(b) => !zero_bits(*b),
            Value::String(s) => {
                let folded = lowercase(s.as_str());
                truthy_text(folded.as_str())
            },
        }
    }

    /// Whether the value counts as a whole number.
    pub fn is_int(&self) -> (r: bool)
        ensures
            r == self.integral(),
    {
        match self {
            Value::Bool(_) => true,
            Value::Float(b) => integral_bits(*b),
            Value::String(s) => !has_char(s.as_str(), '.'),
        }
    }

    /// Whether the value is a text that holds only white space.
    pub fn is_whitespace(&self) -> (r: bool)
        ensures
            r == (match self {
                Value::String(s) => trimmed(s@).len() == 0,
                _ => false,
            }),
    {
        match self {
            Value::String(s) => trim(s.as_str()).unicode_len() == 0,
            _ => false,
        }
    }

    /// The number the value stands for, where no decimal parsing is needed.
    pub fn to_number(&self) -> (r: Option<u64>)
        ensures
            r == self.known_number(),
    {
        match self {
            Value::Float(b) => if nan_bits(*b) {
                Some(ZERO_BITS)
            } else {
                Some(*b)
            },
            Value::Bool(b) => if *b {
                Some(ONE_BITS)
            } else {
                Some(ZERO_BITS)
            },
            Value::String(s) => parse_number_literal(s.as_str()),
        }
    }

    /// The text of the value, where no decimal formatting is needed.
    pub fn known_text(&self) -> (r: Option<String>)
        ensures
            text_view(r) == self.known_text_of(),
    {
        match self {
            Value::String(s) => Some(s.clone()),
            Value::Bool(b) => if *b {
                Some(String::from_str("true"))
            } else {
                Some(String::from_str("false"))
            },
            Value::Float(b) => if nan_bits(*b) {
                Some(String::from_str("NaN"))
            } else if infinite_bits(*b) {
                if *b & SIGN_MASK != 0 {
                    Some(String::from_str("-Infinity"))
                } else {
                    Some(String::from_str("Infinity"))
                }
            } else if zero_bits(*b) {
                Some(String::from_str("0"))
            } else {
                None
            },
        }
    }
}


/// The letter at a 1-based position of a text, or the empty text where the
/// position lies outside it.
pub open spec fn letter_at(s: Seq<char>, position: usize) -> Seq<char> {
    if 1 <= position <= s.len() {
        seq![s[position - 1]]
    } else {
        Seq::empty()
    }
}

/// The letter at a 1-based position of a text; empty outside it.
pub fn letter_of(s: &str, position: usize) -> (r: String)
    ensures
        r@ == letter_at(s@, position),
{
    let n = s.unicode_len();
    if 1 <= position && position <= n {
        let letter = s.substring_char(position - 1, position);
        assert(letter@ =~= seq![s@[position - 1]]);
        String::from_str(letter)
    } else {
        String::new()
    }
}

/// Whether `needle` occurs in `hay` as a run of consecutive characters.
pub open spec fn occurs_in(hay: Seq<char>, needle: Seq<char>) -> bool {
    exists|i: int|
        0 <= i && i + needle.len() <= hay.len() && #[trigger] hay.subrange(i, i + needle.len())
            == needle
}

/// Whether `needle` stands in `hay` at position `i`.
fn occurs_at(hay: &str, needle: &str, i: usize) -> (r: bool)
    requires
        i + needle@.len() <= hay@.len(),
    ensures
        r == (hay@.subrange(i as int, i + needle@.len()) == needle@),
{
    let m = needle.unicode_len();
    let n = hay.unicode_len();
    let mut j: usize = 0;
    while j < m
        invariant
            m == needle@.len(),
            n == hay@.len(),
            i + m <= hay@.len(),
            j <= m,
            hay@.subrange(i as int, i + j) == needle@.subrange(0, j as int),
        decreases m - j,
    {
        if hay.get_char(i + j) != needle.get_char(j) {
            assert(hay@.subrange(i as int, i + m)[j as int] != needle@[j as int]);
            return false;
        }
        assert(hay@.subrange(i as int, i + j + 1) =~= hay@.subrange(i as int, i + j).push(
            hay@[i + j],
        ));
        assert(needle@.subrange(0, j + 1) =~= needle@.subrange(0, j as int).push(needle@[j as int]));
        j = j + 1;
    }
    assert(needle@.subrange(0, m as int) =~= needle@);
    true
}

/// Whether `needle` occurs in `hay`, character for character.
pub fn contains_folded(hay: &str, needle: &str) -> (r: bool)
    ensures
        r == occurs_in(hay@, needle@),
{
    let n = hay.unicode_len();
    let m = needle.unicode_len();
    if m > n {
        return false;
    }
    if m == 0 {
        assert(hay@.subrange(0, 0int + needle@.len()) =~= needle@);
        return true;
    }
    let mut i: usize = 0;
    while i <= n - m
        invariant
            n == hay@.len(),
            m == needle@.len(),
            1 <= m <= n,
            i <= n - m + 1,
            forall|k: int| 0 <= k < i ==> #[trigger] hay@.subrange(k, k + m) != needle@,
        decreases n - m + 1 - i,
    {
        if occurs_at(hay, needle, i) {
            assert(hay@.subrange(i as int, i as int + needle@.len()) == needle@);
            return true;
        }
        i = i + 1;
    }
    assert forall|k: int| 0 <= k && k + needle@.len() <= hay@.len() implies #[trigger] hay@.subrange(
        k,
        k + needle@.len(),
    ) != needle@ by {
        assert(k < i);
    }
    false
}

/// Whether `needle` occurs in `hay` without regard to case.
pub fn contains_text(hay: &str, needle: &str) -> (r: bool)
    ensures
        r == occurs_in(lower_of(hay@), lower_of(needle@)),
{
    let h = lowercase(hay);
    let n = lowercase(needle);
    contains_folded(h.as_str(), n.as_str())
}

/// The number of letters in a text.
pub fn text_length(s: &str) -> (r: usize)
    ensures
        r == s@.len(),
{
    s.unicode_len()
}

/// Two texts joined.
pub fn join_text(a: &str, b: &str) -> (r: String)
    ensures
        r@ == a@ + b@,
{
    let mut out = String::from_str(a);
    out.append(b);
    out
}


/// The outcome of a comparison: only its sign is meaningful, and a
/// comparison that involves NaN, or two infinities of one sign, is none of
/// less, equal or greater.
#[derive(Debug, Clone, Copy, PartialEq, Eq, Structural)]
pub enum Order {
    Less,
    Equal,
    Greater,
    Unordered,
}

/// The same comparison made the other way round.
pub open spec fn reverse(o: Order) -> Order {
    match o {
        Order::Less => Order::Greater,
        Order::Greater => Order::Less,
        o => o,
    }
}

/// The order of a three-way comparison result.
pub open spec fn sign_order(c: int) -> Order {
    if c < 0 {
        Order::Less
    } else if c == 0 {
        Order::Equal
    } else {
        Order::Greater
    }
}

/// A key that orders doubles by value: the magnitude bits of a double grow
/// with its magnitude, and both zeros have key 0.
pub open spec fn number_key(b: u64) -> int {
    let magnitude = (b & !SIGN_MASK) as int;
    if is_negative_bits(b) {
        -magnitude
    } else {
        magnitude
    }
}

/// The sign of `x - y` in IEEE-754 arithmetic: unordered where the
/// difference is NaN, else the order of the two values.
pub open spec fn number_order(x: u64, y: u64) -> Order {
    if is_nan_bits(x) || is_nan_bits(y) || (is_infinite_bits(x) && is_infinite_bits(y)
        && is_negative_bits(x) == is_negative_bits(y)) {
        Order::Unordered
    } else {
        sign_order(number_key(x) - number_key(y))
    }
}

fn key_of(b: u64) -> (r: i128)
    ensures
        r as int == number_key(b),
{
    let magnitude = (b & !SIGN_MASK) as i128;
    if b & SIGN_MASK != 0 {
        -magnitude
    } else {
        magnitude
    }
}

/// The sign of the difference of two doubles.
pub fn order_numbers(x: u64, y: u64) -> (r: Order)
    ensures
        r == number_order(x, y),
{
    if nan_bits(x) || nan_bits(y) || (infinite_bits(x) && infinite_bits(y) && (x & SIGN_MASK != 0)
        == (y & SIGN_MASK != 0)) {
        return Order::Unordered;
    }
    let kx = key_of(x);
    let ky = key_of(y);
    if kx < ky {
        Order::Less
    } else if kx == ky {
        Order::Equal
    } else {
        Order::Greater
    }
}

/// The number a value is compared as: a number itself, a boolean as one or
/// zero, a text as its decimal reading `parsed`, where it has one.
pub open spec fn numeric_reading(v: Value, parsed: Option<u64>) -> Option<u64> {
    match v {
        Value::Float(b) => Some(b),
        Value::Bool(b) => Some(
            if b {
                ONE_BITS
            } else {
                ZERO_BITS
            },
        ),
        Value::String(_) => parsed,
    }
}

/// The text a value is compared as where the comparison falls back to text:
/// a text itself, `true` or `false`, a number as `formatted`.
pub open spec fn comparison_text(v: Value, formatted: Seq<char>) -> Seq<char> {
    match v {
        Value::String(s) => s@,
        Value::Bool(b) => if b {
            "true"@
        } else {
            "false"@
        },
        Value::Float(_) => formatted,
    }
}

/// How two values compare: by the difference of their numbers where both
/// read as numbers, else by the case-insensitive order of their texts.
pub open spec fn value_order(
    a: Value,
    b: Value,
    a_parsed: Option<u64>,
    b_parsed: Option<u64>,
    a_formatted: Seq<char>,
    b_formatted: Seq<char>,
) -> Order {
    match (numeric_reading(a, a_parsed), numeric_reading(b, b_parsed)) {
        (Some(x), Some(y)) => number_order(x, y),
        _ => sign_order(
            text_order(comparison_text(a, a_formatted), comparison_text(b, b_formatted)),
        ),
    }
}

fn comparison_string(v: &Value, formatted: &str) -> (r: String)
    ensures
        r@ == comparison_text(*v, formatted@),
{
    match v {
        Value::String(s) => s.clone(),
        Value::Bool(b) => if *b {
            String::from_str("true")
        } else {
            String::from_str("false")
        },
        Value::Float(_) => String::from_str(formatted),
    }
}

fn order_of(c: i8) -> (r: Order)
    ensures
        r == sign_order(c as int),
{
    if c < 0 {
        Order::Less
    } else if c == 0 {
        Order::Equal
    } else {
        Order::Greater
    }
}

impl Value {
    /// Compares the value with `other`. `parsed` and `other_parsed` are the
    /// decimal readings of the two values where they are texts that parse as
    /// numbers; `formatted` and `other_formatted` are the decimal forms of
    /// the two values where they are numbers.
    pub fn compare(
        &self,
        other: &Value,
        parsed: Option<u64>,
        other_parsed: Option<u64>,
        formatted: &str,
        other_formatted: &str,
    ) -> (r: Order)
        ensures
            r == value_order(*self, *other, parsed, other_parsed, formatted@, other_formatted@),
    {
        let x = match self {
            Value::Float(b) => Some(*b),
            Value::Bool(b) => Some(
                if *b {
                    ONE_BITS
                } else {
                    ZERO_BITS
                },
            ),
            Value::String(_) => parsed,
        };
        let y = match other {
            Value::Float(b) => Some(*b),
            Value::Bool(b) => Some(
                if *b {
                    ONE_BITS
                } else {
                    ZERO_BITS
                },
            ),
            Value::String(_) => other_parsed,
        };
        match (x, y) {
            (Some(x), Some(y)) => order_numbers(x, y),
            _ => {
                let t1 = comparison_string(self, formatted);
                let t2 = comparison_string(other, other_formatted);
                order_of(compare_string(t1.as_str(), t2.as_str()))
            },
        }
    }
}

/// Comparing two values the other way round gives the reverse order:
/// `compare(a, b)` and `compare(b, a)` have opposite signs, or are both
/// unordered.
pub proof fn compare_antisymmetric(
    a: Value,
    b: Value,
    a_parsed: Option<u64>,
    b_parsed: Option<u64>,
    a_formatted: Seq<char>,
    b_formatted: Seq<char>,
)
    ensures
        value_order(a, b, a_parsed, b_parsed, a_formatted, b_formatted) == reverse(
            value_order(b, a, b_parsed, a_parsed, b_formatted, a_formatted),
        ),
{
    lemma_lex_cmp_antisymmetric(
        lower_of(comparison_text(a, a_formatted)),
        lower_of(comparison_text(b, b_formatted)),
    );
}

} // verus!
