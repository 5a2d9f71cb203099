//! Character-level helpers shared by the key codec and the command grammar:
//! decimal numbers, splitting on a separator, and whitespace tokens.

use vstd::prelude::*;
use vstd::utf8::{decode_utf8, valid_utf8};

verus! {

/// The texts held by a vector of strings, in order.
pub open spec fn texts(v: Seq<String>) -> Seq<Seq<char>> {
    Seq::new(v.len(), |i: int| v[i]@)
}

/// Collects the characters of a string slice into a vector.
pub fn chars_of(s: &str) -> (out: Vec<char>)
    ensures
        out@ == s@,
{
    broadcast use vstd::string::group_string_axioms;

    let mut out: Vec<char> = Vec::new();
    for c in it: s.chars()
        invariant
            it.seq() == s@,
            out@ == s@.take(it.index()),
    {
        out.push(c);
    }
    out
}

/// `String::push` of the standard library: appends one character to the
/// end of the string.
pub assume_specification[ String::push ](s: &mut String, ch: char)
    ensures
        final(s)@ == old(s)@.push(ch),
;

/// The string of the characters from `from` up to `to`.
pub(crate) fn slice_text(chars: &Vec<char>, from: usize, to: usize) -> (out: String)
    requires
        from <= to <= chars@.len(),
    ensures
        out@ == chars@.subrange(from as int, to as int),
{
    let mut out = String::new();
    let mut i: usize = from;
    assert(out@ =~= chars@.subrange(from as int, i as int));
    while i < to
        invariant
            from <= i <= to <= chars@.len(),
            out@ == chars@.subrange(from as int, i as int),
        decreases to - i,
    {
        out.push(chars[i]);
        i = i + 1;
        assert(out@ =~= chars@.subrange(from as int, i as int));
    }
    out
}

// ---------------------------------------------------------------------------
// Decimal numbers
// ---------------------------------------------------------------------------

/// The ASCII digit for a value below ten.
pub open spec fn digit_char(d: int) -> char {
    if d == 0 {
        '0'
    } else if d == 1 {
        '1'
    } else if d == 2 {
        '2'
    } else if d == 3 {
        '3'
    } else if d == 4 {
        '4'
    } else if d == 5 {
        '5'
    } else if d == 6 {
        '6'
    } else if d == 7 {
        '7'
    } else if d == 8 {
        '8'
    } else {
        '9'
    }
}

/// Whether `c` is one of the ASCII digits `0` to `9`.
pub open spec fn is_digit(c: char) -> bool {
    '0' <= c && c <= '9'
}

/// The value of an ASCII digit.
pub open spec fn digit_value(c: char) -> int {
    c as int - '0' as int
}

/// The shortest decimal numeral of `n`: no sign, no leading zero but for zero itself.
pub open spec fn decimal(n: nat) -> Seq<char>
    decreases n,
{
    if n < 10 {
        seq![digit_char(n as int)]
    } else {
        decimal(n / 10).push(digit_char((n % 10) as int))
    }
}

/// Whether `s` is a non-empty run of ASCII digits.
pub open spec fn is_decimal(s: Seq<char>) -> bool {
    s.len() > 0 && forall|i: int| 0 <= i < s.len() ==> is_digit(#[trigger] s[i])
}

/// The number that a run of digits denotes, most significant digit first.
pub open spec fn decimal_value(s: Seq<char>) -> nat
    decreases s.len(),
{
    if s.len() == 0 {
        0
    } else {
        (decimal_value(s.drop_last()) * 10 + digit_value(s.last())) as nat
    }
}

/// The digits of a numeral once an optional leading `+` is taken off.
pub open spec fn unsigned_digits(s: Seq<char>) -> Seq<char> {
    if s.len() > 0 && s[0] == '+' {
        s.drop_first()
    } else {
        s
    }
}

/// The number that `s` denotes: an optional `+`, then one or more ASCII
/// digits and nothing else. Any other text denotes no number.
pub open spec fn parse_decimal(s: Seq<char>) -> Option<nat> {
    if is_decimal(unsigned_digits(s)) {
        Some(decimal_value(unsigned_digits(s)))
    } else {
        None
    }
}

/// A numeral read as a machine-sized count: the number it denotes where that fits.
pub open spec fn parse_count(s: Seq<char>) -> Option<usize> {
    match parse_decimal(s) {
        Some(n) => if n <= usize::MAX {
            Some(n as usize)
        } else {
            None
        },
        None => None,
    }
}

/// A digit's character is a digit and has the digit's value.
pub proof fn lemma_digit_char(d: int)
    requires
        0 <= d < 10,
    ensures
        is_digit(digit_char(d)),
        digit_value(digit_char(d)) == d,
        digit_char(d) != '_',
        digit_char(d) != '+',
{
}

/// A shortest numeral is a non-empty run of digits that denotes its number.
pub proof fn lemma_decimal_digits(n: nat)
    ensures
        is_decimal(decimal(n)),
        decimal_value(decimal(n)) == n,
        decimal(n)[0] != '+',
        !decimal(n).contains('_'),
    decreases n,
{
    if n < 10 {
        lemma_digit_char(n as int);
        let s = decimal(n);
        assert(s.drop_last() =~= Seq::<char>::empty());
        assert(decimal_value(s.drop_last()) == 0);
    } else {
        lemma_decimal_digits(n / 10);
        lemma_digit_char((n % 10) as int);
        let head = decimal(n / 10);
        let s = decimal(n);
        assert(s.drop_last() =~= head);
        assert(s.last() == digit_char((n % 10) as int));
        assert(s[0] == head[0]);
        assert forall|i: int| 0 <= i < s.len() implies is_digit(#[trigger] s[i]) by {
            if i < head.len() {
                assert(s[i] == head[i]);
            }
        }
        assert(!s.contains('_')) by {
            if s.contains('_') {
                let i = choose|i: int| 0 <= i < s.len() && s[i] == '_';
                if i < head.len() {
                    assert(head[i] == '_');
                    assert(head.contains('_'));
                }
            }
        }
    }
}

/// Reading back a shortest numeral gives the number it was written for.
pub proof fn law_decimal_round_trip(n: nat)
    ensures
        parse_decimal(decimal(n)) == Some(n),
        n <= usize::MAX ==> parse_count(decimal(n)) == Some(n as usize),
        n <= u64::MAX ==> parse_u64_text(decimal(n)) == Some(n as u64),
{
    lemma_decimal_digits(n);
}

/// The one-character string of a digit.
fn digit_str(d: usize) -> (out: &'static str)
    requires
        d < 10,
    ensures
        out@ == seq![digit_char(d as int)],
{
    proof {
        reveal_strlit("0");
        reveal_strlit("1");
        reveal_strlit("2");
        reveal_strlit("3");
        reveal_strlit("4");
        reveal_strlit("5");
        reveal_strlit("6");
        reveal_strlit("7");
        reveal_strlit("8");
        reveal_strlit("9");
    }
    let out = if d == 0 {
        "0"
    } else if d == 1 {
        "1"
    } else if d == 2 {
        "2"
    } else if d == 3 {
        "3"
    } else if d == 4 {
        "4"
    } else if d == 5 {
        "5"
    } else if d == 6 {
        "6"
    } else if d == 7 {
        "7"
    } else if d == 8 {
        "8"
    } else {
        "9"
    };
    assert(out@ =~= seq![digit_char(d as int)]);
    out
}

/// Writes `n` as its shortest decimal numeral.
pub fn decimal_string(n: usize) -> (out: String)
    ensures
        out@ == decimal(n as nat),
    decreases n,
{
    if n < 10 {
        String::from_str(digit_str(n))
    } else {
        let mut out = decimal_string(n / 10);
        out.append(digit_str(n % 10));
        assert(out@ =~= decimal(n as nat));
        out
    }
}

/// A numeral read as a 64-bit number: the number it denotes where that fits.
pub open spec fn parse_u64_text(s: Seq<char>) -> Option<u64> {
    match parse_decimal(s) {
        Some(n) => if n <= u64::MAX {
            Some(n as u64)
        } else {
            None
        },
        None => None,
    }
}

/// Reads a 64-bit number: an optional `+`, then one or more ASCII digits,
/// whose number fits 64 bits. Any other text gives `None`.
pub fn parse_u64(s: &str) -> (out: Option<u64>)
    ensures
        out == parse_u64_text(s@),
{
    let chars = chars_of(s);
    let n = chars.len();
    let start: usize = if n > 0 && chars[0] == '+' {
        1
    } else {
        0
    };
    let ghost digits = unsigned_digits(s@);
    assert(digits =~= s@.skip(start as int));
    if start == n {
        return None;
    }
    let mut value: u64 = 0;
    let mut i: usize = start;
    while i < n
        invariant
            start <= i <= n,
            start < n,
            n == chars@.len(),
            chars@ == s@,
            digits == s@.skip(start as int),
            digits == unsigned_digits(s@),
            forall|k: int| 0 <= k < i - start ==> is_digit(#[trigger] digits[k]),
            value == decimal_value(digits.take(i - start)),
        decreases n - i,
    {
        let c = chars[i];
        assert(digits[i - start] == c);
        if !('0' <= c && c <= '9') {
            assert(!is_digit(digits[i - start]));
            return None;
        }
        let d: u64 = (c as u32 - '0' as u32) as u64;
        let ghost prefix = digits.take(i - start + 1);
        assert(prefix.drop_last() =~= digits.take(i - start));
        assert(prefix.last() == c);
        assert(decimal_value(prefix) == value * 10 + d);
        proof {
            if is_decimal(digits) {
                lemma_decimal_value_grows(digits, i - start + 1);
            }
        }
        let scaled = match value.checked_mul(10) {
            Some(v) => v,
            None => {
                return None;
            },
        };
        let next = match scaled.checked_add(d) {
            Some(v) => v,
            None => {
                return None;
            },
        };
        value = next;
        i = i + 1;
    }
    assert(digits.take(n - start) =~= digits);
    Some(value)
}

/// Reads a count: an optional `+`, then one or more ASCII digits, whose
/// number fits the machine word. Any other text gives `None`.
pub fn parse_usize(s: &str) -> (out: Option<usize>)
    ensures
        out == parse_count(s@),
{
    match parse_u64(s) {
        Some(value) => if value <= usize::MAX as u64 {
            Some(value as usize)
        } else {
            None
        },
        None => None,
    }
}

/// The number denoted by a run of digits is no smaller than that of any
/// of its prefixes.
pub proof fn lemma_decimal_value_grows(s: Seq<char>, k: int)
    requires
        0 <= k <= s.len(),
        forall|i: int| 0 <= i < s.len() ==> is_digit(#[trigger] s[i]),
    ensures
        decimal_value(s.take(k)) <= decimal_value(s),
    decreases s.len() - k,
{
    if k == s.len() {
        assert(s.take(k) =~= s);
    } else {
        let longer = s.take(k + 1);
        assert(longer.drop_last() =~= s.take(k));
        assert(is_digit(s[k]));
        assert(longer.last() == s[k]);
        assert(decimal_value(longer) == decimal_value(s.take(k)) * 10 + digit_value(s[k]));
        lemma_decimal_value_grows(s, k + 1);
    }
}

// ---------------------------------------------------------------------------
// Splitting on a separator
// ---------------------------------------------------------------------------

/// How many characters stand before the first `sep` in `s`: the whole length
/// where `s` holds no `sep`.
pub open spec fn first_index(s: Seq<char>, sep: char) -> int
    decreases s.len(),
{
    if s.len() == 0 || s[0] == sep {
        0
    } else {
        1 + first_index(s.drop_first(), sep)
    }
}

/// The pieces of `s` between occurrences of `sep`. A text without `sep` is
/// one piece; `k` separators make `k + 1` pieces, empty ones included.
pub open spec fn split(s: Seq<char>, sep: char) -> Seq<Seq<char>>
    decreases s.len(),
{
    let i = first_index(s, sep);
    if 0 <= i < s.len() {
        seq![s.take(i)] + split(s.skip(i + 1), sep)
    } else {
        seq![s]
    }
}

/// The first separator stands at `k` when none stands before it.
pub proof fn lemma_first_index(s: Seq<char>, sep: char, k: int)
    requires
        0 <= k <= s.len(),
        forall|j: int| 0 <= j < k ==> s[j] != sep,
        k == s.len() || s[k] == sep,
    ensures
        first_index(s, sep) == k,
    decreases s.len(),
{
    if k > 0 {
        let rest = s.drop_first();
        assert forall|j: int| 0 <= j < k - 1 implies rest[j] != sep by {
            assert(rest[j] == s[j + 1]);
        }
        lemma_first_index(rest, sep, k - 1);
    }
}

/// A text without the separator is a single piece.
pub proof fn lemma_split_whole(s: Seq<char>, sep: char)
    requires
        !s.contains(sep),
    ensures
        split(s, sep) == seq![s],
{
    assert forall|j: int| 0 <= j < s.len() implies s[j] != sep by {
        if s[j] == sep {
            assert(s.contains(sep));
        }
    }
    lemma_first_index(s, sep, s.len() as int);
}

/// Splitting `head`, a separator and `tail`, where `head` holds no
/// separator, gives `head` and then the pieces of `tail`.
pub proof fn lemma_split_joined(head: Seq<char>, sep: char, tail: Seq<char>)
    requires
        !head.contains(sep),
    ensures
        split(head + seq![sep] + tail, sep) == seq![head] + split(tail, sep),
{
    let s = head + seq![sep] + tail;
    let k = head.len() as int;
    assert forall|j: int| 0 <= j < k implies s[j] != sep by {
        assert(s[j] == head[j]);
        if head[j] == sep {
            assert(head.contains(sep));
        }
    }
    assert(s[k] == sep);
    lemma_first_index(s, sep, k);
    assert(s.take(k) =~= head);
    assert(s.skip(k + 1) =~= tail);
}

/// A text holds the separator exactly when it splits into more than one piece.
pub proof fn lemma_split_len(s: Seq<char>, sep: char)
    ensures
        split(s, sep).len() >= 1,
        s.contains(sep) <==> split(s, sep).len() > 1,
    decreases s.len(),
{
    let i = first_index(s, sep);
    if 0 <= i < s.len() {
        lemma_split_len(s.skip(i + 1), sep);
        lemma_first_index_bounds(s, sep);
        assert(s[i] == sep);
    } else {
        lemma_first_index_bounds(s, sep);
        if s.contains(sep) {
            let j = choose|j: int| 0 <= j < s.len() && s[j] == sep;
            assert(s[j] == sep);
        }
    }
}

/// The first separator's index is within the text, points at a separator
/// where it is short of the end, and has none before it.
pub proof fn lemma_first_index_bounds(s: Seq<char>, sep: char)
    ensures
        0 <= first_index(s, sep) <= s.len(),
        first_index(s, sep) < s.len() ==> s[first_index(s, sep)] == sep,
        forall|j: int| 0 <= j < first_index(s, sep) ==> s[j] != sep,
    decreases s.len(),
{
    if s.len() == 0 || s[0] == sep {
    } else {
        let rest = s.drop_first();
        lemma_first_index_bounds(rest, sep);
        assert forall|j: int| 0 <= j < first_index(s, sep) implies s[j] != sep by {
            if j > 0 {
                assert(rest[j - 1] == s[j]);
            }
        }
    }
}

/// Splits `s` at every `sep`.
pub fn split_on(s: &str, sep: char) -> (out: Vec<String>)
    ensures
        texts(out@) == split(s@, sep),
{
    let chars = chars_of(s);
    let n = chars.len();
    let mut out: Vec<String> = Vec::new();
    let mut start: usize = 0;
    let mut i: usize = 0;
    assert(s@.skip(0) =~= s@);
    assert(texts(out@) + split(s@, sep) =~= split(s@, sep));
    while i < n
        invariant
            start <= i <= n,
            n == s@.len(),
            chars@ == s@,
            forall|k: int| start <= k < i ==> s@[k] != sep,
            texts(out@) + split(s@.skip(start as int), sep) == split(s@, sep),
        decreases n - i,
    {
        if chars[i] == sep {
            let piece = slice_text(&chars, start, i);
            proof {
                let rest = s@.skip(start as int);
                assert forall|j: int| 0 <= j < i - start implies rest[j] != sep by {
                    assert(rest[j] == s@[start + j]);
                }
                lemma_first_index(rest, sep, i - start);
                assert(rest.take(i - start) =~= s@.subrange(start as int, i as int));
                assert(rest.skip(i - start + 1) =~= s@.skip(i + 1));
                assert(texts(out@.push(piece)) =~= texts(out@) + seq![piece@]);
            }
            out.push(piece);
            start = i + 1;
        }
        i = i + 1;
    }
    let piece = slice_text(&chars, start, n);
    proof {
        let rest = s@.skip(start as int);
        assert forall|j: int| 0 <= j < n - start implies rest[j] != sep by {
            assert(rest[j] == s@[start + j]);
        }
        lemma_first_index(rest, sep, n - start);
        assert(rest =~= s@.subrange(start as int, n as int));
        assert(texts(out@.push(piece)) =~= texts(out@) + seq![piece@]);
    }
    out.push(piece);
    out
}

// ---------------------------------------------------------------------------
// Whitespace tokens
// ---------------------------------------------------------------------------

/// Whether a character has the Unicode property White_Space: the controls
/// from tab to carriage return, the space, next line, the no-break space,
/// the ogham space mark, the spaces from en quad to hair space, the line
/// and paragraph separators, the narrow no-break space, the medium
/// mathematical space and the ideographic space.
pub open spec fn white_space(c: char) -> bool {
    ||| '\u{9}' <= c && c <= '\u{D}'
    ||| c == ' '
    ||| c == '\u{85}'
    ||| c == '\u{A0}'
    ||| c == '\u{1680}'
    ||| '\u{2000}' <= c && c <= '\u{200A}'
    ||| c == '\u{2028}'
    ||| c == '\u{2029}'
    ||| c == '\u{202F}'
    ||| c == '\u{205F}'
    ||| c == '\u{3000}'
}

/// `char::is_whitespace` of the standard library: whether the character
/// has the Unicode property White_Space.
pub assume_specification[ char::is_whitespace ](c: char) -> (b: bool)
    ensures
        b == white_space(c),
;

/// How many characters stand before the first whitespace in `s`.
pub open spec fn word_len(s: Seq<char>) -> int
    decreases s.len(),
{
    if s.len() == 0 || white_space(s[0]) {
        0
    } else {
        1 + word_len(s.drop_first())
    }
}

/// The maximal runs of characters without whitespace in `s`, in order.
pub open spec fn tokens(s: Seq<char>) -> Seq<Seq<char>>
    decreases s.len(),
{
    if s.len() == 0 {
        seq![]
    } else if white_space(s[0]) {
        tokens(s.drop_first())
    } else {
        let n = word_len(s);
        if 0 < n <= s.len() {
            seq![s.take(n)] + tokens(s.skip(n))
        } else {
            seq![]
        }
    }
}

/// The first word of `s` ends at `k` when no whitespace stands before `k`
/// and whitespace, or the end, stands at `k`.
pub proof fn lemma_word_len(s: Seq<char>, k: int)
    requires
        0 <= k <= s.len(),
        forall|j: int| 0 <= j < k ==> !white_space(s[j]),
        k == s.len() || white_space(s[k]),
    ensures
        word_len(s) == k,
    decreases s.len(),
{
    if k > 0 {
        let rest = s.drop_first();
        assert forall|j: int| 0 <= j < k - 1 implies !white_space(rest[j]) by {
            assert(rest[j] == s[j + 1]);
        }
        lemma_word_len(rest, k - 1);
    }
}

/// Splits `s` into its whitespace-separated tokens.
pub fn split_whitespace(s: &str) -> (out: Vec<String>)
    ensures
        texts(out@) == tokens(s@),
{
    let chars = chars_of(s);
    let n = chars.len();
    let mut out: Vec<String> = Vec::new();
    let mut i: usize = 0;
    assert(s@.skip(0) =~= s@);
    assert(texts(out@) + tokens(s@) =~= tokens(s@));
    while i < n
        invariant
            i <= n,
            n == s@.len(),
            chars@ == s@,
            texts(out@) + tokens(s@.skip(i as int)) == tokens(s@),
        decreases n - i,
    {
        let ghost rest = s@.skip(i as int);
        assert(rest[0] == chars@[i as int]);
        if chars[i].is_whitespace() {
            assert(rest.drop_first() =~= s@.skip(i + 1));
            i = i + 1;
        } else {
            let start = i;
            let mut j: usize = i + 1;
            while j < n && !chars[j].is_whitespace()
                invariant
                    start < j <= n,
                    n == chars@.len(),
                    forall|k: int| start <= k < j ==> !white_space(chars@[k]),
                decreases n - j,
            {
                j = j + 1;
            }
            let word = slice_text(&chars, start, j);
            proof {
                assert forall|k: int| 0 <= k < j - start implies !white_space(rest[k]) by {
                    assert(rest[k] == chars@[start + k]);
                }
                if j < n {
                    assert(rest[j - start] == chars@[j as int]);
                }
                lemma_word_len(rest, j - start);
                assert(rest.take(j - start) =~= s@.subrange(start as int, j as int));
                assert(rest.skip(j - start) =~= s@.skip(j as int));
                assert(texts(out@.push(word)) =~= texts(out@) + seq![word@]);
            }
            out.push(word);
            i = j;
        }
    }
    assert(s@.skip(n as int) =~= Seq::<char>::empty());
    assert(texts(out@) + Seq::<Seq<char>>::empty() =~= texts(out@));
    out
}

// ---------------------------------------------------------------------------
// Bytes as text
// ---------------------------------------------------------------------------

/// The text that `String::from_utf8_lossy` gives for bytes that are not
/// valid UTF-8: the bytes decoded with a replacement character for each
/// malformed part.
pub uninterp spec fn utf8_repaired(bytes: Seq<u8>) -> Seq<char>;

/// Bytes read as text: the decoded characters where the bytes are valid
/// UTF-8, and the repaired text where they are not.
pub open spec fn lossy_text(bytes: Seq<u8>) -> Seq<char> {
    if valid_utf8(bytes) {
        decode_utf8(bytes)
    } else {
        utf8_repaired(bytes)
    }
}

/// `String::from_utf8_lossy`: valid UTF-8 is decoded as it stands; for
/// anything else the result is the repaired text, named
/// [`utf8_repaired`] here.
#[verifier::external_body]
pub(crate) fn from_utf8_lossy(bytes: &[u8]) -> (text: String)
    ensures
        valid_utf8(bytes@) ==> text@ == decode_utf8(bytes@),
        !valid_utf8(bytes@) ==> text@ == utf8_repaired(bytes@),
{
    String::from_utf8_lossy(bytes).into_owned()
}

/// Reads bytes as text, repairing what is not valid UTF-8.
pub fn bytes_to_text(bytes: &[u8]) -> (text: String)
    ensures
        text@ == lossy_text(bytes@),
{
    from_utf8_lossy(bytes)
}

} // verus!
