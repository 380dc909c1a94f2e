//! Text: comparing, trimming, joining and cutting strings, and decimal numerals.

use vstd::prelude::*;
use vstd::string::*;
use vstd::utf8::*;

verus! {

/// `String::push`: the character goes behind what the string holds.
#[verifier::external_body]
pub(crate) fn push_char(s: &mut String, c: char)
    ensures
        final(s)@ == old(s)@.push(c),
{
    s.push(c);
}

/// `std::str::from_utf8`: the text that the bytes encode, or `None` where they are not UTF-8.
#[verifier::external_body]
pub(crate) fn utf8_text(bytes: &[u8]) -> (r: Option<&str>)
    ensures
        match r {
            Some(s) => valid_utf8(bytes@) && s@ == decode_utf8(bytes@),
            None => !valid_utf8(bytes@),
        },
{
    std::str::from_utf8(bytes).ok()
}

/// Whether two strings hold the same characters.
pub fn text_eq(a: &str, b: &str) -> (r: bool)
    ensures
        r == (a@ == b@),
{
    let x: &[u8] = a.as_bytes();
    let y: &[u8] = b.as_bytes();
    proof {
        encode_utf8_decode_utf8(a@);
        encode_utf8_decode_utf8(b@);
    }
    if x.len() != y.len() {
        return false;
    }
    let mut i: usize = 0;
    while i < x.len()
        invariant
            i <= x@.len() == y@.len(),
            forall|j: int| 0 <= j < i ==> x@[j] == y@[j],
            x@ == encode_utf8(a@),
            y@ == encode_utf8(b@),
        decreases x@.len() - i,
    {
        if x[i] != y[i] {
            return false;
        }
        i += 1;
    }
    assert(x@ =~= y@);
    true
}

/// The characters of a string.
pub fn chars_of(s: &str) -> (r: Vec<char>)
    ensures
        r@ == s@,
{
    let mut out: Vec<char> = Vec::new();
    for c in it: s.chars()
        invariant
            it.seq() == s@,
            out@ == s@.take(it.index()),
    {
        assert(s@.take(it.index() + 1) == s@.take(it.index()).push(s@[it.index()]));
        out.push(c);
    }
    assert(s@.take(s@.len() as int) == s@);
    out
}

/// The string of the characters from `from` up to `to`.
pub fn string_of(chars: &Vec<char>, from: usize, to: usize) -> (r: String)
    requires
        from <= to <= chars@.len(),
    ensures
        r@ == chars@.subrange(from as int, to as int),
{
    let mut out: String = String::new();
    let mut i: usize = from;
    while i < to
        invariant
            from <= i <= to <= chars@.len(),
            out@ == chars@.subrange(from as int, i as int),
        decreases to - i,
    {
        push_char(&mut out, chars[i]);
        i += 1;
        assert(chars@.subrange(from as int, i as int) == chars@.subrange(
            from as int,
            i - 1,
        ).push(chars@[i - 1]));
    }
    out
}

/// Whether a character has the Unicode property `White_Space`.
pub open spec fn is_space(c: char) -> bool {
    ||| '\u{9}' <= c <= '\u{d}'
    ||| c == ' '
    ||| c == '\u{85}'
    ||| c == '\u{a0}'
    ||| c == '\u{1680}'
    ||| '\u{2000}' <= c <= '\u{200a}'
    ||| c == '\u{2028}'
    ||| c == '\u{2029}'
    ||| c == '\u{202f}'
    ||| c == '\u{205f}'
    ||| c == '\u{3000}'
}

/// Whether a character is white space.
pub fn is_whitespace(c: char) -> (r: bool)
    ensures
        r == is_space(c),
{
    ('\u{9}' <= c && c <= '\u{d}') || c == ' ' || c == '\u{85}' || c == '\u{a0}' || c == '\u{1680}'
        || ('\u{2000}' <= c && c <= '\u{200a}') || c == '\u{2028}' || c == '\u{2029}' || c
        == '\u{202f}' || c == '\u{205f}' || c == '\u{3000}'
}

/// A text without its leading white space.
pub open spec fn trimmed_start(s: Seq<char>) -> Seq<char>
    decreases s.len(),
{
    if s.len() > 0 && is_space(s[0]) {
        trimmed_start(s.skip(1))
    } else {
        s
    }
}

/// A text without its trailing white space.
pub open spec fn trimmed_end(s: Seq<char>) -> Seq<char>
    decreases s.len(),
{
    if s.len() > 0 && is_space(s.last()) {
        trimmed_end(s.drop_last())
    } else {
        s
    }
}

/// A text without the white space around it.
pub open spec fn trimmed(s: Seq<char>) -> Seq<char> {
    trimmed_end(trimmed_start(s))
}

/// A string without the white space around it.
pub fn trim(s: &str) -> (r: String)
    ensures
        r@ == trimmed(s@),
{
    let chars: Vec<char> = chars_of(s);
    let mut from: usize = 0;
    assert(chars@.skip(0) == s@);
    while from < chars.len() && is_whitespace(chars[from])
        invariant
            chars@ == s@,
            from <= chars@.len(),
            trimmed_start(s@) == trimmed_start(chars@.skip(from as int)),
        decreases chars@.len() - from,
    {
        assert(chars@.skip(from as int).skip(1) == chars@.skip(from + 1));
        from += 1;
    }
    let mut to: usize = chars.len();
    assert(chars@.subrange(from as int, to as int) == chars@.skip(from as int));
    while to > from && is_whitespace(chars[to - 1])
        invariant
            from <= to <= chars@.len(),
            trimmed(s@) == trimmed_end(chars@.subrange(from as int, to as int)),
        decreases to,
    {
        assert(chars@.subrange(from as int, to as int).drop_last() == chars@.subrange(
            from as int,
            to - 1,
        ));
        to -= 1;
    }
    string_of(&chars, from, to)
}

/// The character of a decimal digit.
pub open spec fn digit_char(d: nat) -> char
    recommends
        d < 10,
{
    (0x30 + d) as char
}

/// The decimal numeral of a number.
pub open spec fn decimal(n: nat) -> Seq<char>
    decreases n,
{
    if n < 10 {
        seq![digit_char(n)]
    } else {
        decimal(n / 10).push(digit_char(n % 10))
    }
}

/// The decimal numeral of a number.
pub fn decimal_text(n: u64) -> (r: String)
    ensures
        r@ == decimal(n as nat),
    decreases n,
{
    let mut out: String = if n < 10 {
        String::new()
    } else {
        decimal_text(n / 10)
    };
    let d: u8 = (n % 10) as u8;
    push_char(&mut out, (0x30 + d) as char);
    assert(out@ =~= decimal(n as nat));
    out
}

/// Whether a character is one of `0` to `9`.
pub open spec fn is_digit(c: char) -> bool {
    '0' <= c <= '9'
}

/// The number that a row of decimal digits stands for.
pub open spec fn digits_value(s: Seq<char>) -> nat
    decreases s.len(),
{
    if s.len() == 0 {
        0
    } else {
        (digits_value(s.drop_last()) * 10 + (s.last() as int - 0x30)) as nat
    }
}

/// Whether a text is a row of one or more decimal digits.
pub open spec fn is_numeral(s: Seq<char>) -> bool {
    s.len() > 0 && forall|i: int| 0 <= i < s.len() ==> is_digit(#[trigger] s[i])
}

/// The digits of a numeral: what follows one leading `+`, where there is one.
pub open spec fn unsigned_part(s: Seq<char>) -> Seq<char> {
    if s.len() > 0 && s[0] == '+' {
        s.skip(1)
    } else {
        s
    }
}

/// The size that a numeral stands for: decimal digits behind an optional `+`, no more than
/// a `usize` holds.
pub open spec fn parsed_size(s: Seq<char>) -> Option<usize> {
    if is_numeral(unsigned_part(s)) && digits_value(unsigned_part(s)) <= usize::MAX {
        Some(digits_value(unsigned_part(s)) as usize)
    } else {
        None
    }
}

/// A longer row of digits stands for a number that is no smaller.
proof fn lemma_digits_value_grows(s: Seq<char>, n: int)
    requires
        0 <= n <= s.len(),
        forall|i: int| 0 <= i < s.len() ==> is_digit(#[trigger] s[i]),
    ensures
        digits_value(s.take(n)) <= digits_value(s),
    decreases s.len(),
{
    if n < s.len() {
        lemma_digits_value_grows(s.drop_last(), n);
        assert(s.drop_last().take(n) == s.take(n));
    } else {
        assert(s.take(n) == s);
    }
}

/// Reads a size from its numeral.
pub fn parse_size(s: &str) -> (r: Option<usize>)
    ensures
        r == parsed_size(s@),
{
    let chars: Vec<char> = chars_of(s);
    let from: usize = if chars.len() > 0 && chars[0] == '+' {
        1
    } else {
        0
    };
    let ghost digits = unsigned_part(s@);
    assert(digits == chars@.skip(from as int));
    if from == chars.len() {
        return None;
    }
    let mut value: usize = 0;
    let mut i: usize = from;
    while i < chars.len()
        invariant
            from <= i <= chars@.len(),
            digits == chars@.skip(from as int),
            digits == unsigned_part(s@),
            forall|j: int| 0 <= j < i - from ==> is_digit(#[trigger] digits[j]),
            value == digits_value(digits.take(i - from)),
        decreases chars@.len() - i,
    {
        let c: char = chars[i];
        assert(c == digits[i - from]);
        if !('0' <= c && c <= '9') {
            return None;
        }
        let d: usize = (c as u32 - 0x30) as usize;
        proof {
            assert(digits.take(i - from + 1).drop_last() == digits.take(i - from));
            if forall|j: int| 0 <= j < digits.len() ==> is_digit(#[trigger] digits[j]) {
                lemma_digits_value_grows(digits, i - from + 1);
            }
        }
        if value > (usize::MAX - d) / 10 {
            return None;
        }
        value = value * 10 + d;
        i += 1;
    }
    assert(digits.take(digits.len() as int) == digits);
    Some(value)
}

/// A decimal numeral is a row of digits that stands for its number.
pub proof fn lemma_decimal(n: nat)
    ensures
        is_numeral(decimal(n)),
        digits_value(decimal(n)) == n,
    decreases n,
{
    reveal_with_fuel(digits_value, 2);
    if n >= 10 {
        lemma_decimal(n / 10);
        assert(decimal(n).drop_last() == decimal(n / 10));
    } else {
        assert(decimal(n).drop_last() == Seq::<char>::empty());
    }
}

/// Different numbers have different numerals.
pub proof fn lemma_decimal_injective(a: nat, b: nat)
    requires
        decimal(a) == decimal(b),
    ensures
        a == b,
{
    lemma_decimal(a);
    lemma_decimal(b);
}

/// Reading a size back from its decimal numeral gives the size.
pub proof fn law_size_roundtrip(n: usize)
    ensures
        parsed_size(decimal(n as nat)) == Some(n),
{
    lemma_decimal(n as nat);
    assert(is_digit(decimal(n as nat)[0]));
    assert(unsigned_part(decimal(n as nat)) == decimal(n as nat));
}

/// The parts one after the other, with a separator between neighbours.
pub open spec fn joined(parts: Seq<Seq<char>>, separator: Seq<char>) -> Seq<char>
    decreases parts.len(),
{
    if parts.len() == 0 {
        Seq::empty()
    } else if parts.len() == 1 {
        parts[0]
    } else {
        joined(parts.drop_last(), separator) + separator + parts.last()
    }
}

/// The contents of a row of strings.
pub open spec fn texts(parts: Seq<String>) -> Seq<Seq<char>> {
    Seq::new(parts.len(), |i: int| parts[i]@)
}

/// Puts strings together, with a separator between neighbours.
pub fn join(parts: &Vec<String>, separator: &str) -> (r: String)
    ensures
        r@ == joined(texts(parts@), separator@),
{
    let mut out: String = String::new();
    let mut i: usize = 0;
    while i < parts.len()
        invariant
            i <= parts@.len(),
            out@ == joined(texts(parts@).take(i as int), separator@),
        decreases parts@.len() - i,
    {
        if i > 0 {
            out.append(separator);
        }
        out.append(parts[i].as_str());
        i += 1;
        proof {
            let now = texts(parts@).take(i as int);
            assert(now.drop_last() == texts(parts@).take(i - 1));
            if i == 1 {
                assert(out@ =~= now[0]);
            }
        }
    }
    assert(texts(parts@).take(i as int) == texts(parts@));
    out
}

/// Cuts a text to at most `n` bytes, with an ellipsis where something was cut off.
pub open spec fn truncated(s: Seq<char>, n: int) -> Seq<char> {
    if encode_utf8(s).len() <= n {
        s
    } else {
        decode_utf8(encode_utf8(s).take(n)).push('\u{2026}')
    }
}

/// Cuts a string to at most `n` bytes, with an ellipsis where something was cut off. The
/// cut has to fall between two characters.
pub fn truncate(s: &str, n: usize) -> (r: String)
    requires
        encode_utf8(s@).len() <= n || is_char_boundary(encode_utf8(s@), n as int),
    ensures
        r@ == truncated(s@, n as int),
{
    let bytes: &[u8] = s.as_bytes();
    if bytes.len() <= n {
        s.to_owned()
    } else {
        let (head, _tail): (&str, &str) = s.split_at(n);
        proof {
            encode_utf8_decode_utf8(head@);
            assert(encode_utf8(s@).subrange(0, n as int) == encode_utf8(s@).take(n as int));
        }
        let mut out: String = head.to_owned();
        push_char(&mut out, '\u{2026}');
        out
    }
}

/// The last place up to `n` bytes into a text where it can be cut between two characters.
pub open spec fn cut_before(bytes: Seq<u8>, n: int) -> int
    decreases n,
{
    if n <= 0 || is_char_boundary(bytes, n) {
        n
    } else {
        cut_before(bytes, n - 1)
    }
}

/// The start of a text: at most `n` bytes of it, with an ellipsis where something was cut
/// off.
pub open spec fn previewed(s: Seq<char>, n: int) -> Seq<char> {
    if encode_utf8(s).len() <= n {
        s
    } else {
        truncated(s, cut_before(encode_utf8(s), n))
    }
}

/// The start of a string, for a log line: at most `n` bytes of it, with an ellipsis where
/// something was cut off. No character is cut in two.
pub fn preview(s: &str, n: usize) -> (r: String)
    ensures
        r@ == (if encode_utf8(s@).len() <= n {
            s@
        } else {
            truncated(s@, cut_before(encode_utf8(s@), n as int))
        }),
        r@ == previewed(s@, n as int),
{
    if s.as_bytes().len() <= n {
        return s.to_owned();
    }
    let ghost bytes = encode_utf8(s@);
    let mut cut: usize = n;
    while cut > 0 && !s.is_char_boundary(cut)
        invariant
            cut <= n < bytes.len(),
            bytes == encode_utf8(s@),
            cut_before(bytes, n as int) == cut_before(bytes, cut as int),
        decreases cut,
    {
        cut -= 1;
    }
    proof {
        encode_utf8_valid_utf8(s@);
        is_char_boundary_start_end_of_seq(bytes);
    }
    truncate(s, cut)
}

/// A text without its trailing slashes.
pub open spec fn without_trailing_slashes(s: Seq<char>) -> Seq<char>
    decreases s.len(),
{
    if s.len() > 0 && s.last() == '/' {
        without_trailing_slashes(s.drop_last())
    } else {
        s
    }
}

/// What follows the last slash of a text: all of it where there is none.
pub open spec fn after_last_slash(s: Seq<char>) -> Seq<char>
    decreases s.len(),
{
    if s.len() > 0 && s.last() != '/' {
        after_last_slash(s.drop_last()).push(s.last())
    } else {
        Seq::empty()
    }
}

/// The last segment of a URI that is not empty, or the whole URI where it has none.
pub open spec fn basename(uri: Seq<char>) -> Seq<char> {
    let body = without_trailing_slashes(uri);
    if body.len() == 0 {
        uri
    } else {
        after_last_slash(body)
    }
}

/// The last segment of a URI that is not empty, or the whole URI where it has none.
pub fn uri_basename(uri: &str) -> (r: String)
    ensures
        r@ == basename(uri@),
{
    let chars: Vec<char> = chars_of(uri);
    let mut to: usize = chars.len();
    assert(chars@.take(to as int) == uri@);
    while to > 0 && chars[to - 1] == '/'
        invariant
            to <= chars@.len(),
            without_trailing_slashes(uri@) == without_trailing_slashes(chars@.take(to as int)),
        decreases to,
    {
        assert(chars@.take(to as int).drop_last() == chars@.take(to - 1));
        to -= 1;
    }
    if to == 0 {
        return uri.to_owned();
    }
    let ghost body = chars@.take(to as int);
    let mut from: usize = to;
    while from > 0 && chars[from - 1] != '/'
        invariant
            from <= to <= chars@.len(),
            body == chars@.take(to as int),
            after_last_slash(body) == after_last_slash(chars@.take(from as int))
                + chars@.subrange(from as int, to as int),
        decreases from,
    {
        proof {
            let head = chars@.take(from as int);
            assert(head.drop_last() == chars@.take(from - 1));
            assert(chars@.subrange(from - 1, to as int) == seq![chars@[from - 1]]
                + chars@.subrange(from as int, to as int));
            assert(after_last_slash(body) =~= after_last_slash(chars@.take(from - 1))
                + chars@.subrange(from - 1, to as int));
        }
        from -= 1;
    }
    assert(after_last_slash(body) =~= chars@.subrange(from as int, to as int));
    string_of(&chars, from, to)
}

/// Adding slashes to a URI that has a segment does not change its base name.
pub proof fn law_basename_ignores_trailing_slash(uri: Seq<char>)
    requires
        exists|i: int| 0 <= i < uri.len() && uri[i] != '/',
    ensures
        basename(uri.push('/')) == basename(uri),
{
    assert(uri.push('/').drop_last() == uri);
    lemma_without_trailing_slashes_keeps(uri);
}

/// Taking off trailing slashes leaves something of a text that is not all slashes.
proof fn lemma_without_trailing_slashes_keeps(s: Seq<char>)
    requires
        exists|i: int| 0 <= i < s.len() && s[i] != '/',
    ensures
        without_trailing_slashes(s).len() > 0,
    decreases s.len(),
{
    if s.last() == '/' {
        let i = choose|i: int| 0 <= i < s.len() && s[i] != '/';
        assert(s.drop_last()[i] != '/');
        lemma_without_trailing_slashes_keeps(s.drop_last());
    }
}

/// Trimming takes white space off both ends and nothing else: what is left is a stretch of
/// the text that begins and ends with something else, and all around it is white space.
pub proof fn law_trimming_takes_off_white_space(s: Seq<char>) -> (ends: (int, int))
    ensures
        0 <= ends.0 <= ends.1 <= s.len(),
        trimmed(s) == s.subrange(ends.0, ends.1),
        forall|k: int| 0 <= k < ends.0 ==> is_space(#[trigger] s[k]),
        forall|k: int| ends.1 <= k < s.len() ==> is_space(#[trigger] s[k]),
        ends.0 < ends.1 ==> !is_space(s[ends.0]) && !is_space(s[ends.1 - 1]),
{
    let i = lemma_trimmed_start(s);
    let t = s.skip(i);
    let j = lemma_trimmed_end(t);
    assert(t.take(j) =~= s.subrange(i, i + j));
    assert forall|k: int| i + j <= k < s.len() implies is_space(#[trigger] s[k]) by {
        assert(is_space(t[k - i]));
    }
    if j > 0 {
        assert(t[0] == s[i]);
        assert(t[j - 1] == s[i + j - 1]);
    }
    (i, i + j)
}

/// Where a text begins without its leading white space.
proof fn lemma_trimmed_start(s: Seq<char>) -> (i: int)
    ensures
        0 <= i <= s.len(),
        trimmed_start(s) == s.skip(i),
        forall|k: int| 0 <= k < i ==> is_space(#[trigger] s[k]),
        i < s.len() ==> !is_space(s[i]),
    decreases s.len(),
{
    if s.len() > 0 && is_space(s[0]) {
        let rest = s.skip(1);
        let i = lemma_trimmed_start(rest);
        assert(rest.skip(i) =~= s.skip(i + 1));
        assert forall|k: int| 0 <= k < i + 1 implies is_space(#[trigger] s[k]) by {
            if k > 0 {
                assert(is_space(rest[k - 1]));
            }
        }
        i + 1
    } else {
        assert(s.skip(0) =~= s);
        0
    }
}

/// Where a text ends without its trailing white space.
proof fn lemma_trimmed_end(s: Seq<char>) -> (j: int)
    ensures
        0 <= j <= s.len(),
        trimmed_end(s) == s.take(j),
        forall|k: int| j <= k < s.len() ==> is_space(#[trigger] s[k]),
        j > 0 ==> !is_space(s[j - 1]),
    decreases s.len(),
{
    if s.len() > 0 && is_space(s.last()) {
        let rest = s.drop_last();
        let j = lemma_trimmed_end(rest);
        assert(rest.take(j) =~= s.take(j));
        assert forall|k: int| j <= k < s.len() implies is_space(#[trigger] s[k]) by {
            if k < s.len() - 1 {
                assert(is_space(rest[k]));
            }
        }
        j
    } else {
        assert(s.take(s.len() as int) =~= s);
        s.len() as int
    }
}

/// A decimal numeral ends in the last digit of its number, behind the numeral of the rest.
pub proof fn law_numerals_are_decimal(n: nat)
    ensures
        decimal(n).len() > 0,
        decimal(n).last() as int == 0x30 + n % 10,
        n < 10 ==> decimal(n).len() == 1,
        n >= 10 ==> decimal(n).drop_last() == decimal(n / 10),
{
    if n >= 10 {
        assert(decimal(n).drop_last() =~= decimal(n / 10));
    }
}

/// A size is read digit by digit: a digit behind a numeral makes ten times the number and
/// the digit, as long as a size can hold it.
pub proof fn law_sizes_are_read_digit_by_digit(s: Seq<char>, c: char)
    requires
        '0' <= c <= '9',
        forall|i: int| 0 <= i < s.len() ==> '0' <= #[trigger] s[i] <= '9',
    ensures
        parsed_size(seq![c]) == Some((c as int - 0x30) as usize),
        parsed_size(s) matches Some(n) ==> {
            &&& n * 10 + (c as int - 0x30) <= usize::MAX ==> parsed_size(s.push(c)) == Some(
                (n * 10 + (c as int - 0x30)) as usize,
            )
            &&& n * 10 + (c as int - 0x30) > usize::MAX ==> parsed_size(s.push(c)) is None
        },
        s.len() > 0 && parsed_size(s) is None ==> parsed_size(s.push(c)) is None,
        s.len() > 0 ==> parsed_size(seq!['+'] + s) == parsed_size(s),
{
    reveal_with_fuel(digits_value, 2);
    let t = s.push(c);
    assert(seq![c].drop_last() =~= Seq::<char>::empty());
    assert(is_numeral(seq![c])) by {
        assert(is_digit(seq![c][0]));
    }
    assert(t.drop_last() =~= s);
    assert(digits_value(t) == digits_value(s) * 10 + (c as int - 0x30));
    assert forall|i: int| 0 <= i < t.len() implies is_digit(#[trigger] t[i]) by {
        if i < s.len() {
            assert('0' <= s[i] <= '9');
        }
    }
    if s.len() > 0 {
        assert('0' <= s[0] <= '9');
        assert(t[0] == s[0]);
        assert forall|i: int| 0 <= i < s.len() implies is_digit(#[trigger] s[i]) by {}
        assert((seq!['+'] + s).skip(1) =~= s);
        assert(unsigned_part(seq!['+'] + s) == s);
    }
}

/// Only digits are a size, behind one `+` at most.
pub proof fn law_only_digits_are_sizes(s: Seq<char>, i: int)
    ensures
        parsed_size(Seq::empty()) is None,
        parsed_size(seq!['+']) is None,
        parsed_size(s) is Some && 0 <= i < s.len() ==> '0' <= s[i] <= '9' || (i == 0 && s[0]
            == '+'),
{
    assert(seq!['+'].skip(1).len() == 0);
    if parsed_size(s) is Some && 0 <= i < s.len() {
        let d = unsigned_part(s);
        if s[0] == '+' {
            if i > 0 {
                assert(is_digit(d[i - 1]));
                assert(d[i - 1] == s[i]);
            }
        } else {
            assert(is_digit(d[i]));
        }
    }
}

/// Joining puts the separator between neighbours and nowhere else.
pub proof fn law_joining_puts_the_separator_between(
    parts: Seq<Seq<char>>,
    part: Seq<char>,
    separator: Seq<char>,
)
    ensures
        joined(Seq::empty(), separator) == Seq::<char>::empty(),
        joined(seq![part], separator) == part,
        parts.len() > 0 ==> joined(parts.push(part), separator) == joined(parts, separator)
            + separator + part,
{
    assert(parts.push(part).drop_last() =~= parts);
}

/// A row of strings is each of them in its place.
pub proof fn law_texts_are_the_strings(parts: Seq<String>, i: int)
    requires
        0 <= i < parts.len(),
    ensures
        texts(parts).len() == parts.len(),
        texts(parts)[i] == parts[i]@,
{
}

/// A text that is short enough is left as it is; of a longer one the first `n` bytes are
/// left, with an ellipsis behind them.
pub proof fn law_truncating_keeps_the_beginning(s: Seq<char>, n: int)
    ensures
        encode_utf8(s).len() <= n ==> truncated(s, n) == s,
        0 <= n < encode_utf8(s).len() && is_char_boundary(encode_utf8(s), n) ==> {
            let kept = truncated(s, n).drop_last();
            &&& truncated(s, n).last() == '\u{2026}'
            &&& kept.is_prefix_of(s)
            &&& encode_utf8(kept) == encode_utf8(s).take(n)
        },
{
    let bytes = encode_utf8(s);
    if 0 <= n < bytes.len() && is_char_boundary(bytes, n) {
        encode_utf8_valid_utf8(s);
        encode_utf8_decode_utf8(s);
        valid_utf8_split(bytes, n);
        decode_utf8_split(bytes, n);
        assert(bytes.subrange(0, n) =~= bytes.take(n));
        let kept = decode_utf8(bytes.take(n));
        decode_utf8_encode_utf8(bytes.take(n));
        assert(truncated(s, n).drop_last() =~= kept);
        assert(s.subrange(0, kept.len() as int) =~= kept);
    }
}

/// A text is cut at the last place up to `n` where no character is cut in two.
pub proof fn law_cuts_fall_between_characters(s: Seq<char>, n: int, m: int)
    requires
        0 <= n,
    ensures
        ({
            let cut = cut_before(encode_utf8(s), n);
            &&& 0 <= cut <= n
            &&& is_char_boundary(encode_utf8(s), cut)
            &&& cut < m <= n ==> !is_char_boundary(encode_utf8(s), m)
        }),
    decreases n,
{
    encode_utf8_valid_utf8(s);
    is_char_boundary_start_end_of_seq(encode_utf8(s));
    if n > 0 && !is_char_boundary(encode_utf8(s), n) {
        law_cuts_fall_between_characters(s, n - 1, m);
    }
}

/// The base name of a URI is what stands between the slashes at its end and the slash before
/// them; a URI of slashes alone is its own.
pub proof fn law_basename_is_the_last_segment(uri: Seq<char>) -> (ends: (int, int))
    ensures
        (exists|i: int| 0 <= i < uri.len() && uri[i] != '/') ==> {
            &&& 0 <= ends.0 < ends.1 <= uri.len()
            &&& basename(uri) == uri.subrange(ends.0, ends.1)
            &&& ends.0 == 0 || uri[ends.0 - 1] == '/'
            &&& forall|k: int| ends.0 <= k < ends.1 ==> #[trigger] uri[k] != '/'
            &&& forall|k: int| ends.1 <= k < uri.len() ==> #[trigger] uri[k] == '/'
        },
        (forall|i: int| 0 <= i < uri.len() ==> #[trigger] uri[i] == '/') ==> basename(uri) == uri,
{
    let to = lemma_slashes(uri);
    let body = uri.take(to);
    let from = lemma_segment(body);
    if to > 0 {
        assert(uri[to - 1] != '/');
        assert(body.last() == uri[to - 1]);
        assert(body.skip(from) =~= uri.subrange(from, to));
        assert forall|k: int| from <= k < to implies #[trigger] uri[k] != '/' by {
            assert(body[k] != '/');
        }
        if from > 0 {
            assert(body[from - 1] == '/');
        }
        if from == to {
            assert(body[from - 1] == '/');
        }
    }
    (from, to)
}

/// Where a text ends without its trailing slashes.
proof fn lemma_slashes(s: Seq<char>) -> (to: int)
    ensures
        0 <= to <= s.len(),
        without_trailing_slashes(s) == s.take(to),
        forall|k: int| to <= k < s.len() ==> #[trigger] s[k] == '/',
        to > 0 ==> s[to - 1] != '/',
    decreases s.len(),
{
    if s.len() > 0 && s.last() == '/' {
        let rest = s.drop_last();
        let to = lemma_slashes(rest);
        assert(rest.take(to) =~= s.take(to));
        assert forall|k: int| to <= k < s.len() implies #[trigger] s[k] == '/' by {
            if k < s.len() - 1 {
                assert(rest[k] == '/');
            }
        }
        to
    } else {
        assert(s.take(s.len() as int) =~= s);
        s.len() as int
    }
}

/// Where the last segment of a text begins.
proof fn lemma_segment(s: Seq<char>) -> (from: int)
    ensures
        0 <= from <= s.len(),
        after_last_slash(s) == s.skip(from),
        forall|k: int| from <= k < s.len() ==> #[trigger] s[k] != '/',
        from > 0 ==> s[from - 1] == '/',
    decreases s.len(),
{
    if s.len() > 0 && s.last() != '/' {
        let rest = s.drop_last();
        let from = lemma_segment(rest);
        assert(rest.skip(from).push(s.last()) =~= s.skip(from));
        assert forall|k: int| from <= k < s.len() implies #[trigger] s[k] != '/' by {
            if k < s.len() - 1 {
                assert(rest[k] != '/');
            }
        }
        if from > 0 {
            assert(rest[from - 1] == '/');
        }
        from
    } else {
        assert(s.skip(s.len() as int) =~= Seq::empty());
        s.len() as int
    }
}

/// The start of a text is the text where it is short enough, and else a beginning of it that
/// could not be longer, with an ellipsis behind it.
pub proof fn law_previews_are_beginnings(s: Seq<char>, n: int, m: int)
    requires
        0 <= n,
    ensures
        encode_utf8(s).len() <= n ==> previewed(s, n) == s,
        encode_utf8(s).len() > n ==> {
            let kept = previewed(s, n).drop_last();
            &&& previewed(s, n).last() == '\u{2026}'
            &&& kept.is_prefix_of(s)
            &&& encode_utf8(kept).len() <= n
            &&& encode_utf8(kept).len() < m <= n ==> !is_char_boundary(encode_utf8(s), m)
        },
{
    if encode_utf8(s).len() > n {
        law_cuts_fall_between_characters(s, n, m);
        law_truncating_keeps_the_beginning(s, cut_before(encode_utf8(s), n));
    }
}

} // verus!
