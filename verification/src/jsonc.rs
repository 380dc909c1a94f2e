//! JSON with comments: the dialect of `launch.json` and its like.

use crate::codec::{from_bytes, json_parse, line_feeds_mean_nothing, JsonError};
use crate::json::{Json, JsonTree};
use crate::text::{chars_of, is_space, is_whitespace, string_of};
use crate::tokens::{
    between_tokens, closes_next, ends_outside, is_bare, is_literal, is_separator,
    lemma_closes_next_line_feed, lemma_ends_outside_char, lemma_ends_outside_literal,
    lemma_literal_len, lemma_literal_rest, literal_len, literal_rest, opens,
};
use vstd::prelude::*;
use vstd::string::*;
use vstd::utf8::*;

verus! {

/// How many characters stand before the first line feed of a text: all of them where there
/// is none.
pub open spec fn line_rest(s: Seq<char>) -> int
    decreases s.len(),
{
    if s.len() == 0 || s[0] == '\n' {
        0
    } else {
        1 + line_rest(s.skip(1))
    }
}

/// How many characters the rest of a block comment takes, where `s` begins behind its
/// opening: up to the first `*/` and that too, or all of `s` where there is none.
pub open spec fn block_rest(s: Seq<char>) -> int
    decreases s.len(),
{
    if s.len() < 2 {
        s.len() as int
    } else if s[0] == '*' && s[1] == '/' {
        2
    } else {
        1 + block_rest(s.skip(1))
    }
}

/// A text without its comments. String literals stay as they are, and so does the line
/// feed that ends a line comment.
pub open spec fn without_comments(s: Seq<char>) -> Seq<char>
    decreases s.len(),
{
    proof {
        lemma_rests(s);
    }
    if s.len() == 0 {
        s
    } else if s[0] == '"' {
        let n = literal_len(s);
        s.take(n) + without_comments(s.skip(n))
    } else if opens(s, '/', '/') {
        without_comments(s.skip(2 + line_rest(s.skip(2))))
    } else if opens(s, '/', '*') {
        without_comments(s.skip(2 + block_rest(s.skip(2))))
    } else {
        seq![s[0]] + without_comments(s.skip(1))
    }
}

/// Tokens take no more characters than there are.
pub proof fn lemma_rests(s: Seq<char>)
    ensures
        forall|n: int|
            #![trigger s.skip(n)]
            0 <= n <= s.len() ==> 0 <= literal_rest(s.skip(n)) <= s.len() - n && 0 <= line_rest(
                s.skip(n),
            ) <= s.len() - n && 0 <= block_rest(s.skip(n)) <= s.len() - n,
{
    assert forall|n: int| #![trigger s.skip(n)] 0 <= n <= s.len() implies 0 <= literal_rest(
        s.skip(n),
    ) <= s.len() - n && 0 <= line_rest(s.skip(n)) <= s.len() - n && 0 <= block_rest(s.skip(n))
        <= s.len() - n by {
        lemma_rest(s.skip(n));
    }
}

/// A token takes no more characters than there are.
proof fn lemma_rest(s: Seq<char>)
    ensures
        0 <= literal_rest(s) <= s.len(),
        0 <= line_rest(s) <= s.len(),
        0 <= block_rest(s) <= s.len(),
    decreases s.len(),
{
    lemma_literal_rest(s);
    if s.len() > 0 {
        lemma_rest(s.skip(1));
    }
}

/// A text without the commas behind which, white space aside, a closing bracket stands.
/// String literals stay as they are.
pub open spec fn without_trailing_commas(s: Seq<char>) -> Seq<char>
    decreases s.len(),
{
    proof {
        lemma_rests(s);
    }
    if s.len() == 0 {
        s
    } else if s[0] == '"' {
        let n = literal_len(s);
        s.take(n) + without_trailing_commas(s.skip(n))
    } else if s[0] == ',' && closes_next(s.skip(1)) {
        without_trailing_commas(s.skip(1))
    } else {
        seq![s[0]] + without_trailing_commas(s.skip(1))
    }
}

/// The plain JSON that a text in JSON with comments stands for.
pub open spec fn plain_json(s: Seq<char>) -> Seq<char> {
    without_trailing_commas(without_comments(s))
}

/// Removes the comments from a text.
fn strip_comments(input: &Vec<char>) -> (r: Vec<char>)
    ensures
        r@ == without_comments(input@),
{
    let mut out: Vec<char> = Vec::new();
    let mut i: usize = 0;
    assert(input@.skip(0) == input@);
    while i < input.len()
        invariant
            i <= input@.len(),
            without_comments(input@) == out@ + without_comments(input@.skip(i as int)),
        decreases input@.len() - i,
    {
        let ghost rest = input@.skip(i as int);
        let ghost done = out@;
        let start: usize = i;
        proof {
            lemma_rests(rest);
        }
        let c: char = input[i];
        let next: char = if i + 1 < input.len() {
            input[i + 1]
        } else {
            ' '
        };
        if c == '"' {
            i = literal_end(input, i + 1);
            append_range(&mut out, input, start, i);
            proof {
                assert(rest.skip(1) == input@.skip(start + 1));
                assert(rest.take(i - start) =~= input@.subrange(start as int, i as int));
                assert(rest.skip(i - start) =~= input@.skip(i as int));
                assert(out@ + without_comments(input@.skip(i as int)) =~= done
                    + without_comments(rest));
            }
        } else if c == '/' && next == '/' {
            assert(rest.skip(2) == input@.skip(start + 2));
            i = line_end(input, i + 2);
            assert(rest.skip(i - start) =~= input@.skip(i as int));
        } else if c == '/' && next == '*' {
            assert(rest.skip(2) == input@.skip(start + 2));
            i = block_end(input, i + 2);
            assert(rest.skip(i - start) =~= input@.skip(i as int));
        } else {
            out.push(c);
            i += 1;
            proof {
                assert(rest.skip(1) == input@.skip(i as int));
                assert(out@ + without_comments(input@.skip(i as int)) =~= done
                    + without_comments(rest));
            }
        }
    }
    assert(out@ + without_comments(input@.skip(i as int)) =~= out@);
    out
}

/// Copies the characters from `from` up to `to` behind those that are there.
fn append_range(out: &mut Vec<char>, input: &Vec<char>, from: usize, to: usize)
    requires
        from <= to <= input@.len(),
    ensures
        final(out)@ == old(out)@ + input@.subrange(from as int, to as int),
{
    let mut k: usize = from;
    while k < to
        invariant
            from <= k <= to <= input@.len(),
            out@ == old(out)@ + input@.subrange(from as int, k as int),
        decreases to - k,
    {
        out.push(input[k]);
        k += 1;
        assert(input@.subrange(from as int, k as int) == input@.subrange(
            from as int,
            k - 1,
        ).push(input@[k - 1]));
    }
}

/// Where a string literal ends whose opening quote stands before `from`.
fn literal_end(input: &Vec<char>, from: usize) -> (r: usize)
    requires
        from <= input@.len(),
    ensures
        r == from + literal_rest(input@.skip(from as int)),
        from <= r <= input@.len(),
{
    let mut i: usize = from;
    let mut escape: bool = false;
    while i < input.len()
        invariant
            from <= i <= input@.len(),
            escape ==> from < i,
            from + literal_rest(input@.skip(from as int)) == (if escape && i < input@.len() {
                i + 1 + literal_rest(input@.skip(i + 1))
            } else {
                i + literal_rest(input@.skip(i as int))
            }),
        decreases input@.len() - i,
    {
        let c: char = input[i];
        proof {
            let rest = input@.skip(i as int);
            assert(rest.skip(1) == input@.skip(i + 1));
            if i + 1 < input@.len() {
                assert(rest.skip(2) == input@.skip(i + 2));
            }
        }
        i += 1;
        if escape {
            escape = false;
        } else if c == '\\' {
            escape = true;
        } else if c == '"' {
            return i;
        }
    }
    i
}

/// Where the line ends that `from` stands on.
fn line_end(input: &Vec<char>, from: usize) -> (r: usize)
    requires
        from <= input@.len(),
    ensures
        r == from + line_rest(input@.skip(from as int)),
        from <= r <= input@.len(),
{
    let mut i: usize = from;
    while i < input.len() && input[i] != '\n'
        invariant
            from <= i <= input@.len(),
            from + line_rest(input@.skip(from as int)) == i + line_rest(input@.skip(i as int)),
        decreases input@.len() - i,
    {
        assert(input@.skip(i as int).skip(1) == input@.skip(i + 1));
        i += 1;
    }
    i
}

/// Where a block comment ends whose opening stands before `from`.
fn block_end(input: &Vec<char>, from: usize) -> (r: usize)
    requires
        from <= input@.len(),
    ensures
        r == from + block_rest(input@.skip(from as int)),
        from <= r <= input@.len(),
{
    let mut i: usize = from;
    while input.len() - i > 1
        invariant
            from <= i <= input@.len(),
            from + block_rest(input@.skip(from as int)) == i + block_rest(input@.skip(i as int)),
        decreases input@.len() - i,
    {
        if input[i] == '*' && input[i + 1] == '/' {
            return i + 2;
        }
        assert(input@.skip(i as int).skip(1) == input@.skip(i + 1));
        i += 1;
    }
    input.len()
}

/// Removes the trailing commas from a text.
fn strip_trailing_commas(input: &Vec<char>) -> (r: Vec<char>)
    ensures
        r@ == without_trailing_commas(input@),
{
    let mut out: Vec<char> = Vec::new();
    let mut i: usize = 0;
    assert(input@.skip(0) == input@);
    while i < input.len()
        invariant
            i <= input@.len(),
            without_trailing_commas(input@) == out@ + without_trailing_commas(input@.skip(i as int)),
        decreases input@.len() - i,
    {
        let ghost rest = input@.skip(i as int);
        let ghost done = out@;
        let start: usize = i;
        proof {
            lemma_rests(rest);
        }
        let c: char = input[i];
        if c == '"' {
            i = literal_end(input, i + 1);
            append_range(&mut out, input, start, i);
            proof {
                assert(rest.skip(1) == input@.skip(start + 1));
                assert(rest.take(i - start) =~= input@.subrange(start as int, i as int));
                assert(rest.skip(i - start) =~= input@.skip(i as int));
                assert(out@ + without_trailing_commas(input@.skip(i as int)) =~= done
                    + without_trailing_commas(rest));
            }
        } else {
            i += 1;
            assert(rest.skip(1) == input@.skip(i as int));
            if !(c == ',' && closes_from(input, i)) {
                out.push(c);
                assert(out@ + without_trailing_commas(input@.skip(i as int)) =~= done
                    + without_trailing_commas(rest));
            }
        }
    }
    assert(out@ + without_trailing_commas(input@.skip(i as int)) =~= out@);
    out
}

/// Whether the first character from `from` on that is not white space closes an object or
/// an array.
fn closes_from(input: &Vec<char>, from: usize) -> (r: bool)
    requires
        from <= input@.len(),
    ensures
        r == closes_next(input@.skip(from as int)),
{
    let mut i: usize = from;
    while i < input.len() && is_whitespace(input[i])
        invariant
            from <= i <= input@.len(),
            closes_next(input@.skip(from as int)) == closes_next(input@.skip(i as int)),
        decreases input@.len() - i,
    {
        assert(input@.skip(i as int).skip(1) == input@.skip(i + 1));
        i += 1;
    }
    i < input.len() && (input[i] == '}' || input[i] == ']')
}

/// The plain JSON that a text in JSON with comments stands for.
pub fn to_plain_json(input: &str) -> (r: String)
    ensures
        r@ == plain_json(input@),
{
    let chars: Vec<char> = chars_of(input);
    let bare: Vec<char> = strip_comments(&chars);
    let plain: Vec<char> = strip_trailing_commas(&bare);
    assert(plain@.subrange(0, plain@.len() as int) == plain@);
    string_of(&plain, 0, plain.len())
}

/// The value that a text in JSON with comments stands for.
pub open spec fn jsonc_tree(s: Seq<char>) -> Option<JsonTree> {
    json_parse(encode_utf8(plain_json(s)))
}

/// Whether a block comment is closed whose opening stands before `s`.
pub open spec fn block_closed(s: Seq<char>) -> bool
    decreases s.len(),
{
    if s.len() < 2 {
        false
    } else if s[0] == '*' && s[1] == '/' {
        true
    } else {
        block_closed(s.skip(1))
    }
}

/// Whether a text ends outside literals and comments, and with no slash that what follows
/// could make a comment of.
pub open spec fn settled(s: Seq<char>) -> bool
    decreases s.len(),
{
    proof {
        lemma_rests(s);
    }
    if s.len() == 0 {
        true
    } else if s[0] == '"' {
        is_literal(s.take(literal_len(s))) && settled(s.skip(literal_len(s)))
    } else if opens(s, '/', '/') {
        let n = 2 + line_rest(s.skip(2));
        n < s.len() && settled(s.skip(n))
    } else if opens(s, '/', '*') {
        block_closed(s.skip(2)) && settled(s.skip(2 + block_rest(s.skip(2))))
    } else {
        !(s[0] == '/' && s.len() == 1) && settled(s.skip(1))
    }
}

/// Whether `a + b` is cut between two tokens of what is left without the comments.
pub open spec fn falls_between(a: Seq<char>, b: Seq<char>) -> bool {
    settled(a) && between_tokens(without_comments(a), without_comments(b))
}

/// A block comment.
pub open spec fn block_comment(c: Seq<char>) -> Seq<char> {
    seq!['/', '*'] + c + seq!['*', '/']
}

/// A line comment, without the line feed that ends it.
pub open spec fn line_comment(l: Seq<char>) -> Seq<char> {
    seq!['/', '/'] + l
}

/// Whether a text closes no block comment that was opened before it.
pub open spec fn closes_no_block(c: Seq<char>) -> bool {
    forall|i: int| 0 <= i < c.len() - 1 ==> !(#[trigger] c[i] == '*' && c[i + 1] == '/')
}

/// Whether a line comment that is put between two tokens of a text leaves it one that reads
/// as `t`.
pub open spec fn line_comments_mean_nothing(s: Seq<char>, t: JsonTree) -> bool {
    forall|a: Seq<char>, l: Seq<char>, b: Seq<char>|
        a + b == s && falls_between(a, b) && !l.contains('\n') ==> #[trigger] jsonc_tree(
            a + line_comment(l) + (seq!['\n'] + b),
        ) == Some(t)
}

/// Reads a value from JSON with comments: `//` and `/* */` comments count for nothing, and
/// neither does a comma before a closing bracket. A text that is JSON as it stands is read
/// as that JSON, and line comments between its tokens change nothing.
pub fn parse_jsonc(input: &str) -> (r: Result<Json, JsonError>)
    ensures
        match r {
            Ok(j) => jsonc_tree(input@) == Some(j@),
            Err(_) => jsonc_tree(input@) is None,
        },
        match json_parse(encode_utf8(input@)) {
            Some(t) => r matches Ok(j) && j@ == t,
            None => true,
        },
        r matches Ok(j) ==> line_comments_mean_nothing(input@, j@),
{
    proof {
        encode_utf8_decode_utf8(input@);
        encode_utf8_decode_utf8(plain_json(input@));
    }
    if let Ok(j) = from_bytes(input.as_bytes()) {
        proof {
            law_bare_text_is_unchanged(input@);
            lemma_line_comments_mean_nothing(input@, j@);
        }
        return Ok(j);
    }
    let plain: String = to_plain_json(input);
    match from_bytes(plain.as_str().as_bytes()) {
        Ok(j) => {
            proof {
                lemma_line_comments_mean_nothing(input@, j@);
            }
            Ok(j)
        },
        Err(e) => Err(e),
    }
}

/// Text that, its string literals aside, has neither comment openings nor commas before
/// closing brackets is read as the JSON that it is. Every JSON text is such a text.
pub proof fn law_bare_text_is_unchanged(s: Seq<char>)
    requires
        is_bare(s),
    ensures
        plain_json(s) == s,
        jsonc_tree(s) == json_parse(encode_utf8(s)),
{
    lemma_bare_text(s);
}

/// Bare text has no comments and no commas to take out.
proof fn lemma_bare_text(s: Seq<char>)
    requires
        is_bare(s),
    ensures
        without_comments(s) == s,
        without_trailing_commas(s) == s,
    decreases s.len(),
{
    if s.len() > 0 {
        lemma_rests(s);
        let n = if s[0] == '"' {
            literal_len(s)
        } else {
            1
        };
        lemma_bare_text(s.skip(n));
        assert(s.take(n) + s.skip(n) =~= s);
        assert(s.take(1) =~= seq![s[0]]);
    }
}

/// A string literal is kept as it stands, whatever it looks like inside.
pub proof fn law_literals_are_kept(literal: Seq<char>, rest: Seq<char>)
    requires
        is_literal(literal),
    ensures
        without_comments(literal + rest) == literal + without_comments(rest),
        without_trailing_commas(literal + rest) == literal + without_trailing_commas(rest),
        plain_json(literal + rest) == literal + plain_json(rest),
{
    lemma_literal_len(literal, rest);
    lemma_literal_len(literal, without_comments(rest));
}

/// Text behind which nothing is open keeps what it is without its comments, whatever
/// follows.
proof fn lemma_settled(a: Seq<char>, t: Seq<char>)
    requires
        settled(a),
    ensures
        without_comments(a + t) == without_comments(a) + without_comments(t),
        ends_outside(without_comments(a)),
    decreases a.len(),
{
    lemma_rests(a);
    if a.len() == 0 {
        assert(a + t =~= t);
        assert(without_comments(a) + without_comments(t) =~= without_comments(t));
    } else if a[0] == '"' {
        let n = literal_len(a);
        let literal = a.take(n);
        let rest = a.skip(n);
        lemma_settled(rest, t);
        assert(a + t =~= literal + (rest + t));
        lemma_literal_len(literal, rest + t);
        assert(without_comments(a + t) =~= without_comments(a) + without_comments(t));
        lemma_ends_outside_literal(literal, without_comments(rest));
    } else if opens(a, '/', '/') {
        let u = a.skip(2);
        let n = 2 + line_rest(u);
        lemma_line_rest(u, t);
        assert((a + t).skip(2) =~= u + t);
        assert((a + t).skip(n) =~= a.skip(n) + t);
        lemma_settled(a.skip(n), t);
    } else if opens(a, '/', '*') {
        let u = a.skip(2);
        let n = 2 + block_rest(u);
        lemma_block_rest(u, t);
        assert((a + t).skip(2) =~= u + t);
        assert((a + t).skip(n) =~= a.skip(n) + t);
        lemma_settled(a.skip(n), t);
    } else {
        assert((a + t).skip(1) =~= a.skip(1) + t);
        lemma_settled(a.skip(1), t);
        assert(!opens(a + t, '/', '/') && !opens(a + t, '/', '*'));
        assert(without_comments(a + t) =~= without_comments(a) + without_comments(t));
        lemma_ends_outside_char(a[0], without_comments(a.skip(1)));
    }
}

/// A line ends at its first line feed, whatever follows.
proof fn lemma_line_rest(u: Seq<char>, t: Seq<char>)
    requires
        line_rest(u) < u.len(),
    ensures
        line_rest(u + t) == line_rest(u),
    decreases u.len(),
{
    if u[0] != '\n' {
        lemma_line_rest(u.skip(1), t);
        assert((u + t).skip(1) =~= u.skip(1) + t);
    }
}

/// A block comment ends behind the first `*/`, whatever follows.
proof fn lemma_block_rest(u: Seq<char>, t: Seq<char>)
    requires
        block_closed(u),
    ensures
        block_rest(u + t) == block_rest(u),
    decreases u.len(),
{
    if !(u[0] == '*' && u[1] == '/') {
        lemma_block_rest(u.skip(1), t);
        assert((u + t).skip(1) =~= u.skip(1) + t);
    }
}

/// A block comment that closes no earlier is closed by its `*/`.
proof fn lemma_block_comment(c: Seq<char>)
    requires
        closes_no_block(c),
    ensures
        block_closed(c + seq!['*', '/']),
        block_rest(c + seq!['*', '/']) == c.len() + 2,
    decreases c.len(),
{
    let s = c + seq!['*', '/'];
    if c.len() > 0 {
        let tail = c.skip(1);
        assert forall|i: int| 0 <= i < tail.len() - 1 implies !(#[trigger] tail[i] == '*' && tail[i
            + 1] == '/') by {
            assert(!(c[i + 1] == '*' && c[i + 2] == '/'));
        }
        lemma_block_comment(tail);
        assert(s.skip(1) =~= tail + seq!['*', '/']);
        assert(s[0] == c[0]);
    }
}

/// A line comment takes all of a text without line feeds.
proof fn lemma_line_comment(l: Seq<char>, t: Seq<char>)
    requires
        !l.contains('\n'),
        t.len() == 0 || t[0] == '\n',
    ensures
        line_rest(l + t) == l.len(),
    decreases l.len(),
{
    if l.len() > 0 {
        assert(l[0] != '\n') by {
            assert(l.contains(l[0]));
        }
        assert forall|i: int| 0 <= i < l.skip(1).len() implies l.skip(1)[i] != '\n' by {
            assert(l.contains(l[i + 1]));
        }
        lemma_line_comment(l.skip(1), t);
        assert((l + t).skip(1) =~= l.skip(1) + t);
    } else {
        assert(l + t =~= t);
    }
}

/// A block comment put behind text in which nothing is open changes nothing.
pub proof fn law_block_comments_go(a: Seq<char>, c: Seq<char>, b: Seq<char>)
    requires
        settled(a),
        closes_no_block(c),
    ensures
        without_comments(a + block_comment(c) + b) == without_comments(a + b),
        jsonc_tree(a + block_comment(c) + b) == jsonc_tree(a + b),
{
    let t = block_comment(c) + b;
    let u = c + seq!['*', '/'];
    lemma_block_comment(c);
    lemma_block_rest(u, b);
    assert(t.skip(2) =~= u + b);
    assert(t.skip(2 + u.len() as int) =~= b);
    assert(without_comments(t) == without_comments(b));
    lemma_settled(a, t);
    lemma_settled(a, b);
    assert(a + block_comment(c) + b =~= a + t);
}

/// Of a line comment put behind text in which nothing is open only its line feed is left,
/// and nothing where the text ends with it.
pub proof fn law_line_comments_go(a: Seq<char>, l: Seq<char>, b: Seq<char>)
    requires
        settled(a),
        !l.contains('\n'),
    ensures
        without_comments(a + line_comment(l) + (seq!['\n'] + b)) == without_comments(
            a + (seq!['\n'] + b),
        ),
        jsonc_tree(a + line_comment(l) + (seq!['\n'] + b)) == jsonc_tree(a + (seq!['\n'] + b)),
        without_comments(a + line_comment(l)) == without_comments(a),
        jsonc_tree(a + line_comment(l)) == jsonc_tree(a),
{
    let tail = seq!['\n'] + b;
    let t = line_comment(l) + tail;
    lemma_line_comment(l, tail);
    assert(t.skip(2) =~= l + tail);
    assert(t.skip(2 + l.len() as int) =~= tail);
    assert(without_comments(t) == without_comments(tail));
    lemma_settled(a, t);
    lemma_settled(a, tail);
    assert(a + line_comment(l) + tail =~= a + t);

    let last = line_comment(l);
    let nothing = Seq::<char>::empty();
    lemma_line_comment(l, nothing);
    assert(last.skip(2) =~= l + nothing);
    assert(last.skip(2 + l.len() as int) =~= nothing);
    assert(without_comments(last) == without_comments(nothing));
    lemma_settled(a, last);
    assert(without_comments(a) + without_comments(nothing) =~= without_comments(a));
}

/// A text without its trailing commas, where `y` follows it.
spec fn commas_cut(x: Seq<char>, y: Seq<char>) -> Seq<char>
    decreases x.len(),
{
    proof {
        lemma_rests(x);
    }
    if x.len() == 0 {
        x
    } else if x[0] == '"' {
        let n = literal_len(x);
        x.take(n) + commas_cut(x.skip(n), y)
    } else if x[0] == ',' && closes_next(x.skip(1) + y) {
        commas_cut(x.skip(1), y)
    } else {
        seq![x[0]] + commas_cut(x.skip(1), y)
    }
}

/// Taking out trailing commas goes part by part.
proof fn lemma_commas_cut(x: Seq<char>, y: Seq<char>)
    requires
        ends_outside(x),
    ensures
        without_trailing_commas(x + y) == commas_cut(x, y) + without_trailing_commas(y),
        ends_outside(commas_cut(x, y)),
    decreases x.len(),
{
    lemma_rests(x);
    if x.len() == 0 {
        assert(x + y =~= y);
        assert(commas_cut(x, y) + without_trailing_commas(y) =~= without_trailing_commas(y));
    } else if x[0] == '"' {
        let n = literal_len(x);
        let literal = x.take(n);
        let rest = x.skip(n);
        lemma_commas_cut(rest, y);
        assert(x + y =~= literal + (rest + y));
        lemma_literal_len(literal, rest + y);
        assert(without_trailing_commas(x + y) =~= commas_cut(x, y) + without_trailing_commas(y));
        lemma_ends_outside_literal(literal, commas_cut(rest, y));
    } else {
        assert((x + y).skip(1) =~= x.skip(1) + y);
        lemma_commas_cut(x.skip(1), y);
        assert(without_trailing_commas(x + y) =~= commas_cut(x, y) + without_trailing_commas(y));
        lemma_ends_outside_char(x[0], commas_cut(x.skip(1), y));
    }
}

/// Text keeps its last character, unless that is a trailing comma.
proof fn lemma_commas_cut_last(x: Seq<char>, y: Seq<char>)
    requires
        ends_outside(x),
        x.len() > 0,
        !(x.last() == ',' && closes_next(y)),
    ensures
        commas_cut(x, y).len() > 0,
        commas_cut(x, y).last() == x.last(),
    decreases x.len(),
{
    lemma_rests(x);
    let n = if x[0] == '"' {
        literal_len(x)
    } else {
        1
    };
    let rest = x.skip(n);
    if rest.len() > 0 {
        lemma_commas_cut_last(rest, y);
    } else {
        assert(x.skip(1) + y =~= y || x[0] == '"');
        assert(commas_cut(rest, y) =~= Seq::empty());
        assert(commas_cut(x, y) =~= x);
    }
}

/// A line feed that follows does not change which commas are trailing.
proof fn lemma_commas_cut_line_feed(x: Seq<char>, y: Seq<char>)
    ensures
        commas_cut(x, seq!['\n'] + y) == commas_cut(x, y),
    decreases x.len(),
{
    lemma_rests(x);
    if x.len() == 0 {
    } else if x[0] == '"' {
        lemma_commas_cut_line_feed(x.skip(literal_len(x)), y);
    } else {
        lemma_commas_cut_line_feed(x.skip(1), y);
        lemma_closes_next_line_feed(x.skip(1), y);
    }
}

/// A text that begins with a separator still does so without its trailing commas.
proof fn lemma_separator_first(y: Seq<char>)
    requires
        y.len() > 0,
        is_separator(y[0]),
    ensures
        without_trailing_commas(y).len() > 0,
        is_separator(without_trailing_commas(y)[0]),
{
    lemma_rests(y);
    if y[0] == ',' && closes_next(y.skip(1)) {
        let t = y.skip(1);
        assert(is_separator(t[0]) && t[0] != ',' && t[0] != '"');
        assert(without_trailing_commas(t) == seq![t[0]] + without_trailing_commas(t.skip(1)));
    }
}

/// A line feed between two tokens stays between two tokens of the plain JSON.
proof fn lemma_line_feed_between(a: Seq<char>, b: Seq<char>) -> (parts: (Seq<char>, Seq<char>))
    requires
        falls_between(a, b),
    ensures
        plain_json(a + b) == parts.0 + parts.1,
        plain_json(a + (seq!['\n'] + b)) == parts.0 + (seq!['\n'] + parts.1),
        between_tokens(parts.0, parts.1),
{
    let x = without_comments(a);
    let y = without_comments(b);
    let p = commas_cut(x, y);
    let q = without_trailing_commas(y);
    lemma_settled(a, b);
    lemma_settled(a, seq!['\n'] + b);
    assert((seq!['\n'] + b).skip(1) =~= b);
    assert(without_comments(seq!['\n'] + b) == seq!['\n'] + y);
    lemma_commas_cut(x, y);
    lemma_commas_cut(x, seq!['\n'] + y);
    lemma_commas_cut_line_feed(x, y);
    assert((seq!['\n'] + y).skip(1) =~= y);
    assert(without_trailing_commas(seq!['\n'] + y) == seq!['\n'] + q);
    if x.len() > 0 && y.len() > 0 {
        if is_separator(y[0]) {
            lemma_separator_first(y);
        } else if x.last() == ',' && closes_next(y) {
            assert(is_separator(y[0]));
        } else {
            lemma_commas_cut_last(x, y);
        }
    }
    (p, q)
}

/// What holds of line feeds between the tokens of the plain JSON holds of line comments
/// between the tokens of the text.
proof fn lemma_line_comments_mean_nothing(s: Seq<char>, t: JsonTree)
    requires
        line_feeds_mean_nothing(plain_json(s), t),
    ensures
        line_comments_mean_nothing(s, t),
{
    assert forall|a: Seq<char>, l: Seq<char>, b: Seq<char>|
        a + b == s && falls_between(a, b) && !l.contains('\n') implies #[trigger] jsonc_tree(
        a + line_comment(l) + (seq!['\n'] + b),
    ) == Some(t) by {
        law_line_comments_go(a, l, b);
        let (p, q) = lemma_line_feed_between(a, b);
        assert(json_parse(encode_utf8(p + (seq!['\n'] + q))) == Some(t));
    }
}

/// Whether, white space aside, a text ends in a comma.
pub open spec fn dangles(x: Seq<char>) -> bool {
    exists|i: int| 0 <= i < x.len() && #[trigger] x[i] == ',' && ends_in_space(x, i + 1)
}

/// Whether all characters of a text from `from` on are white space.
pub open spec fn ends_in_space(x: Seq<char>, from: int) -> bool {
    forall|j: int| from <= j < x.len() ==> is_space(#[trigger] x[j])
}

/// A comma goes where only white space stands between it and a closing bracket, wherever
/// that is in the text.
pub proof fn law_trailing_commas_go(
    a: Seq<char>,
    space: Seq<char>,
    bracket: char,
    b: Seq<char>,
)
    requires
        settled(a),
        !dangles(without_comments(a)),
        ends_in_space(space, 0),
        bracket == '}' || bracket == ']',
    ensures
        plain_json(a + (seq![','] + space + seq![bracket] + b)) == plain_json(
            a + (space + seq![bracket] + b),
        ),
        jsonc_tree(a + (seq![','] + space + seq![bracket] + b)) == jsonc_tree(
            a + (space + seq![bracket] + b),
        ),
{
    let x = without_comments(a);
    let y = without_comments(b);
    let short = space + seq![bracket];
    let long = seq![','] + short;
    assert forall|i: int| 0 <= i < short.len() implies short[i] != '"' && short[i] != '/' by {
        if i < space.len() {
            assert(is_space(space[i]));
        }
    }
    lemma_no_tokens(short, b);
    lemma_no_tokens(long, b);
    assert(seq![','] + space + seq![bracket] + b =~= long + b);
    lemma_settled(a, short + b);
    lemma_settled(a, long + b);
    lemma_commas_cut(x, short + y);
    lemma_commas_cut(x, long + y);
    lemma_commas_cut_same(x, long + y, short + y);
    lemma_closes(space, bracket, y);
    assert((long + y).skip(1) =~= short + y);
}

/// Text without quotes and slashes has no comments.
proof fn lemma_no_tokens(s: Seq<char>, b: Seq<char>)
    requires
        forall|i: int| 0 <= i < s.len() ==> #[trigger] s[i] != '"' && s[i] != '/',
    ensures
        without_comments(s + b) == s + without_comments(b),
    decreases s.len(),
{
    if s.len() > 0 {
        let rest = s.skip(1);
        lemma_no_tokens(rest, b);
        assert((s + b).skip(1) =~= rest + b);
        assert((s + b)[0] == s[0]);
        assert(seq![s[0]] + (rest + without_comments(b)) =~= s + without_comments(b));
    } else {
        assert(s + b =~= b);
        assert(s + without_comments(b) =~= without_comments(b));
    }
}

/// Which commas are trailing goes by the text itself, unless it ends in a comma.
proof fn lemma_commas_cut_same(x: Seq<char>, y: Seq<char>, z: Seq<char>)
    requires
        !dangles(x),
    ensures
        commas_cut(x, y) == commas_cut(x, z),
    decreases x.len(),
{
    lemma_rests(x);
    if x.len() > 0 {
        let n = if x[0] == '"' {
            literal_len(x)
        } else {
            1
        };
        let rest = x.skip(n);
        assert(!dangles(rest)) by {
            if dangles(rest) {
                let i = choose|i: int|
                    0 <= i < rest.len() && #[trigger] rest[i] == ',' && ends_in_space(rest, i + 1);
                assert(x[i + n] == ',');
                assert forall|j: int| i + n + 1 <= j < x.len() implies is_space(#[trigger] x[j]) by {
                    assert(is_space(rest[j - n]));
                }
                assert(ends_in_space(x, i + n + 1));
            }
        }
        lemma_commas_cut_same(rest, y, z);
        if x[0] == ',' {
            assert(!ends_in_space(x, 1));
            let j = choose|j: int| 1 <= j < x.len() && !is_space(#[trigger] x[j]);
            assert(!is_space(rest[j - 1]));
            lemma_closes_next_same(rest, y, z, j - 1);
        }
    }
}

/// Which character comes next goes by a text itself, unless it is all white space.
proof fn lemma_closes_next_same(u: Seq<char>, y: Seq<char>, z: Seq<char>, j: int)
    requires
        0 <= j < u.len(),
        !is_space(u[j]),
    ensures
        closes_next(u + y) == closes_next(u + z),
    decreases u.len(),
{
    if is_space(u[0]) {
        assert(u.skip(1)[j - 1] == u[j]);
        lemma_closes_next_same(u.skip(1), y, z, j - 1);
        assert((u + y).skip(1) =~= u.skip(1) + y);
        assert((u + z).skip(1) =~= u.skip(1) + z);
    }
}

/// Behind white space a closing bracket comes next.
proof fn lemma_closes(space: Seq<char>, bracket: char, rest: Seq<char>)
    requires
        ends_in_space(space, 0),
        bracket == '}' || bracket == ']',
    ensures
        closes_next(space + seq![bracket] + rest),
    decreases space.len(),
{
    let s = space + seq![bracket] + rest;
    if space.len() > 0 {
        assert(is_space(space[0]));
        assert forall|i: int| 0 <= i < space.skip(1).len() implies is_space(
            #[trigger] space.skip(1)[i],
        ) by {
            assert(is_space(space[i + 1]));
        }
        lemma_closes(space.skip(1), bracket, rest);
        assert(s.skip(1) =~= space.skip(1) + seq![bracket] + rest);
    }
}

/// Text that belongs to no literal and opens no comment is kept, character by character; so
/// is a slash that opens none.
pub proof fn law_other_characters_are_kept(c: char, d: char, rest: Seq<char>)
    ensures
        without_comments(Seq::empty()) == Seq::<char>::empty(),
        without_comments(seq!['/']) == seq!['/'],
        c != '"' && c != '/' ==> without_comments(seq![c] + rest) == seq![c] + without_comments(
            rest,
        ),
        d != '/' && d != '*' ==> without_comments(seq!['/', d] + rest) == seq!['/']
            + without_comments(seq![d] + rest),
{
    let s = seq![c] + rest;
    let t = seq!['/', d] + rest;
    assert(s.skip(1) =~= rest && s[0] == c);
    assert(t.skip(1) =~= seq![d] + rest);
    assert(t[0] == '/' && t[1] == d);
    assert(seq!['/'].skip(1) =~= Seq::<char>::empty());
    let lone = seq!['/'];
    assert(without_comments(lone.skip(1)) =~= Seq::<char>::empty());
    assert(without_comments(lone) == seq![lone[0]] + without_comments(lone.skip(1)));
    assert(without_comments(lone) =~= lone);
}

/// A comma goes where a closing bracket comes next, and only there; every other character
/// outside literals is kept.
pub proof fn law_only_trailing_commas_go(c: char, rest: Seq<char>)
    ensures
        without_trailing_commas(Seq::empty()) == Seq::<char>::empty(),
        closes_next(rest) ==> without_trailing_commas(seq![','] + rest) == without_trailing_commas(
            rest,
        ),
        !closes_next(rest) ==> without_trailing_commas(seq![','] + rest) == seq![',']
            + without_trailing_commas(rest),
        c != '"' && c != ',' ==> without_trailing_commas(seq![c] + rest) == seq![c]
            + without_trailing_commas(rest),
{
    let s = seq![c] + rest;
    let t = seq![','] + rest;
    assert(s.skip(1) =~= rest && s[0] == c);
    assert(t.skip(1) =~= rest && t[0] == ',');
}

/// A literal that nothing closes is kept to the end of the text.
pub proof fn law_open_literals_are_kept(s: Seq<char>)
    requires
        s.len() > 0,
        s[0] == '"',
        literal_len(s) == s.len(),
    ensures
        without_comments(s) == s,
        without_trailing_commas(s) == s,
        plain_json(s) == s,
{
    let n = s.len() as int;
    assert(s.take(n) =~= s);
    assert(s.skip(n) =~= Seq::<char>::empty());
    assert(without_comments(s.skip(n)) =~= Seq::<char>::empty());
    assert(without_trailing_commas(s.skip(n)) =~= Seq::<char>::empty());
    assert(without_comments(s) =~= s);
    assert(without_trailing_commas(s) =~= s);
}

/// A block comment that nothing closes takes the text to its end.
pub proof fn law_open_block_comments_go(a: Seq<char>, c: Seq<char>)
    requires
        settled(a),
        forall|i: int| 0 <= i < c.len() - 1 ==> !(#[trigger] c[i] == '*' && c[i + 1] == '/'),
    ensures
        without_comments(a + (seq!['/', '*'] + c)) == without_comments(a),
        jsonc_tree(a + (seq!['/', '*'] + c)) == jsonc_tree(a),
{
    let t = seq!['/', '*'] + c;
    lemma_open_block(c);
    assert(t.skip(2) =~= c);
    assert(t.skip(2 + c.len() as int) =~= Seq::<char>::empty());
    lemma_settled(a, t);
    assert(t[0] == '/' && t[1] == '*');
    assert(without_comments(t.skip(2 + c.len() as int)) =~= Seq::<char>::empty());
    assert(without_comments(t) =~= Seq::<char>::empty());
    assert(without_comments(a) + without_comments(t) =~= without_comments(a));
}

/// A text that closes no block comment is all comment behind an opening.
proof fn lemma_open_block(c: Seq<char>)
    requires
        forall|i: int| 0 <= i < c.len() - 1 ==> !(#[trigger] c[i] == '*' && c[i + 1] == '/'),
    ensures
        block_rest(c) == c.len(),
    decreases c.len(),
{
    if c.len() >= 2 {
        let tail = c.skip(1);
        assert(!(c[0] == '*' && c[1] == '/'));
        assert forall|i: int| 0 <= i < tail.len() - 1 implies !(#[trigger] tail[i] == '*' && tail[i
            + 1] == '/') by {
            assert(!(c[i + 1] == '*' && c[i + 2] == '/'));
        }
        lemma_open_block(tail);
    }
}

/// What comments look like, and what reading a text means: comments go first, then trailing
/// commas, and what is left is read as JSON.
pub proof fn law_what_comments_are(s: Seq<char>, c: Seq<char>)
    ensures
        block_comment(c) == seq!['/', '*'] + c + seq!['*', '/'],
        line_comment(c) == seq!['/', '/'] + c,
        closes_no_block(c) <==> forall|i: int|
            0 <= i < c.len() - 1 ==> !(#[trigger] c[i] == '*' && c[i + 1] == '/'),
        plain_json(s) == without_trailing_commas(without_comments(s)),
        jsonc_tree(s) == json_parse(encode_utf8(plain_json(s))),
{
}

/// Nothing is open behind the empty text, a character that opens nothing, a literal, a block
/// comment, a line comment with its line feed, and whatever is put together of such.
pub proof fn law_where_nothing_is_open(
    a: Seq<char>,
    b: Seq<char>,
    c: char,
    literal: Seq<char>,
    comment: Seq<char>,
)
    ensures
        settled(Seq::empty()),
        c != '"' && c != '/' ==> settled(seq![c]),
        is_literal(literal) ==> settled(literal),
        closes_no_block(comment) ==> settled(block_comment(comment)),
        !comment.contains('\n') ==> settled(line_comment(comment) + seq!['\n']),
        settled(a) && settled(b) ==> settled(a + b),
        falls_between(a, b) <==> settled(a) && between_tokens(
            without_comments(a),
            without_comments(b),
        ),
{
    let nothing = Seq::<char>::empty();
    assert(settled(nothing));
    assert(seq![c].skip(1) =~= nothing);
    if is_literal(literal) {
        lemma_literal_len(literal, nothing);
        assert(literal + nothing =~= literal);
        assert(literal.take(literal.len() as int) =~= literal);
        assert(literal.skip(literal.len() as int) =~= nothing);
    }
    if closes_no_block(comment) {
        let t = block_comment(comment);
        lemma_block_comment(comment);
        assert(t.skip(2) =~= comment + seq!['*', '/']);
        assert(t.skip(4 + comment.len() as int) =~= nothing);
    }
    if !comment.contains('\n') {
        let t = line_comment(comment) + seq!['\n'];
        lemma_line_comment(comment, seq!['\n']);
        assert(t.skip(2) =~= comment + seq!['\n']);
        assert(t.skip(2 + comment.len() as int) =~= seq!['\n']);
        assert(seq!['\n'].skip(1) =~= nothing);
        assert(settled(seq!['\n']));
    }
    if settled(a) && settled(b) {
        lemma_settled_parts(a, b);
    }
}

/// Nothing is open behind two texts behind which nothing is open.
proof fn lemma_settled_parts(a: Seq<char>, b: Seq<char>)
    requires
        settled(a),
        settled(b),
    ensures
        settled(a + b),
    decreases a.len(),
{
    lemma_rests(a);
    let s = a + b;
    if a.len() == 0 {
        assert(s =~= b);
    } else if a[0] == '"' {
        let n = literal_len(a);
        let literal = a.take(n);
        let rest = a.skip(n);
        lemma_settled_parts(rest, b);
        assert(s =~= literal + (rest + b));
        lemma_literal_len(literal, rest + b);
    } else if opens(a, '/', '/') {
        let u = a.skip(2);
        let n = 2 + line_rest(u);
        lemma_line_rest(u, b);
        assert(s.skip(2) =~= u + b);
        assert(s.skip(n) =~= a.skip(n) + b);
        lemma_settled_parts(a.skip(n), b);
    } else if opens(a, '/', '*') {
        let u = a.skip(2);
        let n = 2 + block_rest(u);
        lemma_block_rest(u, b);
        lemma_block_closed(u, b);
        assert(s.skip(2) =~= u + b);
        assert(s.skip(n) =~= a.skip(n) + b);
        lemma_settled_parts(a.skip(n), b);
    } else {
        assert(s.skip(1) =~= a.skip(1) + b);
        lemma_settled_parts(a.skip(1), b);
    }
}

/// A block comment that is closed stays closed, whatever follows.
proof fn lemma_block_closed(u: Seq<char>, t: Seq<char>)
    requires
        block_closed(u),
    ensures
        block_closed(u + t),
    decreases u.len(),
{
    if !(u[0] == '*' && u[1] == '/') {
        lemma_block_closed(u.skip(1), t);
        assert((u + t).skip(1) =~= u.skip(1) + t);
    }
}

/// A text ends in a comma where only white space stands behind it.
pub proof fn law_where_commas_dangle(x: Seq<char>, from: int)
    ensures
        dangles(x) <==> exists|i: int|
            0 <= i < x.len() && #[trigger] x[i] == ',' && forall|j: int|
                i < j < x.len() ==> is_space(#[trigger] x[j]),
        ends_in_space(x, from) <==> forall|j: int| from <= j < x.len() ==> is_space(#[trigger] x[j]),
{
    if dangles(x) {
        let i = choose|i: int|
            0 <= i < x.len() && #[trigger] x[i] == ',' && ends_in_space(x, i + 1);
        assert(x[i] == ',');
        assert forall|j: int| i < j < x.len() implies is_space(#[trigger] x[j]) by {}
    }
    if exists|i: int|
        0 <= i < x.len() && #[trigger] x[i] == ',' && forall|j: int|
            i < j < x.len() ==> is_space(#[trigger] x[j]) {
        let i = choose|i: int|
            0 <= i < x.len() && #[trigger] x[i] == ',' && forall|j: int|
                i < j < x.len() ==> is_space(#[trigger] x[j]);
        assert(ends_in_space(x, i + 1));
    }
}

/// What it means that line comments mean nothing: one that is put between two tokens of the
/// text leaves the value what it was.
pub proof fn law_what_line_comments_mean(
    a: Seq<char>,
    l: Seq<char>,
    b: Seq<char>,
    t: JsonTree,
)
    requires
        line_comments_mean_nothing(a + b, t),
        settled(a),
        between_tokens(without_comments(a), without_comments(b)),
        !l.contains('\n'),
    ensures
        jsonc_tree(a + (seq!['/', '/'] + l) + (seq!['\n'] + b)) == Some(t),
{
    assert(a + line_comment(l) + (seq!['\n'] + b) == a + (seq!['/', '/'] + l) + (seq!['\n'] + b));
}

} // verus!
