//! Where the tokens of a JSON text lie.

use crate::text::is_space;
use vstd::prelude::*;

verus! {

/// Whether a text begins with the two given characters.
pub open spec fn opens(s: Seq<char>, first: char, second: char) -> bool {
    s.len() >= 2 && s[0] == first && s[1] == second
}

/// How many characters the rest of a string literal takes, where `s` begins behind its
/// opening quote: up to its closing quote and that too, or all of `s` where there is none.
/// A backslash takes the character behind it along.
pub open spec fn literal_rest(s: Seq<char>) -> int
    decreases s.len(),
{
    if s.len() == 0 {
        0
    } else if s[0] == '"' {
        1
    } else if s[0] == '\\' && s.len() > 1 {
        2 + literal_rest(s.skip(2))
    } else {
        1 + literal_rest(s.skip(1))
    }
}

/// A literal takes at least its quote and no more characters than there are.
pub proof fn lemma_literal_rest(s: Seq<char>)
    ensures
        0 <= literal_rest(s) <= s.len(),
        s.len() > 0 ==> literal_rest(s) > 0,
    decreases s.len(),
{
    if s.len() > 0 {
        lemma_literal_rest(s.skip(1));
        if s.len() > 1 {
            lemma_literal_rest(s.skip(2));
        }
    }
}

/// How many characters a string literal takes, where `s` begins with its opening quote.
pub open spec fn literal_len(s: Seq<char>) -> int {
    1 + literal_rest(s.skip(1))
}

/// Whether a text is the rest of a string literal, from behind its opening quote to its
/// closing quote.
pub open spec fn is_literal_rest(s: Seq<char>) -> bool
    decreases s.len(),
{
    if s.len() == 0 {
        false
    } else if s[0] == '"' {
        s.len() == 1
    } else if s[0] == '\\' {
        s.len() > 1 && is_literal_rest(s.skip(2))
    } else {
        is_literal_rest(s.skip(1))
    }
}

/// Whether a text is a string literal, quotes and all.
pub open spec fn is_literal(s: Seq<char>) -> bool {
    s.len() > 0 && s[0] == '"' && is_literal_rest(s.skip(1))
}

/// A string literal ends at its closing quote, whatever follows.
pub proof fn lemma_literal_len(literal: Seq<char>, rest: Seq<char>)
    requires
        is_literal(literal),
    ensures
        literal_len(literal + rest) == literal.len(),
        (literal + rest).take(literal.len() as int) == literal,
        (literal + rest).skip(literal.len() as int) == rest,
{
    lemma_literal_rest_len(literal.skip(1), rest);
    assert((literal + rest).skip(1) =~= literal.skip(1) + rest);
    assert((literal + rest).take(literal.len() as int) =~= literal);
    assert((literal + rest).skip(literal.len() as int) =~= rest);
}

/// The rest of a string literal ends at its closing quote, whatever follows.
proof fn lemma_literal_rest_len(s: Seq<char>, rest: Seq<char>)
    requires
        is_literal_rest(s),
    ensures
        literal_rest(s + rest) == s.len(),
    decreases s.len(),
{
    if s[0] == '"' {
    } else if s[0] == '\\' {
        lemma_literal_rest_len(s.skip(2), rest);
        assert((s + rest).skip(2) =~= s.skip(2) + rest);
    } else {
        lemma_literal_rest_len(s.skip(1), rest);
        assert((s + rest).skip(1) =~= s.skip(1) + rest);
    }
}

/// Whether the first character of a text that is not white space closes an object or an
/// array.
pub open spec fn closes_next(s: Seq<char>) -> bool
    decreases s.len(),
{
    if s.len() == 0 {
        false
    } else if is_space(s[0]) {
        closes_next(s.skip(1))
    } else {
        s[0] == '}' || s[0] == ']'
    }
}

/// Whether, its string literals aside, a text holds no comment opening and no comma behind
/// which a closing bracket comes next.
pub open spec fn is_bare(s: Seq<char>) -> bool
    decreases s.len(),
{
    proof {
        if s.len() > 0 {
            lemma_literal_rest(s.skip(1));
        }
    }
    if s.len() == 0 {
        true
    } else if s[0] == '"' {
        is_bare(s.skip(literal_len(s)))
    } else {
        &&& !opens(s, '/', '/')
        &&& !opens(s, '/', '*')
        &&& !(s[0] == ',' && closes_next(s.skip(1)))
        &&& is_bare(s.skip(1))
    }
}

/// Whether a text ends outside string literals.
pub open spec fn ends_outside(s: Seq<char>) -> bool
    decreases s.len(),
{
    proof {
        if s.len() > 0 {
            lemma_literal_rest(s.skip(1));
        }
    }
    if s.len() == 0 {
        true
    } else if s[0] == '"' {
        is_literal(s.take(literal_len(s))) && ends_outside(s.skip(literal_len(s)))
    } else {
        ends_outside(s.skip(1))
    }
}

/// Whether a character outside string literals belongs to no number and no word: white
/// space, a bracket, a comma, a colon, or a quote.
pub open spec fn is_separator(c: char) -> bool {
    ||| is_space(c)
    ||| c == '{'
    ||| c == '}'
    ||| c == '['
    ||| c == ']'
    ||| c == ','
    ||| c == ':'
    ||| c == '"'
}

/// Whether `a + b` is cut between two tokens.
pub open spec fn between_tokens(a: Seq<char>, b: Seq<char>) -> bool {
    &&& ends_outside(a)
    &&& a.len() == 0 || b.len() == 0 || is_separator(a.last()) || is_separator(b[0])
}

/// Behind a literal a text ends outside literals where the rest does.
pub proof fn lemma_ends_outside_literal(literal: Seq<char>, rest: Seq<char>)
    requires
        is_literal(literal),
        ends_outside(rest),
    ensures
        ends_outside(literal + rest),
{
    lemma_literal_len(literal, rest);
}

/// Behind a character that opens no literal a text ends outside literals where the rest
/// does.
pub proof fn lemma_ends_outside_char(c: char, rest: Seq<char>)
    requires
        c != '"',
        ends_outside(rest),
    ensures
        ends_outside(seq![c] + rest),
{
    assert((seq![c] + rest).skip(1) =~= rest);
}

/// A line feed between two texts does not change which bracket comes next.
pub proof fn lemma_closes_next_line_feed(u: Seq<char>, y: Seq<char>)
    ensures
        closes_next(u + (seq!['\n'] + y)) == closes_next(u + y),
    decreases u.len(),
{
    if u.len() == 0 {
        assert(u + (seq!['\n'] + y) =~= seq!['\n'] + y);
        assert(u + y =~= y);
        assert((seq!['\n'] + y).skip(1) =~= y);
    } else {
        lemma_closes_next_line_feed(u.skip(1), y);
        assert((u + (seq!['\n'] + y)).skip(1) =~= u.skip(1) + (seq!['\n'] + y));
        assert((u + y).skip(1) =~= u.skip(1) + y);
    }
}

/// A string literal goes on to the next quote that no backslash takes along.
pub proof fn law_literals_go_on_to_the_closing_quote(c: char, d: char, rest: Seq<char>)
    ensures
        literal_rest(Seq::empty()) == 0,
        literal_rest(seq!['\\']) == 1,
        literal_rest(seq!['"'] + rest) == 1,
        literal_rest(seq!['\\', d] + rest) == 2 + literal_rest(rest),
        c != '"' && c != '\\' ==> literal_rest(seq![c] + rest) == 1 + literal_rest(rest),
        c != '"' && c != '\\' ==> (is_literal_rest(seq![c] + rest) <==> is_literal_rest(rest)),
        is_literal_rest(seq!['\\', d] + rest) <==> is_literal_rest(rest),
        is_literal_rest(seq!['"']),
        rest.len() > 0 ==> !is_literal_rest(seq!['"'] + rest),
        !is_literal_rest(Seq::empty()) && !is_literal_rest(seq!['\\']),
        is_literal(seq!['"'] + rest) <==> is_literal_rest(rest),
        c != '"' ==> !is_literal(seq![c] + rest),
        literal_len(seq![c] + rest) == 1 + literal_rest(rest),
{
    let one = seq![c] + rest;
    let quote = seq!['"'] + rest;
    let two = seq!['\\', d] + rest;
    assert(one.skip(1) =~= rest && one[0] == c);
    assert(quote.skip(1) =~= rest && quote[0] == '"');
    assert(two.skip(2) =~= rest && two[0] == '\\');
    assert(seq!['\\'].skip(1).len() == 0);
    assert(literal_rest(seq!['\\'].skip(1)) == 0);
}

/// A closing bracket comes next where nothing but white space stands before it.
pub proof fn law_brackets_come_next_behind_white_space(c: char, rest: Seq<char>)
    ensures
        !closes_next(Seq::empty()),
        is_space(c) ==> closes_next(seq![c] + rest) == closes_next(rest),
        !is_space(c) ==> (closes_next(seq![c] + rest) <==> c == '}' || c == ']'),
{
    let s = seq![c] + rest;
    assert(s.skip(1) =~= rest && s[0] == c);
}

/// A text is bare, and ends outside literals, as its parts do: a literal does not count, and
/// outside of one only a comment opening and a trailing comma do.
pub proof fn law_bare_texts_and_their_parts(literal: Seq<char>, c: char, rest: Seq<char>)
    ensures
        is_bare(Seq::empty()) && ends_outside(Seq::empty()),
        is_literal(literal) ==> (is_bare(literal + rest) <==> is_bare(rest)),
        is_literal(literal) ==> (ends_outside(literal + rest) <==> ends_outside(rest)),
        c != '"' && c != '/' && c != ',' ==> (is_bare(seq![c] + rest) <==> is_bare(rest)),
        is_bare(seq!['/'] + rest) <==> is_bare(rest) && !(rest.len() > 0 && (rest[0] == '/'
            || rest[0] == '*')),
        is_bare(seq![','] + rest) <==> is_bare(rest) && !closes_next(rest),
        c != '"' ==> (ends_outside(seq![c] + rest) <==> ends_outside(rest)),
{
    let s = seq![c] + rest;
    let slash = seq!['/'] + rest;
    let comma = seq![','] + rest;
    assert(s.skip(1) =~= rest && s[0] == c);
    assert(slash.skip(1) =~= rest && slash[0] == '/');
    assert(comma.skip(1) =~= rest && comma[0] == ',');
    if rest.len() > 0 {
        assert(slash[1] == rest[0]);
    }
    if is_literal(literal) {
        lemma_literal_len(literal, rest);
        assert((literal + rest)[0] == '"');
    }
}

/// A text is cut between two tokens where it is cut outside literals, and not between two
/// characters of which neither is a separator.
pub proof fn law_where_tokens_part(a: Seq<char>, b: Seq<char>, c: char)
    ensures
        is_separator(c) <==> is_space(c) || c == '{' || c == '}' || c == '[' || c == ']' || c
            == ',' || c == ':' || c == '"',
        between_tokens(a, b) <==> ends_outside(a) && (a.len() == 0 || b.len() == 0 || is_separator(
            a.last(),
        ) || is_separator(b[0])),
        opens(a, '/', c) <==> a.len() >= 2 && a[0] == '/' && a[1] == c,
{
}

} // verus!
