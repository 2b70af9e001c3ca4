//! The escaping policy for string content: a left-to-right scan that
//! rewrites newline, tab, carriage return, backslash and double quote
//! into two-character backslash sequences and passes every other
//! character through unchanged.

use vstd::prelude::*;

verus! {

/// What a single character becomes in the escaped text.
pub open spec fn esc_char(c: char) -> Seq<char> {
    if c == '\n' {
        seq!['\\', 'n']
    } else if c == '\t' {
        seq!['\\', 't']
    } else if c == '\r' {
        seq!['\\', 'r']
    } else if c == '\\' {
        seq!['\\', '\\']
    } else if c == '"' {
        seq!['\\', '"']
    } else {
        seq![c]
    }
}

/// The escaped form of a whole string: each character replaced by its
/// escape sequence, in order.
pub open spec fn escape_seq(s: Seq<char>) -> Seq<char>
    decreases s.len(),
{
    if s.len() == 0 {
        Seq::empty()
    } else {
        esc_char(s[0]) + escape_seq(s.drop_first())
    }
}

/// Escaping distributes over concatenation: the scan never looks past
/// the character at hand.
pub proof fn lemma_escape_concat(s1: Seq<char>, s2: Seq<char>)
    ensures
        escape_seq(s1 + s2) == escape_seq(s1) + escape_seq(s2),
    decreases s1.len(),
{
    if s1.len() == 0 {
        assert(s1 + s2 =~= s2);
        assert(escape_seq(s1) + escape_seq(s2) =~= escape_seq(s2));
    } else {
        assert((s1 + s2).drop_first() =~= s1.drop_first() + s2);
        lemma_escape_concat(s1.drop_first(), s2);
        assert(escape_seq(s1 + s2) =~= escape_seq(s1) + escape_seq(s2));
    }
}

/// Escaping one more character appends exactly its escape sequence.
pub proof fn lemma_escape_snoc(s: Seq<char>, c: char)
    ensures
        escape_seq(s + seq![c]) == escape_seq(s) + esc_char(c),
{
    lemma_escape_concat(s, seq![c]);
    assert(seq![c].drop_first() =~= Seq::<char>::empty());
    assert(escape_seq(seq![c]) == esc_char(c) + escape_seq(Seq::<char>::empty()));
    assert(esc_char(c) + Seq::<char>::empty() =~= esc_char(c));
}

/// The inverse substitution: the character that the second character
/// of a backslash escape stands for.
pub open spec fn unesc_char(c: char) -> char {
    if c == 'n' {
        '\n'
    } else if c == 't' {
        '\t'
    } else if c == 'r' {
        '\r'
    } else {
        c
    }
}

/// Reverses the escaping substitutions: a backslash and the character
/// after it become the character that pair stands for; every other
/// character is kept as it is.
pub open spec fn unescape_seq(s: Seq<char>) -> Seq<char>
    decreases s.len(),
{
    if s.len() == 0 {
        Seq::empty()
    } else if s[0] == '\\' && s.len() >= 2 {
        seq![unesc_char(s[1])] + unescape_seq(s.skip(2))
    } else {
        seq![s[0]] + unescape_seq(s.drop_first())
    }
}

/// Escaping loses nothing: reversing the five substitutions on the
/// escaped text reconstructs the original string exactly, whatever
/// mixture of newlines, tabs, carriage returns, backslashes, quotes
/// and ordinary characters it held.
pub proof fn lemma_escape_round_trip(s: Seq<char>)
    ensures
        unescape_seq(escape_seq(s)) == s,
    decreases s.len(),
{
    if s.len() == 0 {
        assert(unescape_seq(escape_seq(s)) =~= s);
    } else {
        let c = s[0];
        let rest = escape_seq(s.drop_first());
        lemma_escape_round_trip(s.drop_first());
        if c == '\n' || c == '\t' || c == '\r' || c == '\\' || c == '"' {
            let e = esc_char(c);
            assert(escape_seq(s) == e + rest);
            assert(escape_seq(s)[0] == '\\');
            assert(unesc_char(escape_seq(s)[1]) == c);
            assert(escape_seq(s).skip(2) =~= rest);
            assert(unescape_seq(escape_seq(s)) =~= seq![c] + s.drop_first());
            assert(seq![c] + s.drop_first() =~= s);
        } else {
            assert(esc_char(c) == seq![c]);
            assert(escape_seq(s)[0] == c);
            assert(escape_seq(s).drop_first() =~= rest);
            assert(unescape_seq(escape_seq(s)) =~= seq![c] + s.drop_first());
            assert(seq![c] + s.drop_first() =~= s);
        }
    }
}

/// Characters outside the escape set pass through unaltered.
pub proof fn lemma_escape_pass_through(c: char)
    requires
        c != '\n',
        c != '\t',
        c != '\r',
        c != '\\',
        c != '"',
    ensures
        esc_char(c) == seq![c],
{
}

/// Relies on String::push: appends the given character to the end of
/// the string.
#[verifier::external_body]
fn push_char(s: &mut String, c: char)
    ensures
        final(s)@ == old(s)@ + seq![c],
{
    s.push(c);
}

/// Escape a string for use inside a double-quoted Lua string literal.
pub fn validate_string(string: &str) -> (r: String)
    ensures
        r@ == escape_seq(string@),
{
    let mut validated = String::new();
    let n = string.unicode_len();
    let mut i: usize = 0;
    while i < n
        invariant
            n == string@.len(),
            i <= n,
            validated@ == escape_seq(string@.take(i as int)),
        decreases n - i,
    {
        let c = string.get_char(i);
        proof {
            assert(string@.take(i as int + 1) =~= string@.take(i as int) + seq![string@[i as int]]);
            lemma_escape_snoc(string@.take(i as int), string@[i as int]);
            reveal_strlit("\\n");
            reveal_strlit("\\t");
            reveal_strlit("\\r");
            reveal_strlit("\\\\");
            reveal_strlit("\\\"");
        }
        match c {
            '\n' => validated.append("\\n"),
            '\t' => validated.append("\\t"),
            '\r' => validated.append("\\r"),
            '\\' => validated.append("\\\\"),
            '"' => validated.append("\\\""),
            _ => push_char(&mut validated, c),
        }
        i = i + 1;
    }
    proof {
        assert(string@.take(n as int) =~= string@);
    }
    validated
}

} // verus!
