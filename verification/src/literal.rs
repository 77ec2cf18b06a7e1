//! Texts as literals of a statement.
//!
//! A text that goes into a statement stands between single quotes. So that no
//! character of the text ends the literal early or is read as more than itself,
//! the quote, the backslash and the control characters are written as escapes.

use vstd::prelude::*;

verus! {

/// Whether `c` is a control character: one below the space, or the delete
/// character.
pub open spec fn is_control(c: char) -> bool {
    (c as int) < 0x20 || c as int == 0x7f
}

/// The hexadecimal digit that stands for `d`, for `d` from 0 to 15.
pub open spec fn hex_char(d: int) -> char {
    if d < 10 {
        (d + '0' as int) as char
    } else {
        (d - 10 + 'a' as int) as char
    }
}

/// The number that a hexadecimal digit stands for; `None` for any other
/// character.
pub open spec fn hex_value(c: char) -> Option<int> {
    if '0' <= c <= '9' {
        Some(c as int - '0' as int)
    } else if 'a' <= c <= 'f' {
        Some(c as int - 'a' as int + 10)
    } else if 'A' <= c <= 'F' {
        Some(c as int - 'A' as int + 10)
    } else {
        None
    }
}

/// How one character is written inside a literal: a quote or a backslash
/// behind a backslash, a control character as `\u` and the four hexadecimal
/// digits of its code, any other character as itself.
pub open spec fn escaped(c: char) -> Seq<char> {
    if c == '\'' || c == '\\' {
        seq!['\\', c]
    } else if is_control(c) {
        seq!['\\', 'u', '0', '0', hex_char(c as int / 16), hex_char(c as int % 16)]
    } else {
        seq![c]
    }
}

/// How a text is written inside a literal: character by character.
pub open spec fn escape(s: Seq<char>) -> Seq<char>
    decreases s.len(),
{
    if s.len() == 0 {
        Seq::empty()
    } else {
        escape(s.drop_last()) + escaped(s.last())
    }
}

/// A text as a literal: between single quotes, with its characters escaped.
pub open spec fn quoted(s: Seq<char>) -> Seq<char> {
    seq!['\''] + escape(s) + seq!['\'']
}

/// What a reader of statements takes from the inside of a literal that goes
/// on at `from`: the characters up to the closing quote, each escape read as
/// the character it stands for, and the place behind the closing quote.
/// `None` where the text ends before the literal does, or holds an escape
/// that is none.
pub open spec fn read_inside(text: Seq<char>, from: int) -> Option<(Seq<char>, int)>
    decreases text.len() - from,
{
    if from < 0 || from >= text.len() {
        None
    } else if text[from] == '\'' {
        Some((Seq::empty(), from + 1))
    } else if text[from] == '\\' {
        if from + 1 < text.len() && (text[from + 1] == '\'' || text[from + 1] == '\\') {
            match read_inside(text, from + 2) {
                Some((rest, end)) => Some((seq![text[from + 1]] + rest, end)),
                None => None,
            }
        } else if from + 5 < text.len() && text[from + 1] == 'u' {
            match (
                hex_value(text[from + 2]),
                hex_value(text[from + 3]),
                hex_value(text[from + 4]),
                hex_value(text[from + 5]),
            ) {
                (Some(a), Some(b), Some(c), Some(d)) => {
                    let code = ((a * 16 + b) * 16 + c) * 16 + d;
                    if 0xD800 <= code <= 0xDFFF {
                        None
                    } else {
                        match read_inside(text, from + 6) {
                            Some((rest, end)) => Some((seq![code as char] + rest, end)),
                            None => None,
                        }
                    }
                },
                _ => None,
            }
        } else {
            None
        }
    } else {
        match read_inside(text, from + 1) {
            Some((rest, end)) => Some((seq![text[from]] + rest, end)),
            None => None,
        }
    }
}

/// What a reader of statements takes from a literal that starts at `from`:
/// the text it stands for and the place behind its closing quote.
pub open spec fn read_literal(text: Seq<char>, from: int) -> Option<(Seq<char>, int)> {
    if 0 <= from < text.len() && text[from] == '\'' {
        read_inside(text, from + 1)
    } else {
        None
    }
}

/// The hexadecimal digit for a number below sixteen.
fn hex_digit(d: u8) -> (c: char)
    requires
        d < 16,
    ensures
        c == hex_char(d as int),
{
    let code: u8 = if d < 10 {
        48 + d
    } else {
        87 + d
    };
    code as char
}

/// Appends one character of a literal's text to `out`, escaped.
pub(crate) fn push_escaped(out: &mut String, c: char)
    ensures
        final(out)@ == old(out)@ + escaped(c),
{
    let code: u32 = c as u32;
    if c == '\'' || c == '\\' {
        out.push('\\');
        out.push(c);
    } else if code < 32 || code == 127 {
        out.push('\\');
        out.push('u');
        out.push('0');
        out.push('0');
        out.push(hex_digit((code / 16) as u8));
        out.push(hex_digit((code % 16) as u8));
    } else {
        out.push(c);
    }
    assert(out@ =~= old(out)@ + escaped(c));
}

/// Appends `text` to `out` as a literal.
pub(crate) fn push_quoted(out: &mut String, text: &str)
    ensures
        final(out)@ == old(out)@ + quoted(text@),
{
    broadcast use vstd::string::group_string_axioms;

    out.push('\'');
    let ghost start = out@;
    proof {
        assert(start + escape(text@.take(0)) =~= start);
    }
    let chars = text.chars();
    for c in it: chars
        invariant
            it.seq() == text@,
            out@ == start + escape(text@.take(it.index())),
    {
        proof {
            let n = it.index();
            assert(text@.take(n + 1).drop_last() =~= text@.take(n));
            assert(text@.take(n + 1).last() == c);
        }
        push_escaped(out, c);
        assert(out@ =~= start + escape(text@.take(it.index() + 1)));
    }
    out.push('\'');
    proof {
        assert(text@.take(text@.len() as int) =~= text@);
        assert(out@ =~= old(out)@ + quoted(text@));
    }
}

/// Reading goes through an escaped character to the character it stands
/// for.
proof fn lemma_read_escaped(text: Seq<char>, from: int, c: char)
    requires
        0 <= from,
        from + escaped(c).len() <= text.len(),
        text.subrange(from, from + escaped(c).len()) == escaped(c),
    ensures
        read_inside(text, from) == match read_inside(text, from + escaped(c).len()) {
            Some((rest, end)) => Some((seq![c] + rest, end)),
            None => None,
        },
{
    let e = escaped(c);
    assert forall|k: int| 0 <= k < e.len() implies text[from + k] == e[k] by {
        assert(text.subrange(from, from + e.len())[k] == text[from + k]);
    }
    assert(text[from] == e[0]);
    if c == '\'' || c == '\\' {
        assert(text[from + 1] == e[1]);
    } else if is_control(c) {
        assert(text[from + 1] == e[1]);
        assert(text[from + 2] == e[2]);
        assert(text[from + 3] == e[3]);
        assert(text[from + 4] == e[4]);
        assert(text[from + 5] == e[5]);
        let high = c as int / 16;
        let low = c as int % 16;
        assert(hex_value(hex_char(high)) == Some(high));
        assert(hex_value(hex_char(low)) == Some(low));
        assert(hex_value('0') == Some(0int));
        assert(((0 * 16 + 0) * 16 + high) * 16 + low == c as int);
        assert((c as int) as char == c);
    } else {
    }
}

/// The escaped form of a text starts with that of its first character.
proof fn lemma_escape_first(s: Seq<char>)
    requires
        s.len() > 0,
    ensures
        escape(s) == escaped(s[0]) + escape(s.drop_first()),
    decreases s.len(),
{
    if s.len() == 1 {
        assert(s.drop_last() =~= Seq::<char>::empty());
        assert(s.drop_first() =~= Seq::<char>::empty());
        assert(escape(s) =~= escaped(s[0]) + escape(s.drop_first()));
    } else {
        lemma_escape_first(s.drop_last());
        assert(s.drop_last().drop_first() =~= s.drop_first().drop_last());
        assert(s.drop_first().last() == s.last());
        assert(escape(s) =~= escaped(s[0]) + escape(s.drop_first()));
    }
}

/// Reading the inside of a literal that the library wrote gives the text
/// back and stops behind the quote that closes it.
proof fn lemma_read_escape(text: Seq<char>, from: int, s: Seq<char>)
    requires
        0 <= from,
        from + escape(s).len() < text.len(),
        text.subrange(from, from + escape(s).len()) == escape(s),
        text[from + escape(s).len()] == '\'',
    ensures
        read_inside(text, from) == Some((s, from + escape(s).len() + 1)),
    decreases s.len(),
{
    if s.len() == 0 {
    } else {
        let c = s[0];
        let rest = s.drop_first();
        lemma_escape_first(s);
        let e = escaped(c);
        let whole = escape(s);
        assert(whole.len() == e.len() + escape(rest).len());
        assert(text.subrange(from, from + e.len()) =~= e) by {
            assert forall|k: int| 0 <= k < e.len() implies text.subrange(from, from + e.len())[k]
                == e[k] by {
                assert(text.subrange(from, from + whole.len())[k] == whole[k]);
            }
        }
        assert(text.subrange(from + e.len(), from + e.len() + escape(rest).len()) =~= escape(
            rest,
        )) by {
            assert forall|k: int| 0 <= k < escape(rest).len() implies text.subrange(
                from + e.len(),
                from + e.len() + escape(rest).len(),
            )[k] == escape(rest)[k] by {
                assert(text.subrange(from, from + whole.len())[e.len() + k] == whole[e.len() + k]);
            }
        }
        lemma_read_escape(text, from + e.len(), rest);
        lemma_read_escaped(text, from, c);
        assert(seq![c] + rest =~= s);
    }
}

/// A literal that the library wrote is read as the text it was written for,
/// whatever the text holds and whatever stands before and behind the literal:
/// the reader stops at the quote that the library closed it with.
pub proof fn lemma_quoted_reads_back(before: Seq<char>, s: Seq<char>, after: Seq<char>)
    ensures
        read_literal(before + quoted(s) + after, before.len() as int) == Some(
            (s, (before.len() + quoted(s).len()) as int),
        ),
{
    let text = before + quoted(s) + after;
    let from = before.len() as int;
    assert(text[from] == quoted(s)[0]);
    assert(text.subrange(from + 1, from + 1 + escape(s).len()) =~= escape(s)) by {
        assert forall|k: int| 0 <= k < escape(s).len() implies text.subrange(
            from + 1,
            from + 1 + escape(s).len(),
        )[k] == escape(s)[k] by {
            assert(text[from + 1 + k] == quoted(s)[1 + k]);
        }
    }
    assert(text[from + 1 + escape(s).len()] == quoted(s)[1 + escape(s).len() as int]);
    lemma_read_escape(text, from + 1, s);
}

} // verus!
