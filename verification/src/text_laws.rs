//! What the helpers for text do to it.
use crate::text::{
    decimal, digit_value, digits_value, hex, is_space, joined_text, lemma_find_char,
    lemma_find_char_at, lines, parse_uint, signed_decimal, split, trim, trim_end, trim_start,
};
use vstd::prelude::*;

verus! {

/// Text is cut at each separator, which belongs to neither part; text without
/// one is one part.
pub proof fn law_text_is_cut_at_separators(part: Seq<char>, rest: Seq<char>, c: char)
    requires
        !part.contains(c),
    ensures
        split(part, c) == seq![part],
        split(part + seq![c] + rest, c) == seq![part] + split(rest, c),
{
    lemma_find_char(part, c);
    let s = part + seq![c] + rest;
    assert forall|i: int| 0 <= i < part.len() implies s[i] != c by {
        assert(s[i] == part[i]);
        assert(part.contains(part[i]));
    }
    assert(s[part.len() as int] == c);
    lemma_find_char_at(s, c, part.len() as int);
    assert(s.take(part.len() as int) =~= part);
    assert(s.skip(part.len() as int + 1) =~= rest);
}

/// A line ends at a newline, with or without a carriage return before it, and
/// neither belongs to it. What stands behind the last newline is a line too.
pub proof fn law_lines_end_at_newlines(line: Seq<char>, rest: Seq<char>)
    requires
        !line.contains('\n'),
    ensures
        lines(Seq::empty()) == Seq::<Seq<char>>::empty(),
        line.len() > 0 ==> lines(line) == seq![line],
        lines(line + seq!['\r', '\n'] + rest) == seq![line] + lines(rest),
        line.len() == 0 || line.last() != '\r' ==> lines(line + seq!['\n'] + rest) == seq![line]
            + lines(rest),
{
    lemma_find_char(line, '\n');
    let s = line + seq!['\n'] + rest;
    assert forall|i: int| 0 <= i < line.len() implies s[i] != '\n' by {
        assert(s[i] == line[i]);
        assert(line.contains(line[i]));
    }
    assert(s[line.len() as int] == '\n');
    lemma_find_char_at(s, '\n', line.len() as int);
    assert(s.take(line.len() as int) =~= line);
    assert(s.skip(line.len() as int + 1) =~= rest);
    let t = line + seq!['\r', '\n'] + rest;
    assert forall|i: int| 0 <= i < line.len() + 1 implies t[i] != '\n' by {
        if i < line.len() {
            assert(t[i] == line[i]);
            assert(line.contains(line[i]));
        } else {
            assert(t[i] == '\r');
        }
    }
    assert(t[line.len() as int + 1] == '\n');
    lemma_find_char_at(t, '\n', line.len() as int + 1);
    let head = t.take(line.len() as int + 1);
    assert(head =~= line.push('\r'));
    assert(head.drop_last() =~= line);
    assert(t.skip(line.len() as int + 2) =~= rest);
}

/// All characters of the text are space.
pub open spec fn blank(s: Seq<char>) -> bool {
    forall|i: int| 0 <= i < s.len() ==> is_space(#[trigger] s[i])
}

proof fn lemma_trim_start(a: Seq<char>, s: Seq<char>)
    requires
        blank(a),
        s.len() > 0 ==> !is_space(s[0]),
    ensures
        trim_start(a + s) == s,
    decreases a.len(),
{
    if a.len() == 0 {
        assert(a + s =~= s);
    } else {
        let rest = a.skip(1);
        assert forall|i: int| 0 <= i < rest.len() implies is_space(#[trigger] rest[i]) by {
            assert(rest[i] == a[i + 1]);
        }
        lemma_trim_start(rest, s);
        assert((a + s)[0] == a[0]);
        assert((a + s).skip(1) =~= rest + s);
    }
}

proof fn lemma_trim_end(s: Seq<char>, b: Seq<char>)
    requires
        blank(b),
        s.len() > 0 ==> !is_space(s.last()),
    ensures
        trim_end(s + b) == s,
    decreases b.len(),
{
    if b.len() == 0 {
        assert(s + b =~= s);
    } else {
        let rest = b.drop_last();
        assert forall|i: int| 0 <= i < rest.len() implies is_space(#[trigger] rest[i]) by {
            assert(rest[i] == b[i]);
        }
        lemma_trim_end(s, rest);
        assert((s + b).last() == b.last());
        assert((s + b).drop_last() =~= s + rest);
    }
}

/// Trimming takes the space off both ends and nothing else.
pub proof fn law_trim_takes_space_off(a: Seq<char>, s: Seq<char>, b: Seq<char>)
    requires
        blank(a),
        blank(b),
        s.len() > 0 ==> !is_space(s[0]) && !is_space(s.last()),
    ensures
        trim(a + s + b) == s,
        trim_end(s + b) == s,
{
    lemma_trim_end(s, b);
    if s.len() > 0 {
        assert(a + s + b =~= a + (s + b));
        assert((s + b)[0] == s[0]);
        lemma_trim_start(a, s + b);
    } else {
        let all = a + s + b;
        assert forall|i: int| 0 <= i < all.len() implies is_space(#[trigger] all[i]) by {
            if i < a.len() {
                assert(all[i] == a[i]);
            } else {
                assert(all[i] == b[i - a.len()]);
            }
        }
        assert(all + s =~= all);
        lemma_trim_start(all, s);
        assert(trim_end(s) == s);
    }
}

/// Blanks, tabs and the ends of lines are space; no visible character of ASCII
/// is.
pub proof fn law_space_is_invisible(c: char)
    ensures
        is_space(' ') && is_space('\t') && is_space('\n') && is_space('\r'),
        '!' <= c <= '~' ==> !is_space(c),
{
}

/// What a digit of a hexadecimal number counts.
pub open spec fn counts(c: char) -> int {
    if c <= '9' {
        c as int - 48
    } else if c <= 'F' {
        c as int - 55
    } else {
        c as int - 87
    }
}

/// All characters are digits of a hexadecimal number.
pub open spec fn all_hex(text: Seq<char>) -> bool {
    forall|i: int|
        0 <= i < text.len() ==> ('0' <= #[trigger] text[i] <= '9' || 'a' <= text[i] <= 'f' || 'A'
            <= text[i] <= 'F')
}

/// The number that hexadecimal digits show.
pub open spec fn hex_shown(text: Seq<char>) -> int
    decreases text.len(),
{
    if text.len() == 0 {
        0
    } else {
        16 * hex_shown(text.drop_last()) + counts(text.last())
    }
}

proof fn lemma_hex_shown(text: Seq<char>)
    requires
        all_hex(text),
    ensures
        hex_shown(text) >= 0,
        digits_value(text, 16) == Some(hex_shown(text) as nat),
    decreases text.len(),
{
    if text.len() > 0 {
        let front = text.drop_last();
        assert forall|i: int| 0 <= i < front.len() implies ('0' <= #[trigger] front[i] <= '9'
            || 'a' <= front[i] <= 'f' || 'A' <= front[i] <= 'F') by {
            assert(front[i] == text[i]);
        }
        lemma_hex_shown(front);
        let c = text[text.len() - 1];
        assert('0' <= c <= '9' || 'a' <= c <= 'f' || 'A' <= c <= 'F');
        assert(digit_value(c, 16) == Some(counts(c) as nat));
    }
}

/// Hexadecimal digits of either case are read as the number that they show, if
/// that is in range.
pub proof fn law_hex_read_as_shown(text: Seq<char>, max: nat)
    requires
        all_hex(text),
    ensures
        parse_uint(text, 16, max) == (if text.len() > 0 && hex_shown(text) <= max {
            Some(hex_shown(text) as nat)
        } else {
            None
        }),
{
    lemma_hex_shown(text);
    if text.len() > 0 {
        assert(text[0] != '+');
    }
}

/// A number in hexadecimal shows that number, in lower case.
pub proof fn law_hex_shows_its_number(n: nat)
    ensures
        hex(n).len() > 0,
        all_hex(hex(n)),
        hex_shown(hex(n)) == n,
        forall|i: int| 0 <= i < hex(n).len() ==> !('A' <= #[trigger] hex(n)[i] <= 'F'),
    decreases n,
{
    if n < 16 {
        assert(hex(n).drop_last() =~= Seq::empty());
        reveal_with_fuel(hex_shown, 2);
    } else {
        law_hex_shows_its_number(n / 16);
        let s = hex(n);
        assert(s.drop_last() =~= hex(n / 16));
        assert forall|i: int| 0 <= i < s.len() implies ('0' <= #[trigger] s[i] <= '9' || 'a' <= s[i]
            <= 'f' || 'A' <= s[i] <= 'F') && !('A' <= s[i] <= 'F') by {
            if i < s.len() - 1 {
                assert(s[i] == hex(n / 16)[i]);
            }
        }
    }
}

/// A sign stands before a negative number, and nothing before another.
pub proof fn law_sign_in_front(n: nat)
    ensures
        signed_decimal(n as int) == decimal(n),
        n > 0 ==> signed_decimal(-n) == seq!['-'] + decimal(n),
{
    reveal_strlit("-");
    assert("-"@ =~= seq!['-']);
}

/// Joined texts have the separator between each two and nowhere else.
pub proof fn law_separator_between_texts(
    parts: Seq<Seq<char>>,
    part: Seq<char>,
    separator: Seq<char>,
)
    ensures
        joined_text(Seq::empty(), separator) == Seq::<char>::empty(),
        joined_text(seq![part], separator) == part,
        parts.len() > 0 ==> joined_text(parts.push(part), separator) == joined_text(
            parts,
            separator,
        ) + separator + part,
{
    assert(parts.push(part).drop_last() =~= parts);
}

} // verus!
