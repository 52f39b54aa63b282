//! Text as sequences of characters: splitting, numbers, joining.
use vstd::prelude::*;

verus! {

/// Appends a character: `String::push` as its documentation has it.
pub assume_specification[ String::push ](s: &mut String, c: char)
    ensures
        final(s)@ == old(s)@.push(c),
;

/// Takes the last character off: `String::pop` as its documentation has it.
pub assume_specification[ String::pop ](s: &mut String) -> (c: Option<char>)
    ensures
        old(s)@.len() == 0 ==> c is None && final(s)@ == old(s)@,
        old(s)@.len() > 0 ==> c == Some(old(s)@.last()) && final(s)@ == old(s)@.drop_last(),
;

/// The characters of a text.
pub fn chars_of(s: &str) -> (chars: Vec<char>)
    ensures
        chars@ == s@,
{
    let mut chars: Vec<char> = Vec::new();
    for c in it: s.chars()
        invariant
            chars@ == s@.take(it.index() as int),
            it.seq() == s@,
    {
        chars.push(c);
        assert(chars@ =~= s@.take(it.index() + 1));
    }
    assert(s@.take(s@.len() as int) =~= s@);
    chars
}

/// The text that some characters make.
pub fn string_of(chars: &[char]) -> (s: String)
    ensures
        s@ == chars@,
{
    let mut s = String::new();
    let mut n: usize = 0;
    while n < chars.len()
        invariant
            n <= chars.len(),
            s@ == chars@.take(n as int),
        decreases chars.len() - n,
    {
        s.push(chars[n]);
        n = n + 1;
        assert(s@ =~= chars@.take(n as int));
    }
    assert(chars@.take(n as int) =~= chars@);
    s
}

/// Whether two sequences of characters are the same.
pub fn same_chars(a: &[char], b: &[char]) -> (r: bool)
    ensures
        r == (a@ == b@),
{
    if a.len() != b.len() {
        return false;
    }
    let mut n: usize = 0;
    while n < a.len()
        invariant
            a.len() == b.len(),
            n <= a.len(),
            forall|i: int| 0 <= i < n ==> a@[i] == b@[i],
        decreases a.len() - n,
    {
        if a[n] != b[n] {
            return false;
        }
        n = n + 1;
    }
    assert(a@ =~= b@);
    true
}

/// Whether two texts are the same.
pub fn same_text(a: &str, b: &str) -> (r: bool)
    ensures
        r == (a@ == b@),
{
    let x = chars_of(a);
    let y = chars_of(b);
    same_chars(x.as_slice(), y.as_slice())
}

/// A copy of a text.
pub fn copy_text(s: &str) -> (r: String)
    ensures
        r@ == s@,
{
    let mut r = String::new();
    r.append(s);
    assert(r@ =~= s@);
    r
}

/// Whether a text starts with another.
pub open spec fn has_prefix(s: Seq<char>, prefix: Seq<char>) -> bool {
    prefix.len() <= s.len() && s.take(prefix.len() as int) == prefix
}

/// The rest of a text behind a prefix, if it has that prefix.
pub open spec fn after_prefix(s: Seq<char>, prefix: Seq<char>) -> Option<Seq<char>> {
    if has_prefix(s, prefix) {
        Some(s.skip(prefix.len() as int))
    } else {
        None
    }
}

/// A slice of characters by its view.
pub open spec fn slice_view(s: Option<&[char]>) -> Option<Seq<char>> {
    match s {
        Some(s) => Some(s@),
        None => None,
    }
}

/// The rest of a text behind a prefix, if it has that prefix.
pub fn strip_chars<'a>(s: &'a [char], prefix: &str) -> (r: Option<&'a [char]>)
    ensures
        slice_view(r) == after_prefix(s@, prefix@),
{
    let p = chars_of(prefix);
    if p.len() > s.len() {
        return None;
    }
    let head = vstd::slice::slice_subrange(s, 0, p.len());
    assert(head@ =~= s@.take(p.len() as int));
    if same_chars(head, p.as_slice()) {
        let tail = vstd::slice::slice_subrange(s, p.len(), s.len());
        assert(tail@ =~= s@.skip(p.len() as int));
        Some(tail)
    } else {
        None
    }
}

/// The place of the first occurrence of a character, or the length.
pub open spec fn find_char(s: Seq<char>, c: char) -> int
    decreases s.len(),
{
    if s.len() == 0 || s[0] == c {
        0
    } else {
        1 + find_char(s.skip(1), c)
    }
}

pub proof fn lemma_find_char(s: Seq<char>, c: char)
    ensures
        0 <= find_char(s, c) <= s.len(),
        find_char(s, c) < s.len() ==> s[find_char(s, c)] == c,
        forall|i: int| 0 <= i < find_char(s, c) ==> s[i] != c,
        find_char(s, c) < s.len() <==> s.contains(c),
    decreases s.len(),
{
    if s.len() > 0 && s[0] != c {
        lemma_find_char(s.skip(1), c);
        let n = find_char(s.skip(1), c);
        assert forall|i: int| 0 <= i < n + 1 implies s[i] != c by {
            if i > 0 {
                assert(s[i] == s.skip(1)[i - 1]);
            }
        }
        if s.contains(c) {
            let i = s.index_of(c);
            assert(s.skip(1)[i - 1] == c);
        }
        if n + 1 < s.len() {
            assert(s.skip(1)[n] == s[n + 1]);
        }
    }
}

/// The place where the character is and was not before is the first.
pub proof fn lemma_find_char_at(s: Seq<char>, c: char, n: int)
    requires
        0 <= n <= s.len(),
        forall|i: int| 0 <= i < n ==> s[i] != c,
        n < s.len() ==> s[n] == c,
    ensures
        find_char(s, c) == n,
{
    lemma_find_char(s, c);
    let m = find_char(s, c);
    if m < n {
        assert(s[m] == c);
    }
    if n < m {
        assert(s[n] != c);
    }
}

/// The place of the first occurrence of a character, or the length.
pub fn position_of(s: &[char], c: char) -> (n: usize)
    ensures
        n == find_char(s@, c),
        n <= s@.len(),
{
    let mut n: usize = 0;
    while n < s.len()
        invariant
            n <= s.len(),
            forall|i: int| 0 <= i < n ==> s@[i] != c,
        decreases s.len() - n,
    {
        if s[n] == c {
            proof {
                lemma_find_char_at(s@, c, n as int);
            }
            return n;
        }
        n = n + 1;
    }
    proof {
        lemma_find_char_at(s@, c, n as int);
    }
    n
}

/// The parts of a text between the occurrences of a character.
pub open spec fn split(s: Seq<char>, c: char) -> Seq<Seq<char>>
    decreases s.len(),
{
    let n = find_char(s, c);
    if 0 <= n < s.len() {
        seq![s.take(n)] + split(s.skip(n + 1), c)
    } else {
        seq![s]
    }
}

/// The views of some texts.
pub open spec fn text_views(parts: Seq<Vec<char>>) -> Seq<Seq<char>> {
    Seq::new(parts.len(), |i: int| parts[i]@)
}

/// The parts of a text between the occurrences of a character.
pub fn split_chars(s: &[char], c: char) -> (parts: Vec<Vec<char>>)
    ensures
        text_views(parts@) == split(s@, c),
        parts@.len() > 0,
{
    let mut parts: Vec<Vec<char>> = Vec::new();
    let mut start: usize = 0;
    assert(s@.skip(0) =~= s@);
    assert(text_views(parts@) =~= Seq::empty());
    assert(Seq::<Seq<char>>::empty() + split(s@, c) =~= split(s@, c));
    loop
        invariant_except_break
            start <= s.len(),
            text_views(parts@) + split(s@.skip(start as int), c) == split(s@, c),
        ensures
            text_views(parts@) == split(s@, c),
            parts@.len() > 0,
        decreases s.len() - start,
    {
        let ghost before = text_views(parts@);
        let rest = vstd::slice::slice_subrange(s, start, s.len());
        assert(rest@ =~= s@.skip(start as int));
        let n: usize = position_of(rest, c);
        let part = vstd::slice::slice_to_vec(vstd::slice::slice_subrange(rest, 0, n));
        assert(part@ =~= rest@.take(n as int));
        parts.push(part);
        assert(text_views(parts@) =~= before.push(part@));
        if n == rest.len() {
            assert(part@ =~= rest@);
            assert(split(rest@, c) =~= seq![rest@]);
            assert(before + seq![rest@] =~= before.push(part@));
            break;
        }
        proof {
            assert(rest@.skip(n + 1) =~= s@.skip(start + n + 1));
            assert(before + (seq![part@] + split(rest@.skip(n + 1), c)) =~= before.push(part@)
                + split(rest@.skip(n + 1), c));
        }
        start = start + n + 1;
    }
    parts
}

/// A line without the carriage return that ends it.
pub open spec fn without_cr(line: Seq<char>) -> Seq<char> {
    if line.len() > 0 && line.last() == '\r' {
        line.drop_last()
    } else {
        line
    }
}

/// The lines of a text, which end in a newline or a carriage return and a
/// newline; the last one may end with the text.
pub open spec fn lines(s: Seq<char>) -> Seq<Seq<char>>
    decreases s.len(),
{
    let n = find_char(s, '\n');
    if s.len() == 0 {
        seq![]
    } else if 0 <= n < s.len() {
        seq![without_cr(s.take(n))] + lines(s.skip(n + 1))
    } else {
        seq![s]
    }
}

/// The lines of a text.
pub fn lines_of(s: &[char]) -> (parts: Vec<Vec<char>>)
    ensures
        text_views(parts@) == lines(s@),
{
    let mut parts: Vec<Vec<char>> = Vec::new();
    let mut at: usize = 0;
    assert(s@.skip(0) =~= s@);
    assert(text_views(parts@) + lines(s@) =~= lines(s@));
    while at < s.len()
        invariant
            at <= s.len(),
            text_views(parts@) + lines(s@.skip(at as int)) == lines(s@),
        decreases s.len() - at,
    {
        let ghost before = text_views(parts@);
        let rest = vstd::slice::slice_subrange(s, at, s.len());
        assert(rest@ =~= s@.skip(at as int));
        let n: usize = position_of(rest, '\n');
        let mut end: usize = n;
        let mut next: usize = s.len();
        if n < rest.len() {
            if n > 0 && rest[n - 1] == '\r' {
                end = n - 1;
            }
            next = at + n + 1;
        }
        let part = vstd::slice::slice_to_vec(vstd::slice::slice_subrange(rest, 0, end));
        proof {
            assert(text_views(parts@.push(part)) =~= before.push(part@));
            if n < rest@.len() {
                assert(part@ =~= without_cr(rest@.take(n as int)));
                assert(rest@.skip(n + 1) =~= s@.skip(next as int));
                assert(before + (seq![part@] + lines(s@.skip(next as int))) =~= before.push(part@)
                    + lines(s@.skip(next as int)));
            } else {
                assert(part@ =~= rest@);
                assert(s@.skip(next as int).len() == 0);
                assert(before + seq![part@] =~= before.push(part@) + lines(s@.skip(next as int)));
            }
        }
        parts.push(part);
        at = next;
    }
    assert(s@.skip(at as int).len() == 0);
    assert(text_views(parts@) + seq![] =~= text_views(parts@));
    parts
}

/// The value of a digit, if the character is one in the radix.
pub open spec fn digit_value(c: char, radix: nat) -> Option<nat> {
    let n = if '0' <= c <= '9' {
        (c as nat - '0' as nat) as nat
    } else if 'a' <= c <= 'z' {
        (c as nat - 'a' as nat + 10) as nat
    } else if 'A' <= c <= 'Z' {
        (c as nat - 'A' as nat + 10) as nat
    } else {
        radix
    };
    if n < radix {
        Some(n)
    } else {
        None
    }
}

/// The number that a row of digits writes.
pub open spec fn digits_value(s: Seq<char>, radix: nat) -> Option<nat>
    decreases s.len(),
{
    if s.len() == 0 {
        Some(0)
    } else {
        match (digits_value(s.drop_last(), radix), digit_value(s.last(), radix)) {
            (Some(high), Some(low)) => Some(high * radix + low),
            _ => None,
        }
    }
}

/// The unsigned number that a text writes, as the parsers of the standard
/// library read it: one or more digits behind an optional plus sign, no
/// greater than `max`.
pub open spec fn parse_uint(s: Seq<char>, radix: nat, max: nat) -> Option<nat> {
    let body = if s.len() > 0 && s[0] == '+' {
        s.skip(1)
    } else {
        s
    };
    if body.len() == 0 {
        None
    } else {
        match digits_value(body, radix) {
            Some(n) => if n <= max {
                Some(n)
            } else {
                None
            },
            None => None,
        }
    }
}

/// The value of a digit, if the character is one in the radix.
fn digit_of(c: char, radix: u32) -> (r: Option<u32>)
    requires
        2 <= radix <= 36,
    ensures
        match r {
            Some(v) => digit_value(c, radix as nat) == Some(v as nat) && v < radix,
            None => digit_value(c, radix as nat) is None,
        },
{
    let n: u32 = if '0' <= c && c <= '9' {
        c as u32 - '0' as u32
    } else if 'a' <= c && c <= 'z' {
        c as u32 - 'a' as u32 + 10
    } else if 'A' <= c && c <= 'Z' {
        c as u32 - 'A' as u32 + 10
    } else {
        radix
    };
    if n < radix {
        Some(n)
    } else {
        None
    }
}

proof fn lemma_prefix_too_big(s: Seq<char>, radix: nat, n: int, max: nat)
    requires
        0 <= n <= s.len(),
        radix >= 1,
        digits_value(s.take(n), radix) is None || digits_value(s.take(n), radix)->0 > max,
    ensures
        digits_value(s, radix) is None || digits_value(s, radix)->0 > max,
    decreases s.len() - n,
{
    if n == s.len() {
        assert(s.take(n) =~= s);
    } else {
        assert(s.take(n + 1).drop_last() =~= s.take(n));
        if let Some(high) = digits_value(s.take(n), radix) {
            assert(high * radix >= high) by (nonlinear_arith)
                requires
                    radix >= 1,
            ;
        }
        lemma_prefix_too_big(s, radix, n + 1, max);
    }
}

/// Parses an unsigned number no greater than `max`.
pub fn parse_number(s: &[char], radix: u32, max: u64) -> (r: Option<u64>)
    requires
        2 <= radix <= 36,
        max <= 0xffff_ffff,
    ensures
        match r {
            Some(v) => parse_uint(s@, radix as nat, max as nat) == Some(v as nat) && v <= max,
            None => parse_uint(s@, radix as nat, max as nat) is None,
        },
{
    let start: usize = if s.len() > 0 && s[0] == '+' {
        1
    } else {
        0
    };
    let body = vstd::slice::slice_subrange(s, start, s.len());
    proof {
        assert(s@.subrange(0, s@.len() as int) =~= s@);
        if start == 1 {
            assert(body@ =~= s@.skip(1));
        }
    }
    if body.len() == 0 {
        return None;
    }
    let mut value: u64 = 0;
    let mut n: usize = 0;
    assert(body@.take(0) =~= Seq::empty());
    while n < body.len()
        invariant
            n <= body.len(),
            2 <= radix <= 36,
            max <= 0xffff_ffff,
            value <= max,
            digits_value(body@.take(n as int), radix as nat) == Some(value as nat),
            body@ == (if s@.len() > 0 && s@[0] == '+' {
                s@.skip(1)
            } else {
                s@
            }),
            body@.len() > 0,
        decreases body.len() - n,
    {
        proof {
            assert(body@.take(n + 1).drop_last() =~= body@.take(n as int));
            assert(body@.take(n + 1).last() == body@[n as int]);
        }
        match digit_of(body[n], radix) {
            Some(d) => {
                assert(value * radix <= 0xffff_ffff * 36) by (nonlinear_arith)
                    requires
                        value <= 0xffff_ffff,
                        radix <= 36,
                ;
                value = value * radix as u64 + d as u64;
                if value > max {
                    proof {
                        lemma_prefix_too_big(body@, radix as nat, n + 1, max as nat);
                    }
                    return None;
                }
            },
            None => {
                proof {
                    lemma_prefix_too_big(body@, radix as nat, n + 1, max as nat);
                }
                return None;
            },
        }
        n = n + 1;
    }
    assert(body@.take(n as int) =~= body@);
    Some(value)
}

/// Parses a decimal `u32`.
pub fn parse_u32(s: &[char]) -> (r: Option<u32>)
    ensures
        match r {
            Some(v) => parse_uint(s@, 10, u32::MAX as nat) == Some(v as nat),
            None => parse_uint(s@, 10, u32::MAX as nat) is None,
        },
{
    match parse_number(s, 10, 0xffff_ffff) {
        Some(v) => Some(v as u32),
        None => None,
    }
}

/// A number in decimal digits.
pub open spec fn decimal(n: nat) -> Seq<char>
    decreases n,
{
    if n < 10 {
        seq![(n + '0' as nat) as char]
    } else {
        decimal(n / 10).push((n % 10 + '0' as nat) as char)
    }
}

/// Appends a decimal digit.
fn push_digit(s: &mut String, d: u8)
    requires
        d < 10,
    ensures
        final(s)@ == old(s)@.push((d as nat + '0' as nat) as char),
{
    s.push((d + 48u8) as char);
}

/// Appends a number in decimal digits.
pub fn push_decimal(s: &mut String, n: u64)
    ensures
        final(s)@ == old(s)@ + decimal(n as nat),
    decreases n,
{
    let ghost before = s@;
    if n < 10 {
        push_digit(s, n as u8);
        assert(s@ =~= before + decimal(n as nat));
    } else {
        push_decimal(s, n / 10);
        push_digit(s, (n % 10) as u8);
        assert(s@ =~= before + decimal(n as nat));
    }
}

/// A whole number in decimal, with its sign if it is negative.
pub open spec fn signed_decimal(n: int) -> Seq<char> {
    if n < 0 {
        "-"@ + decimal((-n) as nat)
    } else {
        decimal(n as nat)
    }
}

/// Appends a whole number in decimal.
pub fn push_signed(s: &mut String, n: i64)
    ensures
        final(s)@ == old(s)@ + signed_decimal(n as int),
{
    if n < 0 {
        s.append("-");
        push_decimal(s, (-(n + 1)) as u64 + 1);
        assert(s@ =~= old(s)@ + signed_decimal(n as int));
    } else {
        push_decimal(s, n as u64);
    }
}

/// A text occurs in another at a place.
pub open spec fn occurs_at(s: Seq<char>, part: Seq<char>, at: int) -> bool {
    0 <= at && at + part.len() <= s.len() && s.subrange(at, at + part.len()) == part
}

/// A text occurs in another.
pub open spec fn has_text(s: Seq<char>, part: Seq<char>) -> bool {
    exists|at: int| #[trigger] occurs_at(s, part, at)
}

/// Whether a text occurs in another.
pub fn contains_text(s: &str, part: &str) -> (r: bool)
    ensures
        r == has_text(s@, part@),
{
    let whole = chars_of(s);
    let wanted = chars_of(part);
    if wanted.len() > whole.len() {
        return false;
    }
    let last: usize = whole.len() - wanted.len();
    let mut at: usize = 0;
    loop
        invariant
            whole@ == s@,
            wanted@ == part@,
            wanted.len() <= whole.len(),
            last == whole.len() - wanted.len(),
            at <= last,
            forall|i: int| 0 <= i < at ==> !#[trigger] occurs_at(s@, part@, i),
        decreases last - at,
    {
        let piece = vstd::slice::slice_subrange(whole.as_slice(), at, at + wanted.len());
        if same_chars(piece, wanted.as_slice()) {
            assert(occurs_at(s@, part@, at as int));
            return true;
        }
        assert(!occurs_at(s@, part@, at as int));
        if at == last {
            return false;
        }
        at = at + 1;
    }
}

/// The number of bytes of a text in UTF-8.
pub open spec fn byte_len(s: Seq<char>) -> nat {
    vstd::utf8::encode_utf8(s).len()
}

/// The number of bytes of a text in UTF-8.
pub fn text_len(s: &str) -> (n: usize)
    ensures
        n == byte_len(s@),
{
    s.as_bytes().len()
}

/// The character is a control character in Unicode.
pub open spec fn is_control(c: char) -> bool {
    let n = c as u32;
    n <= 0x1f || 0x7f <= n <= 0x9f
}

/// Whether the character is a control character in Unicode.
pub fn control_char(c: char) -> (r: bool)
    ensures
        r == is_control(c),
{
    let n: u32 = c as u32;
    n <= 0x1f || (0x7f <= n && n <= 0x9f)
}

/// A number in decimal digits.
pub fn decimal_text(n: u64) -> (s: String)
    ensures
        s@ == decimal(n as nat),
{
    let mut s = String::new();
    push_decimal(&mut s, n);
    assert(s@ =~= decimal(n as nat));
    s
}

/// A decimal number is a row of digits that reads back as the number.
pub proof fn lemma_decimal_reads_back(n: nat)
    ensures
        decimal(n).len() > 0,
        digits_value(decimal(n), 10) == Some(n),
        forall|i: int| 0 <= i < decimal(n).len() ==> '0' <= #[trigger] decimal(n)[i] <= '9',
    decreases n,
{
    if n < 10 {
        let s = decimal(n);
        assert(s.drop_last() =~= Seq::empty());
        reveal_with_fuel(digits_value, 2);
        assert(digit_value(s.last(), 10) == Some(n));
    } else {
        lemma_decimal_reads_back(n / 10);
        let s = decimal(n);
        assert(s.drop_last() =~= decimal(n / 10));
        assert(digit_value(s.last(), 10) == Some(n % 10));
    }
}

/// Texts one after the other, with a separator between them.
pub open spec fn joined_text(parts: Seq<Seq<char>>, separator: Seq<char>) -> Seq<char>
    decreases parts.len(),
{
    if parts.len() == 0 {
        Seq::empty()
    } else if parts.len() == 1 {
        parts[0]
    } else {
        joined_text(parts.drop_last(), separator) + separator + parts.last()
    }
}

/// The views of some strings.
pub open spec fn string_views(parts: Seq<String>) -> Seq<Seq<char>> {
    Seq::new(parts.len(), |i: int| parts[i]@)
}

/// Joins texts with a separator between them.
pub fn join_text(parts: &Vec<String>, separator: &str) -> (s: String)
    ensures
        s@ == joined_text(string_views(parts@), separator@),
{
    let mut s = String::new();
    let mut n: usize = 0;
    let ghost views = string_views(parts@);
    assert(views.take(0) =~= Seq::empty());
    while n < parts.len()
        invariant
            n <= parts.len(),
            views == string_views(parts@),
            s@ == joined_text(views.take(n as int), separator@),
        decreases parts.len() - n,
    {
        let ghost before = s@;
        proof {
            assert(views.take(n + 1).drop_last() =~= views.take(n as int));
            assert(views.take(n + 1).last() == parts@[n as int]@);
        }
        if n > 0 {
            s.append(separator);
        }
        s.append(parts[n].as_str());
        proof {
            if n == 0 {
                assert(before =~= Seq::empty());
                assert(s@ =~= joined_text(views.take(n + 1), separator@));
            } else {
                assert(s@ =~= joined_text(views.take(n + 1), separator@));
            }
        }
        n = n + 1;
    }
    assert(views.take(n as int) =~= views);
    s
}

/// The character is white space in Unicode.
pub open spec fn is_space(c: char) -> bool {
    let n = c as u32;
    ||| 0x09 <= n <= 0x0d
    ||| n == 0x20
    ||| n == 0x85
    ||| n == 0xa0
    ||| n == 0x1680
    ||| 0x2000 <= n <= 0x200a
    ||| n == 0x2028
    ||| n == 0x2029
    ||| n == 0x202f
    ||| n == 0x205f
    ||| n == 0x3000
}

/// Whether the character is white space in Unicode.
pub fn space_char(c: char) -> (r: bool)
    ensures
        r == is_space(c),
{
    let n: u32 = c as u32;
    (0x09 <= n && n <= 0x0d) || n == 0x20 || n == 0x85 || n == 0xa0 || n == 0x1680 || (0x2000 <= n
        && n <= 0x200a) || n == 0x2028 || n == 0x2029 || n == 0x202f || n == 0x205f || n == 0x3000
}

/// A text without the white space at its end.
pub open spec fn trim_end(s: Seq<char>) -> Seq<char>
    decreases s.len(),
{
    if s.len() > 0 && is_space(s.last()) {
        trim_end(s.drop_last())
    } else {
        s
    }
}

/// A text without the white space at its start.
pub open spec fn trim_start(s: Seq<char>) -> Seq<char>
    decreases s.len(),
{
    if s.len() > 0 && is_space(s[0]) {
        trim_start(s.skip(1))
    } else {
        s
    }
}

/// A text without the white space around it.
pub open spec fn trim(s: Seq<char>) -> Seq<char> {
    trim_end(trim_start(s))
}

/// A text without the white space at its end.
pub fn trim_end_chars<'a>(s: &'a [char]) -> (r: &'a [char])
    ensures
        r@ == trim_end(s@),
{
    let mut n: usize = s.len();
    assert(s@.take(n as int) =~= s@);
    while n > 0 && space_char(s[n - 1])
        invariant
            n <= s.len(),
            trim_end(s@.take(n as int)) == trim_end(s@),
        decreases n,
    {
        assert(s@.take(n as int).drop_last() =~= s@.take(n - 1));
        n = n - 1;
    }
    let r = vstd::slice::slice_subrange(s, 0, n);
    assert(r@ =~= s@.take(n as int));
    r
}

/// A text without the white space around it.
pub fn trim_chars<'a>(s: &'a [char]) -> (r: &'a [char])
    ensures
        r@ == trim(s@),
{
    let mut n: usize = 0;
    assert(s@.skip(0) =~= s@);
    while n < s.len() && space_char(s[n])
        invariant
            n <= s.len(),
            trim_start(s@.skip(n as int)) == trim_start(s@),
        decreases s.len() - n,
    {
        assert(s@.skip(n as int).skip(1) =~= s@.skip(n + 1));
        n = n + 1;
    }
    let rest = vstd::slice::slice_subrange(s, n, s.len());
    assert(rest@ =~= s@.skip(n as int));
    trim_end_chars(rest)
}

/// A digit of a number in hexadecimal.
pub open spec fn hex_digit(n: nat) -> char {
    if n < 10 {
        (n + '0' as nat) as char
    } else {
        (n - 10 + 'a' as nat) as char
    }
}

/// A number in lower-case hexadecimal digits.
pub open spec fn hex(n: nat) -> Seq<char>
    decreases n,
{
    if n < 16 {
        seq![hex_digit(n)]
    } else {
        hex(n / 16).push(hex_digit(n % 16))
    }
}

fn push_hex_digit(s: &mut String, d: u8)
    requires
        d < 16,
    ensures
        final(s)@ == old(s)@.push(hex_digit(d as nat)),
{
    if d < 10 {
        s.push((d + 48u8) as char);
    } else {
        s.push((d - 10u8 + 97u8) as char);
    }
}

/// Appends a number in lower-case hexadecimal digits.
pub fn push_hex(s: &mut String, n: u64)
    ensures
        final(s)@ == old(s)@ + hex(n as nat),
    decreases n,
{
    let ghost before = s@;
    if n < 16 {
        push_hex_digit(s, n as u8);
        assert(s@ =~= before + hex(n as nat));
    } else {
        push_hex(s, n / 16);
        push_hex_digit(s, (n % 16) as u8);
        assert(s@ =~= before + hex(n as nat));
    }
}

} // verus!
