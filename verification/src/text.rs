//! Small string utilities with exact contracts: equality, decimal
//! formatting and the first line of a text.

use vstd::prelude::*;

verus! {

/// Whether two string slices hold the same characters.
pub fn str_eq(a: &str, b: &str) -> (r: bool)
    ensures
        r == (a@ == b@),
{
    let x = a.to_string();
    let y = b.to_string();
    x == y
}

/// The character of a decimal digit.
pub open spec fn digit_char(d: nat) -> char {
    if d == 0 { '0' }
    else if d == 1 { '1' }
    else if d == 2 { '2' }
    else if d == 3 { '3' }
    else if d == 4 { '4' }
    else if d == 5 { '5' }
    else if d == 6 { '6' }
    else if d == 7 { '7' }
    else if d == 8 { '8' }
    else { '9' }
}

/// The value of a decimal digit character (0 for any other character).
pub open spec fn digit_value(c: char) -> nat {
    if c == '1' { 1 }
    else if c == '2' { 2 }
    else if c == '3' { 3 }
    else if c == '4' { 4 }
    else if c == '5' { 5 }
    else if c == '6' { 6 }
    else if c == '7' { 7 }
    else if c == '8' { 8 }
    else if c == '9' { 9 }
    else { 0 }
}

/// Whether a character is one of `0` to `9`.
pub open spec fn is_digit(c: char) -> bool {
    '0' <= c && c <= '9'
}

/// The decimal text of a natural number: no sign, no leading zeros.
pub open spec fn decimal_spec(n: nat) -> Seq<char>
    decreases n,
{
    if n < 10 {
        seq![digit_char(n)]
    } else {
        decimal_spec(n / 10).push(digit_char(n % 10))
    }
}

/// The number that a text of decimal digits denotes.
pub open spec fn decimal_value(s: Seq<char>) -> nat
    decreases s.len(),
{
    if s.len() == 0 {
        0
    } else {
        decimal_value(s.drop_last()) * 10 + digit_value(s.last())
    }
}

fn digit_str(d: u32) -> (r: &'static str)
    requires
        d < 10,
    ensures
        r@ == seq![digit_char(d as nat)],
{
    proof {
        reveal_strlit("0");
        reveal_strlit("1");
        reveal_strlit("2");
        reveal_strlit("3");
        reveal_strlit("4");
        reveal_strlit("5");
        reveal_strlit("6");
        reveal_strlit("7");
        reveal_strlit("8");
        reveal_strlit("9");
    }
    match d {
        0 => "0",
        1 => "1",
        2 => "2",
        3 => "3",
        4 => "4",
        5 => "5",
        6 => "6",
        7 => "7",
        8 => "8",
        _ => "9",
    }
}

/// The decimal text of `n`, as `n.to_string()` writes it.
pub fn decimal_string(n: u32) -> (r: String)
    ensures
        r@ == decimal_spec(n as nat),
    decreases n,
{
    if n < 10 {
        digit_str(n).to_string()
    } else {
        let mut s = decimal_string(n / 10);
        s.append(digit_str(n % 10));
        s
    }
}

/// Decimal text reads back as the number it was written from, holds digits
/// only, and has no leading zero.
pub proof fn lemma_decimal_roundtrip(n: nat)
    ensures
        decimal_value(decimal_spec(n)) == n,
        decimal_spec(n).len() > 0,
        forall|i: int| 0 <= i < decimal_spec(n).len() ==> is_digit(#[trigger] decimal_spec(n)[i]),
        decimal_spec(n).len() > 1 ==> decimal_spec(n)[0] != '0',
        n >= 10 ==> decimal_spec(n).len() > 1,
        n == 0 <==> decimal_spec(n) == seq!['0'],
    decreases n,
{
    if n < 10 {
        lemma_digit(n);
        let s = seq![digit_char(n)];
        assert(s.drop_last() =~= Seq::<char>::empty());
        assert(decimal_value(s.drop_last()) == 0);
        assert(s.last() == digit_char(n));
        assert(decimal_value(s) == digit_value(digit_char(n)));
    } else {
        lemma_decimal_roundtrip(n / 10);
        lemma_digit(n % 10);
        assert(decimal_spec(n).drop_last() =~= decimal_spec(n / 10));
        assert(n == (n / 10) * 10 + n % 10);
        assert(decimal_spec(n)[0] == decimal_spec(n / 10)[0]);
        if n / 10 < 10 {
            lemma_digit(n / 10);
            assert(decimal_spec(n / 10)[0] == digit_char(n / 10));
        } else {
            assert(decimal_spec(n / 10).len() > 1);
        }
        assert(decimal_spec(n).len() > 1);
    }
}

proof fn lemma_digit(d: nat)
    requires
        d < 10,
    ensures
        digit_value(digit_char(d)) == d,
        is_digit(digit_char(d)),
{
}

/// The position of the first `'\n'` in `s`, or its length when it has none.
pub open spec fn newline_position(s: Seq<char>) -> nat
    decreases s.len(),
{
    if s.len() == 0 {
        0
    } else if s[0] == '\n' {
        0
    } else {
        1 + newline_position(s.drop_first())
    }
}

/// The first line of `s`, as `str::lines` yields it: the text before the
/// first `'\n'`, less a `'\r'` that stands right before that `'\n'`; the
/// whole text when it holds no `'\n'`; empty for an empty text.
pub open spec fn first_line_spec(s: Seq<char>) -> Seq<char> {
    let k = newline_position(s);
    let line = s.take(k as int);
    if k < s.len() && line.len() > 0 && line.last() == '\r' {
        line.drop_last()
    } else {
        line
    }
}

proof fn lemma_newline_position(s: Seq<char>)
    ensures
        newline_position(s) <= s.len(),
        newline_position(s) < s.len() ==> s[newline_position(s) as int] == '\n',
        forall|j: int| 0 <= j < newline_position(s) ==> s[j] != '\n',
    decreases s.len(),
{
    if s.len() > 0 && s[0] != '\n' {
        lemma_newline_position(s.drop_first());
        assert forall|j: int| 0 <= j < newline_position(s) implies s[j] != '\n' by {
            if j > 0 {
                assert(s[j] == s.drop_first()[j - 1]);
            }
        }
    }
}

proof fn lemma_newline_position_is(s: Seq<char>, k: nat)
    requires
        k <= s.len(),
        k < s.len() ==> s[k as int] == '\n',
        forall|j: int| 0 <= j < k ==> s[j] != '\n',
    ensures
        newline_position(s) == k,
    decreases k,
{
    if k > 0 {
        assert forall|j: int| 0 <= j < k - 1 implies s.drop_first()[j] != '\n' by {
            assert(s.drop_first()[j] == s[j + 1]);
        }
        lemma_newline_position_is(s.drop_first(), (k - 1) as nat);
    }
}

/// The first line of a text has no line break in it.
pub proof fn lemma_first_line_has_no_newline(s: Seq<char>)
    ensures
        forall|j: int| 0 <= j < first_line_spec(s).len() ==> first_line_spec(s)[j] != '\n',
        first_line_spec(s).len() <= s.len(),
{
    lemma_newline_position(s);
}

/// The first line of `s`, as `s.lines().next()` gives it (empty for an
/// empty text).
pub fn first_line(s: &str) -> (r: String)
    ensures
        r@ == first_line_spec(s@),
{
    let n = s.unicode_len();
    let mut k: usize = 0;
    let mut end: usize = n;
    while k < end
        invariant
            n == s@.len(),
            k <= end <= n,
            forall|j: int| 0 <= j < k ==> s@[j] != '\n',
            end < n ==> end == k && s@[k as int] == '\n',
        decreases end - k,
    {
        if s.get_char(k) == '\n' {
            end = k;
        } else {
            k = k + 1;
        }
    }
    proof {
        lemma_newline_position_is(s@, k as nat);
    }
    if k < n && k > 0 && s.get_char(k - 1) == '\r' {
        s.substring_char(0, k - 1).to_string()
    } else {
        s.substring_char(0, k).to_string()
    }
}

/// The views of a sequence of strings.
pub open spec fn string_views(v: Seq<String>) -> Seq<Seq<char>> {
    v.map_values(|s: String| s@)
}

/// Appends a copy of `s` to a list of strings.
pub fn push_text(v: &mut Vec<String>, s: &str)
    ensures
        string_views(final(v)@) == string_views(old(v)@).push(s@),
{
    v.push(s.to_string());
    assert(string_views(v@) =~= string_views(old(v)@).push(s@));
}

/// Whether a character has the Unicode `White_Space` property, the
/// white space that `str::trim` and `char::is_whitespace` go by.
pub open spec fn is_white_space(c: char) -> bool {
    let u = c as u32;
    ||| 0x9 <= u <= 0xd
    ||| u == 0x20
    ||| u == 0x85
    ||| u == 0xa0
    ||| u == 0x1680
    ||| 0x2000 <= u <= 0x200a
    ||| u == 0x2028
    ||| u == 0x2029
    ||| u == 0x202f
    ||| u == 0x205f
    ||| u == 0x3000
}

/// The text less its leading white space.
pub open spec fn strip_start(s: Seq<char>) -> Seq<char>
    decreases s.len(),
{
    if s.len() > 0 && is_white_space(s[0]) {
        strip_start(s.drop_first())
    } else {
        s
    }
}

/// The text less its trailing white space.
pub open spec fn strip_end(s: Seq<char>) -> Seq<char>
    decreases s.len(),
{
    if s.len() > 0 && is_white_space(s.last()) {
        strip_end(s.drop_last())
    } else {
        s
    }
}

/// The text less its leading and trailing white space, as `str::trim`
/// leaves it.
pub open spec fn trim_spec(s: Seq<char>) -> Seq<char> {
    strip_end(strip_start(s))
}

/// Whether a character has the Unicode `White_Space` property.
pub fn white_space(c: char) -> (r: bool)
    ensures
        r == is_white_space(c),
{
    let u = c as u32;
    (0x9 <= u && u <= 0xd) || u == 0x20 || u == 0x85 || u == 0xa0 || u == 0x1680 || (0x2000 <= u && u
        <= 0x200a) || u == 0x2028 || u == 0x2029 || u == 0x202f || u == 0x205f || u == 0x3000
}

proof fn lemma_strip_start_step(s: Seq<char>, i: int)
    requires
        0 <= i < s.len(),
        is_white_space(s[i]),
    ensures
        strip_start(s.skip(i)) == strip_start(s.skip(i + 1)),
{
    assert(s.skip(i).drop_first() =~= s.skip(i + 1));
}

proof fn lemma_strip_end_step(s: Seq<char>, i: int, j: int)
    requires
        0 <= i < j <= s.len(),
        is_white_space(s[j - 1]),
    ensures
        strip_end(s.subrange(i, j)) == strip_end(s.subrange(i, j - 1)),
{
    assert(s.subrange(i, j).drop_last() =~= s.subrange(i, j - 1));
}

/// The text less its leading and trailing white space, as `s.trim()`
/// gives it.
pub fn trim(s: &str) -> (r: String)
    ensures
        r@ == trim_spec(s@),
{
    let n = s.unicode_len();
    let mut i: usize = 0;
    let mut stop: usize = n;
    assert(s@.skip(0) =~= s@);
    while i < stop
        invariant
            n == s@.len(),
            i <= stop <= n,
            strip_start(s@) == strip_start(s@.skip(i as int)),
            stop < n ==> stop == i && !is_white_space(s@[i as int]),
        decreases stop - i,
    {
        if white_space(s.get_char(i)) {
            proof {
                lemma_strip_start_step(s@, i as int);
            }
            i = i + 1;
        } else {
            stop = i;
        }
    }
    assert(strip_start(s@) == s@.skip(i as int));
    let mut j: usize = n;
    let mut low: usize = i;
    assert(s@.skip(i as int) =~= s@.subrange(i as int, n as int));
    while low < j
        invariant
            n == s@.len(),
            i <= low <= j <= n,
            strip_end(s@.skip(i as int)) == strip_end(s@.subrange(i as int, j as int)),
            low > i ==> low == j && !is_white_space(s@[j - 1]),
        decreases j - low,
    {
        if white_space(s.get_char(j - 1)) {
            proof {
                lemma_strip_end_step(s@, i as int, j as int);
            }
            j = j - 1;
        } else {
            low = j;
        }
    }
    assert(strip_end(s@.subrange(i as int, j as int)) == s@.subrange(i as int, j as int));
    s.substring_char(i, j).to_string()
}

proof fn lemma_strip_start_head(s: Seq<char>)
    ensures
        strip_start(s).len() > 0 ==> !is_white_space(strip_start(s)[0]),
    decreases s.len(),
{
    if s.len() > 0 && is_white_space(s[0]) {
        lemma_strip_start_head(s.drop_first());
    }
}

proof fn lemma_strip_end_prefix(s: Seq<char>)
    ensures
        strip_end(s).len() <= s.len(),
        strip_end(s) == s.take(strip_end(s).len() as int),
    decreases s.len(),
{
    if s.len() > 0 && is_white_space(s.last()) {
        lemma_strip_end_prefix(s.drop_last());
        assert(s.drop_last().take(strip_end(s).len() as int) =~= s.take(strip_end(s).len() as int));
    } else {
        assert(s.take(s.len() as int) =~= s);
    }
}

/// Trimmed text that is not empty starts with a character that is not
/// white space.
pub proof fn lemma_trimmed_head(s: Seq<char>)
    ensures
        trim_spec(s).len() > 0 ==> !is_white_space(trim_spec(s)[0]),
{
    lemma_strip_start_head(s);
    lemma_strip_end_prefix(strip_start(s));
}

/// The first line of a text that starts with a character other than white
/// space is not empty and starts with that character.
pub proof fn lemma_first_line_head(s: Seq<char>)
    requires
        s.len() > 0,
        !is_white_space(s[0]),
    ensures
        first_line_spec(s).len() > 0,
        first_line_spec(s)[0] == s[0],
{
    lemma_newline_position(s);
    assert(s[0] != '\n');
    let k = newline_position(s);
    assert(k >= 1);
}

/// The first line of a text is a prefix of it, and is the whole text when
/// the text has no line break.
pub proof fn lemma_first_line_prefix(s: Seq<char>)
    ensures
        first_line_spec(s) == s.take(first_line_spec(s).len() as int),
        (forall|j: int| 0 <= j < s.len() ==> s[j] != '\n') ==> first_line_spec(s) == s,
{
    lemma_newline_position(s);
    let k = newline_position(s);
    if (forall|j: int| 0 <= j < s.len() ==> s[j] != '\n') {
        assert(k == s.len());
        assert(s.take(k as int) =~= s);
    }
    let line = s.take(k as int);
    if k < s.len() && line.len() > 0 && line.last() == '\r' {
        assert(line.drop_last() =~= s.take(k - 1));
    }
}

} // verus!
