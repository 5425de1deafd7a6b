//! Character-level text utilities: string equality, whitespace tokenization,
//! line splitting, header separators, joining, and decimal numerals.
//!
//! Everything here works on `&str` / `String` values whose mathematical
//! meaning is a `Seq<char>`; each executable function is proved against a
//! spec function over those sequences.

use vstd::prelude::*;

verus! {

/// Character-by-character equality of two string slices.
pub fn str_eq(a: &str, b: &str) -> (r: bool)
    ensures
        r == (a@ == b@),
{
    let n = a.unicode_len();
    if n != b.unicode_len() {
        return false;
    }
    let mut i: usize = 0;
    while i < n
        invariant
            n == a@.len(),
            n == b@.len(),
            i <= n,
            forall|k: int| 0 <= k < i ==> a@[k] == b@[k],
        decreases n - i,
    {
        if a.get_char(i) != b.get_char(i) {
            return false;
        }
        i = i + 1;
    }
    proof {
        assert(a@ =~= b@);
    }
    true
}

/// ASCII whitespace, the separators recognized when a request or status line
/// is split into tokens.
pub open spec fn is_ws(c: char) -> bool {
    c == ' ' || c == '\t' || c == '\r' || c == '\n'
}

/// Executable test for [`is_ws`].
pub fn is_ws_char(c: char) -> (r: bool)
    ensures
        r == is_ws(c),
{
    c == ' ' || c == '\t' || c == '\r' || c == '\n'
}

/// Length of the maximal leading run of non-whitespace characters.
pub open spec fn tok_len(s: Seq<char>) -> nat
    decreases s.len(),
{
    if s.len() == 0 || is_ws(s[0]) {
        0
    } else {
        (1 + tok_len(s.drop_first())) as nat
    }
}

/// The leading token is never longer than the line, and is non-empty exactly
/// when the line starts with a non-whitespace character.
pub proof fn lemma_tok_len_bounds(s: Seq<char>)
    ensures
        tok_len(s) <= s.len(),
        s.len() > 0 && !is_ws(s[0]) ==> tok_len(s) >= 1,
    decreases s.len(),
{
    if s.len() > 0 && !is_ws(s[0]) {
        lemma_tok_len_bounds(s.drop_first());
    }
}

/// The whitespace-separated tokens of a line, in order, with all whitespace
/// removed and no empty tokens.
pub open spec fn tokens(s: Seq<char>) -> Seq<Seq<char>>
    decreases s.len(),
    via tokens_decreases
{
    if s.len() == 0 {
        Seq::empty()
    } else if is_ws(s[0]) {
        tokens(s.drop_first())
    } else {
        seq![s.take(tok_len(s) as int)] + tokens(s.skip(tok_len(s) as int))
    }
}

#[via_fn]
proof fn tokens_decreases(s: Seq<char>) {
    if s.len() > 0 && !is_ws(s[0]) {
        lemma_tok_len_bounds(s);
    }
}

/// Skipping a leading whitespace character leaves the tokens unchanged.
proof fn lemma_tokens_skip_ws(s: Seq<char>, i: int)
    requires
        0 <= i < s.len(),
        is_ws(s[i]),
    ensures
        tokens(s.skip(i)) == tokens(s.skip(i + 1)),
{
    assert(s.skip(i).drop_first() =~= s.skip(i + 1));
}

/// A run of non-whitespace characters bounded by whitespace (or the end of
/// the line) is exactly the leading token length.
proof fn lemma_tok_len_run(t: Seq<char>, m: int)
    requires
        0 <= m <= t.len(),
        forall|k: int| 0 <= k < m ==> !is_ws(t[k]),
        m == t.len() || is_ws(t[m]),
    ensures
        tok_len(t) == m,
    decreases m,
{
    if m > 0 {
        assert(!is_ws(t[0]));
        lemma_tok_len_run(t.drop_first(), m - 1);
    }
}

/// At a non-whitespace position `i` whose token runs to `j`, the tokens of
/// the suffix at `i` are that token followed by the tokens of the suffix at
/// `j`.
proof fn lemma_tokens_take_tok(s: Seq<char>, i: int, j: int)
    requires
        0 <= i < j <= s.len(),
        forall|k: int| i <= k < j ==> !is_ws(s[k]),
        j == s.len() || is_ws(s[j]),
    ensures
        tokens(s.skip(i)) == seq![s.subrange(i, j)] + tokens(s.skip(j)),
{
    let t = s.skip(i);
    assert(forall|k: int| 0 <= k < j - i ==> t[k] == s[k + i] && !is_ws(t[k]));
    if j < s.len() {
        assert(t[j - i] == s[j]);
    }
    lemma_tok_len_run(t, j - i);
    assert(t.take(j - i) =~= s.subrange(i, j));
    assert(t.skip(j - i) =~= s.skip(j));
}

/// Split a line into its whitespace-separated tokens.
pub fn split_ws(s: &str) -> (toks: Vec<String>)
    ensures
        toks.deep_view() == tokens(s@),
{
    let n = s.unicode_len();
    let mut toks: Vec<String> = Vec::new();
    let mut i: usize = 0;
    proof {
        assert(s@.skip(0) =~= s@);
        assert(toks.deep_view() =~= Seq::<Seq<char>>::empty());
        assert(toks.deep_view() + tokens(s@) =~= tokens(s@));
    }
    while i < n
        invariant
            n == s@.len(),
            i <= n,
            tokens(s@) == toks.deep_view() + tokens(s@.skip(i as int)),
        decreases n - i,
    {
        if is_ws_char(s.get_char(i)) {
            proof {
                lemma_tokens_skip_ws(s@, i as int);
            }
            i = i + 1;
        } else {
            let start = i;
            let mut j = i + 1;
            while j < n && !is_ws_char(s.get_char(j))
                invariant
                    n == s@.len(),
                    start < j <= n,
                    forall|k: int| start <= k < j ==> !is_ws(s@[k]),
                decreases n - j,
            {
                j = j + 1;
            }
            let tok = s.substring_char(start, j).to_owned();
            let ghost before = toks.deep_view();
            let ghost tok_view = tok@;
            toks.push(tok);
            proof {
                lemma_tokens_take_tok(s@, start as int, j as int);
                assert(toks.deep_view() =~= before.push(tok_view));
                assert(before + (seq![tok_view] + tokens(s@.skip(j as int)))
                    =~= before.push(tok_view) + tokens(s@.skip(j as int)));
            }
            i = j;
        }
    }
    proof {
        assert(s@.skip(n as int) =~= Seq::<char>::empty());
        assert(toks.deep_view() + tokens(Seq::<char>::empty()) =~= toks.deep_view());
    }
    toks
}

/// The position of the first `": "` separator at or after position `i`.
pub open spec fn first_sep_from(s: Seq<char>, i: int) -> Option<int>
    decreases s.len() - i,
{
    if i < 0 || i + 2 > s.len() {
        None
    } else if s[i] == ':' && s[i + 1] == ' ' {
        Some(i)
    } else {
        first_sep_from(s, i + 1)
    }
}

/// The position of the first `": "` separator in a line, if any.
pub open spec fn first_sep(s: Seq<char>) -> Option<int> {
    first_sep_from(s, 0)
}

/// Split a header line at its first `": "` into name and value. Lines
/// without the separator yield `None`.
pub fn split_header(line: &str) -> (r: Option<(String, String)>)
    ensures
        (r is Some) == (first_sep(line@) is Some),
        r matches Some(kv) ==> first_sep(line@) matches Some(p)
            && kv.0@ == line@.take(p) && kv.1@ == line@.skip(p + 2),
{
    let n = line.unicode_len();
    if n < 2 {
        return None;
    }
    let mut i: usize = 0;
    while i <= n - 2
        invariant
            n == line@.len(),
            2 <= n,
            i <= n,
            first_sep(line@) == first_sep_from(line@, i as int),
        decreases n - i,
    {
        if line.get_char(i) == ':' && line.get_char(i + 1) == ' ' {
            let key = line.substring_char(0, i).to_owned();
            let value = line.substring_char(i + 2, n).to_owned();
            return Some((key, value));
        }
        i = i + 1;
    }
    None
}

/// The first `i` lines joined with a single `'\n'` between adjacent lines.
pub open spec fn joined_upto(lines: Seq<Seq<char>>, i: int) -> Seq<char>
    decreases i,
{
    if i <= 0 {
        Seq::empty()
    } else if i == 1 {
        lines[0]
    } else {
        joined_upto(lines, i - 1) + "\n"@ + lines[i - 1]
    }
}

/// All lines at or after `start` joined with `'\n'`.
pub open spec fn joined_from(lines: Seq<Seq<char>>, start: int) -> Seq<char> {
    joined_upto(lines.skip(start), lines.len() - start)
}

/// Join the lines at or after `start` with `'\n'`, as the body of a parsed
/// message is assembled.
pub fn join_from(lines: &Vec<String>, start: usize) -> (r: String)
    requires
        start <= lines@.len(),
    ensures
        r@ == joined_from(lines.deep_view(), start as int),
{
    let ghost suffix = lines.deep_view().skip(start as int);
    let mut out = String::new();
    let mut k = start;
    proof {
        assert(out@ =~= joined_upto(suffix, 0));
    }
    while k < lines.len()
        invariant
            start <= k <= lines@.len(),
            suffix == lines.deep_view().skip(start as int),
            out@ == joined_upto(suffix, k - start),
        decreases lines@.len() - k,
    {
        if k > start {
            out.append("\n");
        }
        out.append(lines[k].as_str());
        proof {
            assert(lines.deep_view()[k as int] == lines@[k as int]@);
            assert(suffix[k - start] == lines.deep_view()[k as int]);
            if k == start {
                assert(joined_upto(suffix, 1) == suffix[0]);
                assert(out@ =~= joined_upto(suffix, 1));
            }
        }
        k = k + 1;
    }
    out
}

/// The decimal digit character for a value below ten.
pub open spec fn digit_char(d: int) -> char {
    if d == 0 {
        '0'
    } else if d == 1 {
        '1'
    } else if d == 2 {
        '2'
    } else if d == 3 {
        '3'
    } else if d == 4 {
        '4'
    } else if d == 5 {
        '5'
    } else if d == 6 {
        '6'
    } else if d == 7 {
        '7'
    } else if d == 8 {
        '8'
    } else {
        '9'
    }
}

/// The usual decimal numeral of a non-negative integer, without leading
/// zeros (except for `0` itself).
pub open spec fn dec_text(n: int) -> Seq<char>
    decreases n,
{
    if n < 0 {
        Seq::empty()
    } else if n < 10 {
        seq![digit_char(n)]
    } else {
        dec_text(n / 10) + seq![digit_char(n % 10)]
    }
}

/// The one-character string of a decimal digit.
fn digit_str(d: usize) -> (r: &'static str)
    requires
        d < 10,
    ensures
        r@ == seq![digit_char(d as int)],
{
    proof {
        reveal_strlit("0");
        reveal_strlit("1");
        reveal_strlit("2");
        reveal_strlit("3");
        reveal_strlit("4");
        reveal_strlit("5");
        reveal_strlit("6");
        reveal_strlit("7");
        reveal_strlit("8");
        reveal_strlit("9");
        assert("0"@ =~= seq!['0']);
        assert("1"@ =~= seq!['1']);
        assert("2"@ =~= seq!['2']);
        assert("3"@ =~= seq!['3']);
        assert("4"@ =~= seq!['4']);
        assert("5"@ =~= seq!['5']);
        assert("6"@ =~= seq!['6']);
        assert("7"@ =~= seq!['7']);
        assert("8"@ =~= seq!['8']);
        assert("9"@ =~= seq!['9']);
    }
    match d {
        0 => "0",
        1 => "1",
        2 => "2",
        3 => "3",
        4 => "4",
        5 => "5",
        6 => "6",
        7 => "7",
        8 => "8",
        _ => "9",
    }
}

/// Append the decimal numeral of `n` to `out`.
pub fn push_decimal(out: &mut String, n: usize)
    ensures
        final(out)@ == old(out)@ + dec_text(n as int),
    decreases n,
{
    if n < 10 {
        out.append(digit_str(n));
    } else {
        push_decimal(out, n / 10);
        out.append(digit_str(n % 10));
        proof {
            assert(old(out)@ + dec_text((n / 10) as int) + seq![digit_char((n % 10) as int)]
                =~= old(out)@ + dec_text(n as int));
        }
    }
}

/// Whether a character is a decimal digit.
pub open spec fn is_digit(c: char) -> bool {
    '0' <= c && c <= '9'
}

/// The numeric value of a digit character.
pub open spec fn digit_val(c: char) -> int {
    c as u32 - '0' as u32
}

/// Whether every character of a sequence is a decimal digit.
pub open spec fn all_digits(s: Seq<char>) -> bool {
    forall|k: int| 0 <= k < s.len() ==> is_digit(s[k])
}

/// The value of a digit sequence read as a decimal numeral.
pub open spec fn digits_val(s: Seq<char>) -> int
    decreases s.len(),
{
    if s.len() == 0 {
        0
    } else {
        digits_val(s.drop_last()) * 10 + digit_val(s.last())
    }
}

/// The `u16` a string denotes: at least one character, all digits, and a
/// value that fits. Everything else (signs included) is rejected.
pub open spec fn u16_of_text(s: Seq<char>) -> Option<u16> {
    if s.len() > 0 && all_digits(s) && digits_val(s) <= u16::MAX {
        Some(digits_val(s) as u16)
    } else {
        None
    }
}

/// A decimal numeral made only of digits has a non-negative value.
proof fn lemma_digits_val_nonneg(s: Seq<char>)
    requires
        all_digits(s),
    ensures
        digits_val(s) >= 0,
    decreases s.len(),
{
    if s.len() > 0 {
        assert(all_digits(s.drop_last()));
        lemma_digits_val_nonneg(s.drop_last());
    }
}

/// Extending an all-digit numeral never shrinks its value.
proof fn lemma_digits_val_grows(s: Seq<char>, i: int)
    requires
        0 <= i <= s.len(),
        all_digits(s),
    ensures
        digits_val(s) >= digits_val(s.take(i)),
    decreases s.len() - i,
{
    if i < s.len() {
        assert(all_digits(s.take(i)));
        lemma_digits_val_nonneg(s.take(i));
        assert(s.take(i + 1).drop_last() =~= s.take(i));
        assert(s.take(i + 1).last() == s[i]);
        lemma_digits_val_grows(s, i + 1);
    } else {
        assert(s.take(i) =~= s);
    }
}

/// Parse a string as an unsigned 16-bit decimal numeral.
pub fn parse_u16(s: &str) -> (r: Option<u16>)
    ensures
        r == u16_of_text(s@),
{
    let n = s.unicode_len();
    if n == 0 {
        return None;
    }
    let mut acc: u32 = 0;
    let mut i: usize = 0;
    proof {
        assert(s@.take(0) =~= Seq::<char>::empty());
    }
    while i < n
        invariant
            n == s@.len(),
            i <= n,
            acc <= u16::MAX,
            forall|k: int| 0 <= k < i ==> is_digit(s@[k]),
            acc == digits_val(s@.take(i as int)),
        decreases n - i,
    {
        let c = s.get_char(i);
        if !(c >= '0' && c <= '9') {
            assert(!is_digit(s@[i as int]));
            return None;
        }
        let d = c as u32 - '0' as u32;
        acc = acc * 10 + d;
        proof {
            assert(s@.take(i + 1).drop_last() =~= s@.take(i as int));
            assert(s@.take(i + 1).last() == s@[i as int]);
        }
        i = i + 1;
        if acc > 65535 {
            proof {
                if all_digits(s@) {
                    lemma_digits_val_grows(s@, i as int);
                }
            }
            return None;
        }
    }
    proof {
        assert(s@.take(n as int) =~= s@);
    }
    Some(acc as u16)
}

/// A line piece with one trailing carriage return removed.
pub open spec fn strip_cr(line: Seq<char>) -> Seq<char> {
    if line.len() > 0 && line.last() == '\r' {
        line.drop_last()
    } else {
        line
    }
}

/// The lines of a text: pieces split at `'\n'`, each with one `'\r'`
/// immediately before the `'\n'` removed; a final piece after the last
/// `'\n'` is kept verbatim, and a trailing `'\n'` opens no extra empty line.
pub open spec fn split_lines(s: Seq<char>) -> Seq<Seq<char>>
    decreases s.len(),
{
    if s.len() == 0 {
        Seq::empty()
    } else if s[0] == '\n' {
        seq![Seq::<char>::empty()] + split_lines(s.skip(1))
    } else if s[0] == '\r' && s.len() >= 2 && s[1] == '\n' {
        seq![Seq::<char>::empty()] + split_lines(s.skip(2))
    } else {
        let rest = split_lines(s.skip(1));
        if rest.len() == 0 {
            seq![seq![s[0]]]
        } else {
            seq![seq![s[0]] + rest[0]] + rest.skip(1)
        }
    }
}

/// Scanning to the first `'\n'` (at `j`, or the end) peels off exactly the
/// first line.
proof fn lemma_split_lines_first(t: Seq<char>, j: int)
    requires
        t.len() > 0,
        0 <= j <= t.len(),
        forall|k: int| 0 <= k < j ==> t[k] != '\n',
        j == t.len() || t[j] == '\n',
    ensures
        j == t.len() ==> split_lines(t) == seq![t],
        j < t.len() ==> split_lines(t) == seq![strip_cr(t.take(j))] + split_lines(t.skip(j + 1)),
    decreases j,
{
    reveal_with_fuel(split_lines, 2);
    if j == 0 {
        assert(t[0] == '\n');
        assert(strip_cr(t.take(0)) =~= Seq::<char>::empty());
    } else if t[0] == '\r' && t.len() >= 2 && t[1] == '\n' {
        assert(j == 1);
        assert(t.take(1) =~= seq!['\r']);
        assert(strip_cr(t.take(1)) =~= Seq::<char>::empty());
        assert(t.skip(2) =~= t.skip(j + 1));
    } else {
        let t2 = t.skip(1);
        if t2.len() == 0 {
            assert(j == 1 && j == t.len());
            assert(seq![t[0]] =~= t);
        } else {
            assert(forall|k: int| 0 <= k < j - 1 ==> t2[k] == t[k + 1] && t2[k] != '\n');
            if j < t.len() {
                assert(t2[j - 1] == t[j]);
            }
            lemma_split_lines_first(t2, j - 1);
            let rest = split_lines(t2);
            if j == t.len() {
                assert(rest == seq![t2]);
                assert(seq![t[0]] + t2 =~= t);
                assert(seq![seq![t[0]] + rest[0]] + rest.skip(1) =~= seq![t]);
            } else {
                assert(rest == seq![strip_cr(t2.take(j - 1))] + split_lines(t2.skip(j)));
                assert(rest[0] == strip_cr(t2.take(j - 1)));
                assert(t2.take(j - 1) =~= t.take(j).skip(1));
                if t.take(j).last() == '\r' {
                    assert(j >= 2) by {
                        if j == 1 {
                            assert(t[0] == '\r' && t[1] == '\n');
                        }
                    }
                    assert(seq![t[0]] + strip_cr(t2.take(j - 1)) =~= strip_cr(t.take(j)));
                } else {
                    assert(seq![t[0]] + strip_cr(t2.take(j - 1)) =~= strip_cr(t.take(j)));
                }
                assert(rest.skip(1) == split_lines(t2.skip(j)));
                assert(t2.skip(j) =~= t.skip(j + 1));
                assert(seq![seq![t[0]] + rest[0]] + rest.skip(1)
                    =~= seq![strip_cr(t.take(j))] + split_lines(t.skip(j + 1)));
            }
        }
    }
}

/// Split a text into its lines, as the response parser sees them.
pub fn split_lines_vec(s: &str) -> (lines: Vec<String>)
    ensures
        lines.deep_view() == split_lines(s@),
{
    let n = s.unicode_len();
    let mut lines: Vec<String> = Vec::new();
    let mut i: usize = 0;
    proof {
        assert(s@.skip(0) =~= s@);
        assert(lines.deep_view() =~= Seq::<Seq<char>>::empty());
        assert(lines.deep_view() + split_lines(s@) =~= split_lines(s@));
    }
    while i < n
        invariant
            n == s@.len(),
            i <= n,
            split_lines(s@) == lines.deep_view() + split_lines(s@.skip(i as int)),
        decreases n - i,
    {
        let start = i;
        let mut j = i;
        while j < n && s.get_char(j) != '\n'
            invariant
                n == s@.len(),
                start <= j <= n,
                forall|k: int| start <= k < j ==> s@[k] != '\n',
            decreases n - j,
        {
            j = j + 1;
        }
        let mut endx = j;
        if j < n && endx > start && s.get_char(endx - 1) == '\r' {
            endx = endx - 1;
        }
        let line = s.substring_char(start, endx).to_owned();
        let ghost before = lines.deep_view();
        let ghost lv = line@;
        lines.push(line);
        proof {
            let t = s@.skip(start as int);
            assert(forall|k: int| 0 <= k < j - start ==> t[k] == s@[k + start]);
            if j < n {
                assert(t[j - start] == s@[j as int]);
            }
            lemma_split_lines_first(t, j - start);
            assert(t.take(j - start) =~= s@.subrange(start as int, j as int));
            assert(lines.deep_view() =~= before.push(lv));
            if j < n {
                assert(lv =~= strip_cr(t.take(j - start)));
                assert(t.skip(j - start + 1) =~= s@.skip(j + 1));
                assert(before + (seq![lv] + split_lines(s@.skip(j + 1)))
                    =~= before.push(lv) + split_lines(s@.skip(j + 1)));
            } else {
                assert(lv =~= t);
                assert(split_lines(s@.skip(n as int)) =~= Seq::<Seq<char>>::empty());
                assert(s@.skip(n as int) =~= Seq::<char>::empty());
                assert(before + seq![lv] =~= before.push(lv) + split_lines(s@.skip(n as int)));
            }
        }
        if j < n {
            i = j + 1;
        } else {
            i = j;
        }
    }
    proof {
        assert(s@.skip(n as int) =~= Seq::<char>::empty());
        assert(lines.deep_view() + split_lines(Seq::<char>::empty()) =~= lines.deep_view());
    }
    lines
}

} // verus!
