//! Character-level utilities the assembler is built on: comment stripping,
//! whitespace tokenization, hexadecimal literals, and decimal rendering.

use vstd::prelude::*;

verus! {

/// The whitespace characters that separate tokens of an assembly line.
pub open spec fn is_space(c: char) -> bool {
    c == ' ' || c == '\t' || c == '\r' || c == '\n'
}

/// The part of a line before its comment: everything up to the first `;`.
pub open spec fn before_comment(s: Seq<char>) -> Seq<char>
    decreases s.len(),
{
    if s.len() == 0 {
        Seq::empty()
    } else if s[0] == ';' {
        Seq::empty()
    } else {
        seq![s[0]] + before_comment(s.skip(1))
    }
}

/// The maximal run of non-space characters at the head of `s`.
pub open spec fn word(s: Seq<char>) -> Seq<char>
    decreases s.len(),
{
    if s.len() == 0 || is_space(s[0]) {
        Seq::empty()
    } else {
        seq![s[0]] + word(s.skip(1))
    }
}

/// The head word of a sequence is never longer than the sequence.
pub proof fn lemma_word_len(s: Seq<char>)
    ensures
        word(s).len() <= s.len(),
    decreases s.len(),
{
    if s.len() > 0 && !is_space(s[0]) {
        lemma_word_len(s.skip(1));
    }
}

/// The whitespace-separated tokens of `s`, in order.
pub open spec fn tokens(s: Seq<char>) -> Seq<Seq<char>>
    decreases s.len(),
    via tokens_decreases
{
    if s.len() == 0 {
        Seq::empty()
    } else if is_space(s[0]) {
        tokens(s.skip(1))
    } else {
        seq![word(s)] + tokens(s.skip(word(s).len() as int))
    }
}

#[via_fn]
proof fn tokens_decreases(s: Seq<char>) {
    if s.len() > 0 && !is_space(s[0]) {
        assert(word(s) == seq![s[0]] + word(s.skip(1)));
        assert(word(s).len() >= 1);
        lemma_word_len(s);
    }
}

/// The character views of a vector of strings.
pub open spec fn views(ts: Seq<String>) -> Seq<Seq<char>> {
    ts.map_values(|t: String| t@)
}

/// The tokens of an assembly line: its comment stripped, then split
/// on whitespace.
pub open spec fn line_tokens(line: Seq<char>) -> Seq<Seq<char>> {
    tokens(before_comment(line))
}

proof fn lemma_before_comment_take(s: Seq<char>, m: int)
    requires
        0 <= m <= s.len(),
        forall|j: int| 0 <= j < m ==> s[j] != ';',
        m == s.len() || s[m] == ';',
    ensures
        before_comment(s) == s.take(m),
    decreases m,
{
    if m == 0 {
        assert(before_comment(s) =~= s.take(0));
    } else {
        lemma_before_comment_take(s.skip(1), m - 1);
        assert(s.skip(1).take(m - 1) =~= s.take(m).skip(1));
        assert(before_comment(s) =~= seq![s[0]] + s.take(m).skip(1));
        assert(seq![s[0]] + s.take(m).skip(1) =~= s.take(m));
    }
}

proof fn lemma_word_take(s: Seq<char>, k: int)
    requires
        0 <= k <= s.len(),
        forall|j: int| 0 <= j < k ==> !is_space(s[j]),
        k == s.len() || is_space(s[k]),
    ensures
        word(s) == s.take(k),
    decreases k,
{
    if k == 0 {
        assert(word(s) =~= s.take(0));
    } else {
        lemma_word_take(s.skip(1), k - 1);
        assert(s.skip(1).take(k - 1) =~= s.take(k).skip(1));
        assert(word(s) =~= seq![s[0]] + s.take(k).skip(1));
        assert(seq![s[0]] + s.take(k).skip(1) =~= s.take(k));
    }
}

/// Whether a character separates tokens.
pub fn is_space_char(c: char) -> (r: bool)
    ensures
        r == is_space(c),
{
    c == ' ' || c == '\t' || c == '\r' || c == '\n'
}

/// Splits an assembly line into its tokens: the substring from the first
/// `;` onward is dropped and the rest is split on whitespace.
pub fn tokenize(line: &str) -> (toks: Vec<String>)
    ensures
        views(toks@) == line_tokens(line@),
{
    let n = line.unicode_len();

    // Find where the comment starts.
    let mut m: usize = 0;
    while m < n && line.get_char(m) != ';'
        invariant
            0 <= m <= n,
            n == line@.len(),
            forall|j: int| 0 <= j < m ==> line@[j] != ';',
        decreases n - m,
    {
        m = m + 1;
    }
    proof {
        lemma_before_comment_take(line@, m as int);
    }
    let ghost stripped: Seq<char> = line@.take(m as int);

    let mut toks: Vec<String> = Vec::new();
    proof {
        assert(views(toks@) =~= Seq::<Seq<char>>::empty());
        assert(stripped.skip(0) =~= stripped);
    }
    let mut i: usize = 0;
    while i < m
        invariant
            0 <= i <= m <= n,
            n == line@.len(),
            stripped == line@.take(m as int),
            before_comment(line@) == stripped,
            views(toks@) + tokens(stripped.skip(i as int)) == tokens(stripped),
        decreases m - i,
    {
        proof {
            assert(stripped[i as int] == line@[i as int]);
        }
        if is_space_char(line.get_char(i)) {
            proof {
                assert(stripped.skip(i as int)[0] == stripped[i as int]);
                assert(stripped.skip(i as int).skip(1) =~= stripped.skip(i + 1));
            }
            i = i + 1;
        } else {
            let start = i;
            i = i + 1;
            while i < m && !is_space_char(line.get_char(i))
                invariant
                    start < i <= m <= n,
                    n == line@.len(),
                    stripped == line@.take(m as int),
                    forall|j: int| start <= j < i ==> !is_space(#[trigger] stripped[j]),
                decreases m - i,
            {
                proof {
                    assert(stripped[i as int] == line@[i as int]);
                }
                i = i + 1;
            }
            let tok = line.substring_char(start, i).to_owned();
            proof {
                if i < m {
                    assert(stripped[i as int] == line@[i as int]);
                }
                let tail = stripped.skip(start as int);
                assert(forall|j: int| 0 <= j < i - start ==> tail[j] == stripped[start + j]
                    && !is_space(tail[j]));
                assert(i - start == tail.len() || is_space(tail[i - start]));
                lemma_word_take(tail, i - start);
                assert(tail.take(i - start) =~= line@.subrange(start as int, i as int));
                assert(tok@ == word(tail));
                assert(!is_space(tail[0]));
                assert(tokens(tail) == seq![word(tail)] + tokens(tail.skip(word(tail).len() as int)));
                assert(tail.skip(word(tail).len() as int) =~= stripped.skip(i as int));
                assert(views(toks@.push(tok)) =~= views(toks@).push(tok@));
                assert(views(toks@).push(tok@) + tokens(stripped.skip(i as int))
                    =~= views(toks@) + tokens(tail));
            }
            toks.push(tok);
        }
    }
    proof {
        assert(stripped.skip(m as int) =~= Seq::<char>::empty());
        assert(views(toks@) + tokens(stripped.skip(m as int)) =~= views(toks@));
    }
    toks
}

/// The value of a hexadecimal digit character, if it is one.
pub open spec fn hex_digit(c: char) -> Option<u8> {
    let u = c as u32;
    if 48 <= u <= 57 {
        // '0' to '9'
        Some((u - 48) as u8)
    } else if 97 <= u <= 102 {
        // 'a' to 'f'
        Some((u - 87) as u8)
    } else if 65 <= u <= 70 {
        // 'A' to 'F'
        Some((u - 55) as u8)
    } else {
        None
    }
}

/// The value of a string of hexadecimal digits, most significant first;
/// `None` if any character is not a digit. The empty string has value 0.
pub open spec fn hex_value(s: Seq<char>) -> Option<nat>
    decreases s.len(),
{
    if s.len() == 0 {
        Some(0)
    } else {
        match (hex_value(s.take(s.len() - 1)), hex_digit(s.last())) {
            (Some(v), Some(d)) => Some((16 * v + d) as nat),
            _ => None,
        }
    }
}

/// The value of a hex literal token `0x…` with 1 to `max_digits` digits;
/// `None` if the prefix or a digit is missing or there are too many digits.
pub open spec fn hex_literal(s: Seq<char>, max_digits: int) -> Option<nat> {
    if 3 <= s.len() <= 2 + max_digits && s[0] == '0' && s[1] == 'x' {
        hex_value(s.skip(2))
    } else {
        None
    }
}

/// A string of hex digits is worth less than 16 to the power of its length.
pub proof fn lemma_hex_value_bound(s: Seq<char>, v: nat)
    requires
        hex_value(s) == Some(v),
    ensures
        s.len() == 0 ==> v == 0,
        s.len() == 1 ==> v < 16,
        s.len() == 2 ==> v < 256,
        s.len() == 3 ==> v < 4096,
        s.len() <= 4 ==> v < 65536,
    decreases s.len(),
{
    if s.len() > 0 {
        let pre = s.take(s.len() - 1);
        let v0 = hex_value(pre)->Some_0;
        lemma_hex_value_bound(pre, v0);
    }
}

/// Parses the digits of a hex token after the `0x` prefix.
fn hex_digits_value(tok: &str, n: usize) -> (r: Option<u32>)
    requires
        n == tok@.len(),
        3 <= n <= 6,
    ensures
        match r {
            Some(v) => hex_value(tok@.skip(2)) == Some(v as nat),
            None => hex_value(tok@.skip(2)) is None,
        },
{
    proof {
        assert(tok@.subrange(2, 2) =~= Seq::<char>::empty());
    }
    let mut acc: u32 = 0;
    let mut i: usize = 2;
    while i < n
        invariant
            2 <= i <= n <= 6,
            n == tok@.len(),
            hex_value(tok@.subrange(2, i as int)) == Some(acc as nat),
            acc < 0x100000,
        decreases n - i,
    {
        proof {
            lemma_hex_value_bound(tok@.subrange(2, i as int), acc as nat);
        }
        let c = tok.get_char(i);
        let u = c as u32;
        let d: u32 = if 48 <= u && u <= 57 {
            u - 48
        } else if 97 <= u && u <= 102 {
            u - 87
        } else if 65 <= u && u <= 70 {
            u - 55
        } else {
            proof {
                let whole = tok@.skip(2);
                lemma_hex_none_extends(whole, i - 2);
            }
            return None;
        };
        proof {
            let sub1 = tok@.subrange(2, i + 1);
            assert(sub1.take(sub1.len() - 1) =~= tok@.subrange(2, i as int));
            assert(sub1.last() == tok@[i as int]);
        }
        acc = acc * 16 + d;
        i = i + 1;
        proof {
            lemma_hex_value_bound(tok@.subrange(2, i as int), acc as nat);
        }
    }
    proof {
        assert(tok@.subrange(2, n as int) =~= tok@.skip(2));
    }
    Some(acc)
}

/// If a digit at position `k` is not hex, the whole digit string has no value.
proof fn lemma_hex_none_extends(s: Seq<char>, k: int)
    requires
        0 <= k < s.len(),
        hex_digit(s[k]) is None,
    ensures
        hex_value(s) is None,
    decreases s.len(),
{
    if s.len() > 0 {
        if k == s.len() - 1 {
        } else {
            lemma_hex_none_extends(s.take(s.len() - 1), k);
        }
    }
}

/// Parses a `0x…` byte literal of one or two digits.
pub fn parse_hex_u8(tok: &str) -> (r: Option<u8>)
    ensures
        match r {
            Some(v) => hex_literal(tok@, 2) == Some(v as nat),
            None => hex_literal(tok@, 2) is None,
        },
{
    let n = tok.unicode_len();
    if n < 3 || n > 4 {
        return None;
    }
    if tok.get_char(0) != '0' || tok.get_char(1) != 'x' {
        return None;
    }
    match hex_digits_value(tok, n) {
        Some(v) => {
            proof {
                lemma_hex_value_bound(tok@.skip(2), v as nat);
            }
            Some(v as u8)
        },
        None => None,
    }
}

/// Parses a `0x…` address literal of one to four digits.
pub fn parse_hex_u16(tok: &str) -> (r: Option<u16>)
    ensures
        match r {
            Some(v) => hex_literal(tok@, 4) == Some(v as nat),
            None => hex_literal(tok@, 4) is None,
        },
{
    let n = tok.unicode_len();
    if n < 3 || n > 6 {
        return None;
    }
    if tok.get_char(0) != '0' || tok.get_char(1) != 'x' {
        return None;
    }
    match hex_digits_value(tok, n) {
        Some(v) => {
            proof {
                lemma_hex_value_bound(tok@.skip(2), v as nat);
            }
            Some(v as u16)
        },
        None => None,
    }
}

/// Whether a token starts with the `0x` hex prefix.
pub fn has_hex_prefix(tok: &str) -> (r: bool)
    ensures
        r == (tok@.len() >= 2 && tok@[0] == '0' && tok@[1] == 'x'),
{
    let n = tok.unicode_len();
    if n < 2 {
        return false;
    }
    tok.get_char(0) == '0' && tok.get_char(1) == 'x'
}

/// The decimal rendering of a number, most significant digit first.
pub open spec fn dec_str(n: nat) -> Seq<char>
    decreases n,
{
    if n < 10 {
        seq![digit_char(n)]
    } else {
        dec_str(n / 10) + seq![digit_char(n % 10)]
    }
}

/// The character of a single decimal digit.
pub open spec fn digit_char(d: nat) -> char {
    if d == 0 {
        '0'
    } else if d == 1 {
        '1'
    } else if d == 2 {
        '2'
    } else if d == 3 {
        '3'
    } else if d == 4 {
        '4'
    } else if d == 5 {
        '5'
    } else if d == 6 {
        '6'
    } else if d == 7 {
        '7'
    } else if d == 8 {
        '8'
    } else {
        '9'
    }
}

fn digit_str(d: usize) -> (r: &'static str)
    requires
        d < 10,
    ensures
        r@ =~= seq![digit_char(d as nat)],
{
    proof {
        reveal_strlit("0");
        reveal_strlit("1");
        reveal_strlit("2");
        reveal_strlit("3");
        reveal_strlit("4");
        reveal_strlit("5");
        reveal_strlit("6");
        reveal_strlit("7");
        reveal_strlit("8");
        reveal_strlit("9");
    }
    if d == 0 {
        "0"
    } else if d == 1 {
        "1"
    } else if d == 2 {
        "2"
    } else if d == 3 {
        "3"
    } else if d == 4 {
        "4"
    } else if d == 5 {
        "5"
    } else if d == 6 {
        "6"
    } else if d == 7 {
        "7"
    } else if d == 8 {
        "8"
    } else {
        "9"
    }
}

/// Renders a number in decimal.
pub fn usize_to_string(n: usize) -> (r: String)
    ensures
        r@ == dec_str(n as nat),
    decreases n,
{
    if n < 10 {
        String::from_str(digit_str(n))
    } else {
        let mut s = usize_to_string(n / 10);
        s.append(digit_str(n % 10));
        s
    }
}

} // verus!
