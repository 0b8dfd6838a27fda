//! Small verified text utilities: scanning for a separator character,
//! decimal rendering of integers, and decimal parsing, used by the
//! configuration round-trip of the fixture order and by topic parsing.
use vstd::prelude::*;

verus! {

/// The position of the first occurrence of `c` in `s` at or after `from`,
/// or the length of `s` if there is none.
pub open spec fn next_char_pos(s: Seq<char>, from: int, c: char) -> int
    decreases s.len() - from,
{
    if from < 0 || from >= s.len() {
        s.len() as int
    } else if s[from] == c {
        from
    } else {
        next_char_pos(s, from + 1, c)
    }
}

/// What `next_char_pos` finds: a position bounded by the scan range that
/// holds the character, with no earlier occurrence.
pub proof fn lemma_next_char_pos(s: Seq<char>, from: int, c: char)
    requires
        0 <= from <= s.len(),
    ensures
        from <= next_char_pos(s, from, c) <= s.len(),
        next_char_pos(s, from, c) < s.len() ==> s[next_char_pos(s, from, c)] == c,
        forall|j: int| from <= j < next_char_pos(s, from, c) ==> s[j] != c,
    decreases s.len() - from,
{
    if from < s.len() && s[from] != c {
        lemma_next_char_pos(s, from + 1, c);
    }
}

/// Find the first occurrence of `c` in `s` at or after `from`, returning
/// the length of `s` if there is none.
pub fn find_char(s: &str, from: usize, c: char) -> (r: usize)
    requires
        from <= s@.len(),
    ensures
        r == next_char_pos(s@, from as int, c),
{
    let len: usize = s.unicode_len();
    let mut i: usize = from;
    while i < len
        invariant
            from <= i <= len,
            len == s@.len(),
            next_char_pos(s@, from as int, c) == next_char_pos(s@, i as int, c),
        decreases len - i,
    {
        if s.get_char(i) == c {
            return i;
        }
        i += 1;
    }
    i
}

/// Whether `c` is a decimal digit.
pub open spec fn is_dec_digit(c: char) -> bool {
    48 <= c as int <= 57
}

/// The value of a decimal digit.
pub open spec fn digit_val(c: char) -> int {
    c as int - 48
}

/// The decimal digit character for a value in `0 ..= 9`.
pub open spec fn dec_digit_char(d: int) -> char {
    if d == 0 {
        '0'
    } else if d == 1 {
        '1'
    } else if d == 2 {
        '2'
    } else if d == 3 {
        '3'
    } else if d == 4 {
        '4'
    } else if d == 5 {
        '5'
    } else if d == 6 {
        '6'
    } else if d == 7 {
        '7'
    } else if d == 8 {
        '8'
    } else {
        '9'
    }
}

/// The value of a sequence of decimal digits, most significant first.
pub open spec fn dec_val(s: Seq<char>) -> int
    decreases s.len(),
{
    if s.len() == 0 {
        0
    } else {
        dec_val(s.drop_last()) * 10 + digit_val(s.last())
    }
}

/// Whether a piece of text parses as a `usize`: nonempty, all decimal
/// digits, and a value the type can hold.
pub open spec fn parses_as_usize(s: Seq<char>) -> bool {
    &&& s.len() > 0
    &&& forall|i: int| 0 <= i < s.len() ==> is_dec_digit(s[i])
    &&& dec_val(s) <= usize::MAX
}

/// The decimal rendering of a non-negative value, most significant first.
pub open spec fn dec_chars(n: int) -> Seq<char>
    decreases n,
{
    if n < 10 {
        seq![dec_digit_char(n)]
    } else {
        dec_chars(n / 10).push(dec_digit_char(n % 10))
    }
}

proof fn lemma_dec_val_nonneg(s: Seq<char>)
    requires
        forall|i: int| 0 <= i < s.len() ==> is_dec_digit(s[i]),
    ensures
        dec_val(s) >= 0,
    decreases s.len(),
{
    if s.len() > 0 {
        lemma_dec_val_nonneg(s.drop_last());
    }
}

/// For all-digit text, the value of a prefix never exceeds the value of
/// the whole.
proof fn lemma_dec_val_prefix(s: Seq<char>, j: int)
    requires
        forall|i: int| 0 <= i < s.len() ==> is_dec_digit(s[i]),
        0 <= j <= s.len(),
    ensures
        dec_val(s.take(j)) <= dec_val(s),
    decreases s.len() - j,
{
    if j < s.len() {
        assert(s.take(j + 1).drop_last() =~= s.take(j));
        assert(s.take(j + 1).last() == s[j]);
        lemma_dec_val_nonneg(s.take(j));
        lemma_dec_val_prefix(s, j + 1);
    } else {
        assert(s.take(j) =~= s);
    }
}

/// Parse the text between `from` and `to` as a decimal `usize`; rejected
/// when empty, when any character is not a digit, or when the value does
/// not fit the type.
pub fn parse_usize_between(s: &str, from: usize, to: usize) -> (r: Option<usize>)
    requires
        from <= to <= s@.len(),
    ensures
        r is Some <==> parses_as_usize(s@.subrange(from as int, to as int)),
        r matches Some(v) ==> v == dec_val(s@.subrange(from as int, to as int)),
{
    let ghost piece: Seq<char> = s@.subrange(from as int, to as int);
    if from == to {
        return None;
    }
    let mut acc: usize = 0;
    let mut i: usize = from;
    while i < to
        invariant
            from <= i <= to <= s@.len(),
            piece == s@.subrange(from as int, to as int),
            forall|j: int| from <= j < i ==> is_dec_digit(s@[j]),
            acc == dec_val(s@.subrange(from as int, i as int)),
        decreases to - i,
    {
        let ch: char = s.get_char(i);
        let code: u32 = ch as u32;
        proof {
            assert(s@.subrange(from as int, (i + 1) as int).drop_last() =~= s@.subrange(
                from as int,
                i as int,
            ));
            assert(s@.subrange(from as int, (i + 1) as int).last() == s@[i as int]);
        }
        if code < 48 || code > 57 {
            proof {
                assert(piece[i - from] == s@[i as int]);
            }
            return None;
        }
        let d: usize = (code - 48) as usize;
        if acc > (usize::MAX - d) / 10 {
            proof {
                vstd::arithmetic::div_mod::lemma_fundamental_div_mod(
                    (usize::MAX - d) as int,
                    10,
                );
                if parses_as_usize(piece) {
                    assert forall|j: int| from <= j < to implies is_dec_digit(s@[j]) by {
                        assert(piece[j - from] == s@[j]);
                        assert(is_dec_digit(piece[j - from]));
                    }
                    lemma_dec_val_prefix(piece, i + 1 - from);
                    assert(piece.take(i + 1 - from) =~= s@.subrange(from as int, (i + 1) as int));
                    assert(false);
                }
            }
            return None;
        }
        acc = acc * 10 + d;
        i += 1;
    }
    proof {
        assert(s@.subrange(from as int, to as int) =~= piece);
        assert(forall|j: int| 0 <= j < piece.len() ==> piece[j] == s@[from + j] && is_dec_digit(
            #[trigger] s@[from + j],
        ));
    }
    Some(acc)
}

/// Append one decimal digit character to a string.
fn append_digit(s: &mut String, d: u8)
    requires
        d < 10,
    ensures
        final(s)@ == old(s)@ + seq![dec_digit_char(d as int)],
{
    proof {
        reveal_strlit("0");
        reveal_strlit("1");
        reveal_strlit("2");
        reveal_strlit("3");
        reveal_strlit("4");
        reveal_strlit("5");
        reveal_strlit("6");
        reveal_strlit("7");
        reveal_strlit("8");
        reveal_strlit("9");
    }
    if d == 0 {
        s.append("0");
    } else if d == 1 {
        s.append("1");
    } else if d == 2 {
        s.append("2");
    } else if d == 3 {
        s.append("3");
    } else if d == 4 {
        s.append("4");
    } else if d == 5 {
        s.append("5");
    } else if d == 6 {
        s.append("6");
    } else if d == 7 {
        s.append("7");
    } else if d == 8 {
        s.append("8");
    } else {
        s.append("9");
    }
    proof {
        assert(s@ =~= old(s)@ + seq![dec_digit_char(d as int)]);
    }
}

/// Append the decimal rendering of `n` to a string.
pub fn append_usize(s: &mut String, n: usize)
    ensures
        final(s)@ == old(s)@ + dec_chars(n as int),
    decreases n,
{
    if n < 10 {
        append_digit(s, n as u8);
    } else {
        append_usize(s, n / 10);
        append_digit(s, (n % 10) as u8);
        proof {
            assert(old(s)@ + dec_chars((n / 10) as int) + seq![
                dec_digit_char((n % 10) as int),
            ] =~= old(s)@ + dec_chars(n as int));
        }
    }
}

} // verus!
