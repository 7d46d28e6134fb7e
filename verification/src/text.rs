//! Text utilities shared by the engine adapters: whitespace trimming of
//! scraped fields and decimal rendering of page numbers.

use vstd::prelude::*;

verus! {

/// The characters that count as whitespace when a scraped field is trimmed
/// (the Unicode `White_Space` set).
pub open spec fn is_space_char(c: char) -> bool {
    c == ' ' || c == '\t' || c == '\n' || c == '\r' || c == '\u{0b}' || c == '\u{0c}'
        || c == '\u{85}' || c == '\u{a0}' || c == '\u{1680}' || ('\u{2000}' <= c && c
        <= '\u{200a}') || c == '\u{2028}' || c == '\u{2029}' || c == '\u{202f}' || c == '\u{205f}'
        || c == '\u{3000}'
}

/// Runtime test mirroring `is_space_char`.
pub fn is_space(c: char) -> (b: bool)
    ensures
        b == is_space_char(c),
{
    c == ' ' || c == '\t' || c == '\n' || c == '\r' || c == '\u{0b}' || c == '\u{0c}'
        || c == '\u{85}' || c == '\u{a0}' || c == '\u{1680}' || ('\u{2000}' <= c && c
        <= '\u{200a}') || c == '\u{2028}' || c == '\u{2029}' || c == '\u{202f}' || c == '\u{205f}'
        || c == '\u{3000}'
}

/// `s` with leading whitespace removed.
pub open spec fn trim_start_spec(s: Seq<char>) -> Seq<char>
    decreases s.len(),
{
    if s.len() > 0 && is_space_char(s.first()) {
        trim_start_spec(s.drop_first())
    } else {
        s
    }
}

/// `s` with trailing whitespace removed.
pub open spec fn trim_end_spec(s: Seq<char>) -> Seq<char>
    decreases s.len(),
{
    if s.len() > 0 && is_space_char(s.last()) {
        trim_end_spec(s.drop_last())
    } else {
        s
    }
}

/// `s` with both leading and trailing whitespace removed; this is what every
/// stored title and description looks like relative to its scraped form.
pub open spec fn trim_spec(s: Seq<char>) -> Seq<char> {
    trim_end_spec(trim_start_spec(s))
}

proof fn lemma_trim_start_skip(s: Seq<char>, i: int)
    requires
        0 <= i < s.len(),
        is_space_char(s[i]),
        trim_start_spec(s) == trim_start_spec(s.skip(i)),
    ensures
        trim_start_spec(s) == trim_start_spec(s.skip(i + 1)),
{
    assert(s.skip(i).len() > 0);
    assert(s.skip(i).first() == s[i]);
    assert(s.skip(i).drop_first() =~= s.skip(i + 1));
}

proof fn lemma_trim_end_sub(s: Seq<char>, start: int, end: int)
    requires
        0 <= start < end <= s.len(),
        is_space_char(s[end - 1]),
        trim_end_spec(s.skip(start)) == trim_end_spec(s.subrange(start, end)),
    ensures
        trim_end_spec(s.skip(start)) == trim_end_spec(s.subrange(start, end - 1)),
{
    assert(s.subrange(start, end).len() > 0);
    assert(s.subrange(start, end).last() == s[end - 1]);
    assert(s.subrange(start, end).drop_last() =~= s.subrange(start, end - 1));
}

/// Returns `s` with leading and trailing whitespace removed, exactly as
/// `trim_spec` describes.
pub fn trimmed(s: &str) -> (r: String)
    ensures
        r@ == trim_spec(s@),
{
    let len: usize = s.unicode_len();
    let mut start: usize = 0;
    proof {
        assert(s@.skip(0) =~= s@);
    }
    while start < len && is_space(s.get_char(start))
        invariant
            len == s@.len(),
            0 <= start <= len,
            trim_start_spec(s@) == trim_start_spec(s@.skip(start as int)),
        decreases len - start,
    {
        proof {
            lemma_trim_start_skip(s@, start as int);
        }
        start = start + 1;
    }
    proof {
        if start < len {
            assert(s@.skip(start as int).first() == s@[start as int]);
            assert(trim_start_spec(s@) == s@.skip(start as int));
        } else {
            assert(s@.skip(start as int) =~= Seq::<char>::empty());
            assert(trim_start_spec(s@) == s@.skip(start as int));
        }
    }
    let mut end: usize = len;
    while end > start && is_space(s.get_char(end - 1))
        invariant
            len == s@.len(),
            0 <= start <= end <= len,
            trim_start_spec(s@) == s@.skip(start as int),
            trim_end_spec(s@.skip(start as int)) == trim_end_spec(
                s@.subrange(start as int, end as int),
            ),
        decreases end,
    {
        proof {
            lemma_trim_end_sub(s@, start as int, end as int);
        }
        end = end - 1;
    }
    proof {
        if end > start {
            assert(s@.subrange(start as int, end as int).last() == s@[end - 1]);
            assert(trim_end_spec(s@.subrange(start as int, end as int)) == s@.subrange(
                start as int,
                end as int,
            ));
        } else {
            assert(s@.subrange(start as int, end as int).len() == 0);
            assert(trim_end_spec(s@.subrange(start as int, end as int)) =~= s@.subrange(
                start as int,
                end as int,
            ));
        }
    }
    let piece: &str = s.substring_char(start, end);
    String::from_str(piece)
}

proof fn lemma_trim_start_no_leading_space(s: Seq<char>)
    ensures
        trim_start_spec(s).len() > 0 ==> !is_space_char(trim_start_spec(s).first()),
    decreases s.len(),
{
    if s.len() > 0 && is_space_char(s.first()) {
        lemma_trim_start_no_leading_space(s.drop_first());
    }
}

proof fn lemma_trim_end_no_trailing_space(s: Seq<char>)
    ensures
        trim_end_spec(s).len() > 0 ==> !is_space_char(trim_end_spec(s).last()),
    decreases s.len(),
{
    if s.len() > 0 && is_space_char(s.last()) {
        lemma_trim_end_no_trailing_space(s.drop_last());
    }
}

proof fn lemma_trim_end_len(s: Seq<char>)
    ensures
        trim_end_spec(s).len() <= s.len(),
    decreases s.len(),
{
    if s.len() > 0 && is_space_char(s.last()) {
        lemma_trim_end_len(s.drop_last());
    }
}

proof fn lemma_trim_end_is_prefix(s: Seq<char>)
    ensures
        trim_end_spec(s) == s.take(trim_end_spec(s).len() as int),
    decreases s.len(),
{
    if s.len() > 0 && is_space_char(s.last()) {
        lemma_trim_end_len(s.drop_last());
        lemma_trim_end_is_prefix(s.drop_last());
        assert(s.drop_last().take(trim_end_spec(s.drop_last()).len() as int) =~= s.take(
            trim_end_spec(s.drop_last()).len() as int,
        ));
    } else {
        assert(s.take(s.len() as int) =~= s);
    }
}

/// Law: trimming leaves no leading and no trailing whitespace; whatever
/// whitespace surrounded a scraped title or description in the source markup,
/// the stored value has none.
pub proof fn lemma_trim_no_edge_whitespace(s: Seq<char>)
    ensures
        trim_spec(s).len() > 0 ==> !is_space_char(trim_spec(s).first()),
        trim_spec(s).len() > 0 ==> !is_space_char(trim_spec(s).last()),
{
    let t = trim_start_spec(s);
    lemma_trim_start_no_leading_space(s);
    lemma_trim_end_no_trailing_space(t);
    lemma_trim_end_is_prefix(t);
    lemma_trim_end_len(t);
    if trim_spec(s).len() > 0 {
        assert(trim_end_spec(t) == t.take(trim_end_spec(t).len() as int));
        assert(t.take(trim_end_spec(t).len() as int)[0] == t[0]);
        assert(trim_end_spec(t)[0] == t[0]);
    }
}

/// Law: a text with no whitespace at either edge is unchanged by trimming.
pub proof fn lemma_trim_already_trimmed(s: Seq<char>)
    requires
        s.len() > 0 ==> !is_space_char(s.first()),
        s.len() > 0 ==> !is_space_char(s.last()),
    ensures
        trim_spec(s) == s,
{
}

/// The decimal digit `d` (at most 9) as a character.
pub open spec fn digit_char(d: nat) -> char {
    if d == 0 {
        '0'
    } else if d == 1 {
        '1'
    } else if d == 2 {
        '2'
    } else if d == 3 {
        '3'
    } else if d == 4 {
        '4'
    } else if d == 5 {
        '5'
    } else if d == 6 {
        '6'
    } else if d == 7 {
        '7'
    } else if d == 8 {
        '8'
    } else {
        '9'
    }
}

/// The decimal form of `n`, most significant digit first, no leading zeros
/// (a single zero for `n == 0`).
pub open spec fn decimal_of(n: nat) -> Seq<char>
    decreases n,
{
    if n < 10 {
        seq![digit_char(n)]
    } else {
        decimal_of(n / 10).push(digit_char(n % 10))
    }
}

fn digit_str(d: u32) -> (r: &'static str)
    requires
        d < 10,
    ensures
        r@ =~= seq![digit_char(d as nat)],
{
    proof {
        reveal_strlit("0");
        reveal_strlit("1");
        reveal_strlit("2");
        reveal_strlit("3");
        reveal_strlit("4");
        reveal_strlit("5");
        reveal_strlit("6");
        reveal_strlit("7");
        reveal_strlit("8");
        reveal_strlit("9");
    }
    if d == 0 {
        "0"
    } else if d == 1 {
        "1"
    } else if d == 2 {
        "2"
    } else if d == 3 {
        "3"
    } else if d == 4 {
        "4"
    } else if d == 5 {
        "5"
    } else if d == 6 {
        "6"
    } else if d == 7 {
        "7"
    } else if d == 8 {
        "8"
    } else {
        "9"
    }
}

/// Appends the decimal form of `n` to `out`.
pub fn push_decimal(out: &mut String, n: u32)
    ensures
        final(out)@ == old(out)@ + decimal_of(n as nat),
    decreases n,
{
    if n >= 10 {
        proof {
            assert(n / 10 < n) by (nonlinear_arith)
                requires
                    n >= 10,
            ;
        }
        push_decimal(out, n / 10);
        let d: u32 = n % 10;
        out.append(digit_str(d));
        proof {
            assert(out@ =~= old(out)@ + decimal_of(n as nat));
        }
    } else {
        out.append(digit_str(n));
        proof {
            assert(out@ =~= old(out)@ + decimal_of(n as nat));
        }
    }
}

/// The decimal form of `n` as a fresh string.
pub fn decimal_string(n: u32) -> (r: String)
    ensures
        r@ == decimal_of(n as nat),
{
    let mut out: String = String::new();
    push_decimal(&mut out, n);
    proof {
        assert(out@ =~= decimal_of(n as nat));
    }
    out
}


/// A character that stands for itself in a percent-encoded query string
/// (the RFC 3986 unreserved set).
pub open spec fn is_unreserved_char(c: char) -> bool {
    ('a' <= c && c <= 'z') || ('A' <= c && c <= 'Z') || ('0' <= c && c <= '9') || c == '-'
        || c == '.' || c == '_' || c == '~'
}

/// Runtime test mirroring `is_unreserved_char`.
pub fn is_unreserved(c: char) -> (b: bool)
    ensures
        b == is_unreserved_char(c),
{
    ('a' <= c && c <= 'z') || ('A' <= c && c <= 'Z') || ('0' <= c && c <= '9') || c == '-'
        || c == '.' || c == '_' || c == '~'
}

/// The uppercase hexadecimal digit with value `d` (at most 15).
pub open spec fn hex_char(d: nat) -> char {
    if d < 10 {
        digit_char(d)
    } else if d == 10 {
        'A'
    } else if d == 11 {
        'B'
    } else if d == 12 {
        'C'
    } else if d == 13 {
        'D'
    } else if d == 14 {
        'E'
    } else {
        'F'
    }
}

fn hex_str(d: u8) -> (r: &'static str)
    requires
        d < 16,
    ensures
        r@ =~= seq![hex_char(d as nat)],
{
    proof {
        reveal_strlit("A");
        reveal_strlit("B");
        reveal_strlit("C");
        reveal_strlit("D");
        reveal_strlit("E");
        reveal_strlit("F");
    }
    if d < 10 {
        digit_str(d as u32)
    } else if d == 10 {
        "A"
    } else if d == 11 {
        "B"
    } else if d == 12 {
        "C"
    } else if d == 13 {
        "D"
    } else if d == 14 {
        "E"
    } else {
        "F"
    }
}

/// One byte written as a percent escape: `%` and two uppercase hex digits.
pub open spec fn percent_escape(b: u8) -> Seq<char> {
    seq!['%', hex_char((b / 16) as nat), hex_char((b % 16) as nat)]
}

/// The percent escapes of a byte sequence, in order.
pub open spec fn escaped_bytes(bs: Seq<u8>) -> Seq<char>
    decreases bs.len(),
{
    if bs.len() == 0 {
        Seq::empty()
    } else {
        escaped_bytes(bs.drop_last()) + percent_escape(bs.last())
    }
}

/// What one character contributes to a percent-encoded query: an unreserved
/// character stands as itself; any other character's UTF-8 bytes are each
/// written as a percent escape.
pub open spec fn encoded_char(c: char) -> Seq<char> {
    if is_unreserved_char(c) {
        seq![c]
    } else {
        escaped_bytes(vstd::utf8::encode_scalar(c as u32))
    }
}

/// The percent-encoded form of a query text.
pub open spec fn encode_query(s: Seq<char>) -> Seq<char>
    decreases s.len(),
{
    if s.len() == 0 {
        Seq::empty()
    } else {
        encode_query(s.drop_last()) + encoded_char(s.last())
    }
}

fn push_escape(out: &mut String, b: u8)
    ensures
        final(out)@ == old(out)@ + percent_escape(b),
{
    proof {
        reveal_strlit("%");
    }
    out.append("%");
    out.append(hex_str(b / 16));
    out.append(hex_str(b % 16));
    proof {
        assert(out@ =~= old(out)@ + percent_escape(b));
    }
}

/// Returns the percent-encoded form of `s`, exactly as `encode_query`
/// states: unreserved characters kept, every other character's UTF-8 bytes
/// percent-escaped in order.
pub fn percent_encoded(s: &str) -> (r: String)
    ensures
        r@ == encode_query(s@),
{
    let len: usize = s.unicode_len();
    let mut out = String::new();
    let mut i: usize = 0;
    proof {
        assert(s@.take(0) =~= Seq::<char>::empty());
    }
    while i < len
        invariant
            len == s@.len(),
            0 <= i <= len,
            out@ == encode_query(s@.take(i as int)),
        decreases len - i,
    {
        let c = s.get_char(i);
        proof {
            assert(s@.take(i + 1).drop_last() =~= s@.take(i as int));
            assert(s@.take(i + 1).last() == s@[i as int]);
        }
        if is_unreserved(c) {
            let piece = s.substring_char(i, i + 1);
            out.append(piece);
            proof {
                assert(piece@ =~= seq![c]);
                assert(out@ =~= encode_query(s@.take(i + 1)));
            }
        } else {
            let cp: u32 = c as u32;
            let ghost bs = vstd::utf8::encode_scalar(cp);
            let ghost before = out@;
            proof {
                vstd::utf8::char_is_scalar(c);
            }
            if cp < 0x80 {
                let b0: u8 = #[verifier::truncate] ((cp & 0x7F) as u8);
                push_escape(&mut out, b0);
                proof {
                    assert(b0 == vstd::utf8::leading_byte_width_1(cp));
                    assert(bs =~= seq![b0]);
                    assert(seq![b0].drop_last() =~= Seq::<u8>::empty());
                    assert(escaped_bytes(Seq::<u8>::empty()) =~= Seq::<char>::empty());
                    assert(escaped_bytes(bs) =~= percent_escape(b0));
                }
            } else if cp < 0x800 {
                let b0: u8 = 0xC0 | (#[verifier::truncate] (((cp >> 6) & 0x1F) as u8));
                let b1: u8 = 0x80 | (#[verifier::truncate] ((cp & 0x3F) as u8));
                push_escape(&mut out, b0);
                push_escape(&mut out, b1);
                proof {
                    assert(vstd::utf8::has_width_2_encoding(cp));
                    assert(b0 == vstd::utf8::leading_byte_width_2(cp));
                    assert(b1 == vstd::utf8::last_continuation_byte(cp));
                    assert(bs =~= seq![b0, b1]);
                    assert(seq![b0, b1].drop_last() =~= seq![b0]);
                    assert(seq![b0].drop_last() =~= Seq::<u8>::empty());
                    assert(escaped_bytes(Seq::<u8>::empty()) =~= Seq::<char>::empty());
                    assert(escaped_bytes(seq![b0]) =~= percent_escape(b0));
                    assert(escaped_bytes(bs) =~= percent_escape(b0) + percent_escape(b1));
                }
            } else if cp < 0x10000 {
                let b0: u8 = 0xE0 | (#[verifier::truncate] (((cp >> 12) & 0x0F) as u8));
                let b1: u8 = 0x80 | (#[verifier::truncate] (((cp >> 6) & 0x3F) as u8));
                let b2: u8 = 0x80 | (#[verifier::truncate] ((cp & 0x3F) as u8));
                push_escape(&mut out, b0);
                push_escape(&mut out, b1);
                push_escape(&mut out, b2);
                proof {
                    assert(vstd::utf8::has_width_3_encoding(cp));
                    assert(b0 == vstd::utf8::leading_byte_width_3(cp));
                    assert(b1 == vstd::utf8::second_last_continuation_byte(cp));
                    assert(b2 == vstd::utf8::last_continuation_byte(cp));
                    assert(bs =~= seq![b0, b1, b2]);
                    assert(seq![b0, b1, b2].drop_last() =~= seq![b0, b1]);
                    assert(seq![b0, b1].drop_last() =~= seq![b0]);
                    assert(seq![b0].drop_last() =~= Seq::<u8>::empty());
                    assert(escaped_bytes(Seq::<u8>::empty()) =~= Seq::<char>::empty());
                    assert(escaped_bytes(seq![b0]) =~= percent_escape(b0));
                    assert(escaped_bytes(seq![b0, b1]) =~= percent_escape(b0) + percent_escape(
                        b1,
                    ));
                    assert(escaped_bytes(bs) =~= percent_escape(b0) + percent_escape(b1)
                        + percent_escape(b2));
                }
            } else {
                let b0: u8 = 0xF0 | (#[verifier::truncate] (((cp >> 18) & 0x07) as u8));
                let b1: u8 = 0x80 | (#[verifier::truncate] (((cp >> 12) & 0x3F) as u8));
                let b2: u8 = 0x80 | (#[verifier::truncate] (((cp >> 6) & 0x3F) as u8));
                let b3: u8 = 0x80 | (#[verifier::truncate] ((cp & 0x3F) as u8));
                push_escape(&mut out, b0);
                push_escape(&mut out, b1);
                push_escape(&mut out, b2);
                push_escape(&mut out, b3);
                proof {
                    assert(vstd::utf8::has_width_4_encoding(cp));
                    assert(b0 == vstd::utf8::leading_byte_width_4(cp));
                    assert(b1 == vstd::utf8::third_last_continuation_byte(cp));
                    assert(b2 == vstd::utf8::second_last_continuation_byte(cp));
                    assert(b3 == vstd::utf8::last_continuation_byte(cp));
                    assert(bs =~= seq![b0, b1, b2, b3]);
                    assert(seq![b0, b1, b2, b3].drop_last() =~= seq![b0, b1, b2]);
                    assert(seq![b0, b1, b2].drop_last() =~= seq![b0, b1]);
                    assert(seq![b0, b1].drop_last() =~= seq![b0]);
                    assert(seq![b0].drop_last() =~= Seq::<u8>::empty());
                    assert(escaped_bytes(Seq::<u8>::empty()) =~= Seq::<char>::empty());
                    assert(escaped_bytes(seq![b0]) =~= percent_escape(b0));
                    assert(escaped_bytes(seq![b0, b1]) =~= percent_escape(b0) + percent_escape(
                        b1,
                    ));
                    assert(escaped_bytes(seq![b0, b1, b2]) =~= percent_escape(b0)
                        + percent_escape(b1) + percent_escape(b2));
                    assert(escaped_bytes(bs) =~= percent_escape(b0) + percent_escape(b1)
                        + percent_escape(b2) + percent_escape(b3));
                }
            }
            proof {
                assert(encoded_char(s@.take(i + 1).last()) == escaped_bytes(bs));
                assert(out@ =~= encode_query(s@.take(i + 1)));
            }
        }
        i = i + 1;
    }
    proof {
        assert(s@.take(len as int) =~= s@);
    }
    out
}

} // verus!
