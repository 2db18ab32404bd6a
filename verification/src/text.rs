//! Byte-level helpers shared by the literal readers: decimal integers read the
//! way `FromStr` of the integer types reads them, separators, and slices of
//! UTF-8 text.
use vstd::prelude::*;
use vstd::string::StringSliceAdditionalSpecFns;
use vstd::utf8::encode_utf8;
use vstd::utf8::is_char_boundary;

verus! {

/// Why a run of bytes is not a decimal integer of the wanted width.
#[derive(Clone, Copy, Debug, PartialEq, Eq, Structural)]
pub enum IntError {
    /// The text is empty.
    Empty,
    /// A byte that is no decimal digit, or a sign with nothing behind it.
    InvalidDigit,
    /// The digits read so far leave the range at its upper end.
    PosOverflow,
    /// The digits read so far leave the range at its lower end.
    NegOverflow,
}

/// The UTF-8 bytes of a text.
pub open spec fn utf8(s: Seq<char>) -> Seq<u8> {
    encode_utf8(s)
}

pub open spec fn is_digit(b: u8) -> bool {
    48 <= b <= 57
}

/// Reads digits from position `i` on, most significant first, starting from
/// `acc`. The first byte that is no digit stops the reading with
/// `InvalidDigit`; the first digit that takes the value out of `min ..= max`
/// stops it with an overflow.
pub open spec fn scan_digits(s: Seq<u8>, i: int, acc: int, neg: bool, min: int, max: int) -> Result<
    int,
    IntError,
>
    decreases s.len() - i,
{
    if i < 0 || i >= s.len() {
        Ok(acc)
    } else if !is_digit(s[i]) {
        Err(IntError::InvalidDigit)
    } else {
        let d = s[i] - 48;
        let next = if neg {
            acc * 10 - d
        } else {
            acc * 10 + d
        };
        if next > max {
            Err(IntError::PosOverflow)
        } else if next < min {
            Err(IntError::NegOverflow)
        } else {
            scan_digits(s, i + 1, next, neg, min, max)
        }
    }
}

/// The integer that `s` denotes in the range `min ..= max`: an optional `+`,
/// or `-` where the range is signed, then one or more decimal digits.
pub open spec fn int_of(s: Seq<u8>, signed: bool, min: int, max: int) -> Result<int, IntError> {
    if s.len() == 0 {
        Err(IntError::Empty)
    } else if s.len() == 1 && (s[0] == 43 || s[0] == 45) {
        Err(IntError::InvalidDigit)
    } else if s[0] == 43 {
        scan_digits(s, 1, 0, false, min, max)
    } else if s[0] == 45 && signed {
        scan_digits(s, 1, 0, true, min, max)
    } else {
        scan_digits(s, 0, 0, false, min, max)
    }
}

/// The signed 64-bit integer that `s` denotes.
pub open spec fn i64_of(s: Seq<u8>) -> Result<int, IntError> {
    int_of(s, true, i64::MIN as int, i64::MAX as int)
}

/// Reads a decimal integer of the range `min ..= max`.
pub fn parse_int(s: &[u8], signed: bool, min: i128, max: i128) -> (r: Result<i128, IntError>)
    requires
        -0x1_0000_0000_0000_0000 <= min <= 0 <= max <= 0x1_0000_0000_0000_0000,
    ensures
        r is Ok ==> int_of(s@, signed, min as int, max as int) == Ok::<int, IntError>(r->Ok_0 as int),
        r is Ok ==> min <= r->Ok_0 <= max,
        r is Err ==> int_of(s@, signed, min as int, max as int) == Err::<int, IntError>(r->Err_0),
{
    let n = s.len();
    if n == 0 {
        return Err(IntError::Empty);
    }
    if n == 1 && (s[0] == 43 || s[0] == 45) {
        return Err(IntError::InvalidDigit);
    }
    let neg = s[0] == 45 && signed;
    let mut i: usize = if s[0] == 43 || neg {
        1
    } else {
        0
    };
    let mut acc: i128 = 0;
    while i < n
        invariant
            n == s@.len(),
            i <= n,
            min <= acc <= max,
            -0x1_0000_0000_0000_0000 <= min <= 0 <= max <= 0x1_0000_0000_0000_0000,
            int_of(s@, signed, min as int, max as int) == scan_digits(
                s@,
                i as int,
                acc as int,
                neg,
                min as int,
                max as int,
            ),
        decreases n - i,
    {
        let b = s[i];
        if b < 48 || b > 57 {
            return Err(IntError::InvalidDigit);
        }
        let d: i128 = (b - 48) as i128;
        let next: i128 = if neg {
            acc * 10 - d
        } else {
            acc * 10 + d
        };
        if next > max {
            return Err(IntError::PosOverflow);
        }
        if next < min {
            return Err(IntError::NegOverflow);
        }
        acc = next;
        i += 1;
    }
    Ok(acc)
}

/// Reads a signed 64-bit decimal integer.
pub fn parse_i64(s: &[u8]) -> (r: Result<i64, IntError>)
    ensures
        r is Ok ==> i64_of(s@) == Ok::<int, IntError>(r->Ok_0 as int),
        r is Err ==> i64_of(s@) == Err::<int, IntError>(r->Err_0),
{
    match parse_int(s, true, i64::MIN as i128, i64::MAX as i128) {
        Ok(v) => Ok(v as i64),
        Err(e) => Err(e),
    }
}

/// The position of the first `sep` in `s` at or after `from`, or the length of
/// `s` where there is none.
pub open spec fn find_from(s: Seq<u8>, sep: u8, from: int) -> int
    decreases s.len() - from,
{
    if from < 0 || from >= s.len() {
        s.len() as int
    } else if s[from] == sep {
        from
    } else {
        find_from(s, sep, from + 1)
    }
}

/// The `k`-th piece of `s` cut at every `sep`, counted from 0, or `None` where
/// `s` has fewer pieces.
pub open spec fn piece(s: Seq<u8>, sep: u8, k: nat) -> Option<Seq<u8>>
    decreases k,
{
    let cut = find_from(s, sep, 0);
    if k == 0 {
        Some(s.subrange(0, cut))
    } else if cut >= s.len() {
        None
    } else {
        piece(s.subrange(cut + 1, s.len() as int), sep, (k - 1) as nat)
    }
}

pub proof fn lemma_find_from_bounds(s: Seq<u8>, sep: u8, from: int)
    requires
        0 <= from <= s.len(),
    ensures
        from <= find_from(s, sep, from) <= s.len(),
        find_from(s, sep, from) < s.len() ==> s[find_from(s, sep, from)] == sep,
        forall|j: int| from <= j < find_from(s, sep, from) ==> s[j] != sep,
    decreases s.len() - from,
{
    if from < s.len() && s[from] != sep {
        lemma_find_from_bounds(s, sep, from + 1);
    }
}

/// Finding in a tail of `s` is finding in `s` from the tail's start.
pub proof fn lemma_find_from_tail(s: Seq<u8>, sep: u8, start: int, from: int)
    requires
        0 <= start <= s.len(),
        0 <= from <= s.len() - start,
    ensures
        find_from(s.subrange(start, s.len() as int), sep, from) + start == find_from(
            s,
            sep,
            start + from,
        ),
    decreases s.len() - start - from,
{
    let t = s.subrange(start, s.len() as int);
    if from < t.len() {
        assert(t[from] == s[start + from]);
        if t[from] != sep {
            lemma_find_from_tail(s, sep, start, from + 1);
        }
    }
}

/// The position of the first `sep` in `s[from ..]`.
pub fn find_byte(s: &[u8], sep: u8, from: usize) -> (r: usize)
    requires
        from <= s@.len(),
    ensures
        r == find_from(s@, sep, from as int),
        from <= r <= s@.len(),
{
    let mut i = from;
    while i < s.len() && s[i] != sep
        invariant
            from <= i <= s@.len(),
            find_from(s@, sep, from as int) == find_from(s@, sep, i as int),
        decreases s@.len() - i,
    {
        i += 1;
    }
    proof {
        lemma_find_from_bounds(s@, sep, i as int);
    }
    i
}

/// Where the `k`-th piece of `s` cut at `sep` starts and ends.
pub fn piece_bounds(s: &[u8], sep: u8, k: usize) -> (r: Option<(usize, usize)>)
    ensures
        match r {
            Some((from, to)) => from <= to <= s@.len() && piece(s@, sep, k as nat) == Some(
                s@.subrange(from as int, to as int),
            ),
            None => piece(s@, sep, k as nat) is None,
        },
{
    let mut start: usize = 0;
    let mut left: usize = k;
    proof {
        assert(s@.subrange(0, s@.len() as int) =~= s@);
    }
    loop
        invariant
            start <= s@.len(),
            left <= k,
            piece(s@, sep, k as nat) == piece(
                s@.subrange(start as int, s@.len() as int),
                sep,
                left as nat,
            ),
        decreases left,
    {
        let cut = find_byte(s, sep, start);
        proof {
            lemma_find_from_tail(s@, sep, start as int, 0);
            let t = s@.subrange(start as int, s@.len() as int);
            assert(find_from(t, sep, 0) == cut - start);
            assert(t.subrange(0, cut - start) =~= s@.subrange(start as int, cut as int));
            if cut < s@.len() {
                assert(t.subrange(cut - start + 1, t.len() as int) =~= s@.subrange(
                    cut + 1,
                    s@.len() as int,
                ));
            }
        }
        if left == 0 {
            return Some((start, cut));
        }
        if cut >= s.len() {
            return None;
        }
        start = cut + 1;
        left -= 1;
    }
}

/// Whether two runs of bytes are the same.
pub fn bytes_eq(a: &[u8], b: &[u8]) -> (r: bool)
    ensures
        r == (a@ == b@),
{
    if a.len() != b.len() {
        return false;
    }
    let mut i: usize = 0;
    while i < a.len()
        invariant
            a@.len() == b@.len(),
            i <= a@.len(),
            forall|j: int| 0 <= j < i ==> a@[j] == b@[j],
        decreases a@.len() - i,
    {
        if a[i] != b[i] {
            return false;
        }
        i += 1;
    }
    proof {
        assert(a@ =~= b@);
    }
    true
}

/// Whether `s` ends with `tail`.
pub open spec fn ends_with(s: Seq<u8>, tail: Seq<u8>) -> bool {
    tail.len() <= s.len() && s.subrange(s.len() - tail.len(), s.len() as int) == tail
}

pub fn has_suffix(s: &[u8], tail: &[u8]) -> (r: bool)
    ensures
        r == ends_with(s@, tail@),
{
    if tail.len() > s.len() {
        return false;
    }
    let at = s.len() - tail.len();
    let mut i: usize = 0;
    while i < tail.len()
        invariant
            at + tail@.len() == s@.len(),
            s@.len() <= usize::MAX,
            i <= tail@.len(),
            forall|j: int| 0 <= j < i ==> s@[at + j] == tail@[j],
        decreases tail@.len() - i,
    {
        if s[at + i] != tail[i] {
            proof {
                assert(s@.subrange(s@.len() - tail@.len(), s@.len() as int)[i as int] == s@[at + i]);
            }
            return false;
        }
        i += 1;
    }
    proof {
        assert(s@.subrange(s@.len() - tail@.len(), s@.len() as int) =~= tail@);
    }
    true
}

/// The part of `s` between two byte positions, where both fall between
/// characters.
pub fn sub_text<'a>(s: &'a str, from: usize, to: usize) -> (r: Option<&'a str>)
    ensures
        r is Some <==> from <= to <= utf8(s@).len() && is_char_boundary(utf8(s@), from as int)
            && is_char_boundary(utf8(s@), to as int),
        r is Some ==> utf8(r->0@) == utf8(s@).subrange(from as int, to as int),
{
    proof {
        broadcast use vstd::utf8::group_utf8_lib;

        assert(s.spec_bytes() == utf8(s@));
        assert(vstd::utf8::valid_utf8(utf8(s@)));
    }
    if from > to || to > s.as_bytes().len() {
        return None;
    }
    if !s.is_char_boundary(from) || !s.is_char_boundary(to) {
        return None;
    }
    let (head, _) = s.split_at(to);
    proof {
        broadcast use vstd::utf8::group_utf8_lib;

        assert(head.spec_bytes() == utf8(s@).subrange(0, to as int));
        vstd::utf8::valid_utf8_split(utf8(s@), to as int);
        vstd::utf8::is_char_boundary_start_end_of_seq(head.spec_bytes());
        lemma_boundary_in_prefix(utf8(s@), to as int, from as int);
    }
    let (_, tail) = head.split_at(from);
    proof {
        assert(tail.spec_bytes() =~= utf8(s@).subrange(from as int, to as int));
    }
    Some(tail)
}

/// A boundary of a text is a boundary of each prefix that reaches it.
pub proof fn lemma_boundary_in_prefix(b: Seq<u8>, to: int, from: int)
    requires
        vstd::utf8::valid_utf8(b),
        0 <= from <= to <= b.len(),
        is_char_boundary(b, to),
        is_char_boundary(b, from),
    ensures
        vstd::utf8::valid_utf8(b.subrange(0, to)),
        is_char_boundary(b.subrange(0, to), from),
{
    broadcast use vstd::utf8::group_utf8_lib;

    vstd::utf8::valid_utf8_split(b, to);
    let p = b.subrange(0, to);
    if from == to {
        vstd::utf8::is_char_boundary_start_end_of_seq(p);
    } else {
        vstd::utf8::is_char_boundary_iff_not_is_continuation_byte(b, from);
        assert(p[from] == b[from]);
        vstd::utf8::is_char_boundary_iff_not_is_continuation_byte(p, from);
    }
}


/// Two texts with the same UTF-8 bytes are the same text.
pub proof fn lemma_utf8_injective(a: Seq<char>, b: Seq<char>)
    requires
        utf8(a) == utf8(b),
    ensures
        a == b,
{
    vstd::utf8::encode_utf8_decode_utf8(a);
    vstd::utf8::encode_utf8_decode_utf8(b);
}

/// Whether two texts are the same.
pub fn same_text(a: &str, b: &str) -> (r: bool)
    ensures
        r == (a@ == b@),
{
    let r = bytes_eq(a.as_bytes(), b.as_bytes());
    proof {
        if r {
            lemma_utf8_injective(a@, b@);
        }
    }
    r
}


/// `t` without its first `front` and its last `back` bytes, where it is that
/// long and what is left is text by itself.
pub open spec fn cut(t: Seq<char>, front: int, back: int) -> Option<Seq<char>> {
    let b = utf8(t);
    if 0 <= front && 0 <= back && front + back <= b.len() && is_char_boundary(b, front)
        && is_char_boundary(b, b.len() - back) {
        Some(vstd::utf8::decode_utf8(b.subrange(front, b.len() - back)))
    } else {
        None
    }
}

/// `t` without its first `front` and its last `back` bytes.
pub fn cut_text(t: &str, front: usize, back: usize) -> (r: Option<String>)
    ensures
        match cut(t@, front as int, back as int) {
            Some(c) => r is Some && r->0@ == c,
            None => r is None,
        },
{
    let n = t.as_bytes().len();
    if front > n || back > n - front {
        return None;
    }
    match sub_text(t, front, n - back) {
        Some(s) => {
            proof {
                vstd::utf8::encode_utf8_decode_utf8(s@);
            }
            Some(s.to_owned())
        },
        None => None,
    }
}

/// The first `n` bytes of `t`, where it is that long and they are text by
/// themselves.
pub open spec fn head(t: Seq<char>, n: int) -> Option<Seq<char>> {
    let b = utf8(t);
    if 0 <= n <= b.len() {
        cut(t, 0, b.len() - n)
    } else {
        None
    }
}

/// The first `n` bytes of `t`.
pub fn head_text(t: &str, n: usize) -> (r: Option<String>)
    ensures
        match head(t@, n as int) {
            Some(c) => r is Some && r->0@ == c,
            None => r is None,
        },
{
    let len = t.as_bytes().len();
    if n > len {
        return None;
    }
    cut_text(t, 0, len - n)
}


/// In text, a byte below 128 is a character by itself: text may be cut before
/// it and behind it.
pub proof fn lemma_ascii_boundaries(b: Seq<u8>, i: int)
    requires
        vstd::utf8::valid_utf8(b),
        0 <= i < b.len(),
        b[i] < 128,
    ensures
        is_char_boundary(b, i),
        is_char_boundary(b, i + 1),
    decreases b.len(),
{
    reveal_with_fuel(vstd::utf8::is_char_boundary, 2);
    reveal_with_fuel(vstd::utf8::valid_utf8, 2);
    vstd::utf8::is_char_boundary_iff_not_is_continuation_byte(b, i);
    let k = vstd::utf8::length_of_first_scalar(b);
    let rest = vstd::utf8::pop_first_scalar(b);
    if i == 0 {
        vstd::utf8::is_char_boundary_start_end_of_seq(rest);
    } else {
        assert(is_char_boundary(rest, i - k));
        assert(rest[i - k] == b[i]);
        lemma_ascii_boundaries(rest, i - k);
    }
}

/// The pieces of `s` cut at every `sep`, in order.
pub open spec fn split(s: Seq<u8>, sep: u8) -> Seq<Seq<u8>>
    decreases s.len(),
{
    let c = find_from(s, sep, 0);
    if c < 0 || c >= s.len() {
        seq![s]
    } else {
        seq![s.subrange(0, c)] + split(s.subrange(c + 1, s.len() as int), sep)
    }
}

/// The texts that the pieces of bytes spell.
pub open spec fn decoded(pieces: Seq<Seq<u8>>) -> Seq<Seq<char>> {
    Seq::new(pieces.len(), |i: int| vstd::utf8::decode_utf8(pieces[i]))
}

/// The pieces of the text `t` cut at every `sep`, a byte below 128.
pub fn split_text(t: &str, sep: u8) -> (r: Vec<String>)
    requires
        sep < 128,
    ensures
        crate::ast_node::shows_texts(r@, decoded(split(utf8(t@), sep))),
{
    let b = t.as_bytes();
    let n = b.len();
    let mut out: Vec<String> = Vec::new();
    let mut start: usize = 0;
    proof {
        broadcast use vstd::utf8::group_utf8_lib;

        assert(b@.subrange(0, n as int) =~= b@);
        vstd::utf8::is_char_boundary_start_end_of_seq(b@);
    }
    loop
        invariant
            b@ == utf8(t@),
            n == b@.len(),
            vstd::utf8::valid_utf8(b@),
            sep < 128,
            start <= n,
            is_char_boundary(b@, start as int),
            is_char_boundary(b@, n as int),
            split(b@, sep).len() == out@.len() + split(b@.subrange(start as int, n as int), sep).len(),
            forall|j: int|
                0 <= j < out@.len() ==> (#[trigger] out@[j])@ == vstd::utf8::decode_utf8(
                    split(b@, sep)[j],
                ),
            forall|j: int|
                0 <= j < split(b@.subrange(start as int, n as int), sep).len() ==> split(
                    b@,
                    sep,
                )[out@.len() + j] == #[trigger] split(b@.subrange(start as int, n as int), sep)[j],
        decreases n - start,
    {
        let cut = find_byte(b, sep, start);
        proof {
            lemma_find_from_tail(b@, sep, start as int, 0);
            lemma_find_from_bounds(b@, sep, start as int);
            let tail = b@.subrange(start as int, n as int);
            assert(find_from(tail, sep, 0) == cut - start);
            assert(tail.subrange(0, cut - start) =~= b@.subrange(start as int, cut as int));
            if cut < n {
                lemma_ascii_boundaries(b@, cut as int);
                assert(tail.subrange(cut - start + 1, tail.len() as int) =~= b@.subrange(
                    cut + 1,
                    n as int,
                ));
            }
        }
        let piece = sub_text(t, start, cut).unwrap();
        proof {
            vstd::utf8::encode_utf8_decode_utf8(piece@);
        }
        let ghost before = out@.len();
        out.push(piece.to_owned());
        if cut >= n {
            proof {
                let tail = b@.subrange(start as int, n as int);
                assert(split(tail, sep) =~= seq![tail]);
                assert(split(b@, sep)[before as int] == split(tail, sep)[0]);
            }
            return out;
        }
        proof {
            let tail = b@.subrange(start as int, n as int);
            let next = b@.subrange(cut + 1, n as int);
            assert(split(tail, sep) =~= seq![tail.subrange(0, cut - start)] + split(next, sep));
            assert(split(b@, sep)[before as int] == split(tail, sep)[0]);
            assert forall|j: int| 0 <= j < split(next, sep).len() implies split(b@, sep)[before + 1
                + j] == #[trigger] split(next, sep)[j] by {
                assert(split(tail, sep)[j + 1] == split(next, sep)[j]);
            }
        }
        start = cut + 1;
    }
}

} // verus!
