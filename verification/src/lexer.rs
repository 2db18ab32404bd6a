//! The tokens of the grammar: where in the source a word, a number, a
//! temporal literal, a text or an operator ends.
use crate::pair::Pair;
use crate::pair::Rule;
use crate::text::sub_text;
use crate::text::utf8;
use vstd::prelude::*;

verus! {

/// The byte of `text` at position `i`, or 0 behind its end.
pub open spec fn byte(text: Seq<char>, i: int) -> u8 {
    if 0 <= i < utf8(text).len() {
        utf8(text)[i]
    } else {
        0
    }
}

/// The number of bytes of `text`.
pub fn len(text: &str) -> (n: usize)
    ensures
        n == utf8(text@).len(),
        utf8(text@).len() <= usize::MAX,
{
    text.as_bytes().len()
}

/// The byte of `text` at position `i`, or 0 behind its end.
pub fn at(text: &str, i: usize) -> (b: u8)
    ensures
        b == byte(text@, i as int),
        utf8(text@).len() <= usize::MAX,
{
    let bytes = text.as_bytes();
    if i < bytes.len() {
        bytes[i]
    } else {
        0
    }
}

pub open spec fn is_space(b: u8) -> bool {
    b == 32 || b == 9 || b == 10 || b == 13
}

pub open spec fn is_letter(b: u8) -> bool {
    (65 <= b <= 90) || (97 <= b <= 122) || b == 95
}

pub open spec fn is_numeral(b: u8) -> bool {
    48 <= b <= 57
}

/// A byte that may stand inside a word.
pub open spec fn is_word_byte(b: u8) -> bool {
    is_letter(b) || is_numeral(b)
}

/// A byte that may stand in an operator symbol.
pub open spec fn is_op_byte(b: u8) -> bool {
    b == 33 || b == 35 || b == 36 || b == 37 || b == 38 || b == 42 || b == 43 || b == 45 || b == 47
        || b == 60 || b == 61 || b == 62 || b == 63 || b == 64 || b == 94 || b == 124 || b == 126
}

pub fn space(b: u8) -> (r: bool)
    ensures
        r == is_space(b),
{
    b == 32 || b == 9 || b == 10 || b == 13
}

pub fn letter(b: u8) -> (r: bool)
    ensures
        r == is_letter(b),
{
    (65 <= b && b <= 90) || (97 <= b && b <= 122) || b == 95
}

pub fn numeral(b: u8) -> (r: bool)
    ensures
        r == is_numeral(b),
{
    48 <= b && b <= 57
}

pub fn word_byte(b: u8) -> (r: bool)
    ensures
        r == is_word_byte(b),
{
    letter(b) || numeral(b)
}

pub fn op_byte(b: u8) -> (r: bool)
    ensures
        r == is_op_byte(b),
{
    b == 33 || b == 35 || b == 36 || b == 37 || b == 38 || b == 42 || b == 43 || b == 45 || b == 47
        || b == 60 || b == 61 || b == 62 || b == 63 || b == 64 || b == 94 || b == 124 || b == 126
}

/// The number of bytes of `text`.
pub open spec fn size(text: Seq<char>) -> int {
    utf8(text).len() as int
}

/// Whether a position that was found is the one that was to be found.
pub open spec fn found(r: Option<usize>, s: Option<int>) -> bool {
    match s {
        Some(e) => r is Some && r->0 == e,
        None => r is None,
    }
}

/// Whether the bytes of `word` stand in `text` from `pos` on.
pub open spec fn stands(text: Seq<char>, pos: int, word: Seq<char>) -> bool {
    &&& pos + utf8(word).len() <= utf8(text).len()
    &&& utf8(text).subrange(pos, pos + utf8(word).len()) == utf8(word)
}

/// The position behind `word` where it stands in `text` at `pos`; an empty
/// word stands nowhere.
pub open spec fn literal_to(text: Seq<char>, pos: int, word: Seq<char>) -> Option<int> {
    if utf8(word).len() > 0 && stands(text, pos, word) {
        Some(pos + utf8(word).len())
    } else {
        None
    }
}

/// The position behind the word `word` where it stands in `text` at `pos`
/// with no further byte of a word behind it.
pub open spec fn keyword_to(text: Seq<char>, pos: int, word: Seq<char>) -> Option<int> {
    match literal_to(text, pos, word) {
        Some(end) => if is_word_byte(byte(text, end)) {
            None
        } else {
            Some(end)
        },
        None => None,
    }
}

/// The position behind `word` where it stands in `text` at `pos`; an empty
/// word stands nowhere.
pub fn literal(text: &str, pos: usize, word: &str) -> (r: Option<usize>)
    requires
        pos <= utf8(text@).len(),
    ensures
        found(r, literal_to(text@, pos as int, word@)),
        r matches Some(end) ==> pos < end <= utf8(text@).len(),
{
    let b = text.as_bytes();
    let w = word.as_bytes();
    if w.len() == 0 || w.len() > b.len() - pos {
        return None;
    }
    let mut i: usize = 0;
    while i < w.len()
        invariant
            pos + w@.len() <= b@.len(),
            b@.len() <= usize::MAX,
            b@ == utf8(text@),
            w@ == utf8(word@),
            i <= w@.len(),
            forall|j: int| 0 <= j < i ==> b@[pos + j] == w@[j],
        decreases w@.len() - i,
    {
        if b[pos + i] != w[i] {
            proof {
                assert(b@.subrange(pos as int, pos + w@.len())[i as int] == b@[pos + i]);
            }
            return None;
        }
        i += 1;
    }
    proof {
        assert(b@.subrange(pos as int, pos + w@.len()) =~= w@);
    }
    Some(pos + w.len())
}

/// The position behind the word `word` where it stands in `text` at `pos`
/// with no further byte of a word behind it.
pub fn keyword(text: &str, pos: usize, word: &str) -> (r: Option<usize>)
    requires
        pos <= utf8(text@).len(),
    ensures
        found(r, keyword_to(text@, pos as int, word@)),
        r matches Some(end) ==> pos < end <= utf8(text@).len(),
{
    match literal(text, pos, word) {
        Some(end) => if word_byte(at(text, end)) {
            None
        } else {
            Some(end)
        },
        None => None,
    }
}

/// The position of the end of the line that holds position `j`.
pub open spec fn line_end(text: Seq<char>, j: int) -> int
    decreases size(text) - j,
{
    if 0 <= j < size(text) && byte(text, j) != 10 {
        line_end(text, j + 1)
    } else {
        j
    }
}

/// The position at or after `j` where a block comment closes, or the end of
/// the text.
pub open spec fn comment_close(text: Seq<char>, j: int) -> int
    decreases size(text) - j,
{
    if 0 <= j < size(text) && !(byte(text, j) == 42 && byte(text, j + 1) == 47) {
        comment_close(text, j + 1)
    } else {
        j
    }
}

/// The position behind the blanks and comments that begin at `i`: spaces,
/// tabs and line ends, comments from `//` to the end of the line, and
/// comments from `/*` to `*/`. A block comment that does not close is none.
pub open spec fn blank_end(text: Seq<char>, i: int) -> int
    decreases size(text) - i,
{
    if i < 0 || i >= size(text) {
        i
    } else if is_space(byte(text, i)) {
        blank_end(text, i + 1)
    } else if byte(text, i) == 47 && byte(text, i + 1) == 47 {
        let j = line_end(text, i + 2);
        if i < j <= size(text) {
            blank_end(text, j)
        } else {
            i
        }
    } else if byte(text, i) == 47 && byte(text, i + 1) == 42 {
        let j = comment_close(text, i + 2);
        if i < j && j + 2 <= size(text) {
            blank_end(text, j + 2)
        } else {
            i
        }
    } else {
        i
    }
}

/// The position behind the blanks and comments that begin at `pos`.
pub fn skip_blank(text: &str, pos: usize) -> (r: usize)
    requires
        pos <= utf8(text@).len(),
    ensures
        r == blank_end(text@, pos as int),
        pos <= r <= utf8(text@).len(),
{
    let n = len(text);
    let mut i = pos;
    loop
        invariant
            pos <= i <= n,
            n == utf8(text@).len(),
            blank_end(text@, pos as int) == blank_end(text@, i as int),
        decreases n - i,
    {
        if i >= n {
            return i;
        }
        let b = at(text, i);
        if space(b) {
            i += 1;
        } else if b == 47 && at(text, i + 1) == 47 {
            let mut j = i + 2;
            while j < n && at(text, j) != 10
                invariant
                    i + 2 <= j <= n,
                    n == utf8(text@).len(),
                    line_end(text@, i + 2) == line_end(text@, j as int),
                decreases n - j,
            {
                j += 1;
            }
            i = j;
        } else if b == 47 && at(text, i + 1) == 42 {
            let mut j = i + 2;
            while j < n && !(at(text, j) == 42 && at(text, j + 1) == 47)
                invariant
                    i + 2 <= j <= n,
                    n == utf8(text@).len(),
                    comment_close(text@, i + 2) == comment_close(text@, j as int),
                decreases n - j,
            {
                j += 1;
            }
            if j >= n {
                return i;
            }
            assert(byte(text@, j + 1) == 47);
            i = j + 2;
        } else {
            return i;
        }
    }
}

/// The position behind the run of digits that begins at `i`.
pub open spec fn digits_to(text: Seq<char>, i: int) -> int
    decreases size(text) - i,
{
    if 0 <= i < size(text) && is_numeral(byte(text, i)) {
        digits_to(text, i + 1)
    } else {
        i
    }
}

/// The position behind the run of digits that begins at `pos`.
pub fn digits(text: &str, pos: usize) -> (r: usize)
    requires
        pos <= utf8(text@).len(),
    ensures
        r == digits_to(text@, pos as int),
        pos <= r <= utf8(text@).len(),
{
    let n = len(text);
    let mut i = pos;
    while i < n && numeral(at(text, i))
        invariant
            pos <= i <= n,
            n == utf8(text@).len(),
            digits_to(text@, pos as int) == digits_to(text@, i as int),
        decreases n - i,
    {
        i += 1;
    }
    i
}

/// The position behind the run of bytes of a word that begins at `i`.
pub open spec fn word_run(text: Seq<char>, i: int) -> int
    decreases size(text) - i,
{
    if 0 <= i < size(text) && is_word_byte(byte(text, i)) {
        word_run(text, i + 1)
    } else {
        i
    }
}

/// The position behind the word that begins at `pos`: a letter or an
/// underscore and then letters, digits and underscores; `pos` where no word
/// begins.
pub open spec fn word_to(text: Seq<char>, pos: int) -> int {
    if is_letter(byte(text, pos)) {
        word_run(text, pos + 1)
    } else {
        pos
    }
}

/// The position behind the word that begins at `pos`.
pub fn word(text: &str, pos: usize) -> (r: usize)
    requires
        pos <= utf8(text@).len(),
    ensures
        r == word_to(text@, pos as int),
        pos <= r <= utf8(text@).len(),
        r > pos <==> is_letter(byte(text@, pos as int)),
{
    let n = len(text);
    if !letter(at(text, pos)) {
        return pos;
    }
    let mut i = pos + 1;
    while i < n && word_byte(at(text, i))
        invariant
            pos < i <= n,
            n == utf8(text@).len(),
            word_run(text@, pos + 1) == word_run(text@, i as int),
        decreases n - i,
    {
        i += 1;
    }
    i
}

/// The position behind a date `dddd-dd-dd` that begins at `pos`.
pub open spec fn date_to(text: Seq<char>, pos: int) -> Option<int> {
    if pos + 10 <= size(text) && is_numeral(byte(text, pos)) && is_numeral(byte(text, pos + 1))
        && is_numeral(byte(text, pos + 2)) && is_numeral(byte(text, pos + 3)) && byte(text, pos + 4)
        == 45 && is_numeral(byte(text, pos + 5)) && is_numeral(byte(text, pos + 6)) && byte(
        text,
        pos + 7,
    ) == 45 && is_numeral(byte(text, pos + 8)) && is_numeral(byte(text, pos + 9)) {
        Some(pos + 10)
    } else {
        None
    }
}

/// The position behind a date `dddd-dd-dd` that begins at `pos`.
pub fn date_end(text: &str, pos: usize) -> (r: Option<usize>)
    requires
        pos <= utf8(text@).len(),
    ensures
        found(r, date_to(text@, pos as int)),
        r matches Some(end) ==> end == pos + 10 && end <= utf8(text@).len(),
{
    let n = len(text);
    if n - pos < 10 {
        return None;
    }
    if numeral(at(text, pos)) && numeral(at(text, pos + 1)) && numeral(at(text, pos + 2)) && numeral(
        at(text, pos + 3),
    ) && at(text, pos + 4) == 45 && numeral(at(text, pos + 5)) && numeral(at(text, pos + 6)) && at(
        text,
        pos + 7,
    ) == 45 && numeral(at(text, pos + 8)) && numeral(at(text, pos + 9)) {
        Some(pos + 10)
    } else {
        None
    }
}

/// The position behind a time of day `dd:dd:dd` that begins at `pos`.
pub open spec fn clock_to(text: Seq<char>, pos: int) -> Option<int> {
    if pos + 8 <= size(text) && is_numeral(byte(text, pos)) && is_numeral(byte(text, pos + 1))
        && byte(text, pos + 2) == 58 && is_numeral(byte(text, pos + 3)) && is_numeral(
        byte(text, pos + 4),
    ) && byte(text, pos + 5) == 58 && is_numeral(byte(text, pos + 6)) && is_numeral(
        byte(text, pos + 7),
    ) {
        Some(pos + 8)
    } else {
        None
    }
}

/// The position behind a time of day `dd:dd:dd` that begins at `pos`.
pub fn clock_end(text: &str, pos: usize) -> (r: Option<usize>)
    requires
        pos <= utf8(text@).len(),
    ensures
        found(r, clock_to(text@, pos as int)),
        r matches Some(end) ==> end == pos + 8 && end <= utf8(text@).len(),
{
    let n = len(text);
    if n - pos < 8 {
        return None;
    }
    if numeral(at(text, pos)) && numeral(at(text, pos + 1)) && at(text, pos + 2) == 58 && numeral(
        at(text, pos + 3),
    ) && numeral(at(text, pos + 4)) && at(text, pos + 5) == 58 && numeral(at(text, pos + 6))
        && numeral(at(text, pos + 7)) {
        Some(pos + 8)
    } else {
        None
    }
}

/// The position behind the fraction that may follow a time at `pos`: a `.` and
/// at most `most` digits. `None` where more digits follow.
pub open spec fn fraction_to(text: Seq<char>, pos: int, most: int) -> Option<int> {
    if byte(text, pos) != 46 {
        Some(pos)
    } else if digits_to(text, pos + 1) - (pos + 1) > most {
        None
    } else {
        Some(digits_to(text, pos + 1))
    }
}

/// The position behind the fraction that may follow a time at `pos`.
pub fn fraction_end(text: &str, pos: usize, most: usize) -> (r: Option<usize>)
    requires
        pos <= utf8(text@).len(),
    ensures
        found(r, fraction_to(text@, pos as int, most as int)),
        r matches Some(end) ==> pos <= end <= utf8(text@).len(),
{
    if at(text, pos) != 46 {
        return Some(pos);
    }
    assert(pos < utf8(text@).len());
    let end = digits(text, pos + 1);
    if end - (pos + 1) > most {
        None
    } else {
        Some(end)
    }
}

/// A suffix that names the type of a number: where it ends, and whether it
/// names a floating type.
pub struct Suffix {
    pub end: int,
    pub float: bool,
}

/// The suffix that names the type of a number, where one stands at `pos`.
pub open spec fn type_suffix_to(text: Seq<char>, pos: int) -> Option<Suffix> {
    if keyword_to(text, pos, "u8"@) is Some {
        Some(Suffix { end: keyword_to(text, pos, "u8"@)->0, float: false })
    } else if keyword_to(text, pos, "i8"@) is Some {
        Some(Suffix { end: keyword_to(text, pos, "i8"@)->0, float: false })
    } else if keyword_to(text, pos, "u16"@) is Some {
        Some(Suffix { end: keyword_to(text, pos, "u16"@)->0, float: false })
    } else if keyword_to(text, pos, "i16"@) is Some {
        Some(Suffix { end: keyword_to(text, pos, "i16"@)->0, float: false })
    } else if keyword_to(text, pos, "u32"@) is Some {
        Some(Suffix { end: keyword_to(text, pos, "u32"@)->0, float: false })
    } else if keyword_to(text, pos, "i32"@) is Some {
        Some(Suffix { end: keyword_to(text, pos, "i32"@)->0, float: false })
    } else if keyword_to(text, pos, "u64"@) is Some {
        Some(Suffix { end: keyword_to(text, pos, "u64"@)->0, float: false })
    } else if keyword_to(text, pos, "i64"@) is Some {
        Some(Suffix { end: keyword_to(text, pos, "i64"@)->0, float: false })
    } else if keyword_to(text, pos, "f32"@) is Some {
        Some(Suffix { end: keyword_to(text, pos, "f32"@)->0, float: true })
    } else if keyword_to(text, pos, "f64"@) is Some {
        Some(Suffix { end: keyword_to(text, pos, "f64"@)->0, float: true })
    } else {
        None
    }
}

/// Whether a suffix that was found is the one that was to be found.
pub open spec fn found_suffix(r: Option<(usize, bool)>, s: Option<Suffix>) -> bool {
    match s {
        Some(x) => r matches Some((end, float)) && end == x.end && float == x.float,
        None => r is None,
    }
}

/// The position behind the suffix that names the type of a number, where one
/// stands at `pos`, and whether it names a floating type.
pub fn type_suffix(text: &str, pos: usize) -> (r: Option<(usize, bool)>)
    requires
        pos <= utf8(text@).len(),
    ensures
        found_suffix(r, type_suffix_to(text@, pos as int)),
        match r {
            Some((end, _)) => pos < end <= utf8(text@).len(),
            None => true,
        },
{
    if let Some(e) = keyword(text, pos, "u8") {
        return Some((e, false));
    }
    if let Some(e) = keyword(text, pos, "i8") {
        return Some((e, false));
    }
    if let Some(e) = keyword(text, pos, "u16") {
        return Some((e, false));
    }
    if let Some(e) = keyword(text, pos, "i16") {
        return Some((e, false));
    }
    if let Some(e) = keyword(text, pos, "u32") {
        return Some((e, false));
    }
    if let Some(e) = keyword(text, pos, "i32") {
        return Some((e, false));
    }
    if let Some(e) = keyword(text, pos, "u64") {
        return Some((e, false));
    }
    if let Some(e) = keyword(text, pos, "i64") {
        return Some((e, false));
    }
    if let Some(e) = keyword(text, pos, "f32") {
        return Some((e, true));
    }
    if let Some(e) = keyword(text, pos, "f64") {
        return Some((e, true));
    }
    None
}

/// The position behind the unit of a duration, where one stands at `pos`.
pub open spec fn unit_suffix_to(text: Seq<char>, pos: int) -> Option<int> {
    if keyword_to(text, pos, "ns"@) is Some {
        keyword_to(text, pos, "ns"@)
    } else if keyword_to(text, pos, "s"@) is Some {
        keyword_to(text, pos, "s"@)
    } else if keyword_to(text, pos, "m"@) is Some {
        keyword_to(text, pos, "m"@)
    } else {
        keyword_to(text, pos, "h"@)
    }
}

/// The position behind the unit of a duration, where one stands at `pos`.
pub fn unit_suffix(text: &str, pos: usize) -> (r: Option<usize>)
    requires
        pos <= utf8(text@).len(),
    ensures
        found(r, unit_suffix_to(text@, pos as int)),
        r matches Some(end) ==> pos < end <= utf8(text@).len(),
{
    if let Some(e) = keyword(text, pos, "ns") {
        return Some(e);
    }
    if let Some(e) = keyword(text, pos, "s") {
        return Some(e);
    }
    if let Some(e) = keyword(text, pos, "m") {
        return Some(e);
    }
    keyword(text, pos, "h")
}

/// A token that stands for a value: the rule of the literal that it is, where
/// it ends, and whether a suffix behind a number names its type.
pub struct Token {
    pub rule: Rule,
    pub end: usize,
    pub suffixed: bool,
}

/// What a token is.
pub struct TokenView {
    pub rule: Rule,
    pub end: int,
    pub suffixed: bool,
}

/// Whether a token that was found is the one that was to be found.
pub open spec fn found_token(r: Option<Token>, s: Option<TokenView>) -> bool {
    match s {
        Some(t) => r is Some && r->0.rule == t.rule && r->0.end == t.end && r->0.suffixed
            == t.suffixed,
        None => r is None,
    }
}

pub open spec fn plain(rule: Rule, end: int) -> Option<TokenView> {
    Some(TokenView { rule, end, suffixed: false })
}

/// The token behind a date that ends at `d`: a datetime where `T` follows, a
/// timestamp where `D` follows, each with its time of day where one stands
/// there, else the date.
pub open spec fn dated_to(text: Seq<char>, d: int) -> Option<TokenView> {
    let mark = byte(text, d);
    if mark == 84 || mark == 68 {
        let rule = if mark == 84 {
            Rule::Datetime
        } else {
            Rule::Timestamp
        };
        let most: int = if mark == 84 {
            3
        } else {
            9
        };
        match clock_to(text, d + 1) {
            Some(c) => match fraction_to(text, c, most) {
                Some(end) => plain(rule, end),
                None => None,
            },
            None => plain(rule, d + 1),
        }
    } else {
        plain(Rule::Date, d)
    }
}

fn dated(text: &str, d: usize) -> (r: Option<Token>)
    requires
        d <= utf8(text@).len(),
    ensures
        found_token(r, dated_to(text@, d as int)),
        r matches Some(t) ==> d <= t.end <= utf8(text@).len(),
{
    let mark = at(text, d);
    if mark == 84 || mark == 68 {
        assert(d < utf8(text@).len());
        let rule = if mark == 84 {
            Rule::Datetime
        } else {
            Rule::Timestamp
        };
        let most: usize = if mark == 84 {
            3
        } else {
            9
        };
        match clock_end(text, d + 1) {
            Some(c) => match fraction_end(text, c, most) {
                Some(end) => Some(Token { rule, end, suffixed: false }),
                None => None,
            },
            None => Some(Token { rule, end: d + 1, suffixed: false }),
        }
    } else {
        Some(Token { rule: Rule::Date, end: d, suffixed: false })
    }
}

/// The token of a number with a fraction whose digits end at `e`.
pub open spec fn decimal_to(text: Seq<char>, e: int) -> Option<TokenView> {
    match type_suffix_to(text, e) {
        Some(s) => if s.float {
            Some(TokenView { rule: Rule::Decimal, end: s.end, suffixed: true })
        } else {
            None
        },
        None => plain(Rule::Decimal, e),
    }
}

fn decimal(text: &str, e: usize) -> (r: Option<Token>)
    requires
        e <= utf8(text@).len(),
    ensures
        found_token(r, decimal_to(text@, e as int)),
        r matches Some(t) ==> e <= t.end <= utf8(text@).len(),
{
    match type_suffix(text, e) {
        Some((end, true)) => Some(Token { rule: Rule::Decimal, end, suffixed: true }),
        Some((_, false)) => None,
        None => Some(Token { rule: Rule::Decimal, end: e, suffixed: false }),
    }
}

/// The token of a number that begins at `pos`, whose digits begin at `from`,
/// behind a sign or not, and end at `i`: a duration where `D` or a unit
/// follows, a decimal where `.` follows, an integer or a decimal with a type
/// suffix, `1b` or `0b`, `0n`, else an integer.
pub open spec fn numbered_to(text: Seq<char>, pos: int, from: int, i: int) -> Option<TokenView> {
    let next = byte(text, i);
    if next == 68 {
        match clock_to(text, i + 1) {
            Some(c) => match fraction_to(text, c, 9) {
                Some(end) => plain(Rule::Duration, end),
                None => None,
            },
            None => plain(Rule::Duration, i + 1),
        }
    } else if next == 46 {
        decimal_to(text, digits_to(text, i + 1))
    } else if unit_suffix_to(text, i) is Some {
        plain(Rule::Duration, unit_suffix_to(text, i)->0)
    } else if type_suffix_to(text, i) is Some {
        Some(
            TokenView {
                rule: if type_suffix_to(text, i)->0.float {
                    Rule::Decimal
                } else {
                    Rule::Integer
                },
                end: type_suffix_to(text, i)->0.end,
                suffixed: true,
            },
        )
    } else if from == pos && i == from + 1 && next == 98 && (byte(text, from) == 48 || byte(
        text,
        from,
    ) == 49) && !is_word_byte(byte(text, i + 1)) {
        plain(Rule::Boolean, i + 1)
    } else if from == pos && i == from + 1 && next == 110 && byte(text, from) == 48
        && !is_word_byte(byte(text, i + 1)) {
        plain(Rule::Null, i + 1)
    } else {
        plain(Rule::Integer, i)
    }
}

fn numbered(text: &str, pos: usize, from: usize, i: usize) -> (r: Option<Token>)
    requires
        pos <= from < i <= utf8(text@).len(),
    ensures
        found_token(r, numbered_to(text@, pos as int, from as int, i as int)),
        r matches Some(t) ==> pos < t.end <= utf8(text@).len(),
{
    let next = at(text, i);
    assert(next != 0 ==> i < utf8(text@).len());
    if next == 68 {
        return match clock_end(text, i + 1) {
            Some(c) => match fraction_end(text, c, 9) {
                Some(end) => Some(Token { rule: Rule::Duration, end, suffixed: false }),
                None => None,
            },
            None => Some(Token { rule: Rule::Duration, end: i + 1, suffixed: false }),
        };
    }
    if next == 46 {
        let e = digits(text, i + 1);
        return decimal(text, e);
    }
    if let Some(end) = unit_suffix(text, i) {
        return Some(Token { rule: Rule::Duration, end, suffixed: false });
    }
    match type_suffix(text, i) {
        Some((end, true)) => {
            return Some(Token { rule: Rule::Decimal, end, suffixed: true });
        },
        Some((end, false)) => {
            return Some(Token { rule: Rule::Integer, end, suffixed: true });
        },
        None => {},
    }
    if from == pos && i == from + 1 {
        let d = at(text, from);
        if next == 98 && (d == 48 || d == 49) && !word_byte(at(text, i + 1)) {
            return Some(Token { rule: Rule::Boolean, end: i + 1, suffixed: false });
        }
        if next == 110 && d == 48 && !word_byte(at(text, i + 1)) {
            return Some(Token { rule: Rule::Null, end: i + 1, suffixed: false });
        }
    }
    Some(Token { rule: Rule::Integer, end: i, suffixed: false })
}

/// The token that begins at `pos`, before it is asked what follows it.
pub open spec fn raw_token_to(text: Seq<char>, pos: int) -> Option<TokenView> {
    if date_to(text, pos) is Some {
        dated_to(text, date_to(text, pos)->0)
    } else if clock_to(text, pos) is Some {
        match fraction_to(text, clock_to(text, pos)->0, 9) {
            Some(end) => plain(Rule::Time, end),
            None => None,
        }
    } else {
        let from = if byte(text, pos) == 45 {
            pos + 1
        } else {
            pos
        };
        if from > size(text) {
            None
        } else if digits_to(text, from) > from {
            numbered_to(text, pos, from, digits_to(text, from))
        } else if byte(text, from) == 46 && is_numeral(byte(text, from + 1)) {
            decimal_to(text, digits_to(text, from + 1))
        } else if keyword_to(text, pos, "true"@) is Some {
            plain(Rule::Boolean, keyword_to(text, pos, "true"@)->0)
        } else if keyword_to(text, pos, "false"@) is Some {
            plain(Rule::Boolean, keyword_to(text, pos, "false"@)->0)
        } else if keyword_to(text, pos, "null"@) is Some {
            plain(Rule::Null, keyword_to(text, pos, "null"@)->0)
        } else {
            None
        }
    }
}

/// The token that stands for a value at `pos`: a temporal literal, a number,
/// a boolean or the missing value. No byte of a word may follow it.
pub open spec fn scalar_to(text: Seq<char>, pos: int) -> Option<TokenView> {
    match raw_token_to(text, pos) {
        Some(t) => if is_word_byte(byte(text, t.end)) || t.end <= pos {
            None
        } else {
            Some(t)
        },
        None => None,
    }
}

/// The token that stands for a value at `pos`.
pub fn scalar_token(text: &str, pos: usize) -> (r: Option<Token>)
    requires
        pos <= utf8(text@).len(),
    ensures
        found_token(r, scalar_to(text@, pos as int)),
        r matches Some(t) ==> pos < t.end <= utf8(text@).len(),
{
    let found = if let Some(d) = date_end(text, pos) {
        dated(text, d)
    } else if let Some(c) = clock_end(text, pos) {
        match fraction_end(text, c, 9) {
            Some(end) => Some(Token { rule: Rule::Time, end, suffixed: false }),
            None => None,
        }
    } else {
        let sign = at(text, pos) == 45;
        assert(sign ==> pos < utf8(text@).len());
        let from = if sign {
            pos + 1
        } else {
            pos
        };
        if from > len(text) {
            None
        } else {
            let i = digits(text, from);
            if i > from {
                numbered(text, pos, from, i)
            } else if at(text, from) == 46 && numeral(at(text, from + 1)) {
                let e = digits(text, from + 1);
                decimal(text, e)
            } else if let Some(end) = keyword(text, pos, "true") {
                Some(Token { rule: Rule::Boolean, end, suffixed: false })
            } else if let Some(end) = keyword(text, pos, "false") {
                Some(Token { rule: Rule::Boolean, end, suffixed: false })
            } else if let Some(end) = keyword(text, pos, "null") {
                Some(Token { rule: Rule::Null, end, suffixed: false })
            } else {
                None
            }
        }
    };
    match found {
        Some(t) => if word_byte(at(text, t.end)) || t.end <= pos {
            None
        } else {
            Some(t)
        },
        None => None,
    }
}

/// The position of the next `quote` at or after `i`, or the end of the text.
pub open spec fn quote_run(text: Seq<char>, i: int, quote: u8) -> int
    decreases size(text) - i,
{
    if 0 <= i < size(text) && byte(text, i) != quote {
        quote_run(text, i + 1, quote)
    } else {
        i
    }
}

/// The position behind the text between two `quote`s that begins at `pos`.
pub open spec fn quoted_to(text: Seq<char>, pos: int, quote: u8) -> Option<int> {
    if pos >= size(text) || byte(text, pos) != quote {
        None
    } else if quote_run(text, pos + 1, quote) >= size(text) {
        None
    } else {
        Some(quote_run(text, pos + 1, quote) + 1)
    }
}

/// The position behind the text between two `quote`s that begins at `pos`.
pub fn quoted_end(text: &str, pos: usize, quote: u8) -> (r: Option<usize>)
    requires
        pos <= utf8(text@).len(),
    ensures
        found(r, quoted_to(text@, pos as int, quote)),
        r matches Some(end) ==> pos + 2 <= end <= utf8(text@).len(),
{
    let n = len(text);
    if pos >= n || at(text, pos) != quote {
        return None;
    }
    let mut i = pos + 1;
    while i < n && at(text, i) != quote
        invariant
            pos < i <= n,
            n == utf8(text@).len(),
            quote_run(text@, pos + 1, quote) == quote_run(text@, i as int, quote),
        decreases n - i,
    {
        i += 1;
    }
    if i >= n {
        None
    } else {
        Some(i + 1)
    }
}

/// A byte that may stand in a symbol.
pub open spec fn is_symbol_byte(b: u8) -> bool {
    is_word_byte(b) || b == 46
}

/// The position behind the run of bytes of a symbol that begins at `i`.
pub open spec fn symbol_run(text: Seq<char>, i: int) -> int
    decreases size(text) - i,
{
    if 0 <= i < size(text) && is_symbol_byte(byte(text, i)) {
        symbol_run(text, i + 1)
    } else {
        i
    }
}

/// The position behind the symbol that begins with the backtick at `pos`.
pub open spec fn symbol_to(text: Seq<char>, pos: int) -> Option<int> {
    if pos >= size(text) || byte(text, pos) != 96 {
        None
    } else {
        Some(symbol_run(text, pos + 1))
    }
}

/// The position behind the symbol that begins with the backtick at `pos`.
pub fn symbol_end(text: &str, pos: usize) -> (r: Option<usize>)
    requires
        pos <= utf8(text@).len(),
    ensures
        found(r, symbol_to(text@, pos as int)),
        r matches Some(end) ==> pos < end <= utf8(text@).len(),
{
    let n = len(text);
    if pos >= n || at(text, pos) != 96 {
        return None;
    }
    let mut i = pos + 1;
    while i < n && (word_byte(at(text, i)) || at(text, i) == 46)
        invariant
            pos < i <= n,
            n == utf8(text@).len(),
            symbol_run(text@, pos + 1) == symbol_run(text@, i as int),
        decreases n - i,
    {
        i += 1;
    }
    Some(i)
}

/// Whether a comment begins at `i`.
pub open spec fn comment_at(text: Seq<char>, i: int) -> bool {
    byte(text, i) == 47 && (byte(text, i + 1) == 47 || byte(text, i + 1) == 42)
}

/// The position behind the run of operator bytes that begins at `i` and stops
/// before a comment.
pub open spec fn op_run(text: Seq<char>, i: int) -> int
    decreases size(text) - i,
{
    if 0 <= i < size(text) && is_op_byte(byte(text, i)) && !comment_at(text, i) {
        op_run(text, i + 1)
    } else {
        i
    }
}

/// The position behind the operator symbol that begins at `pos`: a run of
/// operator bytes that is no lone `=`, begins no negative number and stops
/// before a comment.
pub open spec fn operator_to(text: Seq<char>, pos: int) -> Option<int> {
    if byte(text, pos) == 45 && is_numeral(byte(text, pos + 1)) {
        None
    } else if op_run(text, pos) == pos {
        None
    } else if op_run(text, pos) == pos + 1 && byte(text, pos) == 61 {
        None
    } else {
        Some(op_run(text, pos))
    }
}

/// The position behind the operator symbol that begins at `pos`.
pub fn operator_end(text: &str, pos: usize) -> (r: Option<usize>)
    requires
        pos <= utf8(text@).len(),
    ensures
        found(r, operator_to(text@, pos as int)),
        r matches Some(end) ==> pos < end <= utf8(text@).len(),
{
    let n = len(text);
    if at(text, pos) == 45 && numeral(at(text, pos + 1)) {
        return None;
    }
    let mut i = pos;
    while i < n && op_byte(at(text, i)) && !(at(text, i) == 47 && (at(text, i + 1) == 47 || at(
        text,
        i + 1,
    ) == 42))
        invariant
            pos <= i <= n,
            n == utf8(text@).len(),
            op_run(text@, pos as int) == op_run(text@, i as int),
        decreases n - i,
    {
        i += 1;
    }
    if i == pos {
        return None;
    }
    if i == pos + 1 && at(text, pos) == 61 {
        return None;
    }
    Some(i)
}

/// The position behind the function name used as an operator that begins at
/// `pos`: a `~` or a `\` and then a word.
pub open spec fn binary_id_to(text: Seq<char>, pos: int) -> Option<int> {
    if (byte(text, pos) == 126 || byte(text, pos) == 92) && pos < size(text) && word_to(
        text,
        pos + 1,
    ) > pos + 1 {
        Some(word_to(text, pos + 1))
    } else {
        None
    }
}

/// The position behind the function name used as an operator that begins at
/// `pos`.
pub fn binary_id_end(text: &str, pos: usize) -> (r: Option<usize>)
    requires
        pos <= utf8(text@).len(),
    ensures
        found(r, binary_id_to(text@, pos as int)),
        r matches Some(end) ==> pos + 1 < end <= utf8(text@).len(),
{
    let b = at(text, pos);
    if (b == 126 || b == 92) && pos < len(text) {
        let end = word(text, pos + 1);
        if end > pos + 1 {
            Some(end)
        } else {
            None
        }
    } else {
        None
    }
}

/// A node of a parse tree, without its text.
pub struct Tree {
    pub rule: Rule,
    pub start: int,
    pub end: int,
    pub inner: Seq<Tree>,
}

/// The node of a parse tree, without its text.
pub open spec fn tree_of(p: Pair) -> Tree
    decreases p, 0nat,
{
    Tree {
        rule: p.rule,
        start: p.start as int,
        end: p.end as int,
        inner: trees_of(p.inner@, p.inner@.len()),
    }
}

/// The first `n` nodes, without their texts.
pub open spec fn trees_of(ps: Seq<Pair>, n: nat) -> Seq<Tree>
    decreases ps, n,
{
    if n == 0 || n > ps.len() {
        Seq::empty()
    } else {
        trees_of(ps, (n - 1) as nat).push(tree_of(ps[n - 1]))
    }
}

/// Whether the text may be cut at the byte position `i`: it falls between two
/// characters, or at an end of the text.
#[verifier::opaque]
pub open spec fn cuttable(text: Seq<char>, i: int) -> bool {
    vstd::utf8::is_char_boundary(utf8(text), i)
}

/// The node of `rule` over the bytes from `start` to `end` with `inner`
/// inside it, where the bytes are text by themselves.
pub open spec fn made(text: Seq<char>, rule: Rule, start: int, end: int, inner: Seq<Tree>) -> Option<
    Tree,
> {
    if 0 <= start <= end <= size(text) && cuttable(text, start) && cuttable(text, end) {
        Some(Tree { rule, start, end, inner })
    } else {
        None
    }
}

/// Adding a node to nodes adds its tree to their trees.
pub proof fn lemma_trees_push(ps: Seq<Pair>, p: Pair)
    ensures
        trees_of(ps.push(p), ps.len() + 1) == trees_of(ps, ps.len()).push(tree_of(p)),
{
    lemma_trees_prefix(ps, p, ps.len());
    assert(ps.push(p)[ps.len() as int] == p);
}

proof fn lemma_trees_prefix(ps: Seq<Pair>, p: Pair, n: nat)
    requires
        n <= ps.len(),
    ensures
        trees_of(ps.push(p), n) == trees_of(ps, n),
    decreases n,
{
    if n > 0 {
        lemma_trees_prefix(ps, p, (n - 1) as nat);
        assert(ps.push(p)[n - 1] == ps[n - 1]);
    }
}

/// The node of `rule` over the bytes from `start` to `end` with `inner`
/// inside it; `None` where the bytes are no text by themselves.
pub fn node(text: &str, rule: Rule, start: usize, end: usize, inner: Vec<Pair>) -> (r: Option<Pair>)
    requires
        forall|i: int|
            0 <= i < inner@.len() ==> (#[trigger] inner@[i]).within(utf8(text@)) && start
                <= inner@[i].start && inner@[i].end <= end,
    ensures
        match made(text@, rule, start as int, end as int, trees_of(inner@, inner@.len())) {
            Some(t) => r is Some && tree_of(r->0) == t,
            None => r is None,
        },
        r matches Some(p) ==> p.within(utf8(text@)) && p.rule == rule && p.start == start && p.end
            == end && p.inner == inner,
{
    reveal(cuttable);
    match sub_text(text, start, end) {
        Some(s) => Some(Pair { rule, start, end, text: s.to_owned(), inner }),
        None => None,
    }
}

/// A node without nodes inside it.
pub fn leaf(text: &str, rule: Rule, start: usize, end: usize) -> (r: Option<Pair>)
    ensures
        match made(text@, rule, start as int, end as int, Seq::empty()) {
            Some(t) => r is Some && tree_of(r->0) == t,
            None => r is None,
        },
        r matches Some(p) ==> p.within(utf8(text@)) && p.rule == rule && p.start == start && p.end
            == end && p.inner@.len() == 0,
{
    node(text, rule, start, end, Vec::new())
}

} // verus!
