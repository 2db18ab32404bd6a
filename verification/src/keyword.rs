//! The reserved words of the language.
use crate::text::same_text;
use vstd::prelude::*;

verus! {

/// Whether `word` is one of the reserved words, which no identifier may spell.
#[verifier::opaque]
pub open spec fn reserved(word: Seq<char>) -> bool {
    ||| word == "select"@
    ||| word == "update"@
    ||| word == "delete"@
    ||| word == "group"@
    ||| word == "by"@
    ||| word == "from"@
    ||| word == "where"@
    ||| word == "order"@
    ||| word == "take"@
    ||| word == "sort"@
    ||| word == "if"@
    ||| word == "exit"@
    ||| word == "while"@
    ||| word == "try"@
    ||| word == "catch"@
    ||| word == "return"@
    ||| word == "raise"@
    ||| word == "fn"@
    ||| word == "df"@
    ||| word == "true"@
    ||| word == "false"@
    ||| word == "null"@
}

/// Whether `s` is a reserved word.
pub fn is_keyword(s: &str) -> (r: bool)
    ensures
        r == reserved(s@),
{
    reveal(reserved);
    same_text(s, "select") || same_text(s, "update") || same_text(s, "delete") || same_text(
        s,
        "group",
    ) || same_text(s, "by") || same_text(s, "from") || same_text(s, "where") || same_text(
        s,
        "order",
    ) || same_text(s, "take") || same_text(s, "sort") || same_text(s, "if") || same_text(s, "exit")
        || same_text(s, "while") || same_text(s, "try") || same_text(s, "catch") || same_text(
        s,
        "return",
    ) || same_text(s, "raise") || same_text(s, "fn") || same_text(s, "df") || same_text(s, "true")
        || same_text(s, "false") || same_text(s, "null")
}

} // verus!
