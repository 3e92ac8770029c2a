//! The version registry: a fixed table that pairs each protocol version
//! label with a one-byte code.

use crate::text::str_eq;
use vstd::prelude::*;

verus! {

/// The code that the registry gives to `label`, if it knows the label.
pub open spec fn code_of_label(label: Seq<char>) -> Option<u8> {
    if label == "1.8"@ {
        Some(1u8)
    } else if label == "1.9"@ {
        Some(2u8)
    } else if label == "1.10"@ {
        Some(3u8)
    } else if label == "1.11"@ {
        Some(4u8)
    } else if label == "1.12"@ {
        Some(5u8)
    } else if label == "1.13"@ {
        Some(6u8)
    } else if label == "1.14"@ {
        Some(7u8)
    } else if label == "1.15"@ {
        Some(8u8)
    } else if label == "1.16"@ {
        Some(9u8)
    } else if label == "1.17"@ {
        Some(10u8)
    } else if label == "1.18"@ {
        Some(11u8)
    } else if label == "1.19"@ {
        Some(12u8)
    } else if label == "1.20"@ {
        Some(13u8)
    } else if label == "1.21"@ {
        Some(14u8)
    } else {
        None
    }
}

/// The label that the registry gives to `code`, if it knows the code.
pub open spec fn label_of_code(code: u8) -> Option<Seq<char>> {
    if code == 1 {
        Some("1.8"@)
    } else if code == 2 {
        Some("1.9"@)
    } else if code == 3 {
        Some("1.10"@)
    } else if code == 4 {
        Some("1.11"@)
    } else if code == 5 {
        Some("1.12"@)
    } else if code == 6 {
        Some("1.13"@)
    } else if code == 7 {
        Some("1.14"@)
    } else if code == 8 {
        Some("1.15"@)
    } else if code == 9 {
        Some("1.16"@)
    } else if code == 10 {
        Some("1.17"@)
    } else if code == 11 {
        Some("1.18"@)
    } else if code == 12 {
        Some("1.19"@)
    } else if code == 13 {
        Some("1.20"@)
    } else if code == 14 {
        Some("1.21"@)
    } else {
        None
    }
}

/// What each label of the table spells, character by character. Two labels
/// of the table are equal only if they are the same entry.
pub proof fn lemma_label_spellings()
    ensures
        "1.8"@ == seq!['1', '.', '8'],
        "1.9"@ == seq!['1', '.', '9'],
        "1.10"@ == seq!['1', '.', '1', '0'],
        "1.11"@ == seq!['1', '.', '1', '1'],
        "1.12"@ == seq!['1', '.', '1', '2'],
        "1.13"@ == seq!['1', '.', '1', '3'],
        "1.14"@ == seq!['1', '.', '1', '4'],
        "1.15"@ == seq!['1', '.', '1', '5'],
        "1.16"@ == seq!['1', '.', '1', '6'],
        "1.17"@ == seq!['1', '.', '1', '7'],
        "1.18"@ == seq!['1', '.', '1', '8'],
        "1.19"@ == seq!['1', '.', '1', '9'],
        "1.20"@ == seq!['1', '.', '2', '0'],
        "1.21"@ == seq!['1', '.', '2', '1'],
{
    reveal_strlit("1.8");
    reveal_strlit("1.9");
    reveal_strlit("1.10");
    reveal_strlit("1.11");
    reveal_strlit("1.12");
    reveal_strlit("1.13");
    reveal_strlit("1.14");
    reveal_strlit("1.15");
    reveal_strlit("1.16");
    reveal_strlit("1.17");
    reveal_strlit("1.18");
    reveal_strlit("1.19");
    reveal_strlit("1.20");
    reveal_strlit("1.21");
}

/// The two lookups are inverse to each other: a label has a code exactly
/// when that code has that label. So no code is used twice, and a code
/// always resolves back to the label it was given for.
pub proof fn lemma_registry_bijective(label: Seq<char>, code: u8)
    ensures
        code_of_label(label) == Some(code) <==> label_of_code(code) == Some(label),
{
    lemma_label_spellings();
}

/// The code for `label`, or `None` when the registry does not know it.
pub fn code_for(label: &str) -> (code: Option<u8>)
    ensures
        code == code_of_label(label@),
{
    if str_eq(label, "1.8") {
        Some(1)
    } else if str_eq(label, "1.9") {
        Some(2)
    } else if str_eq(label, "1.10") {
        Some(3)
    } else if str_eq(label, "1.11") {
        Some(4)
    } else if str_eq(label, "1.12") {
        Some(5)
    } else if str_eq(label, "1.13") {
        Some(6)
    } else if str_eq(label, "1.14") {
        Some(7)
    } else if str_eq(label, "1.15") {
        Some(8)
    } else if str_eq(label, "1.16") {
        Some(9)
    } else if str_eq(label, "1.17") {
        Some(10)
    } else if str_eq(label, "1.18") {
        Some(11)
    } else if str_eq(label, "1.19") {
        Some(12)
    } else if str_eq(label, "1.20") {
        Some(13)
    } else if str_eq(label, "1.21") {
        Some(14)
    } else {
        None
    }
}

/// The label for `code`, or `None` when the registry does not know it.
pub fn label_for(code: u8) -> (label: Option<&'static str>)
    ensures
        label is Some <==> label_of_code(code) is Some,
        label matches Some(text) ==> label_of_code(code) == Some(text@),
{
    match code {
        1 => Some("1.8"),
        2 => Some("1.9"),
        3 => Some("1.10"),
        4 => Some("1.11"),
        5 => Some("1.12"),
        6 => Some("1.13"),
        7 => Some("1.14"),
        8 => Some("1.15"),
        9 => Some("1.16"),
        10 => Some("1.17"),
        11 => Some("1.18"),
        12 => Some("1.19"),
        13 => Some("1.20"),
        14 => Some("1.21"),
        _ => None,
    }
}

} // verus!
