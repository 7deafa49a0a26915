//! Finding the address under which this machine is reached on its network
//! in the answer of the routing table.

use vstd::prelude::*;
use vstd::string::*;
use crate::text::{same_text, texts};

verus! {

/// The address taken where the routing table names none.
pub open spec fn loopback() -> Seq<char> {
    "127.0.0.1"@
}

/// The word behind the first word `src` at or after `from` that has a
/// word behind it.
pub open spec fn address_in(words: Seq<Seq<char>>, from: int) -> Option<Seq<char>>
    decreases words.len() - from,
{
    if from < 0 || from + 1 >= words.len() {
        None
    } else if words[from] == "src"@ {
        Some(words[from + 1])
    } else {
        address_in(words, from + 1)
    }
}

/// The words of each line of an answer.
pub open spec fn line_texts(lines: Seq<Vec<String>>) -> Seq<Seq<Seq<char>>> {
    Seq::new(lines.len(), |i: int| texts(lines[i]@))
}

/// The address of the first line at or after `from` that names one.
pub open spec fn address_from(lines: Seq<Seq<Seq<char>>>, from: int) -> Option<Seq<char>>
    decreases lines.len() - from,
{
    if from < 0 || from >= lines.len() {
        None
    } else if address_in(lines[from], 0) is Some {
        address_in(lines[from], 0)
    } else {
        address_from(lines, from + 1)
    }
}

/// The source address that one line of the answer names, if it names one.
pub fn line_address(words: &Vec<String>) -> (address: Option<String>)
    ensures
        match address {
            Some(a) => address_in(texts(words@), 0) == Some(a@),
            None => address_in(texts(words@), 0) is None,
        },
{
    let mut i: usize = 0;
    while i < words.len() && i + 1 < words.len()
        invariant
            i <= words.len(),
            address_in(texts(words@), 0) == address_in(texts(words@), i as int),
        decreases words.len() - i,
    {
        if same_text(words[i].as_str(), "src") {
            return Some(words[i + 1].clone());
        }
        i = i + 1;
    }
    None
}

/// The source address in the answer of the routing table, given as the
/// words of each line: that of the first line that names one, or the
/// loopback address if no line does.
pub fn lan_address(lines: &Vec<Vec<String>>) -> (address: String)
    ensures
        address@ == (match address_from(line_texts(lines@), 0) {
            Some(a) => a,
            None => loopback(),
        }),
{
    let mut i: usize = 0;
    while i < lines.len()
        invariant
            i <= lines.len(),
            address_from(line_texts(lines@), 0) == address_from(line_texts(lines@), i as int),
        decreases lines.len() - i,
    {
        match line_address(&lines[i]) {
            Some(address) => {
                return address;
            },
            None => {},
        }
        i = i + 1;
    }
    String::from_str("127.0.0.1")
}

} // verus!
