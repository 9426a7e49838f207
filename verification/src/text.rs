//! Text: the pieces that identifiers and statements are written with.

use vstd::prelude::*;
use vstd::string::StringExecFns;

verus! {

/// The character that stands for a digit.
pub open spec fn digit(d: int) -> char {
    if d == 0 {
        '0'
    } else if d == 1 {
        '1'
    } else if d == 2 {
        '2'
    } else if d == 3 {
        '3'
    } else if d == 4 {
        '4'
    } else if d == 5 {
        '5'
    } else if d == 6 {
        '6'
    } else if d == 7 {
        '7'
    } else if d == 8 {
        '8'
    } else {
        '9'
    }
}

/// A natural number in decimal, without leading zeros.
pub open spec fn decimal(n: nat) -> Seq<char>
    decreases n,
{
    if n < 10 {
        seq![digit(n as int)]
    } else {
        decimal(n / 10).push(digit((n % 10) as int))
    }
}

/// An integer in decimal, with a minus sign before it if it is below zero.
pub open spec fn signed_decimal(n: int) -> Seq<char> {
    if n < 0 {
        seq!['-'] + decimal((-n) as nat)
    } else {
        decimal(n as nat)
    }
}

/// `i64::to_string`: the number in decimal, with a minus sign before it if it
/// is below zero.
#[verifier::external_body]
pub(crate) fn i64_text(n: i64) -> (text: String)
    ensures
        text@ == signed_decimal(n as int),
{
    n.to_string()
}

/// `u64::to_string`: the number in decimal.
#[verifier::external_body]
pub(crate) fn u64_text(n: u64) -> (text: String)
    ensures
        text@ == decimal(n as nat),
{
    n.to_string()
}

/// `usize::to_string`: the number in decimal.
#[verifier::external_body]
pub(crate) fn usize_text(n: usize) -> (text: String)
    ensures
        text@ == decimal(n as nat),
{
    n.to_string()
}

/// The pieces of a list, written one after the other with a separator between
/// each two of them.
pub open spec fn joined(pieces: Seq<Seq<char>>, separator: Seq<char>) -> Seq<char>
    decreases pieces.len(),
{
    if pieces.len() == 0 {
        Seq::empty()
    } else if pieces.len() == 1 {
        pieces[0]
    } else {
        joined(pieces.drop_last(), separator) + separator + pieces.last()
    }
}

/// What each text of a list holds.
pub open spec fn views(texts: Seq<String>) -> Seq<Seq<char>> {
    Seq::new(texts.len(), |i: int| texts[i]@)
}

/// Writes the texts of a list one after the other, with a separator between
/// each two of them.
pub fn join(texts: &Vec<String>, separator: &str) -> (text: String)
    ensures
        text@ == joined(views(texts@), separator@),
{
    let mut text = String::new();
    let mut i: usize = 0;
    while i < texts.len()
        invariant
            i <= texts@.len(),
            text@ == joined(views(texts@).take(i as int), separator@),
        decreases texts@.len() - i,
    {
        let ghost before = views(texts@).take(i as int);
        let ghost after = views(texts@).take(i + 1);
        proof {
            assert(after.drop_last() =~= before);
            assert(after.last() == texts@[i as int]@);
        }
        if i > 0 {
            text.append(separator);
        }
        text.append(texts[i].as_str());
        proof {
            if i == 0 {
                assert(after.len() == 1);
                assert(text@ =~= texts@[0]@);
            }
        }
        i = i + 1;
    }
    proof {
        assert(views(texts@).take(texts@.len() as int) =~= views(texts@));
    }
    text
}

} // verus!
