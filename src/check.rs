//! Comparing a file of records with the answer, position by position.
use vstd::prelude::*;
use itertools::{EitherOrBoth, Itertools};
use crate::line_names::{records_match, LineNames};

verus! {

/// How a run ends, when it does not end well.
#[derive(Clone, Copy, Debug, PartialEq, Eq, Structural)]
pub enum ErrorCode {
    /// The file to check does not parse.
    InputFormatError,
    /// The answer file does not parse.
    AnswerFormatError,
    /// Both files have a record at a position, and the two differ.
    WrongLine,
    /// The file to check has a record where the answer has ended.
    MoreThanAnswer,
    /// The answer has a record where the file to check has ended.
    LessThanAnswer,
}

/// The first position (counted from 1) where the two files part, and how.
#[derive(Clone, Copy, Debug, PartialEq, Eq, Structural)]
pub struct Mismatch {
    pub code: ErrorCode,
    pub line: usize,
}

/// Which of the two sides holds an entry at a position, with its index.
#[derive(Clone, Copy, Debug, PartialEq, Eq, Structural)]
pub enum Pairing {
    Both(usize, usize),
    Left(usize),
    Right(usize),
}

/// The pairing at position `k` of two sequences of lengths `n_left` and `n_right`.
pub open spec fn pairing_at(k: int, n_left: int, n_right: int) -> Pairing {
    if k < n_left && k < n_right {
        Pairing::Both(k as usize, k as usize)
    } else if k < n_left {
        Pairing::Left(k as usize)
    } else {
        Pairing::Right(k as usize)
    }
}

/// Relies on `Itertools::zip_longest`: it yields both items while both
/// iterators last, then the items of the longer one alone.
#[verifier::external_body]
fn align(n_left: usize, n_right: usize) -> (r: Vec<Pairing>)
    ensures
        r@.len() == if n_left >= n_right {
            n_left
        } else {
            n_right
        },
        forall|k: int| 0 <= k < r@.len() ==> #[trigger] r@[k] == pairing_at(k, n_left as int, n_right as int),
{
    (0..n_left).zip_longest(0..n_right).map(|e| match e {
        EitherOrBoth::Both(i, j) => Pairing::Both(i, j),
        EitherOrBoth::Left(i) => Pairing::Left(i),
        EitherOrBoth::Right(j) => Pairing::Right(j),
    }).collect()
}

/// The outcome of comparing the two files from position `k` (counted from 0) on:
/// the first position where they part, or success.
pub open spec fn outcome_from(yours: Seq<LineNames>, answer: Seq<LineNames>, k: nat) -> Result<
    (),
    Mismatch,
>
    decreases yours.len() - k,
{
    if k < yours.len() && k < answer.len() {
        if records_match(yours[k as int], answer[k as int]) {
            outcome_from(yours, answer, k + 1)
        } else {
            Err(Mismatch { code: ErrorCode::WrongLine, line: (k + 1) as usize })
        }
    } else if k < yours.len() {
        Err(Mismatch { code: ErrorCode::MoreThanAnswer, line: (k + 1) as usize })
    } else if k < answer.len() {
        Err(Mismatch { code: ErrorCode::LessThanAnswer, line: (k + 1) as usize })
    } else {
        Ok(())
    }
}

/// The outcome of comparing two files.
pub open spec fn outcome(yours: Seq<LineNames>, answer: Seq<LineNames>) -> Result<(), Mismatch> {
    outcome_from(yours, answer, 0)
}

/// Compares the records of the file to check with those of the answer and
/// reports the first position where they differ.
pub fn check(yours: &Vec<LineNames>, answer: &Vec<LineNames>) -> (r: Result<(), Mismatch>)
    ensures
        r == outcome(yours@, answer@),
{
    let pairs = align(yours.len(), answer.len());
    let mut k: usize = 0;
    while k < pairs.len()
        invariant
            k <= pairs.len(),
            pairs@.len() == if yours@.len() >= answer@.len() {
                yours@.len()
            } else {
                answer@.len()
            },
            forall|m: int| 0 <= m < pairs@.len() ==> #[trigger] pairs@[m] == pairing_at(m, yours@.len() as int, answer@.len() as int),
            outcome_from(yours@, answer@, k as nat) == outcome(yours@, answer@),
        decreases pairs.len() - k,
    {
        assert(pairs@[k as int] == pairing_at(k as int, yours@.len() as int, answer@.len() as int));
        match pairs[k] {
            Pairing::Both(i, j) => {
                if !(yours[i] == answer[j]) {
                    return Err(Mismatch { code: ErrorCode::WrongLine, line: k + 1 });
                }
            },
            Pairing::Left(_) => {
                return Err(Mismatch { code: ErrorCode::MoreThanAnswer, line: k + 1 });
            },
            Pairing::Right(_) => {
                return Err(Mismatch { code: ErrorCode::LessThanAnswer, line: k + 1 });
            },
        }
        k = k + 1;
    }
    Ok(())
}

proof fn lemma_agreeing_from(yours: Seq<LineNames>, answer: Seq<LineNames>, k: nat)
    requires
        yours.len() == answer.len(),
        k <= yours.len(),
        forall|i: int| 0 <= i < yours.len() ==> records_match(#[trigger] yours[i], answer[i]),
    ensures
        outcome_from(yours, answer, k) == Ok::<(), Mismatch>(()),
    decreases yours.len() - k,
{
    if k < yours.len() {
        lemma_agreeing_from(yours, answer, k + 1);
    }
}

/// Two files of the same length whose records are equal position by position
/// (the names of a record in any order) compare without a mismatch.
pub proof fn lemma_agreeing_files_pass(yours: Seq<LineNames>, answer: Seq<LineNames>)
    requires
        yours.len() == answer.len(),
        forall|i: int| 0 <= i < yours.len() ==> records_match(#[trigger] yours[i], answer[i]),
    ensures
        outcome(yours, answer) == Ok::<(), Mismatch>(()),
{
    lemma_agreeing_from(yours, answer, 0);
}

} // verus!
