//! The checkpoint: the last height accounted for, stored as a JSON number,
//! and the height from which a restarted indexer asks for blocks.
use vstd::prelude::*;

verus! {

/// The character of a decimal digit.
pub open spec fn digit_char(d: nat) -> char {
    if d == 0 {
        '0'
    } else if d == 1 {
        '1'
    } else if d == 2 {
        '2'
    } else if d == 3 {
        '3'
    } else if d == 4 {
        '4'
    } else if d == 5 {
        '5'
    } else if d == 6 {
        '6'
    } else if d == 7 {
        '7'
    } else if d == 8 {
        '8'
    } else {
        '9'
    }
}

/// The decimal digits of `n`, without leading zeros.
pub open spec fn decimal_digits(n: nat) -> Seq<char>
    decreases n,
{
    if n < 10 {
        seq![digit_char(n)]
    } else {
        decimal_digits(n / 10).push(digit_char(n % 10))
    }
}

/// The number that serde_json reads from a text as a `u64`, if it reads one.
pub uninterp spec fn json_u64(s: Seq<char>) -> Option<u64>;

/// Relies on serde_json::to_string for a `u64`: the number is written as its
/// decimal digits (itoa) into a `Vec`, which cannot fail.
#[verifier::external_body]
fn u64_to_json(n: u64) -> (r: String)
    ensures
        r@ == decimal_digits(n as nat),
{
    serde_json::to_string(&n).unwrap_or_default()
}

/// Relies on serde_json::from_str for a `u64`: what it reads depends on the
/// text alone, and the decimal digits of a `u64` read back as that number.
#[verifier::external_body]
fn u64_from_json(s: &str) -> (r: Option<u64>)
    ensures
        r == json_u64(s@),
        forall|n: u64| s@ == #[trigger] decimal_digits(n as nat) ==> r == Some(n),
{
    serde_json::from_str::<u64>(s).ok()
}

/// Why no start height could be had from the checkpoint.
#[derive(Clone, Copy, Debug, PartialEq, Eq)]
pub enum CheckpointError {
    /// The stored checkpoint is not a JSON `u64`.
    Unreadable,
    /// The checkpoint is the largest height: no height follows it.
    Exhausted,
}

/// The value stored for a checkpoint at `height`.
pub fn encode_checkpoint(height: u64) -> (r: String)
    ensures
        r@ == decimal_digits(height as nat),
{
    u64_to_json(height)
}

/// The checkpoint that a stored value holds; none when nothing is stored.
pub fn get_synced_block_height(stored: &Option<String>) -> (r: Result<Option<u64>, CheckpointError>)
    ensures
        match stored {
            None => r == Ok::<Option<u64>, CheckpointError>(None),
            Some(s) => match json_u64(s@) {
                Some(h) => r == Ok::<Option<u64>, CheckpointError>(Some(h)),
                None => r == Err::<Option<u64>, CheckpointError>(CheckpointError::Unreadable),
            },
        },
        forall|h: u64|
            stored is Some && stored->0@ == #[trigger] decimal_digits(h as nat) ==> r == Ok::<
                Option<u64>,
                CheckpointError,
            >(Some(h)),
{
    match stored {
        None => Ok(None),
        Some(s) => match u64_from_json(s.as_str()) {
            Some(h) => Ok(Some(h)),
            None => Err(CheckpointError::Unreadable),
        },
    }
}

/// The height the stream starts from. Resuming from the checkpoint, it is
/// the height after the stored checkpoint, or `floor` when none is stored;
/// otherwise it is `floor`.
pub fn resume_height(from_checkpoint: bool, floor: u64, stored: &Option<String>) -> (r: Result<u64, CheckpointError>)
    ensures
        !from_checkpoint ==> r == Ok::<u64, CheckpointError>(floor),
        from_checkpoint ==> match stored {
            None => r == Ok::<u64, CheckpointError>(floor),
            Some(s) => match json_u64(s@) {
                Some(h) => if h < u64::MAX {
                    r == Ok::<u64, CheckpointError>((h + 1) as u64)
                } else {
                    r == Err::<u64, CheckpointError>(CheckpointError::Exhausted)
                },
                None => r == Err::<u64, CheckpointError>(CheckpointError::Unreadable),
            },
        },
        forall|h: u64|
            from_checkpoint && h < u64::MAX && stored is Some && stored->0@ == #[trigger] decimal_digits(h as nat)
                ==> r == Ok::<u64, CheckpointError>((h + 1) as u64),
{
    if !from_checkpoint {
        return Ok(floor);
    }
    match get_synced_block_height(stored) {
        Ok(Some(h)) => if h < u64::MAX {
            Ok(h + 1)
        } else {
            Err(CheckpointError::Exhausted)
        },
        Ok(None) => Ok(floor),
        Err(e) => Err(e),
    }
}

} // verus!
