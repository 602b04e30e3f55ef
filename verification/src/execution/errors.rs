//! The ways in which an invocation fails.

use vstd::prelude::*;
use crate::felt::EntryPointSelector;

verus! {

/// Why an invocation did not produce a call record.
#[derive(Clone, Copy, Debug, PartialEq, Eq, Structural)]
pub enum ExecutionError {
    /// No program can be loaded for the class that the invocation names, or
    /// no class is deployed at the address that it calls.
    UninitializedClassHash,
    /// The class has no single entry point with this selector among those of
    /// the requested kind.
    EntryPointNotFound(EntryPointSelector),
    /// The step budget ran out before the invocation completed.
    ResourceExhausted,
}

/// The text that starknet_api's `Debug` makes of the selector of halves
/// `hi` and `lo`, pretty-printed.
pub uninterp spec fn selector_debug_text(hi: u128, lo: u128) -> Seq<char>;

/// Calls `format!` on starknet_api's `EntryPointSelector`, made of the bytes
/// of the selector by `StarkFelt::new_unchecked`, with the pretty form of
/// its `Debug`. The text is a function of the selector alone and is named
/// by [`selector_debug_text`].
#[verifier::external_body]
fn format_selector(selector: &EntryPointSelector) -> (r: String)
    ensures
        r@ == selector_debug_text(selector.0.hi, selector.0.lo),
{
    let mut bytes = [0u8; 32];
    bytes[..16].copy_from_slice(&selector.0.hi.to_be_bytes());
    bytes[16..].copy_from_slice(&selector.0.lo.to_be_bytes());
    let word = starknet_api::hash::StarkFelt::new_unchecked(bytes);
    format!("{:#?}", starknet_api::core::EntryPointSelector(word))
}

/// The line of text that tells of an error.
pub open spec fn message_text(error: ExecutionError) -> Seq<char> {
    match error {
        ExecutionError::UninitializedClassHash => "Class hash is not initialized."@,
        ExecutionError::EntryPointNotFound(selector) => "Entry point "@ + selector_debug_text(
            selector.0.hi,
            selector.0.lo,
        ) + " not found in contract."@,
        ExecutionError::ResourceExhausted => "Step budget exhausted."@,
    }
}

impl ExecutionError {
    /// A line of text for a person to read.
    pub fn message(&self) -> (r: String)
        ensures
            r@ == message_text(*self),
    {
        match self {
            ExecutionError::UninitializedClassHash => "Class hash is not initialized.".to_owned(),
            ExecutionError::EntryPointNotFound(selector) => {
                let text = format_selector(selector);
                "Entry point ".to_owned().concat(text.as_str()).concat(" not found in contract.")
            },
            ExecutionError::ResourceExhausted => "Step budget exhausted.".to_owned(),
        }
    }
}

} // verus!
