use vstd::prelude::*;

verus! {

/// The error kinds an extraction request can fail with.
///
/// The three parse failures and the missing-schema failure all abort the
/// whole request; a partially filled table is never returned as a success.
#[derive(Clone, Copy, Debug, PartialEq, Eq, Structural)]
pub enum CollectError {
    /// The encoded trace key did not split into a hex part and a size part.
    MalformedPair,
    /// The hex part had odd length or held a non-hex character.
    InvalidHex,
    /// The size part was not an unsigned decimal integer that fits in 64 bits.
    InvalidSize,
    /// The schema registry holds no schema for this dataset.
    SchemaNotProvided,
}

impl CollectError {
    /// A human-readable description of the failure.
    pub fn message(&self) -> (r: String)
        ensures
            *self == CollectError::MalformedPair ==> r@ == "could not parse 4byte-size pair"@,
            *self == CollectError::InvalidHex ==> r@ == "could not parse signature bytes"@,
            *self == CollectError::InvalidSize ==> r@ == "could not parse call data size"@,
            *self == CollectError::SchemaNotProvided ==> r@ == "schema not provided"@,
    {
        match self {
            CollectError::MalformedPair => "could not parse 4byte-size pair".to_owned(),
            CollectError::InvalidHex => "could not parse signature bytes".to_owned(),
            CollectError::InvalidSize => "could not parse call data size".to_owned(),
            CollectError::SchemaNotProvided => "schema not provided".to_owned(),
        }
    }
}

} // verus!
