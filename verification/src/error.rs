use vstd::prelude::*;

verus! {

/// Why an operation was refused. Every error aborts the whole operation: no
/// record is written and no event is emitted.
#[derive(Clone, Copy, PartialEq, Eq, Structural, Debug)]
pub enum DocumentError {
    /// The caller's proven key does not match the authority or owner that the
    /// action requires.
    Unauthorized,
    /// The organization name is empty or longer than 100 characters.
    InvalidOrgName,
    /// The organization description is longer than 500 characters.
    InvalidDescription,
    /// The content locator is empty or longer than 100 characters.
    InvalidIPFSHash,
    /// The document type is empty or longer than 50 characters.
    InvalidDocumentType,
    /// The document name is empty or longer than 100 characters.
    InvalidDocumentName,
    /// The document was already revoked; revocation is one-way and one-shot.
    DocumentAlreadyRevoked,
    /// Incrementing the organization's document count would overflow it.
    DocumentCountOverflow,
    /// A record already occupies the derived address of a create operation.
    AlreadyExists,
    /// No record occupies a referenced address.
    NotFound,
}

impl DocumentError {
    /// A short human-readable description of the error.
    pub fn message(&self) -> (r: &'static str)
        ensures
            self is Unauthorized ==> r@ == "Unauthorized access"@,
            self is InvalidOrgName ==> r@ == "Invalid organization name"@,
            self is InvalidDescription ==> r@ == "Invalid organization description"@,
            self is InvalidIPFSHash ==> r@ == "Invalid IPFS hash"@,
            self is InvalidDocumentType ==> r@ == "Invalid document type"@,
            self is InvalidDocumentName ==> r@ == "Invalid document name"@,
            self is DocumentAlreadyRevoked ==> r@ == "Document already revoked"@,
            self is DocumentCountOverflow ==> r@ == "Document count overflow"@,
            self is AlreadyExists ==> r@ == "Record already exists"@,
            self is NotFound ==> r@ == "Record not found"@,
    {
        match self {
            DocumentError::Unauthorized => "Unauthorized access",
            DocumentError::InvalidOrgName => "Invalid organization name",
            DocumentError::InvalidDescription => "Invalid organization description",
            DocumentError::InvalidIPFSHash => "Invalid IPFS hash",
            DocumentError::InvalidDocumentType => "Invalid document type",
            DocumentError::InvalidDocumentName => "Invalid document name",
            DocumentError::DocumentAlreadyRevoked => "Document already revoked",
            DocumentError::DocumentCountOverflow => "Document count overflow",
            DocumentError::AlreadyExists => "Record already exists",
            DocumentError::NotFound => "Record not found",
        }
    }
}

} // verus!
