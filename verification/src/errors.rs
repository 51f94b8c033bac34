//! What can go wrong with a record.
use vstd::prelude::*;
use crate::chars::{push_str, string_of};

verus! {

/// Why a record could not be shown.
#[derive(Debug, PartialEq, Eq)]
pub enum FormatError {
    /// The entry needs an editor in the role of organizer, and its editor has
    /// another role or none.
    InvalidEditorRole { citation_key: String },
    /// No rule shows entries of this type.
    UnrecognizedEntryType { entry_type: String },
}

impl FormatError {
    /// The error in words.
    pub open spec fn text(&self) -> Seq<char> {
        match self {
            FormatError::InvalidEditorRole { citation_key } =>
                "invalid editor type: expecting organizer, citation_key: "@ + citation_key@,
            FormatError::UnrecognizedEntryType { entry_type } => "unexpected type: "@
                + entry_type@,
        }
    }

    /// The error in words.
    pub fn message(&self) -> (out: String)
        ensures
            out@ == self.text(),
    {
        let mut out: Vec<char> = Vec::new();
        assert(out@ =~= Seq::<char>::empty());
        match self {
            FormatError::InvalidEditorRole { citation_key } => {
                push_str(&mut out, "invalid editor type: expecting organizer, citation_key: ");
                push_str(&mut out, citation_key.as_str());
                assert(out@ =~= self.text());
            },
            FormatError::UnrecognizedEntryType { entry_type } => {
                push_str(&mut out, "unexpected type: ");
                push_str(&mut out, entry_type.as_str());
                assert(out@ =~= self.text());
            },
        }
        string_of(&out)
    }
}

} // verus!
