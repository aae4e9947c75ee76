//! Typed paths of instances inside a macro hierarchy.
use vstd::prelude::*;

use crate::macro_model::hierarchy::{MacroHierarchyPath, MacroHierarchyPathError};
use crate::text::{append_decimal, concat3, decimal, has_pair, is_blank, join_seq, str_has_pair, str_is_blank};

verus! {

/// Invalid local instance name.
#[derive(Debug, Clone, PartialEq, Eq)]
pub enum MacroHierarchyInstancePathError {
    EmptyInstance,
    AmbiguousInstance { instance: String },
}

impl MacroHierarchyInstancePathError {
    /// The message of the error.
    pub open spec fn message(&self) -> Seq<char> {
        match self {
            MacroHierarchyInstancePathError::EmptyInstance => "hierarchical instance name is empty"@,
            MacroHierarchyInstancePathError::AmbiguousInstance { instance } => "hierarchical instance name '"@ + instance@ + "' contains the reserved '::' separator"@,
        }
    }

    /// Returns the message of the error.
    pub fn to_string(&self) -> (text: String)
        ensures
            text@ == self.message(),
    {
        match self {
            MacroHierarchyInstancePathError::EmptyInstance => {
                let mut text = String::from_str("hierarchical instance name is empty");
                text
            },
            MacroHierarchyInstancePathError::AmbiguousInstance { instance } => {
                let mut text = String::from_str("hierarchical instance name '");
                text.append(instance.as_str());
                text.append("' contains the reserved '::' separator");
                text
            },
        }
    }
}

/// An instance local to one macro occurrence.
#[derive(Debug, Clone, PartialEq, Eq, Hash)]
pub struct MacroHierarchyInstancePath {
    macro_path: MacroHierarchyPath,
    instance: String,
}

impl MacroHierarchyInstancePath {
    /// The owning macro occurrence.
    pub closed spec fn macro_path_view(&self) -> MacroHierarchyPath {
        self.macro_path
    }

    /// The local instance name.
    pub closed spec fn instance_view(&self) -> Seq<char> {
        self.instance@
    }

    /// Creates an instance path, rejecting a blank name and one that holds
    /// the separator `::`.
    pub fn new(macro_path: MacroHierarchyPath, instance: String) -> (result: Result<Self, MacroHierarchyInstancePathError>)
        ensures
            is_blank(instance@) ==> result == Err::<Self, _>(MacroHierarchyInstancePathError::EmptyInstance),
            !is_blank(instance@) && has_pair(instance@, ':', ':') ==> (result matches Err(
                MacroHierarchyInstancePathError::AmbiguousInstance { instance: i },
            ) && i@ == instance@),
            !is_blank(instance@) && !has_pair(instance@, ':', ':') ==> (result matches Ok(path)
                && path.macro_path_view() == macro_path && path.instance_view() == instance@),
    {
        if str_is_blank(instance.as_str()) {
            return Err(MacroHierarchyInstancePathError::EmptyInstance);
        }
        if str_has_pair(instance.as_str(), ':', ':') {
            return Err(MacroHierarchyInstancePathError::AmbiguousInstance { instance });
        }
        Ok(MacroHierarchyInstancePath { macro_path, instance })
    }

    /// Returns the owning macro occurrence.
    pub fn macro_path(&self) -> (path: &MacroHierarchyPath)
        ensures
            *path == self.macro_path_view(),
    {
        &self.macro_path
    }

    /// Returns the local instance name.
    pub fn instance(&self) -> (instance: &str)
        ensures
            instance@ == self.instance_view(),
    {
        self.instance.as_str()
    }

    /// Returns `macro.path::instance`.
    pub fn to_string(&self) -> (text: String)
        ensures
            text@ == join_seq(self.macro_path_view().view(), seq!['.']) + seq![':', ':'] + self.instance_view(),
    {
        let path = self.macro_path.to_string();
        let text = concat3(path.as_str(), "::", self.instance.as_str());
        proof {
            reveal_strlit("::");
        }
        text
    }
}

/// Errors while selecting one accepted configuration of a hierarchy.
#[derive(Debug, Clone, PartialEq, Eq)]
pub enum MacroHierarchySelectionError {
    RootAcceptedIndexOutOfRange { index: usize, accepted_count: usize },
    UnknownMacroPath { path: MacroHierarchyPath },
    MissingFinalResult { path: MacroHierarchyPath },
    ResultProvenanceMismatch { path: MacroHierarchyPath },
    AcceptedIndexOutOfRange { path: MacroHierarchyPath, index: usize, accepted_count: usize },
    MissingCandidateIndex { path: MacroHierarchyPath, instance: String },
    CandidateIndexOutOfRange {
        path: MacroHierarchyPath,
        instance: String,
        index: usize,
        candidate_count: usize,
    },
    InvalidChildPath { path: MacroHierarchyPath, instance: String, error: MacroHierarchyPathError },
    MissingSubmacroProvenance { path: MacroHierarchyPath, instance: String },
    DuplicateMacroPath { path: MacroHierarchyPath },
}

impl MacroHierarchySelectionError {
    /// The message of the error.
    pub open spec fn message(&self) -> Seq<char> {
        match self {
            MacroHierarchySelectionError::RootAcceptedIndexOutOfRange { index, accepted_count } => "root accepted-row index "@ + decimal(index as nat) + " is outside 0.."@ + decimal(accepted_count as nat),
            MacroHierarchySelectionError::UnknownMacroPath { path } => "selected macro path '"@ + join_seq(path.view(), seq!['.']) + "' is absent from the hierarchy"@,
            MacroHierarchySelectionError::MissingFinalResult { path } => "selected macro path '"@ + join_seq(path.view(), seq!['.']) + "' has no definitive exploration result"@,
            MacroHierarchySelectionError::ResultProvenanceMismatch { path } => "selected macro path '"@ + join_seq(path.view(), seq!['.']) + "' refers to a different result than its recursive provenance"@,
            MacroHierarchySelectionError::AcceptedIndexOutOfRange { path, index, accepted_count } => "selected accepted-row index "@ + decimal(index as nat) + " for '"@ + join_seq(path.view(), seq!['.']) + "' is outside 0.."@ + decimal(accepted_count as nat),
            MacroHierarchySelectionError::MissingCandidateIndex { path, instance } => "selected row for '"@ + join_seq(path.view(), seq!['.']) + "' has no candidate index for instance '"@ + instance@ + "'"@,
            MacroHierarchySelectionError::CandidateIndexOutOfRange { path, instance, index, candidate_count } => "selected candidate index "@ + decimal(index as nat) + " for '"@ + join_seq(path.view(), seq!['.']) + "::"@ + instance@ + "' is outside 0.."@ + decimal(candidate_count as nat),
            MacroHierarchySelectionError::InvalidChildPath { path, instance, .. } => "instance '"@ + instance@ + "' below '"@ + join_seq(path.view(), seq!['.']) + "' cannot form a hierarchy path"@,
            MacroHierarchySelectionError::MissingSubmacroProvenance { path, instance } => "selected compact instance '"@ + join_seq(path.view(), seq!['.']) + "::"@ + instance@ + "' has no child-result provenance"@,
            MacroHierarchySelectionError::DuplicateMacroPath { path } => "selected recursive provenance reaches macro path '"@ + join_seq(path.view(), seq!['.']) + "' more than once"@,
        }
    }

    /// Returns the message of the error.
    pub fn to_string(&self) -> (text: String)
        ensures
            text@ == self.message(),
    {
        match self {
            MacroHierarchySelectionError::RootAcceptedIndexOutOfRange { index, accepted_count } => {
                let mut text = String::from_str("root accepted-row index ");
                append_decimal(&mut text, *index);
                text.append(" is outside 0..");
                append_decimal(&mut text, *accepted_count);
                text
            },
            MacroHierarchySelectionError::UnknownMacroPath { path } => {
                let mut text = String::from_str("selected macro path '");
                let part = path.to_string();
                text.append(part.as_str());
                text.append("' is absent from the hierarchy");
                text
            },
            MacroHierarchySelectionError::MissingFinalResult { path } => {
                let mut text = String::from_str("selected macro path '");
                let part = path.to_string();
                text.append(part.as_str());
                text.append("' has no definitive exploration result");
                text
            },
            MacroHierarchySelectionError::ResultProvenanceMismatch { path } => {
                let mut text = String::from_str("selected macro path '");
                let part = path.to_string();
                text.append(part.as_str());
                text.append("' refers to a different result than its recursive provenance");
                text
            },
            MacroHierarchySelectionError::AcceptedIndexOutOfRange { path, index, accepted_count } => {
                let mut text = String::from_str("selected accepted-row index ");
                append_decimal(&mut text, *index);
                text.append(" for '");
                let part = path.to_string();
                text.append(part.as_str());
                text.append("' is outside 0..");
                append_decimal(&mut text, *accepted_count);
                text
            },
            MacroHierarchySelectionError::MissingCandidateIndex { path, instance } => {
                let mut text = String::from_str("selected row for '");
                let part = path.to_string();
                text.append(part.as_str());
                text.append("' has no candidate index for instance '");
                text.append(instance.as_str());
                text.append("'");
                text
            },
            MacroHierarchySelectionError::CandidateIndexOutOfRange { path, instance, index, candidate_count } => {
                let mut text = String::from_str("selected candidate index ");
                append_decimal(&mut text, *index);
                text.append(" for '");
                let part = path.to_string();
                text.append(part.as_str());
                text.append("::");
                text.append(instance.as_str());
                text.append("' is outside 0..");
                append_decimal(&mut text, *candidate_count);
                text
            },
            MacroHierarchySelectionError::InvalidChildPath { path, instance, .. } => {
                let mut text = String::from_str("instance '");
                text.append(instance.as_str());
                text.append("' below '");
                let part = path.to_string();
                text.append(part.as_str());
                text.append("' cannot form a hierarchy path");
                text
            },
            MacroHierarchySelectionError::MissingSubmacroProvenance { path, instance } => {
                let mut text = String::from_str("selected compact instance '");
                let part = path.to_string();
                text.append(part.as_str());
                text.append("::");
                text.append(instance.as_str());
                text.append("' has no child-result provenance");
                text
            },
            MacroHierarchySelectionError::DuplicateMacroPath { path } => {
                let mut text = String::from_str("selected recursive provenance reaches macro path '");
                let part = path.to_string();
                text.append(part.as_str());
                text.append("' more than once");
                text
            },
        }
    }
}

} // verus!
