//! What can go wrong while a graph is built or run.

use vstd::prelude::*;

verus! {

/// An error of the engine. Every one of them is fatal to the build or to the
/// job in which it arises.
#[derive(Debug, PartialEq, Eq)]
pub enum EngineError {
    /// A pattern is not a valid regular expression.
    InvalidRegex { pattern: String },
    /// Activation named a fragment that was never loaded.
    FragmentNotFound { id: String },
    /// No active fragment is without dependencies.
    NoRootFragment,
    /// The active fragments cannot be put in an order that their dependencies
    /// allow.
    UnsortableFragments,
    /// A transition of `state` leads to `target`, which the graph lacks.
    DanglingTarget { state: String, target: String },
    /// The graph has no state of this name.
    UnknownState { state: String },
    /// The text that a wait reported satisfies no trigger of the state.
    NoTriggerMatched { text: String },
    /// A fact reported in the console output could not be read.
    InvalidDeviceInfo { text: String },
}

/// The mathematical value of an `EngineError`.
pub enum EngineErrorView {
    InvalidRegex { pattern: Seq<char> },
    FragmentNotFound { id: Seq<char> },
    NoRootFragment,
    UnsortableFragments,
    DanglingTarget { state: Seq<char>, target: Seq<char> },
    UnknownState { state: Seq<char> },
    NoTriggerMatched { text: Seq<char> },
    InvalidDeviceInfo { text: Seq<char> },
}

impl View for EngineError {
    type V = EngineErrorView;

    open spec fn view(&self) -> EngineErrorView {
        match self {
            EngineError::InvalidRegex { pattern } => EngineErrorView::InvalidRegex {
                pattern: pattern@,
            },
            EngineError::FragmentNotFound { id } => EngineErrorView::FragmentNotFound { id: id@ },
            EngineError::NoRootFragment => EngineErrorView::NoRootFragment,
            EngineError::UnsortableFragments => EngineErrorView::UnsortableFragments,
            EngineError::DanglingTarget { state, target } => EngineErrorView::DanglingTarget {
                state: state@,
                target: target@,
            },
            EngineError::UnknownState { state } => EngineErrorView::UnknownState { state: state@ },
            EngineError::NoTriggerMatched { text } => EngineErrorView::NoTriggerMatched {
                text: text@,
            },
            EngineError::InvalidDeviceInfo { text } => EngineErrorView::InvalidDeviceInfo {
                text: text@,
            },
        }
    }
}

} // verus!
