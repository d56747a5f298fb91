//! What a trigger waits for, and whether a reported match satisfies it.

use crate::data_structure::{StateMachineTrigger, TriggerView};
use crate::error::{EngineError, EngineErrorView};
use crate::pattern::{regex_compiles, regex_is_match, regex_search, regex_valid};
use vstd::prelude::*;
use vstd::string::*;

verus! {

/// What a wait on the console looks for.
#[derive(Debug, PartialEq, Eq)]
pub enum Needle {
    /// This text, literally.
    String(String),
    /// A match of this regular expression, which is known to compile.
    Regex(String),
}

/// The mathematical value of a `Needle`.
pub enum NeedleView {
    String(Seq<char>),
    Regex(Seq<char>),
}

impl View for Needle {
    type V = NeedleView;

    open spec fn view(&self) -> NeedleView {
        match self {
            Needle::String(s) => NeedleView::String(s@),
            Needle::Regex(s) => NeedleView::Regex(s@),
        }
    }
}

impl TriggerView {
    /// What a wait for this trigger looks for: nothing for `Immediate`, and an
    /// error where the regular expression does not compile.
    pub open spec fn needle(self) -> Result<Option<NeedleView>, EngineErrorView> {
        match self {
            TriggerView::String { string } => Ok(Some(NeedleView::String(string))),
            TriggerView::Regex { regex } => if regex_valid(regex, true, true) {
                Ok(Some(NeedleView::Regex(regex)))
            } else {
                Err(EngineErrorView::InvalidRegex { pattern: regex })
            },
            TriggerView::Immediate => Ok(None),
        }
    }

    /// Whether the trigger holds of `text`, given what a search for the
    /// regular expression in `text` came to (`None`: it does not compile).
    pub open spec fn verdict(self, text: Seq<char>, found: Option<bool>) -> Result<
        bool,
        EngineErrorView,
    > {
        match self {
            TriggerView::String { string } => Ok(text == string),
            TriggerView::Regex { regex } => match found {
                Some(b) => Ok(b),
                None => Err(EngineErrorView::InvalidRegex { pattern: regex }),
            },
            TriggerView::Immediate => Ok(true),
        }
    }

    /// The trigger in words, for a picture of the graph.
    pub open spec fn description(self) -> Seq<char> {
        match self {
            TriggerView::String { string } => "string: "@ + string,
            TriggerView::Regex { regex } => "regex: "@ + regex,
            TriggerView::Immediate => "immediate"@,
        }
    }

    /// The pattern that a search for this trigger uses; empty for a trigger
    /// that searches for none.
    pub open spec fn pattern(self) -> Seq<char> {
        match self {
            TriggerView::Regex { regex } => regex,
            _ => Seq::empty(),
        }
    }

    /// Whether the trigger holds of `text`. Regular expressions are matched
    /// line by line, with `\r\n` taken as one line ending.
    pub open spec fn satisfied_by(self, text: Seq<char>) -> Result<bool, EngineErrorView> {
        self.verdict(text, regex_search(self.pattern(), true, true, text))
    }
}

impl StateMachineTrigger {
    /// The trigger in words, for a picture of the graph.
    pub fn describe(&self) -> (r: String)
        ensures
            r@ == self@.description(),
    {
        match self {
            StateMachineTrigger::String { string } => String::from_str("string: ").concat(
                string.as_str(),
            ),
            StateMachineTrigger::Regex { regex } => String::from_str("regex: ").concat(
                regex.as_str(),
            ),
            StateMachineTrigger::Immediate => String::from_str("immediate"),
        }
    }

    /// Whether this is the trigger that fires without waiting.
    pub fn is_immediate(&self) -> (b: bool)
        ensures
            b == (self@ is Immediate),
    {
        match self {
            StateMachineTrigger::Immediate => true,
            _ => false,
        }
    }

    /// What a wait for this trigger looks for: `None` for `Immediate`, for
    /// which nobody must wait.
    pub fn to_needle(&self) -> (r: Result<Option<Needle>, EngineError>)
        ensures
            match r {
                Ok(Some(n)) => self@.needle() == Ok::<Option<NeedleView>, EngineErrorView>(
                    Some(n@),
                ),
                Ok(None) => self@.needle() == Ok::<Option<NeedleView>, EngineErrorView>(None),
                Err(e) => self@.needle() == Err::<Option<NeedleView>, EngineErrorView>(e@),
            },
    {
        match self {
            StateMachineTrigger::String { string } => Ok(Some(Needle::String(string.clone()))),
            StateMachineTrigger::Regex { regex } => {
                if regex_compiles(regex.as_str(), true, true) {
                    Ok(Some(Needle::Regex(regex.clone())))
                } else {
                    Err(EngineError::InvalidRegex { pattern: regex.clone() })
                }
            },
            StateMachineTrigger::Immediate => Ok(None),
        }
    }

    /// Whether the trigger holds of the text `m`, given what a search for its
    /// regular expression in `m` came to.
    pub fn verdict_for(&self, m: &str, found: Option<bool>) -> (r: Result<bool, EngineError>)
        ensures
            match r {
                Ok(b) => self@.verdict(m@, found) == Ok::<bool, EngineErrorView>(b),
                Err(e) => self@.verdict(m@, found) == Err::<bool, EngineErrorView>(e@),
            },
    {
        match self {
            StateMachineTrigger::String { string } => {
                let text = m.to_owned();
                Ok(text == *string)
            },
            StateMachineTrigger::Regex { regex } => match found {
                Some(b) => Ok(b),
                None => Err(EngineError::InvalidRegex { pattern: regex.clone() }),
            },
            StateMachineTrigger::Immediate => Ok(true),
        }
    }

    /// Whether the text `m`, which a wait reported as a match, satisfies this
    /// trigger.
    pub fn matches_result(&self, m: &str) -> (r: Result<bool, EngineError>)
        ensures
            match r {
                Ok(b) => self@.satisfied_by(m@) == Ok::<bool, EngineErrorView>(b),
                Err(e) => self@.satisfied_by(m@) == Err::<bool, EngineErrorView>(e@),
            },
    {
        match self {
            StateMachineTrigger::Regex { regex } => {
                let found = regex_is_match(regex.as_str(), true, true, m);
                self.verdict_for(m, found)
            },
            _ => self.verdict_for(m, None),
        }
    }
}

/// A trigger, as the lines of the wipe procedure name it.
#[derive(Debug, PartialEq, Eq, PartialOrd, Ord)]
pub enum StateCondition {
    WaitForString(String),
    WaitForRegex(String),
    Immediate,
}

impl View for StateCondition {
    type V = TriggerView;

    open spec fn view(&self) -> TriggerView {
        match self {
            StateCondition::WaitForString(s) => TriggerView::String { string: s@ },
            StateCondition::WaitForRegex(s) => TriggerView::Regex { regex: s@ },
            StateCondition::Immediate => TriggerView::Immediate,
        }
    }
}

impl StateCondition {
    /// The same trigger in the declarative form.
    pub fn to_trigger(&self) -> (t: StateMachineTrigger)
        ensures
            t@ == self@,
    {
        match self {
            StateCondition::WaitForString(s) => StateMachineTrigger::String { string: s.clone() },
            StateCondition::WaitForRegex(s) => StateMachineTrigger::Regex { regex: s.clone() },
            StateCondition::Immediate => StateMachineTrigger::Immediate,
        }
    }

    /// What a wait for this trigger looks for: `None` for `Immediate`.
    pub fn to_needle(&self) -> (r: Result<Option<Needle>, EngineError>)
        ensures
            match r {
                Ok(Some(n)) => self@.needle() == Ok::<Option<NeedleView>, EngineErrorView>(
                    Some(n@),
                ),
                Ok(None) => self@.needle() == Ok::<Option<NeedleView>, EngineErrorView>(None),
                Err(e) => self@.needle() == Err::<Option<NeedleView>, EngineErrorView>(e@),
            },
    {
        self.to_trigger().to_needle()
    }

    /// Whether the text `m`, which a wait reported as a match, satisfies this
    /// trigger.
    pub fn matches_result(&self, m: &str) -> (r: Result<bool, EngineError>)
        ensures
            match r {
                Ok(b) => self@.satisfied_by(m@) == Ok::<bool, EngineErrorView>(b),
                Err(e) => self@.satisfied_by(m@) == Err::<bool, EngineErrorView>(e@),
            },
    {
        self.to_trigger().matches_result(m)
    }
}

} // verus!
