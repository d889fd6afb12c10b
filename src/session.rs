use vstd::prelude::*;

verus! {

/// How a run of the program ended, as reported to the process.
#[derive(Copy, Clone, Debug, PartialEq, Eq, Structural)]
pub enum CellatoResult {
    Success,
    InvalidCommand,
    GridError,
}

impl CellatoResult {
    /// The process exit code: 0 on success, 64 for a bad command line, 70
    /// when the board could not be computed.
    pub fn code(&self) -> (r: u8)
        ensures
            *self == CellatoResult::Success ==> r == 0,
            *self == CellatoResult::InvalidCommand ==> r == 64,
            *self == CellatoResult::GridError ==> r == 70,
    {
        match self {
            CellatoResult::Success => 0,
            CellatoResult::InvalidCommand => 64,
            CellatoResult::GridError => 70,
        }
    }
}

/// What stepping the rule number past 255 or below 0 does.
#[derive(Copy, Clone, Debug, PartialEq, Eq, Structural)]
pub enum RuleCycling {
    /// Go round: 255 is followed by 0, and 0 preceded by 255.
    Wrap,
    /// Stay at the end: nothing follows 255, nothing precedes 0.
    Clamp,
}

/// What the interactive browser does after a key press.
#[derive(Copy, Clone, Debug, PartialEq, Eq, Structural)]
pub enum KeyAction {
    /// Compute and show the board of this rule.
    Redraw(u8),
    /// Tell the user the key means nothing and wait for another.
    InvalidKey,
    /// Leave the browser.
    Quit,
}

/// The rule after `rule` under the cycling policy.
pub open spec fn next_rule_spec(rule: u8, cycling: RuleCycling) -> u8 {
    if rule < 255 {
        (rule + 1) as u8
    } else if cycling == RuleCycling::Wrap {
        0
    } else {
        255
    }
}

/// The rule before `rule` under the cycling policy.
pub open spec fn prev_rule_spec(rule: u8, cycling: RuleCycling) -> u8 {
    if rule > 0 {
        (rule - 1) as u8
    } else if cycling == RuleCycling::Wrap {
        255
    } else {
        0
    }
}

pub fn next_rule(rule: u8, cycling: RuleCycling) -> (r: u8)
    ensures
        r == next_rule_spec(rule, cycling),
{
    if rule < 255 {
        rule + 1
    } else {
        match cycling {
            RuleCycling::Wrap => 0,
            RuleCycling::Clamp => 255,
        }
    }
}

pub fn prev_rule(rule: u8, cycling: RuleCycling) -> (r: u8)
    ensures
        r == prev_rule_spec(rule, cycling),
{
    if rule > 0 {
        rule - 1
    } else {
        match cycling {
            RuleCycling::Wrap => 255,
            RuleCycling::Clamp => 0,
        }
    }
}

/// The browser's answer to a key while it shows `rule`: `n` moves to the next
/// rule, `b` back to the previous one, `e` quits, and any other key is refused.
pub fn on_key(rule: u8, key: char, cycling: RuleCycling) -> (r: KeyAction)
    ensures
        key == 'n' ==> r == KeyAction::Redraw(next_rule_spec(rule, cycling)),
        key == 'b' ==> r == KeyAction::Redraw(prev_rule_spec(rule, cycling)),
        key == 'e' ==> r == KeyAction::Quit,
        key != 'n' && key != 'b' && key != 'e' ==> r == KeyAction::InvalidKey,
{
    match key {
        'n' => KeyAction::Redraw(next_rule(rule, cycling)),
        'b' => KeyAction::Redraw(prev_rule(rule, cycling)),
        'e' => KeyAction::Quit,
        _ => KeyAction::InvalidKey,
    }
}

} // verus!
