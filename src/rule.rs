use crate::cell::State;
use vstd::prelude::*;

verus! {

/// The neighbourhood of a cell: its left neighbour, itself and its right
/// neighbour, as they stood in the previous generation.
pub type Config<'a> = (&'a State, &'a State, &'a State);

/// A rule written out as eight flags, one per neighbourhood pattern, in the
/// canonical order ON-ON-ON, ON-ON-OFF, ON-OFF-ON, ON-OFF-OFF, OFF-ON-ON,
/// OFF-ON-OFF, OFF-OFF-ON, OFF-OFF-OFF.
#[derive(Copy, Clone, Debug, PartialEq, Eq, Structural)]
pub struct WolframRule(pub bool, pub bool, pub bool, pub bool, pub bool, pub bool, pub bool, pub bool);

/// Position of the pattern (left, center, right) in the canonical order.
pub open spec fn pattern_index(left: State, center: State, right: State) -> nat {
    (if left == State::OFF { 4nat } else { 0nat }) + (if center == State::OFF { 2nat } else { 0nat }) + (
    if right == State::OFF { 1nat } else { 0nat })
}

/// Whether bit `k` (counted from the least significant one) of `rule` is set.
pub open spec fn bit_set(rule: u8, k: nat) -> bool {
    (rule >> (k as u8)) & 1u8 == 1u8
}

/// The state a rule number gives a cell whose neighbourhood is
/// (left, center, right): ON iff bit `7 - p` of the rule is set, where `p` is
/// the pattern's position in the canonical order.
pub open spec fn rule_output(rule: u8, left: State, center: State, right: State) -> State {
    if bit_set(rule, (7 - pattern_index(left, center, right)) as nat) {
        State::ON
    } else {
        State::OFF
    }
}

impl WolframRule {
    /// The flag that this rule holds for pattern `p` of the canonical order.
    pub open spec fn flag(self, p: nat) -> bool {
        if p == 0 {
            self.0
        } else if p == 1 {
            self.1
        } else if p == 2 {
            self.2
        } else if p == 3 {
            self.3
        } else if p == 4 {
            self.4
        } else if p == 5 {
            self.5
        } else if p == 6 {
            self.6
        } else {
            self.7
        }
    }

    /// The rule number: bit `7 - p` is set iff the flag of pattern `p` is.
    pub open spec fn number(self) -> u8 {
        (if self.0 { 0x80u8 } else { 0u8 }) | (if self.1 { 0x40u8 } else { 0u8 }) | (if self.2 {
            0x20u8
        } else {
            0u8
        }) | (if self.3 { 0x10u8 } else { 0u8 }) | (if self.4 { 0x08u8 } else { 0u8 }) | (
        if self.5 { 0x04u8 } else { 0u8 }) | (if self.6 { 0x02u8 } else { 0u8 }) | (if self.7 {
            0x01u8
        } else {
            0u8
        })
    }
}

/// The state a rule written as flags gives a cell with this neighbourhood.
pub open spec fn flag_output(rule: WolframRule, left: State, center: State, right: State) -> State {
    if rule.flag(pattern_index(left, center, right)) {
        State::ON
    } else {
        State::OFF
    }
}

impl From<WolframRule> for u8 {
    fn from(rule: WolframRule) -> (r: u8)
        ensures
            r == rule.number(),
    {
        let bits: [u8; 8] = [
            if rule.0 { 0x80 } else { 0 },
            if rule.1 { 0x40 } else { 0 },
            if rule.2 { 0x20 } else { 0 },
            if rule.3 { 0x10 } else { 0 },
            if rule.4 { 0x08 } else { 0 },
            if rule.5 { 0x04 } else { 0 },
            if rule.6 { 0x02 } else { 0 },
            if rule.7 { 0x01 } else { 0 },
        ];
        let binary_rule: u8 = bits[0] | bits[1] | bits[2] | bits[3] | bits[4] | bits[5] | bits[6] | bits[7];
        binary_rule
    }
}

impl vstd::std_specs::convert::FromSpecImpl<WolframRule> for u8 {
    open spec fn obeys_from_spec() -> bool {
        true
    }

    open spec fn from_spec(rule: WolframRule) -> u8 {
        rule.number()
    }
}

/// Next state of a cell under a rule written as eight flags.
pub fn slow_wolfram(rule: WolframRule, input_cfg: Config) -> (r: State)
    ensures
        r == flag_output(rule, *input_cfg.0, *input_cfg.1, *input_cfg.2),
{
    match input_cfg {
        (State::ON, State::ON, State::ON) => if rule.0 { State::ON } else { State::OFF },
        (State::ON, State::ON, State::OFF) => if rule.1 { State::ON } else { State::OFF },
        (State::ON, State::OFF, State::ON) => if rule.2 { State::ON } else { State::OFF },
        (State::ON, State::OFF, State::OFF) => if rule.3 { State::ON } else { State::OFF },
        (State::OFF, State::ON, State::ON) => if rule.4 { State::ON } else { State::OFF },
        (State::OFF, State::ON, State::OFF) => if rule.5 { State::ON } else { State::OFF },
        (State::OFF, State::OFF, State::ON) => if rule.6 { State::ON } else { State::OFF },
        (State::OFF, State::OFF, State::OFF) => if rule.7 { State::ON } else { State::OFF },
    }
}

/// Next state of a cell under a rule number.
pub fn wolfram(rule: u8, input_cfg: Config) -> (r: State)
    ensures
        r == rule_output(rule, *input_cfg.0, *input_cfg.1, *input_cfg.2),
{
    match input_cfg {
        (State::ON, State::ON, State::ON) => if (rule >> 7 & 1) == 1 { State::ON } else { State::OFF },
        (State::ON, State::ON, State::OFF) => if (rule >> 6 & 1) == 1 { State::ON } else { State::OFF },
        (State::ON, State::OFF, State::ON) => if (rule >> 5 & 1) == 1 { State::ON } else { State::OFF },
        (State::ON, State::OFF, State::OFF) => if (rule >> 4 & 1) == 1 { State::ON } else { State::OFF },
        (State::OFF, State::ON, State::ON) => if (rule >> 3 & 1) == 1 { State::ON } else { State::OFF },
        (State::OFF, State::ON, State::OFF) => if (rule >> 2 & 1) == 1 { State::ON } else { State::OFF },
        (State::OFF, State::OFF, State::ON) => if (rule >> 1 & 1) == 1 { State::ON } else { State::OFF },
        (State::OFF, State::OFF, State::OFF) => if (rule >> 0 & 1) == 1 { State::ON } else { State::OFF },
    }
}

/// Each bit of a rule number assembled from eight flags is the matching flag.
proof fn lemma_number_bits(n: u8, a: bool, b: bool, c: bool, d: bool, e: bool, f: bool, g: bool, h: bool)
    by (bit_vector)
    requires
        n == (if a { 0x80u8 } else { 0u8 }) | (if b { 0x40u8 } else { 0u8 }) | (if c { 0x20u8 } else { 0u8 })
            | (if d { 0x10u8 } else { 0u8 }) | (if e { 0x08u8 } else { 0u8 }) | (if f { 0x04u8 } else { 0u8 })
            | (if g { 0x02u8 } else { 0u8 }) | (if h { 0x01u8 } else { 0u8 }),
    ensures
        ((n >> 7u8) & 1u8 == 1u8) == a,
        ((n >> 6u8) & 1u8 == 1u8) == b,
        ((n >> 5u8) & 1u8 == 1u8) == c,
        ((n >> 4u8) & 1u8 == 1u8) == d,
        ((n >> 3u8) & 1u8 == 1u8) == e,
        ((n >> 2u8) & 1u8 == 1u8) == f,
        ((n >> 1u8) & 1u8 == 1u8) == g,
        ((n >> 0u8) & 1u8 == 1u8) == h,
{
}

/// A rule written as flags and its rule number give every neighbourhood the
/// same next state.
pub proof fn lemma_flags_agree_with_number(rule: WolframRule, left: State, center: State, right: State)
    ensures
        flag_output(rule, left, center, right) == rule_output(rule.number(), left, center, right),
{
    lemma_number_bits(rule.number(), rule.0, rule.1, rule.2, rule.3, rule.4, rule.5, rule.6, rule.7);
}

} // verus!
