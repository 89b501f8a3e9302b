//! Settings enums and their textual forms.
use vstd::prelude::*;
use crate::text::str_is;

verus! {

/// How the context window size is chosen.
#[derive(Debug, Clone, Copy, PartialEq, Eq, Structural)]
pub enum CtxStrategy {
    /// max(8192, used tokens * 2): faster, smaller KV cache.
    Dynamic,
    /// The model's maximum context length.
    Full,
}

pub open spec fn ctx_strategy_index(c: CtxStrategy) -> usize {
    match c {
        CtxStrategy::Dynamic => 0usize,
        CtxStrategy::Full => 1usize,
    }
}

pub open spec fn ctx_strategy_at(i: usize) -> CtxStrategy {
    if i == 1 {
        CtxStrategy::Full
    } else {
        CtxStrategy::Dynamic
    }
}

pub open spec fn ctx_strategy_named(s: Seq<char>) -> CtxStrategy {
    if s == ctx_strategy_name(CtxStrategy::Full) {
        CtxStrategy::Full
    } else {
        CtxStrategy::Dynamic
    }
}

pub open spec fn neuron_mode_named(s: Seq<char>) -> NeuronMode {
    if s == neuron_mode_name(NeuronMode::Smart) {
        NeuronMode::Smart
    } else if s == neuron_mode_name(NeuronMode::Presets) {
        NeuronMode::Presets
    } else {
        NeuronMode::Manual
    }
}

pub open spec fn ctx_strategy_name(c: CtxStrategy) -> Seq<char> {
    match c {
        CtxStrategy::Dynamic => seq!['d', 'y', 'n', 'a', 'm', 'i', 'c'],
        CtxStrategy::Full => seq!['f', 'u', 'l', 'l'],
    }
}

impl CtxStrategy {
    /// Position of the strategy in the settings list.
    pub fn index(&self) -> (i: usize)
        ensures
            i == ctx_strategy_index(*self),
    {
        match self {
            CtxStrategy::Dynamic => 0,
            CtxStrategy::Full => 1,
        }
    }

    /// The strategy at position `i`; any position but 1 means `Dynamic`.
    pub fn from_index(i: usize) -> (c: Self)
        ensures
            c == ctx_strategy_at(i),
    {
        match i {
            1 => CtxStrategy::Full,
            _ => CtxStrategy::Dynamic,
        }
    }

    /// The name stored in the configuration file.
    pub fn as_str(&self) -> (s: &'static str)
        ensures
            s@ == ctx_strategy_name(*self),
    {
        match self {
            CtxStrategy::Dynamic => {
                proof {
                    reveal_strlit("dynamic");
                }
                assert("dynamic"@ =~= ctx_strategy_name(*self));
                "dynamic"
            },
            CtxStrategy::Full => {
                proof {
                    reveal_strlit("full");
                }
                assert("full"@ =~= ctx_strategy_name(*self));
                "full"
            },
        }
    }

    /// Parses a configuration name; anything but `full` means `Dynamic`.
    pub fn from_str(s: &str) -> (c: Self)
        ensures
            c == ctx_strategy_named(s@),
    {
        let full = vec!['f', 'u', 'l', 'l'];
        if str_is(s, full.as_slice()) {
            CtxStrategy::Full
        } else {
            CtxStrategy::Dynamic
        }
    }
}

/// How neurons are enabled.
#[derive(Debug, Clone, Copy, PartialEq, Eq, Structural)]
pub enum NeuronMode {
    Manual,
    Smart,
    Presets,
}

pub open spec fn neuron_mode_name(m: NeuronMode) -> Seq<char> {
    match m {
        NeuronMode::Manual => seq!['m', 'a', 'n', 'u', 'a', 'l'],
        NeuronMode::Smart => seq!['s', 'm', 'a', 'r', 't'],
        NeuronMode::Presets => seq!['p', 'r', 'e', 's', 'e', 't', 's'],
    }
}

impl NeuronMode {
    /// The name stored in the configuration file.
    pub fn as_str(&self) -> (s: &'static str)
        ensures
            s@ == neuron_mode_name(*self),
    {
        match self {
            NeuronMode::Manual => {
                proof {
                    reveal_strlit("manual");
                }
                assert("manual"@ =~= neuron_mode_name(*self));
                "manual"
            },
            NeuronMode::Smart => {
                proof {
                    reveal_strlit("smart");
                }
                assert("smart"@ =~= neuron_mode_name(*self));
                "smart"
            },
            NeuronMode::Presets => {
                proof {
                    reveal_strlit("presets");
                }
                assert("presets"@ =~= neuron_mode_name(*self));
                "presets"
            },
        }
    }

    /// Parses a configuration name; unknown names mean `Manual`.
    pub fn from_str(s: &str) -> (m: Self)
        ensures
            m == neuron_mode_named(s@),
    {
        let smart = vec!['s', 'm', 'a', 'r', 't'];
        let presets = vec!['p', 'r', 'e', 's', 'e', 't', 's'];
        if str_is(s, smart.as_slice()) {
            NeuronMode::Smart
        } else if str_is(s, presets.as_slice()) {
            NeuronMode::Presets
        } else {
            NeuronMode::Manual
        }
    }
}

/// A named set of enabled neurons.
#[derive(Debug, Clone)]
pub struct NeuronPreset {
    pub name: String,
    pub enabled: Vec<String>,
}

/// The index of a strategy gives that strategy back.
pub proof fn lemma_ctx_strategy_index_roundtrip(c: CtxStrategy)
    ensures
        ctx_strategy_at(ctx_strategy_index(c)) == c,
{
}

/// Parsing the name of a strategy gives that strategy back.
pub proof fn lemma_ctx_strategy_name_roundtrip(c: CtxStrategy)
    ensures
        ctx_strategy_named(ctx_strategy_name(c)) == c,
{
    if c is Dynamic {
        assert(ctx_strategy_name(c)[0] != ctx_strategy_name(CtxStrategy::Full)[0]);
    }
}

/// Parsing the name of a neuron mode gives that mode back.
pub proof fn lemma_neuron_mode_name_roundtrip(m: NeuronMode)
    ensures
        neuron_mode_named(neuron_mode_name(m)) == m,
{
    assert(neuron_mode_name(NeuronMode::Manual)[0] != neuron_mode_name(NeuronMode::Smart)[0]);
    assert(neuron_mode_name(NeuronMode::Manual)[0] != neuron_mode_name(NeuronMode::Presets)[0]);
    assert(neuron_mode_name(NeuronMode::Presets)[0] != neuron_mode_name(NeuronMode::Smart)[0]);
}

} // verus!
