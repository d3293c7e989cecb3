//! Settings of the corrector and of the recognition service, as the interface
//! shows and changes them.
use crate::config::AsrServiceConfig;
use crate::config::CorrectorConfig;
use crate::config::OutputConfig;
use crate::dictation;
use crate::dictation::AsrPreset;
use crate::text;
use vstd::prelude::*;
use vstd::string::*;

verus! {

#[derive(Debug, Clone, PartialEq, Eq)]
pub struct CorrectorStatus {
    pub enabled: bool,
    pub provider: String,
    pub base_url: String,
    pub model: String,
    /// api_key is never returned in full; only whether set.
    pub has_api_key: bool,
    pub timeout_secs: u64,
    pub label: String,
    /// none | light | medium | strong
    pub cleanup: String,
    pub style: String,
    pub casing: String,
    pub punctuation: String,
    pub polish: Vec<String>,
    pub custom_enabled: bool,
    pub custom_instruction: String,
}

#[derive(Debug, Clone, PartialEq, Eq)]
pub struct CorrectorConfigInput {
    pub enabled: Option<bool>,
    pub provider: Option<String>,
    pub base_url: Option<String>,
    pub model: Option<String>,
    pub api_key: Option<String>,
    pub timeout_secs: Option<u64>,
    pub cleanup: Option<String>,
    pub style: Option<String>,
    pub casing: Option<String>,
    pub punctuation: Option<String>,
    pub polish: Option<Vec<String>>,
    pub custom_enabled: Option<bool>,
    pub custom_instruction: Option<String>,
}

#[derive(Debug, Clone, PartialEq, Eq)]
pub struct AsrServiceStatus {
    pub provider: String,
    pub base_url: String,
    pub model: String,
    pub has_api_key: bool,
    pub language: String,
    pub timeout_secs: u64,
}

#[derive(Debug, Clone, PartialEq, Eq)]
pub struct AsrServiceInput {
    pub provider: Option<String>,
    pub base_url: Option<String>,
    pub model: Option<String>,
    pub api_key: Option<String>,
    pub language: Option<String>,
    pub timeout_secs: Option<u64>,
}

#[derive(Debug, Clone, PartialEq, Eq)]
pub struct CorrectTextInput {
    pub text: String,
}

#[derive(Debug, Clone, PartialEq, Eq)]
pub struct CorrectTextOutcome {
    pub text: String,
    pub model_applied: bool,
    pub corrector_engine: String,
}

// ---------------------------------------------------------------------------
// The recognition service
// ---------------------------------------------------------------------------

/// The recognition service as the interface shows it. The key is never shown.
pub fn get_asr_service_config(config: &AsrServiceConfig) -> (r: AsrServiceStatus)
    ensures
        r.provider@ == config.provider@,
        r.base_url@ == config.base_url@,
        r.model@ == config.model@,
        r.has_api_key == (config.api_key@.len() > 0),
        r.language@ == config.language@,
        r.timeout_secs == config.timeout_secs,
{
    AsrServiceStatus {
        provider: config.provider.as_str().to_owned(),
        base_url: config.base_url.as_str().to_owned(),
        model: config.model.as_str().to_owned(),
        has_api_key: !config.api_key.as_str().is_empty(),
        language: config.language.as_str().to_owned(),
        timeout_secs: config.timeout_secs,
    }
}

pub open spec fn given_or(value: Option<String>, default: Seq<char>) -> Seq<char> {
    match value {
        Some(value) => value@,
        None => default,
    }
}

/// Takes over what an input sets; `preset` is what is known of the provider that
/// the input names. A provider brings its address and its model with it, which the
/// input may set itself.
pub fn save_asr_service_config(
    config: &mut AsrServiceConfig,
    input: AsrServiceInput,
    preset: Option<AsrPreset>,
)
    ensures
        ({
            let known = if input.provider is Some {
                preset
            } else {
                None
            };
            let base_url = match known {
                Some(preset) => dictation::or_default(preset.base_url@, old(config).base_url@),
                None => old(config).base_url@,
            };
            let model = match known {
                Some(preset) => dictation::or_default(preset.default_model@, old(config).model@),
                None => old(config).model@,
            };
            &&& final(config).provider@ == given_or(input.provider, old(config).provider@)
            &&& final(config).base_url@ == given_or(input.base_url, base_url)
            &&& final(config).model@ == given_or(input.model, model)
            &&& final(config).api_key@ == given_or(input.api_key, old(config).api_key@)
            &&& final(config).language@ == given_or(input.language, old(config).language@)
            &&& final(config).timeout_secs == match input.timeout_secs {
                Some(secs) => if secs < 15 {
                    15
                } else {
                    secs
                },
                None => old(config).timeout_secs,
            }
        }),
        final(config).dirs() == old(config).dirs(),
        final(config).runtime_path == old(config).runtime_path,
        final(config).qwen_shadow_enabled == old(config).qwen_shadow_enabled,
{
    if let Some(provider) = input.provider {
        if let Some(preset) = preset {
            if !preset.base_url.as_str().is_empty() {
                config.base_url = preset.base_url;
            }
            if !preset.default_model.as_str().is_empty() {
                config.model = preset.default_model;
            }
        }
        config.provider = provider;
    }
    if let Some(base_url) = input.base_url {
        config.base_url = base_url;
    }
    if let Some(model) = input.model {
        config.model = model;
    }
    if let Some(api_key) = input.api_key {
        config.api_key = api_key;
    }
    if let Some(language) = input.language {
        config.language = language;
    }
    if let Some(secs) = input.timeout_secs {
        config.timeout_secs = if secs < 15 {
            15
        } else {
            secs
        };
    }
}

// ---------------------------------------------------------------------------
// The corrector
// ---------------------------------------------------------------------------

/// A language model provider that is known with its address and its model.
#[derive(Debug, Clone, PartialEq, Eq)]
pub struct LlmPreset {
    /// none | ollama | …
    pub kind: String,
    pub base_url: String,
    pub default_model: String,
}

/// The provider that is kept for one that an input names.
pub open spec fn kept_provider(provider: Seq<char>, preset: Option<LlmPreset>) -> Seq<char> {
    match preset {
        Some(preset) => if preset.kind@ == "none"@ || preset.kind@ == "ollama"@ {
            preset.kind@
        } else {
            provider
        },
        None => provider,
    }
}

/// Takes over what an input sets of the corrector; `preset` is what is known of
/// the provider that the input names.
pub fn save_corrector_config(
    config: &mut CorrectorConfig,
    input: &CorrectorConfigInput,
    preset: Option<LlmPreset>,
)
    ensures
        ({
            let known = if input.provider is Some {
                preset
            } else {
                None
            };
            let base_url = match known {
                Some(preset) => dictation::or_default(preset.base_url@, old(config).base_url@),
                None => old(config).base_url@,
            };
            let model = match known {
                Some(preset) => dictation::or_default(preset.default_model@, old(config).model@),
                None => old(config).model@,
            };
            &&& final(config).enabled == match input.enabled {
                Some(enabled) => enabled,
                None => old(config).enabled,
            }
            &&& final(config).provider@ == match input.provider {
                Some(provider) => kept_provider(provider@, preset),
                None => old(config).provider@,
            }
            &&& final(config).base_url@ == given_or(input.base_url, base_url)
            &&& final(config).model@ == given_or(input.model, model)
            &&& final(config).api_key@ == given_or(input.api_key, old(config).api_key@)
            &&& final(config).timeout_secs == match input.timeout_secs {
                Some(secs) => if secs < 5 {
                    5
                } else {
                    secs
                },
                None => old(config).timeout_secs,
            }
        }),
        final(config).use_captured_context == old(config).use_captured_context,
{
    if let Some(enabled) = input.enabled {
        config.enabled = enabled;
    }
    if let Some(provider) = &input.provider {
        match preset {
            Some(preset) => {
                if !preset.base_url.as_str().is_empty() {
                    config.base_url = preset.base_url;
                }
                if !preset.default_model.as_str().is_empty() {
                    config.model = preset.default_model;
                }
                config.provider = if text::same(preset.kind.as_str(), "none") || text::same(
                    preset.kind.as_str(),
                    "ollama",
                ) {
                    preset.kind
                } else {
                    provider.as_str().to_owned()
                };
            },
            None => {
                config.provider = provider.as_str().to_owned();
            },
        }
    }
    if let Some(base_url) = &input.base_url {
        config.base_url = base_url.as_str().to_owned();
    }
    if let Some(model) = &input.model {
        config.model = model.as_str().to_owned();
    }
    if let Some(api_key) = &input.api_key {
        config.api_key = api_key.as_str().to_owned();
    }
    if let Some(secs) = input.timeout_secs {
        config.timeout_secs = if secs < 5 {
            5
        } else {
            secs
        };
    }
}

/// The settings that the corrector starts with, by what the environment names.
pub fn default_corrector_config(model: Option<String>, api_key: Option<String>) -> (r:
    CorrectorConfig)
    ensures
        r.enabled && !r.use_captured_context,
        r.provider@ == "ollama"@,
        r.base_url@ == "http://127.0.0.1:11434/v1"@,
        r.model@ == given_or(model, "qwen2.5:7b"@),
        r.api_key@ == given_or(api_key, Seq::empty()),
        r.timeout_secs == 60,
{
    CorrectorConfig::with_environment(model, api_key)
}

/// Which of the values of an input are known.
#[derive(Debug, Clone, PartialEq, Eq)]
pub struct KnownValues {
    pub cleanup: bool,
    pub style: bool,
    pub casing: bool,
    pub punctuation: bool,
    /// For each polish rule of the input.
    pub polish: Vec<bool>,
}

impl KnownValues {
    /// The polish rule at `at` is known.
    pub open spec fn knows_polish(self, at: int) -> bool {
        0 <= at < self.polish@.len() && self.polish@[at]
    }
}

/// The first polish rule from `from` on that is not known.
pub open spec fn unknown_polish(rules: Seq<String>, known: KnownValues, from: int) -> Option<int>
    decreases rules.len() - from,
{
    if from >= rules.len() {
        None
    } else if !known.knows_polish(from) {
        Some(from)
    } else {
        unknown_polish(rules, known, from + 1)
    }
}

/// The rule that is not known, where there is one.
pub open spec fn polish_error(input: CorrectorConfigInput, known: KnownValues) -> Option<Seq<char>> {
    match input.polish {
        Some(rules) => match unknown_polish(rules@, known, 0) {
            Some(at) => Some("unknown polish rule: "@ + rules@[at]@),
            None => None,
        },
        None => None,
    }
}

/// How far an input is taken over: the values are read in the order cleanup,
/// style, casing, punctuation and polish, up to the first that is not known.
pub open spec fn steps_taken(input: CorrectorConfigInput, known: KnownValues) -> nat {
    if input.cleanup is Some && !known.cleanup {
        0
    } else if input.style is Some && !known.style {
        1
    } else if input.casing is Some && !known.casing {
        2
    } else if input.punctuation is Some && !known.punctuation {
        3
    } else if polish_error(input, known) is Some {
        4
    } else {
        5
    }
}

/// Why an input is refused.
pub open spec fn output_error(input: CorrectorConfigInput, known: KnownValues) -> Option<Seq<char>> {
    let steps = steps_taken(input, known);
    if steps == 0 {
        Some("unknown cleanup level: "@ + input.cleanup->0@)
    } else if steps == 1 {
        Some("unknown style: "@ + input.style->0@)
    } else if steps == 2 {
        Some("unknown casing: "@ + input.casing->0@)
    } else if steps == 3 {
        Some("unknown punctuation: "@ + input.punctuation->0@)
    } else if steps == 4 {
        polish_error(input, known)
    } else {
        None
    }
}

/// A value that is set in lower case, where the reading came so far.
pub open spec fn lowered_or(value: Option<String>, taken: bool, default: Seq<char>) -> Seq<char> {
    match value {
        Some(value) => if taken {
            text::lower(value@)
        } else {
            default
        },
        None => default,
    }
}

fn find_unknown_polish(rules: &Vec<String>, known: &KnownValues) -> (r: Option<usize>)
    ensures
        match r {
            Some(at) => at < rules@.len() && unknown_polish(rules@, *known, 0) == Some(at as int),
            None => unknown_polish(rules@, *known, 0) is None,
        },
{
    let mut i: usize = 0;
    while i < rules.len()
        invariant
            i <= rules@.len(),
            unknown_polish(rules@, *known, 0) == unknown_polish(rules@, *known, i as int),
        decreases rules@.len() - i,
    {
        if i >= known.polish.len() || !known.polish[i] {
            return Some(i);
        }
        i = i + 1;
    }
    None
}

/// Takes over what an input sets of the output. The first value that is not known
/// ends the reading: what was read before it stays set.
pub fn save_output_config(
    output: &mut OutputConfig,
    input: &CorrectorConfigInput,
    known: &KnownValues,
) -> (r: Result<(), String>)
    ensures
        match output_error(*input, *known) {
            Some(error) => text::fails(r, error),
            None => r is Ok,
        },
        ({
            let steps = steps_taken(*input, *known);
            &&& final(output).cleanup@ == lowered_or(
                input.cleanup,
                steps > 0,
                old(output).cleanup@,
            )
            &&& final(output).style@ == lowered_or(input.style, steps > 1, old(output).style@)
            &&& final(output).casing@ == lowered_or(input.casing, steps > 2, old(output).casing@)
            &&& final(output).punctuation@ == lowered_or(
                input.punctuation,
                steps > 3,
                old(output).punctuation@,
            )
            &&& text::texts(final(output).polish@) == if input.polish is Some && steps > 4 {
                text::texts(input.polish->0@)
            } else {
                text::texts(old(output).polish@)
            }
            &&& final(output).custom_enabled == if input.custom_enabled is Some && steps > 4 {
                input.custom_enabled->0
            } else {
                old(output).custom_enabled
            }
            &&& final(output).custom_instruction@ == if input.custom_instruction is Some && steps
                > 4 {
                input.custom_instruction->0@
            } else {
                old(output).custom_instruction@
            }
        }),
        final(output).qwen_cleanup == old(output).qwen_cleanup,
{
    if let Some(cleanup) = &input.cleanup {
        if !known.cleanup {
            return Err(text::glue("unknown cleanup level: ", cleanup.as_str()));
        }
        output.cleanup = text::lowered(cleanup.as_str());
    }
    if let Some(style) = &input.style {
        if !known.style {
            return Err(text::glue("unknown style: ", style.as_str()));
        }
        output.style = text::lowered(style.as_str());
    }
    if let Some(casing) = &input.casing {
        if !known.casing {
            return Err(text::glue("unknown casing: ", casing.as_str()));
        }
        output.casing = text::lowered(casing.as_str());
    }
    if let Some(punctuation) = &input.punctuation {
        if !known.punctuation {
            return Err(text::glue("unknown punctuation: ", punctuation.as_str()));
        }
        output.punctuation = text::lowered(punctuation.as_str());
    }
    if let Some(polish) = &input.polish {
        if let Some(at) = find_unknown_polish(polish, known) {
            return Err(text::glue("unknown polish rule: ", polish[at].as_str()));
        }
        output.polish = text::copy_texts(polish);
    }
    if let Some(enabled) = input.custom_enabled {
        output.custom_enabled = enabled;
    }
    if let Some(instruction) = &input.custom_instruction {
        output.custom_instruction = instruction.as_str().to_owned();
    }
    Ok(())
}

/// The names of the output settings in effect.
#[derive(Debug, Clone, PartialEq, Eq)]
pub struct OutputNames {
    pub style: String,
    pub casing: String,
    pub punctuation: String,
    pub polish: Vec<String>,
}

/// The corrector as the interface shows it. The key is never shown.
pub fn status_from(
    corrector: &CorrectorConfig,
    output: &OutputConfig,
    label: String,
    names: OutputNames,
) -> (r: CorrectorStatus)
    ensures
        r.enabled == corrector.enabled,
        r.provider@ == corrector.provider@,
        r.base_url@ == corrector.base_url@,
        r.model@ == corrector.model@,
        r.has_api_key == (corrector.api_key@.len() > 0),
        r.timeout_secs == corrector.timeout_secs,
        r.label == label,
        r.cleanup@ == output.default_level().name(),
        r.style == names.style,
        r.casing == names.casing,
        r.punctuation == names.punctuation,
        r.polish == names.polish,
        r.custom_enabled == output.custom_enabled,
        r.custom_instruction@ == output.custom_instruction@,
{
    CorrectorStatus {
        enabled: corrector.enabled,
        provider: corrector.provider.as_str().to_owned(),
        base_url: corrector.base_url.as_str().to_owned(),
        model: corrector.model.as_str().to_owned(),
        has_api_key: !corrector.api_key.as_str().is_empty(),
        timeout_secs: corrector.timeout_secs,
        label,
        cleanup: output.cleanup_level().as_str().to_owned(),
        style: names.style,
        casing: names.casing,
        punctuation: names.punctuation,
        polish: names.polish,
        custom_enabled: output.custom_enabled,
        custom_instruction: output.custom_instruction.as_str().to_owned(),
    }
}

// ---------------------------------------------------------------------------
// Correcting by hand
// ---------------------------------------------------------------------------

/// What a blank text comes to: itself. `None` where there is something to correct.
pub fn blank_outcome(input: &CorrectTextInput) -> (r: Option<CorrectTextOutcome>)
    ensures
        r is Some <==> text::trim(input.text@).len() == 0,
        r matches Some(outcome) ==> outcome.text@ == input.text@ && !outcome.model_applied
            && outcome.corrector_engine@ == "none"@,
{
    if text::is_blank(input.text.as_str()) {
        Some(
            CorrectTextOutcome {
                text: input.text.as_str().to_owned(),
                model_applied: false,
                corrector_engine: "none".to_owned(),
            },
        )
    } else {
        None
    }
}

/// What a corrected text comes to: `label` is that of the engine.
pub fn corrected_outcome(text: String, model_applied: bool, label: &str) -> (r: CorrectTextOutcome)
    ensures
        r.text == text,
        r.model_applied == model_applied,
        r.corrector_engine@ == if model_applied {
            label@
        } else {
            label@ + ":fallback"@
        },
{
    CorrectTextOutcome {
        text,
        model_applied,
        corrector_engine: if model_applied {
            label.to_owned()
        } else {
            text::glue(label, ":fallback")
        },
    }
}

// ---------------------------------------------------------------------------
// Laws of the settings
// ---------------------------------------------------------------------------

/// What is given stands, and the default where nothing is.
pub proof fn given_value_stands(value: String, default: Seq<char>)
    ensures
        given_or(Some(value), default) == value@,
        given_or(None, default) == default,
        lowered_or(Some(value), true, default) == text::lower(value@),
        lowered_or(Some(value), false, default) == default,
        lowered_or(None, true, default) == default,
{
}

/// A provider is kept by its own name, but for the preset that is none and for Ollama.
pub proof fn provider_is_kept_by_its_name(provider: Seq<char>, preset: LlmPreset)
    ensures
        kept_provider(provider, None) == provider,
        preset.kind@ == "none"@ ==> kept_provider(provider, Some(preset)) == "none"@,
        preset.kind@ == "ollama"@ ==> kept_provider(provider, Some(preset)) == "ollama"@,
        preset.kind@ != "none"@ && preset.kind@ != "ollama"@ ==> kept_provider(
            provider,
            Some(preset),
        ) == provider,
{
}

/// The first rule that is not known is the one that is told; where all are known there is
/// none.
pub proof fn first_unknown_rule_is_told(rules: Seq<String>, known: KnownValues, from: int, i: int)
    requires
        0 <= from <= i < rules.len(),
        !known.knows_polish(i),
        forall|k: int| from <= k < i ==> known.knows_polish(k),
    ensures
        unknown_polish(rules, known, from) == Some(i),
    decreases i - from,
{
    if from < i {
        first_unknown_rule_is_told(rules, known, from + 1, i);
    }
}

/// Rules that are all known are not refused.
pub proof fn known_rules_are_taken(rules: Seq<String>, known: KnownValues, from: int)
    requires
        0 <= from,
        forall|k: int| 0 <= k < rules.len() ==> known.knows_polish(k),
    ensures
        unknown_polish(rules, known, from) is None,
    decreases rules.len() - from,
{
    if from < rules.len() {
        known_rules_are_taken(rules, known, from + 1);
    }
}

/// A rule is known where it is marked so.
pub proof fn marked_rule_is_known(known: KnownValues, at: int)
    ensures
        0 <= at < known.polish@.len() ==> known.knows_polish(at) == known.polish@[at],
        at < 0 || at >= known.polish@.len() ==> !known.knows_polish(at),
{
}

/// An input is refused for the first of its values that is not known, in the order
/// cleanup, style, casing, punctuation and polish; one whose values are all known is
/// taken whole.
pub proof fn unknown_value_is_refused(input: CorrectorConfigInput, known: KnownValues)
    ensures
        input.cleanup matches Some(value) ==> (!known.cleanup ==> output_error(input, known) == Some(
            "unknown cleanup level: "@ + value@,
        ) && steps_taken(input, known) == 0),
        known.cleanup || input.cleanup is None ==> (input.style matches Some(value) ==> (
        !known.style ==> output_error(input, known) == Some("unknown style: "@ + value@)
            && steps_taken(input, known) == 1)),
        (known.cleanup || input.cleanup is None) && (known.style || input.style is None) ==> (
        input.casing matches Some(value) ==> (!known.casing ==> output_error(input, known) == Some(
            "unknown casing: "@ + value@,
        ) && steps_taken(input, known) == 2)),
        (known.cleanup || input.cleanup is None) && (known.style || input.style is None) && (
        known.casing || input.casing is None) ==> (input.punctuation matches Some(value) ==> (
        !known.punctuation ==> output_error(input, known) == Some("unknown punctuation: "@ + value@)
            && steps_taken(input, known) == 3)),
        (known.cleanup || input.cleanup is None) && (known.style || input.style is None) && (
        known.casing || input.casing is None) && (known.punctuation || input.punctuation is None)
            && polish_error(input, known) is Some ==> output_error(input, known) == polish_error(
            input,
            known,
        ) && steps_taken(input, known) == 4,
        (known.cleanup || input.cleanup is None) && (known.style || input.style is None) && (
        known.casing || input.casing is None) && (known.punctuation || input.punctuation is None)
            && polish_error(input, known) is None ==> output_error(input, known) is None
            && steps_taken(input, known) == 5,
        input.polish is None ==> polish_error(input, known) is None,
        input.polish matches Some(rules) ==> (unknown_polish(rules@, known, 0) matches Some(at)
            ==> polish_error(input, known) == Some("unknown polish rule: "@ + rules@[at]@)),
{
}

} // verus!
