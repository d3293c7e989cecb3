//! The corrector of a run: which model it is, what it is known by, and the
//! dictionary that it is given.
use crate::config::CleanupLevel;
use crate::config::CorrectorConfig;
use crate::outside;
use crate::text;
use vstd::prelude::*;
use vstd::string::*;
use vstd::utf8::*;

verus! {

// ---------------------------------------------------------------------------
// The model
// ---------------------------------------------------------------------------

/// The model that runs: the configured one, or that of the provider's preset, or
/// the one that the app ships with.
pub open spec fn model_of(configured: Seq<char>, preset: Option<Seq<char>>) -> Seq<char> {
    if text::trim(configured).len() > 0 {
        configured
    } else {
        match preset {
            Some(model) => if model.len() > 0 {
                model
            } else {
                "qwen2.5:7b"@
            },
            None => "qwen2.5:7b"@,
        }
    }
}

/// The model that runs; `preset` is the model of the provider's preset.
pub fn effective_model(config: &CorrectorConfig, preset: Option<&String>) -> (r: String)
    ensures
        r@ == model_of(config.model@, text::seen(preset)),
{
    if !text::is_blank(config.model.as_str()) {
        return config.model.as_str().to_owned();
    }
    match preset {
        Some(model) => if model.as_str().is_empty() {
            "qwen2.5:7b".to_owned()
        } else {
            model.as_str().to_owned()
        },
        None => "qwen2.5:7b".to_owned(),
    }
}

/// A model corrector is configured.
pub open spec fn has_corrector(config: CorrectorConfig) -> bool {
    config.enabled && config.provider@ != "none"@
}

/// What corrects a text.
#[derive(Debug, Clone, PartialEq, Eq)]
pub enum CorrectorPlan {
    /// Nothing: rules and dictionary only.
    Null,
    Client {
        base_url: String,
        api_key: String,
        model: String,
        /// The engine runs on this machine.
        ollama: bool,
        timeout_secs: u64,
    },
}

/// The address of a corrector, or why there is none.
pub open spec fn address_of(
    base_url: Seq<char>,
    ollama: bool,
    preset: Option<Seq<char>>,
) -> Result<Seq<char>, Seq<char>> {
    if text::trim(base_url).len() > 0 {
        Ok(base_url)
    } else if ollama {
        Ok("http://127.0.0.1:11434/v1"@)
    } else {
        match preset {
            Some(url) => if url.len() > 0 {
                Ok(url)
            } else {
                Err("base_url required for online corrector"@)
            },
            None => Err("base_url required for online corrector"@),
        }
    }
}

/// The plan is a client with these settings.
pub open spec fn is_client(
    plan: CorrectorPlan,
    config: CorrectorConfig,
    base_url: Seq<char>,
    model: Seq<char>,
) -> bool {
    match plan {
        CorrectorPlan::Null => false,
        CorrectorPlan::Client { base_url: url, api_key, model: name, ollama, timeout_secs } => {
            &&& url@ == base_url
            &&& api_key@ == config.api_key@
            &&& name@ == model
            &&& ollama == (config.provider@ == "ollama"@)
            &&& timeout_secs == if config.timeout_secs < 5 {
                5
            } else {
                config.timeout_secs
            }
        },
    }
}

/// What corrects a text under a configuration; `preset_url` and `preset_model` are
/// those of the provider's preset.
pub fn build_corrector(
    config: &CorrectorConfig,
    preset_url: Option<String>,
    preset_model: Option<&String>,
) -> (r: Result<CorrectorPlan, String>)
    ensures
        !has_corrector(*config) ==> r == Ok::<CorrectorPlan, String>(CorrectorPlan::Null),
        has_corrector(*config) ==> match address_of(
            config.base_url@,
            config.provider@ == "ollama"@,
            text::opt(preset_url),
        ) {
            Ok(url) => r matches Ok(plan) && is_client(
                plan,
                *config,
                url,
                model_of(config.model@, text::seen(preset_model)),
            ),
            Err(error) => text::fails(r, error),
        },
{
    if !config.enabled || text::same(config.provider.as_str(), "none") {
        return Ok(CorrectorPlan::Null);
    }
    let ollama: bool = text::same(config.provider.as_str(), "ollama");
    let base_url: String = if !text::is_blank(config.base_url.as_str()) {
        config.base_url.as_str().to_owned()
    } else if ollama {
        "http://127.0.0.1:11434/v1".to_owned()
    } else {
        match preset_url {
            Some(url) => if url.as_str().is_empty() {
                return Err("base_url required for online corrector".to_owned());
            } else {
                url
            },
            None => return Err("base_url required for online corrector".to_owned()),
        }
    };
    let model: String = effective_model(config, preset_model);
    Ok(
        CorrectorPlan::Client {
            base_url,
            api_key: config.api_key.as_str().to_owned(),
            model,
            ollama,
            timeout_secs: if config.timeout_secs < 5 {
                5
            } else {
                config.timeout_secs
            },
        },
    )
}

/// How a text is corrected.
#[derive(Debug, Clone, PartialEq, Eq)]
pub enum CorrectRoute {
    /// By rules and dictionary only.
    Preprocess,
    Model(CorrectorPlan),
    /// By rules and dictionary, because the corrector could not be made.
    BuildFailed,
}

/// How a text is corrected; without a system prompt there is nothing for a model
/// to do.
pub fn correct_route(
    config: &CorrectorConfig,
    system_prompt: &str,
    preset_url: Option<String>,
    preset_model: Option<&String>,
) -> (r: CorrectRoute)
    ensures
        system_prompt@.len() == 0 || !has_corrector(*config) ==> r is Preprocess,
        system_prompt@.len() > 0 && has_corrector(*config) ==> match address_of(
            config.base_url@,
            config.provider@ == "ollama"@,
            text::opt(preset_url),
        ) {
            Ok(url) => r matches CorrectRoute::Model(plan) && is_client(
                plan,
                *config,
                url,
                model_of(config.model@, text::seen(preset_model)),
            ),
            Err(_) => r is BuildFailed,
        },
{
    if system_prompt.is_empty() || !config.enabled || text::same(
        config.provider.as_str(),
        "none",
    ) {
        return CorrectRoute::Preprocess;
    }
    match build_corrector(config, preset_url, preset_model) {
        Ok(plan) => CorrectRoute::Model(plan),
        Err(_) => CorrectRoute::BuildFailed,
    }
}

// ---------------------------------------------------------------------------
// What a run is known by
// ---------------------------------------------------------------------------

#[derive(Debug, Clone, PartialEq, Eq)]
pub struct CorrectorRunIdentity {
    pub provider: String,
    pub model: Option<String>,
    pub engine_label: String,
    pub prompt_hash: Option<String>,
    pub prompt_hash_algorithm: Option<String>,
    /// A model runs, at the temperature of the cleanup level.
    pub uses_model: bool,
}

/// A model runs at a cleanup level.
pub open spec fn runs_model(config: CorrectorConfig, level: CleanupLevel) -> bool {
    !(level is Off) && has_corrector(config)
}

/// The label of the engine in a record.
pub open spec fn label_of(
    config: CorrectorConfig,
    level: CleanupLevel,
    model: Seq<char>,
) -> Seq<char> {
    if runs_model(config, level) {
        config.provider@ + ":"@ + model + "|"@ + level.name()
    } else if !(level is Off) {
        "none"@
    } else {
        "cleanup:"@ + level.name()
    }
}

/// What a run is known by: `level` is the cleanup level in effect, and `prompt` the
/// system prompt. Nothing is said of a model where none runs.
pub fn run_identity(
    config: &CorrectorConfig,
    level: CleanupLevel,
    prompt: &str,
    preset_model: Option<&String>,
) -> (r: CorrectorRunIdentity)
    ensures
        ({
            let runs = runs_model(*config, level);
            let model = model_of(config.model@, text::seen(preset_model));
            &&& r.uses_model == runs
            &&& r.provider@ == if runs {
                config.provider@
            } else {
                "none"@
            }
            &&& text::opt(r.model) == if runs {
                Some(model)
            } else {
                None
            }
            &&& r.engine_label@ == label_of(*config, level, model)
            &&& text::opt(r.prompt_hash) == if runs && prompt@.len() > 0 {
                Some(outside::blake3_digest(encode_utf8(prompt@)))
            } else {
                None
            }
            &&& text::opt(r.prompt_hash_algorithm) == if runs && prompt@.len() > 0 {
                Some("blake3"@)
            } else {
                None
            }
        }),
{
    let cleans: bool = match level {
        CleanupLevel::Off => false,
        _ => true,
    };
    let runs: bool = cleans && config.enabled && !text::same(config.provider.as_str(), "none");
    if !runs {
        let label: String = if cleans {
            "none".to_owned()
        } else {
            text::glue("cleanup:", level.as_str())
        };
        return CorrectorRunIdentity {
            provider: "none".to_owned(),
            model: None,
            engine_label: label,
            prompt_hash: None,
            prompt_hash_algorithm: None,
            uses_model: false,
        };
    }
    let model: String = effective_model(config, preset_model);
    let head: String = text::glue3(config.provider.as_str(), ":", model.as_str());
    let engine_label: String = text::glue3(head.as_str(), "|", level.as_str());
    let (prompt_hash, prompt_hash_algorithm): (Option<String>, Option<String>) =
        if prompt.is_empty() {
        (None, None)
    } else {
        (Some(outside::blake3_hex(prompt.as_bytes())), Some("blake3".to_owned()))
    };
    CorrectorRunIdentity {
        provider: config.provider.as_str().to_owned(),
        model: Some(model),
        engine_label,
        prompt_hash,
        prompt_hash_algorithm,
        uses_model: true,
    }
}

#[derive(Debug, Clone, PartialEq, Eq)]
pub struct CorrectorOutcomeIdentity {
    pub engine: String,
    pub fallback: bool,
}

/// The label of the engine that runs.
pub fn engine_label(
    config: &CorrectorConfig,
    level: CleanupLevel,
    preset_model: Option<&String>,
) -> (r: String)
    ensures
        r@ == label_of(*config, level, model_of(config.model@, text::seen(preset_model))),
{
    run_identity(config, level, "", preset_model).engine_label
}

/// What a run that is over is known by: only a model that was to run and did not
/// is a fallback.
pub fn corrector_outcome_identity(identity: &CorrectorRunIdentity, model_applied: bool) -> (r:
    CorrectorOutcomeIdentity)
    ensures
        r.fallback == (identity.provider@ != "none"@ && !model_applied),
        r.engine@ == if r.fallback {
            identity.engine_label@ + ":fallback"@
        } else {
            identity.engine_label@
        },
{
    let fallback: bool = !text::same(identity.provider.as_str(), "none") && !model_applied;
    CorrectorOutcomeIdentity {
        engine: if fallback {
            text::glue(identity.engine_label.as_str(), ":fallback")
        } else {
            identity.engine_label.as_str().to_owned()
        },
        fallback,
    }
}

// ---------------------------------------------------------------------------
// The dictionary of a run
// ---------------------------------------------------------------------------

/// What the corrector is given of the dictionary: terms, and what is replaced by
/// what.
#[derive(Debug, Clone, PartialEq, Eq)]
pub struct DictionaryContext {
    pub terms: Vec<String>,
    pub replacements: Vec<(String, String)>,
}

#[derive(Debug, Clone, PartialEq, Eq)]
pub struct DictionaryRunIdentity {
    pub hash: String,
    pub hash_algorithm: &'static str,
    pub term_count: u32,
    pub replacement_count: u32,
}

/// `count` bytes of a number, the lowest first.
pub open spec fn low_bytes(n: nat, count: nat) -> Seq<u8>
    decreases count,
{
    if count == 0 {
        Seq::empty()
    } else {
        seq![(n % 256) as u8] + low_bytes(n / 256, (count - 1) as nat)
    }
}

/// A text with its length in front.
pub open spec fn framed(s: Seq<char>) -> Seq<u8> {
    low_bytes(encode_utf8(s).len(), 8) + encode_utf8(s)
}

/// The terms, one after the other.
pub open spec fn framed_terms(terms: Seq<Seq<char>>) -> Seq<u8>
    decreases terms.len(),
{
    if terms.len() == 0 {
        Seq::empty()
    } else {
        framed(terms[0]) + framed_terms(terms.skip(1))
    }
}

/// The replacements, one after the other.
pub open spec fn framed_pairs(pairs: Seq<(Seq<char>, Seq<char>)>) -> Seq<u8>
    decreases pairs.len(),
{
    if pairs.len() == 0 {
        Seq::empty()
    } else {
        framed(pairs[0].0) + framed(pairs[0].1) + framed_pairs(pairs.skip(1))
    }
}

/// What stands between the terms and the replacements.
pub open spec fn divider() -> Seq<u8> {
    seq![
        0u8,
        114u8,
        101u8,
        112u8,
        108u8,
        97u8,
        99u8,
        101u8,
        109u8,
        101u8,
        110u8,
        116u8,
        115u8,
        0u8,
    ]
}

/// The bytes by which a dictionary is known.
pub open spec fn dictionary_bytes(
    terms: Seq<Seq<char>>,
    pairs: Seq<(Seq<char>, Seq<char>)>,
) -> Seq<u8> {
    framed_terms(terms) + divider() + framed_pairs(pairs)
}

pub open spec fn pairs_of(v: Seq<(String, String)>) -> Seq<(Seq<char>, Seq<char>)> {
    v.map_values(|p: (String, String)| (p.0@, p.1@))
}

fn push_low_bytes(bytes: &mut Vec<u8>, n: u64)
    ensures
        final(bytes)@ == old(bytes)@ + low_bytes(n as nat, 8),
{
    let ghost start = bytes@;
    let mut rest: u64 = n;
    let mut left: u8 = 8;
    assert(bytes@ + low_bytes(rest as nat, 8) =~= start + low_bytes(n as nat, 8));
    while left > 0
        invariant
            left <= 8,
            bytes@ + low_bytes(rest as nat, left as nat) == start + low_bytes(n as nat, 8),
        decreases left,
    {
        let ghost before = bytes@;
        bytes.push((rest % 256) as u8);
        assert(bytes@ + low_bytes((rest / 256) as nat, (left - 1) as nat) =~= before + low_bytes(
            rest as nat,
            left as nat,
        ));
        rest = rest / 256;
        left = left - 1;
    }
    assert(bytes@ + low_bytes(rest as nat, 0) =~= bytes@);
}

fn push_all(bytes: &mut Vec<u8>, more: &[u8])
    ensures
        final(bytes)@ == old(bytes)@ + more@,
{
    let ghost start = bytes@;
    let mut i: usize = 0;
    while i < more.len()
        invariant
            i <= more@.len(),
            bytes@ == start + more@.take(i as int),
        decreases more@.len() - i,
    {
        bytes.push(more[i]);
        assert(bytes@ =~= start + more@.take(i + 1));
        i = i + 1;
    }
    assert(more@.take(i as int) =~= more@);
}

fn push_framed(bytes: &mut Vec<u8>, s: &str)
    ensures
        final(bytes)@ == old(bytes)@ + framed(s@),
{
    let ghost start = bytes@;
    let raw: &[u8] = s.as_bytes();
    push_low_bytes(bytes, raw.len() as u64);
    push_all(bytes, raw);
    assert(bytes@ =~= start + framed(s@));
}

fn push_divider(bytes: &mut Vec<u8>)
    ensures
        final(bytes)@ == old(bytes)@ + divider(),
{
    let ghost start = bytes@;
    bytes.push(0);
    bytes.push(114);
    bytes.push(101);
    bytes.push(112);
    bytes.push(108);
    bytes.push(97);
    bytes.push(99);
    bytes.push(101);
    bytes.push(109);
    bytes.push(101);
    bytes.push(110);
    bytes.push(116);
    bytes.push(115);
    bytes.push(0);
    assert(bytes@ =~= start + divider());
}

/// The bytes by which a dictionary is known.
pub fn canonical_dictionary(context: &DictionaryContext) -> (r: Vec<u8>)
    ensures
        r@ == dictionary_bytes(text::texts(context.terms@), pairs_of(context.replacements@)),
{
    let ghost terms = text::texts(context.terms@);
    let ghost pairs = pairs_of(context.replacements@);
    let mut bytes: Vec<u8> = Vec::new();
    let mut i: usize = 0;
    assert(terms.skip(0) =~= terms);
    assert(bytes@ + framed_terms(terms) =~= framed_terms(terms));
    while i < context.terms.len()
        invariant
            i <= context.terms@.len(),
            terms == text::texts(context.terms@),
            bytes@ + framed_terms(terms.skip(i as int)) == framed_terms(terms),
        decreases context.terms@.len() - i,
    {
        let ghost before = bytes@;
        let ghost rest = terms.skip(i as int);
        assert(rest[0] == context.terms@[i as int]@);
        assert(rest.skip(1) =~= terms.skip(i + 1));
        push_framed(&mut bytes, context.terms[i].as_str());
        assert(bytes@ + framed_terms(terms.skip(i + 1)) =~= before + framed_terms(rest));
        i = i + 1;
    }
    assert(bytes@ + framed_terms(terms.skip(i as int)) =~= bytes@);
    push_divider(&mut bytes);
    let ghost head = framed_terms(terms) + divider();
    let mut j: usize = 0;
    assert(pairs.skip(0) =~= pairs);
    while j < context.replacements.len()
        invariant
            j <= context.replacements@.len(),
            pairs == pairs_of(context.replacements@),
            bytes@ + framed_pairs(pairs.skip(j as int)) == head + framed_pairs(pairs),
        decreases context.replacements@.len() - j,
    {
        let ghost before = bytes@;
        let ghost rest = pairs.skip(j as int);
        assert(rest[0] == (
            context.replacements@[j as int].0@,
            context.replacements@[j as int].1@,
        ));
        assert(rest.skip(1) =~= pairs.skip(j + 1));
        push_framed(&mut bytes, context.replacements[j].0.as_str());
        push_framed(&mut bytes, context.replacements[j].1.as_str());
        assert(bytes@ + framed_pairs(pairs.skip(j + 1)) =~= before + framed_pairs(rest));
        j = j + 1;
    }
    assert(bytes@ + framed_pairs(pairs.skip(j as int)) =~= bytes@);
    bytes
}

/// What the dictionary of a run is known by.
pub fn dictionary_run_identity(context: &DictionaryContext) -> (r: DictionaryRunIdentity)
    ensures
        r.hash@ == outside::blake3_digest(
            dictionary_bytes(text::texts(context.terms@), pairs_of(context.replacements@)),
        ),
        r.hash_algorithm@ == "blake3"@,
        r.term_count == context.terms@.len() % 0x1_0000_0000,
        r.replacement_count == context.replacements@.len() % 0x1_0000_0000,
{
    let canonical: Vec<u8> = canonical_dictionary(context);
    DictionaryRunIdentity {
        hash: outside::blake3_hex(canonical.as_slice()),
        hash_algorithm: "blake3",
        term_count: (context.terms.len() as u64 % 0x1_0000_0000) as u32,
        replacement_count: (context.replacements.len() as u64 % 0x1_0000_0000) as u32,
    }
}

/// The number that bytes stand for, the lowest first.
spec fn number_of(bytes: Seq<u8>) -> nat
    decreases bytes.len(),
{
    if bytes.len() == 0 {
        0
    } else {
        bytes[0] as nat + 256 * number_of(bytes.skip(1))
    }
}

spec fn limit(count: nat) -> nat
    decreases count,
{
    if count == 0 {
        1
    } else {
        256 * limit((count - 1) as nat)
    }
}

proof fn lemma_low_bytes(n: nat, count: nat)
    requires
        n < limit(count),
    ensures
        low_bytes(n, count).len() == count,
        number_of(low_bytes(n, count)) == n,
    decreases count,
{
    if count > 0 {
        let rest = (count - 1) as nat;
        lemma_low_bytes(n / 256, rest);
        assert(low_bytes(n, count).skip(1) =~= low_bytes(n / 256, rest));
    }
}

/// What the divider is, read as the length of a text.
pub open spec fn divider_length() -> nat {
    0x6563_616C_7065_7200
}

proof fn lemma_divider()
    ensures
        number_of(divider().take(8)) == divider_length(),
        divider_length() < limit(8),
{
    reveal_with_fuel(number_of, 9);
    reveal_with_fuel(limit, 9);
    let d = divider().take(8);
    assert(d.skip(1).skip(1) =~= d.skip(2));
    assert(d.skip(2).skip(1) =~= d.skip(3));
    assert(d.skip(3).skip(1) =~= d.skip(4));
    assert(d.skip(4).skip(1) =~= d.skip(5));
    assert(d.skip(5).skip(1) =~= d.skip(6));
    assert(d.skip(6).skip(1) =~= d.skip(7));
    assert(d.skip(7).skip(1) =~= d.skip(8));
    assert(d.skip(8) =~= Seq::empty());
}

/// A text of a length that a machine can hold.
pub open spec fn fits(s: Seq<char>) -> bool {
    encode_utf8(s).len() < divider_length()
}

/// A framed text is read back from what begins with it.
proof fn lemma_framed(a: Seq<char>, x: Seq<u8>, b: Seq<char>, y: Seq<u8>)
    requires
        fits(a),
        fits(b),
        framed(a) + x == framed(b) + y,
    ensures
        a == b,
        x == y,
{
    lemma_divider();
    let p = encode_utf8(a);
    let q = encode_utf8(b);
    lemma_low_bytes(p.len(), 8);
    lemma_low_bytes(q.len(), 8);
    let whole = framed(a) + x;
    assert(whole.take(8) =~= low_bytes(p.len(), 8));
    assert((framed(b) + y).take(8) =~= low_bytes(q.len(), 8));
    assert(p.len() == q.len());
    let n = p.len() as int;
    assert(whole.subrange(8, 8 + n) =~= p);
    assert((framed(b) + y).subrange(8, 8 + n) =~= q);
    encode_utf8_decode_utf8(a);
    encode_utf8_decode_utf8(b);
    assert(whole.skip(8 + n) =~= x);
    assert((framed(b) + y).skip(8 + n) =~= y);
}

proof fn lemma_framed_is_no_divider(a: Seq<char>, x: Seq<u8>, y: Seq<u8>)
    requires
        fits(a),
    ensures
        framed(a) + x != divider() + y,
{
    lemma_divider();
    lemma_low_bytes(encode_utf8(a).len(), 8);
    if framed(a) + x == divider() + y {
        assert((framed(a) + x).take(8) =~= low_bytes(encode_utf8(a).len(), 8));
        assert((divider() + y).take(8) =~= divider().take(8));
    }
}

proof fn lemma_pairs(a: Seq<(Seq<char>, Seq<char>)>, b: Seq<(Seq<char>, Seq<char>)>)
    requires
        forall|i: int| 0 <= i < a.len() ==> fits((#[trigger] a[i]).0) && fits(a[i].1),
        forall|i: int| 0 <= i < b.len() ==> fits((#[trigger] b[i]).0) && fits(b[i].1),
        framed_pairs(a) == framed_pairs(b),
    ensures
        a == b,
    decreases a.len(),
{
    if a.len() == 0 && b.len() == 0 {
        assert(a =~= b);
    } else if a.len() == 0 || b.len() == 0 {
        let c = if a.len() == 0 {
            b
        } else {
            a
        };
        lemma_divider();
        lemma_low_bytes(encode_utf8(c[0].0).len(), 8);
        assert(framed_pairs(c).len() >= 8);
    } else {
        let x = framed(a[0].1) + framed_pairs(a.skip(1));
        let y = framed(b[0].1) + framed_pairs(b.skip(1));
        assert(framed_pairs(a) =~= framed(a[0].0) + x);
        assert(framed_pairs(b) =~= framed(b[0].0) + y);
        lemma_framed(a[0].0, x, b[0].0, y);
        lemma_framed(a[0].1, framed_pairs(a.skip(1)), b[0].1, framed_pairs(b.skip(1)));
        lemma_pairs(a.skip(1), b.skip(1));
        assert(a =~= seq![a[0]] + a.skip(1));
        assert(b =~= seq![b[0]] + b.skip(1));
    }
}

proof fn lemma_terms(
    a: Seq<Seq<char>>,
    p: Seq<(Seq<char>, Seq<char>)>,
    b: Seq<Seq<char>>,
    q: Seq<(Seq<char>, Seq<char>)>,
)
    requires
        forall|i: int| 0 <= i < a.len() ==> fits(#[trigger] a[i]),
        forall|i: int| 0 <= i < b.len() ==> fits(#[trigger] b[i]),
        dictionary_bytes(a, p) == dictionary_bytes(b, q),
    ensures
        a == b,
        framed_pairs(p) == framed_pairs(q),
    decreases a.len(),
{
    let x = divider() + framed_pairs(p);
    let y = divider() + framed_pairs(q);
    assert(dictionary_bytes(a, p) =~= framed_terms(a) + x);
    assert(dictionary_bytes(b, q) =~= framed_terms(b) + y);
    if a.len() == 0 && b.len() == 0 {
        assert(a =~= b);
        assert(framed_terms(a) + x =~= x);
        assert(framed_terms(b) + y =~= y);
        assert(framed_pairs(p) =~= x.skip(14));
        assert(framed_pairs(q) =~= y.skip(14));
    } else if a.len() == 0 {
        assert(framed_terms(a) + x =~= divider() + framed_pairs(p));
        assert(framed_terms(b) + y =~= framed(b[0]) + (framed_terms(b.skip(1)) + y));
        lemma_framed_is_no_divider(b[0], framed_terms(b.skip(1)) + y, framed_pairs(p));
    } else if b.len() == 0 {
        assert(framed_terms(b) + y =~= divider() + framed_pairs(q));
        assert(framed_terms(a) + x =~= framed(a[0]) + (framed_terms(a.skip(1)) + x));
        lemma_framed_is_no_divider(a[0], framed_terms(a.skip(1)) + x, framed_pairs(q));
    } else {
        let ra = framed_terms(a.skip(1)) + x;
        let rb = framed_terms(b.skip(1)) + y;
        assert(framed_terms(a) + x =~= framed(a[0]) + ra);
        assert(framed_terms(b) + y =~= framed(b[0]) + rb);
        lemma_framed(a[0], ra, b[0], rb);
        assert(dictionary_bytes(a.skip(1), p) =~= ra);
        assert(dictionary_bytes(b.skip(1), q) =~= rb);
        lemma_terms(a.skip(1), p, b.skip(1), q);
        assert(a =~= seq![a[0]] + a.skip(1));
        assert(b =~= seq![b[0]] + b.skip(1));
    }
}

/// The bytes by which a dictionary is known tell dictionaries apart: two are the
/// same only where the terms and the replacements are.
pub proof fn dictionary_bytes_are_one_to_one(
    terms1: Seq<Seq<char>>,
    pairs1: Seq<(Seq<char>, Seq<char>)>,
    terms2: Seq<Seq<char>>,
    pairs2: Seq<(Seq<char>, Seq<char>)>,
)
    requires
        forall|i: int| 0 <= i < terms1.len() ==> fits(#[trigger] terms1[i]),
        forall|i: int| 0 <= i < terms2.len() ==> fits(#[trigger] terms2[i]),
        forall|i: int|
            0 <= i < pairs1.len() ==> fits((#[trigger] pairs1[i]).0) && fits(pairs1[i].1),
        forall|i: int|
            0 <= i < pairs2.len() ==> fits((#[trigger] pairs2[i]).0) && fits(pairs2[i].1),
        dictionary_bytes(terms1, pairs1) == dictionary_bytes(terms2, pairs2),
    ensures
        terms1 == terms2,
        pairs1 == pairs2,
{
    lemma_terms(terms1, pairs1, terms2, pairs2);
    lemma_pairs(pairs1, pairs2);
}

// ---------------------------------------------------------------------------
// Laws of the corrector
// ---------------------------------------------------------------------------

/// The model that runs is the configured one, or that of the preset, or the shipped one.
pub proof fn model_is_the_configured_one(configured: Seq<char>, preset: Seq<char>)
    ensures
        text::trim(configured).len() > 0 ==> model_of(configured, Some(preset)) == configured
            && model_of(configured, None) == configured,
        text::trim(configured).len() == 0 && preset.len() > 0 ==> model_of(configured, Some(preset))
            == preset,
        text::trim(configured).len() == 0 ==> model_of(configured, None) == "qwen2.5:7b"@
            && model_of(configured, Some(Seq::empty())) == "qwen2.5:7b"@,
{
}

/// A corrector is there where it is switched on and a provider is chosen; a model runs
/// there unless cleanup is off.
pub proof fn model_runs_where_it_is_configured(config: CorrectorConfig, level: CleanupLevel)
    ensures
        has_corrector(config) <==> config.enabled && config.provider@ != "none"@,
        runs_model(config, level) <==> config.enabled && config.provider@ != "none"@ && !(level
            is Off),
{
}

/// The address of a corrector is the configured one, or Ollama's on this machine, or that
/// of the preset; without any there is none.
pub proof fn address_is_the_configured_one(base_url: Seq<char>, preset: Seq<char>, ollama: bool)
    ensures
        text::trim(base_url).len() > 0 ==> address_of(base_url, ollama, Some(preset)) == Ok::<
            Seq<char>,
            Seq<char>,
        >(base_url) && address_of(base_url, ollama, None) == Ok::<Seq<char>, Seq<char>>(base_url),
        text::trim(base_url).len() == 0 ==> address_of(base_url, true, Some(preset)) == Ok::<
            Seq<char>,
            Seq<char>,
        >("http://127.0.0.1:11434/v1"@),
        text::trim(base_url).len() == 0 && preset.len() > 0 ==> address_of(
            base_url,
            false,
            Some(preset),
        ) == Ok::<Seq<char>, Seq<char>>(preset),
        text::trim(base_url).len() == 0 ==> address_of(base_url, false, None) == Err::<
            Seq<char>,
            Seq<char>,
        >("base_url required for online corrector"@),
        text::trim(base_url).len() == 0 ==> address_of(base_url, false, Some(Seq::empty())) is Err,
{
}

/// A client has the configured key, the given address and model, and waits five seconds at
/// least.
pub proof fn client_has_its_settings(
    plan: CorrectorPlan,
    config: CorrectorConfig,
    base_url: Seq<char>,
    model: Seq<char>,
)
    requires
        is_client(plan, config, base_url, model),
    ensures
        plan matches CorrectorPlan::Client { base_url: url, api_key, model: name, ollama, timeout_secs }
            && url@ == base_url && api_key@ == config.api_key@ && name@ == model && (ollama <==> config.provider@
            == "ollama"@) && timeout_secs >= 5 && (config.timeout_secs >= 5 ==> timeout_secs
            == config.timeout_secs) && (config.timeout_secs < 5 ==> timeout_secs == 5),
{
}

/// A record names the provider, the model and the cleanup where a model runs; nothing
/// where none is configured; and the cleanup alone where that is off.
pub proof fn record_names_what_ran(config: CorrectorConfig, level: CleanupLevel, model: Seq<char>)
    ensures
        config.enabled && config.provider@ != "none"@ && !(level is Off) ==> label_of(
            config,
            level,
            model,
        ) == config.provider@ + ":"@ + model + "|"@ + level.name(),
        !(level is Off) && !(config.enabled && config.provider@ != "none"@) ==> label_of(
            config,
            level,
            model,
        ) == "none"@,
        level is Off ==> label_of(config, level, model) == "cleanup:"@ + "none"@,
{
}

/// A number is written in bytes, the lowest first.
pub proof fn lowest_byte_is_first(n: nat, count: nat)
    requires
        count > 0,
    ensures
        low_bytes(n, count).len() == count,
        low_bytes(n, count)[0] == n % 256,
        low_bytes(n, count).skip(1) == low_bytes(n / 256, (count - 1) as nat),
        low_bytes(n, 0).len() == 0,
    decreases count,
{
    if count > 1 {
        lowest_byte_is_first(n / 256, (count - 1) as nat);
    }
    assert(low_bytes(n / 256, 0).len() == 0);
    assert(low_bytes(n, count).skip(1) =~= low_bytes(n / 256, (count - 1) as nat));
}

/// A text is written behind its length in eight bytes; the terms come first and the
/// replacements behind the divider.
pub proof fn dictionary_is_written_term_by_term(
    s: Seq<char>,
    terms: Seq<Seq<char>>,
    from: Seq<char>,
    to: Seq<char>,
    pairs: Seq<(Seq<char>, Seq<char>)>,
)
    ensures
        framed(s).len() == encode_utf8(s).len() + 8,
        framed(s).subrange(8, framed(s).len() as int) == encode_utf8(s),
        framed(s).subrange(0, 8) == low_bytes(encode_utf8(s).len(), 8),
        framed_terms(seq![s] + terms) == framed(s) + framed_terms(terms),
        framed_pairs(seq![(from, to)] + pairs) == framed(from) + framed(to) + framed_pairs(pairs),
        dictionary_bytes(terms, pairs) == framed_terms(terms) + divider() + framed_pairs(pairs),
        dictionary_bytes(Seq::empty(), Seq::empty()) == divider(),
        divider().len() == 14 && divider()[0] == 0 && divider()[13] == 0,
{
    lowest_byte_is_first(encode_utf8(s).len(), 8);
    assert(framed(s).subrange(8, framed(s).len() as int) =~= encode_utf8(s));
    assert(framed(s).subrange(0, 8) =~= low_bytes(encode_utf8(s).len(), 8));
    assert((seq![s] + terms).skip(1) =~= terms);
    assert((seq![(from, to)] + pairs).skip(1) =~= pairs);
    assert(dictionary_bytes(Seq::empty(), Seq::empty()) =~= divider());
}

/// Replacements are seen as they are.
pub proof fn replacements_are_seen_as_they_are(v: Seq<(String, String)>, i: int)
    ensures
        pairs_of(v).len() == v.len(),
        0 <= i < v.len() ==> pairs_of(v)[i] == (v[i].0@, v[i].1@),
{
}

} // verus!
