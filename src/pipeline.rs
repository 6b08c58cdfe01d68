//! The generation loop over a loaded model: encode the prompt, call the
//! inference engine one step at a time, sample, re-decode, and hand the new
//! text to a sink.
use crate::stream::{delta_of, delta_text, emitted_after};
use crate::generation::{max_tokens_or_default, DEFAULT_MAX_TOKENS, GenerationError, GenerationSession, Phase, Stage, StopTokens};
use candle_core::{Device, Tensor};
use candle_transformers::generation::LogitsProcessor;
use candle_transformers::models::quantized_llama::ModelWeights as LlamaWeights;
use candle_transformers::models::quantized_phi::ModelWeights as PhiWeights;
use crate::wire::InferenceResponse;
use tokenizers::Tokenizer;
use vstd::prelude::*;

verus! {

/// The tokenizer of the `tokenizers` crate, carried through opaquely.
#[verifier::external_type_specification]
#[verifier::external_body]
pub struct ExTokenizer(Tokenizer);

/// candle's `Tensor`, carried through opaquely.
#[verifier::external_type_specification]
#[verifier::external_body]
pub struct ExTensor(Tensor);

/// candle's compute `Device`, carried through opaquely.
#[verifier::external_type_specification]
#[verifier::external_body]
pub struct ExDevice(Device);

/// candle's `Error`, the failure of a tensor operation or a forward pass.
#[verifier::external_type_specification]
#[verifier::external_body]
pub struct ExEngineError(candle_core::Error);

/// candle-transformers' sampler, which holds its seeded random state.
#[verifier::external_type_specification]
#[verifier::external_body]
pub struct ExLogitsProcessor(LogitsProcessor);

/// candle-transformers' quantized Llama weights, also used for Mistral.
#[verifier::external_type_specification]
#[verifier::external_body]
pub struct ExLlamaWeights(LlamaWeights);

/// candle-transformers' quantized Phi weights.
#[verifier::external_type_specification]
#[verifier::external_body]
pub struct ExPhiWeights(PhiWeights);

/// Relies on tokenizers' `Tokenizer::encode` (special tokens added) and
/// `Encoding::get_ids`: the prompt's token ids, or the tokenizer's error.
#[verifier::external_body]
fn encode_prompt(tokenizer: &Tokenizer, prompt: &str) -> (r: Result<Vec<u32>, String>) {
    tokenizer.encode(prompt, true).map(|enc| enc.get_ids().to_vec()).map_err(|e| e.to_string())
}

/// Relies on tokenizers' `Tokenizer::decode` (special tokens skipped): the
/// text of `ids`, or the tokenizer's error.
#[verifier::external_body]
fn decode_ids(tokenizer: &Tokenizer, ids: &Vec<u32>) -> (r: Result<String, String>) {
    tokenizer.decode(ids, true).map_err(|e| e.to_string())
}

/// Relies on tokenizers' `Tokenizer::token_to_id`: the id of a token, if the
/// vocabulary has it.
#[verifier::external_body]
fn token_to_id(tokenizer: &Tokenizer, token: &str) -> (r: Option<u32>) {
    tokenizer.token_to_id(token)
}

/// Relies on candle's `Tensor::new` and `Tensor::unsqueeze`, which turn the
/// ids from `start` on into a batch of one on `device`, and on
/// candle-transformers' quantized Phi `ModelWeights::forward`: the
/// next-token scores for that batch placed at position `start`. The batch
/// is never empty.
#[verifier::external_body]
fn forward_phi(m: &mut PhiWeights, ids: &Vec<u32>, start: usize, device: &Device) -> (r: Result<
    Tensor,
    candle_core::Error,
>)
    requires
        start < ids@.len(),
{
    Tensor::new(&ids[start..], device).and_then(|t| t.unsqueeze(0)).and_then(|x| m.forward(&x, start))
}

/// Relies on candle's `Tensor::new` and `Tensor::unsqueeze`, which turn the
/// ids from `start` on into a batch of one on `device`, and on
/// candle-transformers' quantized Llama `ModelWeights::forward`: the
/// next-token scores for that batch placed at position `start`. The batch
/// is never empty.
#[verifier::external_body]
fn forward_llama(m: &mut LlamaWeights, ids: &Vec<u32>, start: usize, device: &Device) -> (r: Result<
    Tensor,
    candle_core::Error,
>)
    requires
        start < ids@.len(),
{
    Tensor::new(&ids[start..], device).and_then(|t| t.unsqueeze(0)).and_then(|x| m.forward(&x, start))
}

/// Relies on candle's `Tensor::squeeze`: the tensor without its leading
/// dimension where that dimension has size one.
#[verifier::external_body]
fn squeeze_front(t: &Tensor) -> (r: Result<Tensor, candle_core::Error>) {
    t.squeeze(0)
}

/// Relies on candle-transformers' `LogitsProcessor::sample`: a token id drawn
/// from the scores with the processor's temperature, top-p and seeded state.
#[verifier::external_body]
fn sample_token(sampler: &mut LogitsProcessor, logits: &Tensor) -> (r: Result<u32, candle_core::Error>) {
    sampler.sample(logits)
}

/// Relies on the `Display` impl of candle's `Error`: its message.
#[verifier::external_body]
fn engine_error_text(e: &candle_core::Error) -> (r: String) {
    e.to_string()
}

/// Relies on `SystemTime::elapsed` of std, taken from the Unix epoch: the
/// milliseconds since then, or `None` where the clock stands before it.
#[verifier::external_body]
fn epoch_millis() -> (r: Option<u128>) {
    std::time::UNIX_EPOCH.elapsed().ok().map(|d| d.as_millis())
}

/// The seed for a clock reading of `ms` milliseconds since the Unix epoch:
/// its low 64 bits, or 0 where the clock stands before the epoch.
pub fn seed_from_millis(ms: Option<u128>) -> (r: u64)
    ensures
        r == match ms {
            Some(m) => m as u64,
            None => 0u64,
        },
{
    match ms {
        Some(m) => m as u64,
        None => 0,
    }
}

/// A sampling seed taken from the wall clock, as [`seed_from_millis`] makes
/// it from the milliseconds since the Unix epoch. Not reproducible, by
/// design.
pub fn derive_seed_from_time() -> (r: u64) {
    seed_from_millis(epoch_millis())
}

/// The seed a request gives, or one taken from the clock.
pub fn resolve_seed(seed: Option<u64>) -> (r: u64)
    ensures
        seed matches Some(s) ==> r == s,
{
    match seed {
        Some(s) => s,
        None => derive_seed_from_time(),
    }
}

/// The quantized weights of a model, by architecture.
pub enum ModelEnum {
    Phi(PhiWeights),
    Mistral(LlamaWeights),
    Llama3(LlamaWeights),
}

/// A model ready for generation: weights, tokenizer and compute device.
pub struct LoadedModel {
    pub model: ModelEnum,
    pub tokenizer: Tokenizer,
    pub device: Device,
}

/// One forward pass of whichever architecture `model` holds, over the ids
/// from `start` on.
fn forward(model: &mut ModelEnum, ids: &Vec<u32>, start: usize, device: &Device) -> (r: Result<
    Tensor,
    candle_core::Error,
>)
    requires
        start < ids@.len(),
{
    match model {
        ModelEnum::Phi(m) => forward_phi(m, ids, start, device),
        ModelEnum::Mistral(m) => forward_llama(m, ids, start, device),
        ModelEnum::Llama3(m) => forward_llama(m, ids, start, device),
    }
}

/// The stop set of a tokenizer: its `</s>` token, if it has one.
pub fn stop_token_ids(tokenizer: &Tokenizer) -> (r: StopTokens) {
    StopTokens::from_eos(token_to_id(tokenizer, "</s>"))
}

/// Where generated text goes, one delta at a time.
pub trait DeltaSink {
    /// Hands one delta to the consumer; false once the consumer is gone.
    fn emit(&mut self, delta: String) -> bool;
}

fn engine_failure(e: candle_core::Error) -> (r: GenerationError)
    ensures
        r is Engine,
{
    GenerationError::Engine(engine_error_text(&e))
}

/// Starts a generation of at most `max_tokens` tokens (1024 where none is
/// given): encodes the prompt, decodes it once for the baseline, which is
/// never emitted, and looks up the stop set.
pub fn start_generation(loaded: &LoadedModel, prompt: &str, max_tokens: Option<usize>) -> (r: Result<
    GenerationSession,
    GenerationError,
>)
    ensures
        r matches Ok(s) ==> {
            &&& s.wf()
            &&& s.stage() == Stage::Token
            &&& s.generated().len() == 0
            &&& s.decodes().len() == 0
            &&& s.emitted().len() == 0
            &&& s.max_tokens() == match max_tokens {
                Some(n) => n,
                None => DEFAULT_MAX_TOKENS,
            }
            &&& s.phase() == if s.max_tokens() == 0 {
                Phase::TokenLimit
            } else {
                Phase::Running
            }
        },
{
    let max = max_tokens_or_default(max_tokens);
    let ids = match encode_prompt(&loaded.tokenizer, prompt) {
        Ok(v) => v,
        Err(e) => {
            return Err(GenerationError::Tokenization(e));
        },
    };
    let baseline = match decode_ids(&loaded.tokenizer, &ids) {
        Ok(t) => t,
        Err(e) => {
            return Err(GenerationError::Tokenization(e));
        },
    };
    let stops = stop_token_ids(&loaded.tokenizer);
    GenerationSession::new(ids, baseline.as_str(), max, stops)
}

/// One step of a running generation: the engine is given the whole prompt
/// on the first step and the latest token alone afterwards, a token is
/// sampled and appended, and the whole sequence is decoded again. Returns
/// the text beyond what was emitted before, if any; the caller hands it to
/// its consumer and settles the step with whether it arrived.
pub fn generate_step(
    loaded: &mut LoadedModel,
    sampler: &mut LogitsProcessor,
    session: &mut GenerationSession,
) -> (r: Result<Option<String>, GenerationError>)
    requires
        old(session).wf(),
        old(session).phase() == Phase::Running,
        old(session).stage() == Stage::Token,
    ensures
        r is Ok ==> ({
            let prev = emitted_after(old(session).baseline_len(), old(session).decodes());
            let d = final(session).decodes().last();
            &&& final(session).wf()
            &&& final(session).phase() == Phase::Running
            &&& final(session).stage() == Stage::Verdict
            &&& final(session).generated().len() == old(session).generated().len() + 1
            &&& final(session).generated().drop_last() == old(session).generated()
            &&& final(session).decodes() == old(session).decodes().push(d)
            &&& final(session).emitted() == old(session).emitted() + delta_of(prev, d)
            &&& final(session).max_tokens() == old(session).max_tokens()
            &&& final(session).stops() == old(session).stops()
            &&& final(session).baseline_len() == old(session).baseline_len()
            &&& match r->Ok_0 {
                Some(delta) => d.len() > prev && delta@ == delta_of(prev, d),
                None => d.len() <= prev && delta_of(prev, d).len() == 0,
            }
        }),
{
    proof {
        session.lemma_outcome();
    }
    let start = session.context_start();
    let scores = match forward(&mut loaded.model, session.token_ids(), start, &loaded.device) {
        Ok(t) => t,
        Err(e) => {
            return Err(engine_failure(e));
        },
    };
    let scores = match squeeze_front(&scores) {
        Ok(t) => t,
        Err(e) => {
            return Err(engine_failure(e));
        },
    };
    let scores = match squeeze_front(&scores) {
        Ok(t) => t,
        Err(e) => {
            return Err(engine_failure(e));
        },
    };
    let next = match sample_token(sampler, &scores) {
        Ok(t) => t,
        Err(e) => {
            return Err(engine_failure(e));
        },
    };
    let ghost g0 = session.generated();
    let ghost d0 = session.decodes();
    let ghost e0 = session.emitted();
    session.push_token(next);
    let text = match decode_ids(&loaded.tokenizer, session.token_ids()) {
        Ok(t) => t,
        Err(e) => {
            return Err(GenerationError::Tokenization(e));
        },
    };
    let r = session.observe(text.as_str());
    proof {
        let d1 = session.decodes();
        assert(d1.drop_last() =~= d0);
        assert(d1.last() == text@);
        assert(session.generated().drop_last() =~= g0);
        assert(session.emitted() == delta_text(session.baseline_len(), d1));
    }
    Ok(r)
}

/// Runs one generation of at most `max_tokens` tokens (1024 where none is
/// given) on `loaded`, handing each new piece of text to `sink`.
///
/// The steps are those of [`generate_step`]. The loop ends at a stop token,
/// at the limit, or at once when the sink reports its consumer gone; the
/// finished session tells which.
pub fn run_inference<S: DeltaSink>(
    loaded: &mut LoadedModel,
    prompt: &str,
    max_tokens: Option<usize>,
    sampler: &mut LogitsProcessor,
    sink: &mut S,
) -> (r: Result<GenerationSession, GenerationError>)
    ensures
        r matches Ok(s) ==> {
            &&& s.wf()
            &&& s.phase() != Phase::Running
            &&& s.stage() == Stage::Token
            &&& s.max_tokens() == match max_tokens {
                Some(n) => n,
                None => DEFAULT_MAX_TOKENS,
            }
            &&& s.generated().len() <= s.max_tokens()
        },
{
    let mut session = match start_generation(loaded, prompt, max_tokens) {
        Ok(s) => s,
        Err(e) => {
            return Err(e);
        },
    };
    let ghost max = session.max_tokens();
    while session.is_running()
        invariant
            session.wf(),
            session.stage() == Stage::Token,
            session.max_tokens() == max,
        decreases max - session.generated().len(),
    {
        proof {
            session.lemma_bounds();
        }
        let delta = match generate_step(loaded, sampler, &mut session) {
            Ok(d) => d,
            Err(e) => {
                return Err(e);
            },
        };
        let delivered = match delta {
            Some(d) => sink.emit(d),
            None => true,
        };
        session.settle(delivered);
        proof {
            session.lemma_bounds();
        }
    }
    proof {
        session.lemma_bounds();
    }
    Ok(session)
}

/// The one-piece response of a finished generation: all the text it
/// emitted and the number of tokens it generated.
pub fn response_of(session: &GenerationSession) -> (r: InferenceResponse)
    requires
        session.wf(),
    ensures
        r.text@ == session.emitted(),
        r.tokens_generated == session.generated().len(),
{
    InferenceResponse { text: session.text().clone(), tokens_generated: session.tokens_generated() }
}

} // verus!
