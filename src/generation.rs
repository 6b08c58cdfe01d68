//! The decisions of the token-by-token generation loop, apart from the calls
//! into the inference engine and the tokenizer that feed it.
use crate::stream::{delta_of, delta_text, emitted_after, DeltaTracker};
use vstd::prelude::*;

verus! {

/// Tokens generated when a request gives no limit.
pub const DEFAULT_MAX_TOKENS: usize = 1024;

/// End of sequence where the tokenizer has no `</s>` token.
pub const FALLBACK_EOS: u32 = 2;

/// GPT-2's end of text.
pub const GPT2_EOS: u32 = 50256;

/// Llama 3's end of turn.
pub const LLAMA3_EOT: u32 = 128001;

/// Llama 3's end of message.
pub const LLAMA3_EOM: u32 = 128009;

/// The token limit of a request: the one it gives, or [`DEFAULT_MAX_TOKENS`].
pub fn max_tokens_or_default(requested: Option<usize>) -> (r: usize)
    ensures
        r == match requested {
            Some(n) => n,
            None => DEFAULT_MAX_TOKENS,
        },
{
    match requested {
        Some(n) => n,
        None => DEFAULT_MAX_TOKENS,
    }
}

/// Errors that end a generation.
#[derive(Debug, Clone, PartialEq, Eq)]
pub enum GenerationError {
    /// Encoding the prompt or decoding the output failed.
    Tokenization(String),
    /// The inference engine failed.
    Engine(String),
}

/// The token ids that end a generation.
#[derive(Debug, Clone, Copy, PartialEq, Eq, Structural)]
pub struct StopTokens {
    /// The tokenizer's own end of sequence.
    pub eos: u32,
}

impl StopTokens {
    /// Whether `id` ends a generation.
    pub open spec fn stops(&self, id: u32) -> bool {
        id == self.eos || id == GPT2_EOS || id == LLAMA3_EOT || id == LLAMA3_EOM
    }

    /// The stop set with the tokenizer's end of sequence, or [`FALLBACK_EOS`]
    /// where it has none.
    pub fn from_eos(eos: Option<u32>) -> (r: Self)
        ensures
            r.eos == match eos {
                Some(e) => e,
                None => FALLBACK_EOS,
            },
    {
        match eos {
            Some(e) => StopTokens { eos: e },
            None => StopTokens { eos: FALLBACK_EOS },
        }
    }

    /// Whether `id` ends a generation.
    pub fn contains(&self, id: u32) -> (r: bool)
        ensures
            r == self.stops(id),
    {
        id == self.eos || id == GPT2_EOS || id == LLAMA3_EOT || id == LLAMA3_EOM
    }
}

/// Where a generation stands.
#[derive(Debug, Clone, Copy, PartialEq, Eq, Structural)]
pub enum Phase {
    /// More tokens may come.
    Running,
    /// A stop token was produced.
    StopToken,
    /// The token limit was reached.
    TokenLimit,
    /// The consumer went away; a normal end, not an error.
    Cancelled,
}

/// What a running generation waits for next.
#[derive(Debug, Clone, Copy, PartialEq, Eq, Structural)]
pub enum Stage {
    /// The next sampled token.
    Token,
    /// The full decode of the sequence with that token.
    Decode,
    /// Whether the delta, if any, reached the consumer.
    Verdict,
}

/// One request's generation: the running token sequence, how much text was
/// emitted, and why it ended.
pub struct GenerationSession {
    tokens: Vec<u32>,
    prompt_len: usize,
    max_tokens: usize,
    stops: StopTokens,
    tracker: DeltaTracker,
    phase: Phase,
    stage: Stage,
    baseline_len: Ghost<nat>,
    decodes: Ghost<Seq<Seq<char>>>,
    text: String,
}

impl GenerationSession {
    /// The prompt tokens followed by the generated ones.
    pub closed spec fn tokens(&self) -> Seq<u32> {
        self.tokens@
    }

    /// The number of prompt tokens.
    pub closed spec fn prompt_len(&self) -> nat {
        self.prompt_len as nat
    }

    /// The generated tokens.
    pub open spec fn generated(&self) -> Seq<u32> {
        self.tokens().subrange(self.prompt_len() as int, self.tokens().len() as int)
    }

    /// The token limit.
    pub closed spec fn max_tokens(&self) -> nat {
        self.max_tokens as nat
    }

    /// The stop set.
    pub closed spec fn stops(&self) -> StopTokens {
        self.stops
    }

    /// Where the generation stands.
    pub closed spec fn phase(&self) -> Phase {
        self.phase
    }

    /// What a running generation waits for next.
    pub closed spec fn stage(&self) -> Stage {
        self.stage
    }

    /// The length of the decoded prompt, which is never emitted.
    pub closed spec fn baseline_len(&self) -> nat {
        self.baseline_len@
    }

    /// The full decodes observed, one per generated token.
    pub closed spec fn decodes(&self) -> Seq<Seq<char>> {
        self.decodes@
    }

    /// The deltas emitted so far, put together.
    pub closed spec fn emitted(&self) -> Seq<char> {
        self.text@
    }

    /// None of the first `end` generated tokens is a stop token.
    pub open spec fn no_stop_before(&self, end: int) -> bool {
        forall|k: int| 0 <= k < end ==> !self.stops().stops(#[trigger] self.generated()[k])
    }

    /// The session's invariant.
    pub closed spec fn wf(&self) -> bool {
        let steps = self.generated().len() as int;
        &&& 1 <= self.prompt_len <= self.tokens@.len()
        &&& steps <= self.max_tokens
        &&& self.tracker.emitted() == emitted_after(self.baseline_len@, self.decodes@)
        &&& self.text@ == delta_text(self.baseline_len@, self.decodes@)
        &&& match self.stage {
            Stage::Token => self.decodes@.len() == steps,
            Stage::Decode => steps >= 1 && self.decodes@.len() == steps - 1,
            Stage::Verdict => steps >= 1 && self.decodes@.len() == steps,
        }
        &&& self.phase != Phase::Running ==> self.stage == Stage::Token
        &&& match self.phase {
            Phase::Running => match self.stage {
                Stage::Token => self.no_stop_before(steps) && steps < self.max_tokens,
                _ => self.no_stop_before(steps - 1),
            },
            Phase::StopToken => steps >= 1 && self.stops.stops(self.generated().last())
                && self.no_stop_before(steps - 1),
            Phase::TokenLimit => steps == self.max_tokens && self.no_stop_before(steps),
            Phase::Cancelled => steps >= 1 && self.no_stop_before(steps - 1),
        }
    }

    /// Starts a generation from the encoded prompt and its decode, which
    /// sets the baseline. With a limit of 0 it is over before it starts.
    pub fn new(prompt_ids: Vec<u32>, baseline: &str, max_tokens: usize, stops: StopTokens) -> (r:
        Result<Self, GenerationError>)
        ensures
            prompt_ids@.len() == 0 <==> r is Err,
            r matches Ok(s) ==> {
                &&& s.wf()
                &&& s.tokens() == prompt_ids@
                &&& s.generated().len() == 0
                &&& s.max_tokens() == max_tokens
                &&& s.stops() == stops
                &&& s.baseline_len() == baseline@.len()
                &&& s.decodes().len() == 0
                &&& s.emitted().len() == 0
                &&& s.stage() == Stage::Token
                &&& s.phase() == if max_tokens == 0 {
                    Phase::TokenLimit
                } else {
                    Phase::Running
                }
            },
    {
        if prompt_ids.len() == 0 {
            return Err(GenerationError::Tokenization("the prompt encodes to no tokens".to_owned()));
        }
        let prompt_len = prompt_ids.len();
        let phase = if max_tokens == 0 {
            Phase::TokenLimit
        } else {
            Phase::Running
        };
        let s = GenerationSession {
            tokens: prompt_ids,
            prompt_len,
            max_tokens,
            stops,
            tracker: DeltaTracker::new(baseline),
            phase,
            stage: Stage::Token,
            baseline_len: Ghost(baseline@.len()),
            decodes: Ghost(Seq::empty()),
            text: String::new(),
        };
        proof {
            assert(s.generated().len() == 0);
        }
        Ok(s)
    }

    /// Appends the token the engine produced.
    pub fn push_token(&mut self, token: u32)
        requires
            old(self).wf(),
            old(self).phase() == Phase::Running,
            old(self).stage() == Stage::Token,
        ensures
            final(self).wf(),
            final(self).tokens() == old(self).tokens().push(token),
            final(self).generated() == old(self).generated().push(token),
            final(self).stage() == Stage::Decode,
            final(self).phase() == Phase::Running,
            final(self).decodes() == old(self).decodes(),
            final(self).emitted() == old(self).emitted(),
            final(self).prompt_len() == old(self).prompt_len(),
            final(self).max_tokens() == old(self).max_tokens(),
            final(self).stops() == old(self).stops(),
            final(self).baseline_len() == old(self).baseline_len(),
    {
        let ghost g0 = self.generated();
        self.tokens.push(token);
        self.stage = Stage::Decode;
        proof {
            assert(self.generated() =~= g0.push(token));
            assert forall|k: int| 0 <= k < g0.len() implies self.generated()[k] == g0[k] by {}
        }
    }

    /// Observes the full decode of the running sequence and returns the
    /// text beyond what was emitted before, if any.
    pub fn observe(&mut self, decoded: &str) -> (r: Option<String>)
        requires
            old(self).wf(),
            old(self).phase() == Phase::Running,
            old(self).stage() == Stage::Decode,
        ensures
            final(self).wf(),
            final(self).decodes() == old(self).decodes().push(decoded@),
            final(self).emitted() == delta_text(final(self).baseline_len(), final(self).decodes()),
            final(self).stage() == Stage::Verdict,
            final(self).phase() == Phase::Running,
            final(self).tokens() == old(self).tokens(),
            final(self).prompt_len() == old(self).prompt_len(),
            final(self).max_tokens() == old(self).max_tokens(),
            final(self).stops() == old(self).stops(),
            final(self).baseline_len() == old(self).baseline_len(),
            ({
                let prev = emitted_after(old(self).baseline_len(), old(self).decodes());
                match r {
                    Some(d) => decoded@.len() > prev && d@ == delta_of(prev, decoded@),
                    None => decoded@.len() <= prev,
                }
            }),
    {
        let ghost d0 = self.decodes@;
        let ghost d1 = d0.push(decoded@);
        let r = self.tracker.observe(decoded);
        proof {
            assert(d1.drop_last() =~= d0);
            assert(seq![decoded@].drop_last() =~= Seq::<Seq<char>>::empty());
            assert(seq![decoded@].last() == decoded@);
            assert(d1.last() == decoded@);
            let prev = emitted_after(self.baseline_len@, d0);
            assert(emitted_after(prev, Seq::<Seq<char>>::empty()) == prev);
            assert(emitted_after(self.baseline_len@, d1) == emitted_after(prev, seq![decoded@]));
            self.decodes@ = d1;
        }
        if let Some(d) = &r {
            self.text.append(d.as_str());
        }
        proof {
            assert(self.text@ =~= delta_text(self.baseline_len@, d1));
        }
        self.stage = Stage::Verdict;
        r
    }

    /// Settles a step: whether the delta, if one was handed on, reached the
    /// consumer. A lost consumer cancels the generation at once; otherwise a
    /// stop token or the token limit ends it.
    pub fn settle(&mut self, delivered: bool)
        requires
            old(self).wf(),
            old(self).phase() == Phase::Running,
            old(self).stage() == Stage::Verdict,
        ensures
            final(self).wf(),
            final(self).stage() == Stage::Token,
            final(self).phase() == if !delivered {
                Phase::Cancelled
            } else if old(self).stops().stops(old(self).generated().last()) {
                Phase::StopToken
            } else if old(self).generated().len() == old(self).max_tokens() {
                Phase::TokenLimit
            } else {
                Phase::Running
            },
            final(self).tokens() == old(self).tokens(),
            final(self).decodes() == old(self).decodes(),
            final(self).emitted() == old(self).emitted(),
            final(self).prompt_len() == old(self).prompt_len(),
            final(self).max_tokens() == old(self).max_tokens(),
            final(self).stops() == old(self).stops(),
            final(self).baseline_len() == old(self).baseline_len(),
    {
        let last = self.tokens[self.tokens.len() - 1];
        proof {
            assert(self.generated().last() == last);
        }
        self.stage = Stage::Token;
        if !delivered {
            self.phase = Phase::Cancelled;
        } else if self.stops.contains(last) {
            self.phase = Phase::StopToken;
        } else if self.tokens.len() - self.prompt_len == self.max_tokens {
            self.phase = Phase::TokenLimit;
        }
    }

    /// A running session waiting for a token is below its limit; any session
    /// is within it.
    pub proof fn lemma_bounds(&self)
        requires
            self.wf(),
        ensures
            self.generated().len() <= self.max_tokens(),
            self.phase() == Phase::Running && self.stage() == Stage::Token ==> self.generated().len()
                < self.max_tokens(),
    {
    }

    /// The text emitted so far: every delta, in order.
    pub fn text(&self) -> (r: &String)
        ensures
            r@ == self.emitted(),
    {
        &self.text
    }

    /// What a well-formed session has emitted and generated: the deltas put
    /// together are the deltas of its decodes, one decode per generated
    /// token once a step is settled, and a finished session tells why it
    /// finished: a stop token as its last token and none before it, the
    /// limit reached with no stop token, or a lost consumer after at least
    /// one token.
    pub proof fn lemma_outcome(&self)
        requires
            self.wf(),
        ensures
            self.emitted() == delta_text(self.baseline_len(), self.decodes()),
            self.stage() == Stage::Token ==> self.decodes().len() == self.generated().len(),
            self.generated().len() <= self.max_tokens(),
            self.phase() == Phase::StopToken ==> self.generated().len() >= 1 && self.stops().stops(
                self.generated().last(),
            ) && self.no_stop_before(self.generated().len() - 1),
            self.phase() == Phase::TokenLimit ==> self.generated().len() == self.max_tokens()
                && self.no_stop_before(self.generated().len() as int),
            self.phase() == Phase::Cancelled ==> self.generated().len() >= 1
                && self.no_stop_before(self.generated().len() - 1),
            self.phase() != Phase::Running ==> self.stage() == Stage::Token,
    {
    }

    /// Whether more tokens may come.
    pub fn is_running(&self) -> (r: bool)
        ensures
            r == (self.phase() == Phase::Running),
    {
        self.phase == Phase::Running
    }

    /// Where the generation stands.
    pub fn phase_now(&self) -> (r: Phase)
        ensures
            r == self.phase(),
    {
        self.phase
    }

    /// The number of tokens generated so far.
    pub fn tokens_generated(&self) -> (r: usize)
        requires
            self.wf(),
        ensures
            r == self.generated().len(),
    {
        self.tokens.len() - self.prompt_len
    }

    /// The running sequence: prompt and generated tokens.
    pub fn token_ids(&self) -> (r: &Vec<u32>)
        ensures
            r@ == self.tokens(),
    {
        &self.tokens
    }

    /// The first position the inference engine is given next: the whole
    /// prompt on the first step, the latest token alone afterwards.
    pub fn context_start(&self) -> (r: usize)
        requires
            self.wf(),
            self.phase() == Phase::Running,
            self.stage() == Stage::Token,
        ensures
            r == if self.generated().len() == 0 {
                0
            } else {
                self.tokens().len() - 1
            },
            r < self.tokens().len(),
    {
        if self.tokens.len() == self.prompt_len {
            0
        } else {
            self.tokens.len() - 1
        }
    }
}

} // verus!
