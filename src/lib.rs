//! Serving text generation from several quantized language models that share
//! one bounded pool of device memory.
//!
//! * [`device`] derives the memory budget from the device query and reads
//!   architecture tags.
//! * [`ledger`] keeps the set of loaded models within the memory budget and
//!   chooses eviction victims in least-recently-used order.
//! * [`stream`] turns successive full decodes into text deltas.
//! * [`generation`] holds the decisions of the generation loop.
//! * [`pipeline`] runs that loop over a loaded model, calling the inference
//!   engine and the tokenizer.
//! * [`session`] admits one generation at a time and moves each request
//!   through its life cycle.
//! * [`template`] renders prompts in each architecture's chat format.
//! * [`wire`] frames the events of a streamed response.
pub mod device;
pub mod ledger;
pub mod stream;
pub mod generation;
pub mod pipeline;
pub mod session;
pub mod template;
pub mod wire;
