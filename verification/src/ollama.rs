//! The records exchanged with the Ollama server.
use vstd::prelude::*;

verus! {

/// An installed model as the model list shows it.
#[derive(Debug, Clone)]
pub struct ModelEntry {
    pub name: String,
    pub parameter_size: Option<String>,
    pub quantization_level: Option<String>,
    pub size_bytes: Option<u64>,
}

/// One message of the chat history sent to the model.
#[derive(Debug, Clone)]
pub struct ChatMessage {
    pub role: String,
    pub content: String,
    pub thinking: Option<String>,
    /// Base64-encoded images, for vision models.
    pub images: Option<Vec<String>>,
}

/// One line of a streamed reply.
#[derive(Debug)]
pub struct StreamChunk {
    pub message: Option<ChatMessage>,
    pub done: bool,
    pub error: Option<String>,
    /// Present only in the final chunk.
    pub prompt_eval_count: Option<u64>,
    pub eval_count: Option<u64>,
    /// Nanoseconds.
    pub eval_duration: Option<u64>,
}

/// The names of the models in `models`.
pub open spec fn model_names(models: Seq<ModelEntry>) -> Seq<Seq<char>> {
    models.map_values(|m: ModelEntry| m.name@)
}

/// The names of the installed models, in order.
pub fn names_of(models: &Vec<ModelEntry>) -> (r: Vec<String>)
    ensures
        crate::text::string_views(r@) == model_names(models@),
{
    let mut r: Vec<String> = Vec::new();
    let mut i: usize = 0;
    while i < models.len()
        invariant
            i <= models@.len(),
            crate::text::string_views(r@) == model_names(models@).take(i as int),
        decreases models.len() - i,
    {
        let n = String::from_str(models[i].name.as_str());
        proof {
            assert(crate::text::string_views(r@.push(n)) =~= crate::text::string_views(r@).push(n@));
        }
        r.push(n);
        assert(model_names(models@).take(i + 1) =~= model_names(models@).take(i as int).push(models@[i as int].name@));
        i += 1;
    }
    assert(model_names(models@).take(models@.len() as int) =~= model_names(models@));
    r
}

/// A chunk of a raw `/api/generate` stream reshaped as a chat chunk: the
/// generated text becomes an assistant message.
pub fn generate_chunk(
    response: Option<String>,
    thinking: Option<String>,
    done: bool,
    error: Option<String>,
    prompt_eval_count: Option<u64>,
    eval_count: Option<u64>,
    eval_duration: Option<u64>,
) -> (c: StreamChunk)
    ensures
        c.message matches Some(m) && m.role@ == "assistant"@ && m.content@ == (match response {
            Some(r) => r@,
            None => Seq::<char>::empty(),
        }) && m.thinking == thinking && m.images is None,
        c.done == done,
        c.error == error,
        c.prompt_eval_count == prompt_eval_count,
        c.eval_count == eval_count,
        c.eval_duration == eval_duration,
{
    let content = match response {
        Some(r) => r,
        None => String::new(),
    };
    StreamChunk {
        message: Some(
            ChatMessage { role: String::from_str("assistant"), content, thinking, images: None },
        ),
        done,
        error,
        prompt_eval_count,
        eval_count,
        eval_duration,
    }
}

/// The chunk that ends a stream whose request failed.
pub fn failed_chunk(reason: String) -> (c: StreamChunk)
    ensures
        c.message is None,
        c.done,
        c.error == Some(reason),
        c.prompt_eval_count is None && c.eval_count is None && c.eval_duration is None,
{
    StreamChunk {
        message: None,
        done: true,
        error: Some(reason),
        prompt_eval_count: None,
        eval_count: None,
        eval_duration: None,
    }
}

} // verus!
