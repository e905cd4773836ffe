//! Long-term memory: how recalled memories are presented to the model, and
//! the embedding endpoint's settings.
use vstd::prelude::*;
use crate::openai::new_http_client;
use crate::text::{concat, concat3, decimal, trim_end_char, trim_end_matches_char, trim_end_matches_str, trim_end_seq, usize_to_decimal, views};

verus! {

/// Where the memory database lives unless told otherwise.
pub const DEFAULT_MEMORY_DB_PATH: &'static str = "~/.local/share/ferroclaw/memory.db";

/// The length of the vectors `text-embedding-3-small` produces.
pub const OPENAI_EMBEDDING_DIM: usize = 1536;

/// The numbered lines listing recalled memories: `<n>. <content>` and a
/// newline for each, numbered from 1.
pub open spec fn memory_lines(contents: Seq<Seq<char>>) -> Seq<char>
    decreases contents.len(),
{
    if contents.len() == 0 {
        Seq::empty()
    } else {
        memory_lines(contents.drop_last()) + decimal(contents.len()) + ". "@ + contents.last() + "\n"@
    }
}

/// The context block injected into the system prompt for recalled
/// memories: nothing when none was recalled, otherwise a heading line and
/// the numbered memories.
pub open spec fn memory_context(contents: Seq<Seq<char>>) -> Seq<char> {
    if contents.len() == 0 {
        Seq::empty()
    } else {
        "Relevant memories from previous conversations:\n"@ + memory_lines(contents)
    }
}

/// Formats recalled memories (most relevant first) as context for the model.
pub fn format_memory_context(contents: &Vec<String>) -> (res: String)
    ensures
        res@ == memory_context(views(contents@)),
{
    if contents.len() == 0 {
        let res = String::new();
        return res;
    }
    let mut ctx = "Relevant memories from previous conversations:\n".to_owned();
    let ghost head = ctx@;
    let mut i: usize = 0;
    while i < contents.len()
        invariant
            i <= contents@.len(),
            contents@.len() > 0,
            head == "Relevant memories from previous conversations:\n"@,
            ctx@ == head + memory_lines(views(contents@.subrange(0, i as int))),
        decreases contents.len() - i,
    {
        let ghost prev = views(contents@.subrange(0, i as int));
        let ghost next = views(contents@.subrange(0, i as int + 1));
        assert(next.drop_last() =~= prev);
        assert(next.last() == contents@[i as int]@);
        let number = usize_to_decimal(i + 1);
        let line = concat3(number.as_str(), ". ", contents[i].as_str());
        ctx.append(line.as_str());
        ctx.append("\n");
        assert(ctx@ =~= head + memory_lines(next));
        i = i + 1;
    }
    assert(contents@.subrange(0, contents@.len() as int) =~= contents@);
    ctx
}

/// The base URL of the embeddings API: the configured URL (the OpenAI API by
/// default) without trailing slashes and then without trailing `/v1`
/// segments, since the endpoint path adds `/v1` itself.
pub open spec fn embedding_base(base_url: Option<String>) -> Seq<char> {
    let raw = match base_url {
        Some(b) => b@,
        None => "https://api.openai.com"@,
    };
    trim_end_seq(trim_end_char(raw, '/'), "/v1"@)
}

/// The OpenAI `text-embedding-3-small` embedding provider.
pub struct OpenAiEmbedding {
    pub client: reqwest::Client,
    pub api_key: String,
    pub base_url: String,
    pub model: String,
}

impl OpenAiEmbedding {
    /// A provider using `api_key`, reached at `base_url` (the OpenAI API by
    /// default) normalised as `embedding_base` describes.
    pub fn new(api_key: String, base_url: Option<String>) -> (res: Self)
        ensures
            res.api_key == api_key,
            res.base_url@ == embedding_base(base_url),
            res.model@ == "text-embedding-3-small"@,
    {
        let raw = match &base_url {
            Some(b) => b.clone(),
            None => "https://api.openai.com".to_owned(),
        };
        let no_slash = trim_end_matches_char(raw.as_str(), '/');
        proof {
            reveal_strlit("/v1");
        }
        let base = trim_end_matches_str(no_slash.as_str(), "/v1");
        OpenAiEmbedding {
            client: new_http_client(),
            api_key,
            base_url: base,
            model: "text-embedding-3-small".to_owned(),
        }
    }

    /// The embeddings endpoint: the base URL followed by `/v1/embeddings`.
    pub fn embeddings_url(&self) -> (res: String)
        ensures
            res@ == self.base_url@ + "/v1/embeddings"@,
    {
        concat(self.base_url.as_str(), "/v1/embeddings")
    }

    /// The length of the vectors this provider returns.
    pub fn dim(&self) -> (res: usize)
        ensures
            res == OPENAI_EMBEDDING_DIM,
    {
        OPENAI_EMBEDDING_DIM
    }
}

} // verus!
