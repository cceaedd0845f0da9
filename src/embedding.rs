//! Requests to the embedding provider and checks on what it answers.
//!
//! An embedding is a sequence of single-precision floats; here each one is
//! held as its IEEE-754 bit pattern (`u32`).
use vstd::prelude::*;
use vstd::string::StringExecFns;
use vstd::utf8::encode_utf8;
use crate::error::{is_success, status_ok, Operation, PipelineError};

verus! {

/// serde_json's error type, the error of `serde_json::to_vec`; carried opaquely.
#[verifier::external_type_specification]
#[verifier::external_body]
pub struct ExJsonError(serde_json::Error);

/// What serde_json writes for a string: one JSON string literal, quoted and escaped.
pub uninterp spec fn json_string(s: Seq<char>) -> Seq<u8>;

/// A text that JSON writes without escapes: no control character, quote or
/// backslash.
pub open spec fn plain_text(s: Seq<char>) -> bool {
    forall|i: int|
        0 <= i < s.len() ==> (#[trigger] s[i]) as u32 >= 0x20 && s[i] != '"' && s[i] != '\\'
}

/// Relies on serde_json::to_vec, applied to a `str`: it writes the string's
/// JSON literal into a `Vec`, which cannot fail; a text without control
/// characters, quotes or backslashes is written as its UTF-8 bytes between
/// two quotes.
#[verifier::external_body]
fn encode_json_string(text: &str) -> (r: Result<Vec<u8>, serde_json::Error>)
    ensures
        r is Ok,
        r matches Ok(b) ==> b@ == json_string(text@),
        r matches Ok(b) ==> (plain_text(text@) ==> b@ == seq![0x22u8] + encode_utf8(text@) + seq![
            0x22u8,
        ]),
{
    serde_json::to_vec(text)
}

/// A byte that an HTTP header value may hold: visible ASCII, space or tab.
pub open spec fn header_byte(b: u8) -> bool {
    (b >= 32 && b != 127) || b == 9
}

/// A text whose UTF-8 bytes may all stand in an HTTP header value.
pub open spec fn header_text(s: Seq<char>) -> bool {
    forall|i: int| 0 <= i < encode_utf8(s).len() ==> header_byte(#[trigger] encode_utf8(s)[i])
}

/// Relies on reqwest::header::HeaderValue::from_str (from the http crate): it
/// accepts a string exactly when every byte is a header byte.
#[verifier::external_body]
fn header_value_accepted(s: &str) -> (r: bool)
    ensures
        r == header_text(s@),
{
    reqwest::header::HeaderValue::from_str(s).is_ok()
}

/// Process-wide configuration of the embedding client.
pub struct EmbedConfig {
    /// The provider credential, if one is configured.
    pub credential: Option<String>,
}

impl EmbedConfig {
    pub fn new(credential: Option<String>) -> (r: EmbedConfig)
        ensures
            r.credential == credential,
    {
        EmbedConfig { credential }
    }
}

/// One request to the embedding provider.
pub struct EmbedRequest {
    /// The value of the `Authorization` header.
    pub authorization: String,
    /// The JSON body: a batch that holds the one text.
    pub body: Vec<u8>,
}

/// The authorization header value for a credential.
pub open spec fn bearer(key: Seq<char>) -> Seq<char> {
    seq!['B', 'e', 'a', 'r', 'e', 'r', ' '] + key
}

/// A credential is configured and its bearer value can stand in a header.
pub open spec fn credential_usable(credential: Option<String>) -> bool {
    credential matches Some(k) && header_text(bearer(k@))
}

/// The body of an embedding request: a JSON array that holds `text` alone.
pub open spec fn batch_body(text: Seq<char>) -> Seq<u8> {
    seq![0x5bu8] + json_string(text) + seq![0x5du8]
}

/// The `Authorization` header value for the configured credential: an error
/// when none is configured or when it cannot stand in a header.
pub fn authorization(config: &EmbedConfig) -> (r: Result<String, PipelineError>)
    ensures
        config.credential is None ==> r == Err::<String, PipelineError>(
            PipelineError::MissingCredential,
        ),
        (config.credential is Some && !credential_usable(config.credential)) ==> r == Err::<
            String,
            PipelineError,
        >(PipelineError::InvalidCredential),
        credential_usable(config.credential) ==> r is Ok,
        r matches Ok(a) ==> config.credential matches Some(k) && a@ == bearer(k@),
{
    let key = match &config.credential {
        None => {
            return Err(PipelineError::MissingCredential);
        },
        Some(k) => k,
    };
    let mut value = String::from_str("Bearer ");
    proof {
        reveal_strlit("Bearer ");
    }
    value.append(key.as_str());
    proof {
        assert(value@ =~= bearer(key@));
    }
    if header_value_accepted(value.as_str()) {
        Ok(value)
    } else {
        Err(PipelineError::InvalidCredential)
    }
}

/// The request that embeds `text`. Without a usable credential it fails
/// before any request is made; otherwise it succeeds.
pub fn embed_request(config: &EmbedConfig, text: &str) -> (r: Result<EmbedRequest, PipelineError>)
    ensures
        config.credential is None ==> r == Err::<EmbedRequest, PipelineError>(
            PipelineError::MissingCredential,
        ),
        (config.credential is Some && !credential_usable(config.credential)) ==> r == Err::<
            EmbedRequest,
            PipelineError,
        >(PipelineError::InvalidCredential),
        credential_usable(config.credential) ==> r is Ok,
        r matches Ok(req) ==> config.credential matches Some(k) && req.authorization@ == bearer(
            k@,
        ) && req.body@ == batch_body(text@),
        r matches Ok(req) ==> (plain_text(text@) ==> req.body@ == seq![0x5bu8, 0x22u8]
            + encode_utf8(text@) + seq![0x22u8, 0x5du8]),
{
    let authorization = match authorization(config) {
        Ok(a) => a,
        Err(e) => {
            return Err(e);
        },
    };
    let encoded = encode_json_string(text).unwrap();
    let mut body: Vec<u8> = Vec::new();
    body.push(0x5b);
    let mut i: usize = 0;
    while i < encoded.len()
        invariant
            i <= encoded@.len(),
            body@ == seq![0x5bu8] + encoded@.subrange(0, i as int),
        decreases encoded@.len() - i,
    {
        body.push(encoded[i]);
        i = i + 1;
        proof {
            assert(encoded@.subrange(0, i as int) =~= encoded@.subrange(0, i - 1) + seq![encoded@[i - 1]]);
        }
    }
    body.push(0x5d);
    proof {
        assert(encoded@.subrange(0, i as int) =~= encoded@);
        if plain_text(text@) {
            assert(body@ =~= seq![0x5bu8, 0x22u8] + encode_utf8(text@) + seq![0x22u8, 0x5du8]);
        }
    }
    Ok(EmbedRequest { authorization, body })
}

/// What the embedding provider answered.
pub enum EmbedReply {
    /// The provider could not be reached.
    Unreachable,
    /// The provider answered with `status`; `vector` is the body read as a
    /// flat JSON array of numbers (as `f32` bit patterns), or `None` where
    /// it is not one.
    Answered { status: u16, vector: Option<Vec<u32>> },
}

/// What a reply to an embedding request yields for a collection of
/// `dimension`: the vector of a successful flat numeric array of that length,
/// else the error that tells why not.
pub open spec fn embedding_verdict(reply: EmbedReply, dimension: usize) -> Result<Seq<u32>, PipelineError> {
    match reply {
        EmbedReply::Unreachable => Err(PipelineError::Transport(Operation::Embed)),
        EmbedReply::Answered { status, vector } => {
            if !is_success(status) || vector is None {
                Err(PipelineError::Malformed(Operation::Embed))
            } else if vector->Some_0@.len() != dimension {
                Err(
                    PipelineError::DimensionMismatch {
                        expected: dimension,
                        found: vector->Some_0@.len() as usize,
                    },
                )
            } else {
                Ok(vector->Some_0@)
            }
        },
    }
}

/// Accepts the embedding in `reply` if it is a successful flat numeric array
/// of `dimension` values.
pub fn accept_embedding(reply: EmbedReply, dimension: usize) -> (r: Result<Vec<u32>, PipelineError>)
    ensures
        match embedding_verdict(reply, dimension) {
            Ok(v) => r matches Ok(w) && w@ == v,
            Err(e) => r == Err::<Vec<u32>, PipelineError>(e),
        },
{
    match reply {
        EmbedReply::Unreachable => Err(PipelineError::Transport(Operation::Embed)),
        EmbedReply::Answered { status, vector } => {
            if !status_ok(status) {
                return Err(PipelineError::Malformed(Operation::Embed));
            }
            match vector {
                None => Err(PipelineError::Malformed(Operation::Embed)),
                Some(v) => {
                    if v.len() != dimension {
                        Err(PipelineError::DimensionMismatch { expected: dimension, found: v.len() })
                    } else {
                        Ok(v)
                    }
                },
            }
        },
    }
}

} // verus!
