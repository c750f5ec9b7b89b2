//! Token counting with a byte-pair encoder chosen by model name.
use vstd::prelude::*;
use crate::text::starts_with;

verus! {

/// The number of tokens that the byte-pair encoder of `model` gives for
/// `text`, or `None` where no encoder is known for `model` or the encoder's
/// pre-tokenizing pattern gives up on `text` (its search passes the backtrack
/// limit of `fancy_regex`). Both depend on the model and the text alone.
pub uninterp spec fn bpe_token_count(model: Seq<char>, text: Seq<char>) -> Option<nat>;

/// Relies on `tiktoken_rs::bpe_for_model` (the encoder for a model name, or an
/// error where none is known) and `CoreBPE::count` with no special token
/// allowed: the number of tokens that `CoreBPE::encode` gives, which with no
/// special token allowed are the ordinary tokens of the whole text, or an error
/// where the pre-tokenizing pattern gives up. The special-token pattern it also
/// runs is an alternation of literals, which `fancy_regex` hands to the `regex`
/// crate, whose searches do not fail.
#[verifier::external_body]
fn bpe_count(model: &str, text: &str) -> (r: Result<usize, String>)
    ensures
        match r {
            Ok(n) => bpe_token_count(model@, text@) == Some(n as nat),
            Err(_) => bpe_token_count(model@, text@) is None,
        },
{
    let bpe = tiktoken_rs::bpe_for_model(model).map_err(|e| e.to_string())?;
    bpe.count(text, &std::collections::HashSet::new()).map_err(|e| e.to_string())
}

/// The model whose encoder counts tokens for `model`: models of the GPT family
/// use their own, any other the GPT-4 one.
pub open spec fn encoder_model(model: Seq<char>) -> Seq<char> {
    if "gpt"@.len() <= model.len() && model.take(3) == "gpt"@ {
        model
    } else {
        "gpt-4"@
    }
}

/// The number of tokens of `text` for `model_name`.
pub fn token_count(model_name: &str, text: &str) -> (r: Result<usize, String>)
    ensures
        match r {
            Ok(n) => bpe_token_count(encoder_model(model_name@), text@) == Some(n as nat),
            Err(_) => bpe_token_count(encoder_model(model_name@), text@) is None,
        },
{
    let gpt = "gpt";
    proof {
        reveal_strlit("gpt");
    }
    if starts_with(model_name, gpt) {
        bpe_count(model_name, text)
    } else {
        bpe_count("gpt-4", text)
    }
}

} // verus!
