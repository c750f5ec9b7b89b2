use archgw::tokenizer::token_count;

#[test]
fn encode_ordinary() {
    let model_name = "gpt-3.5-turbo";
    let text = "How many tokens does this sentence have?";
    assert_eq!(
        8,
        token_count(model_name, text).expect("correct tokenization")
    );
}

#[test]
fn other_models_count_with_the_gpt4_encoder() {
    let text = "How many tokens does this sentence have?";
    assert_eq!(token_count("mistral-7b", text), token_count("gpt-4", text));
    assert_eq!(token_count("gpt-4", ""), Ok(0));
}
