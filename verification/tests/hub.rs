use qwen3_asr_wgpu::hub::{
    build_qwen3_tokenizer_json, cache_name, cache_step, distinct_shards, hf_url, http_outcome, list_tokens, shards,
    sort_tokens, AddedToken, CacheStep, Fetched, HubError,
};
use qwen3_asr_wgpu::hub_fetch::{begin, step, weight_files, Action, Event, Stage};
use serde_json::Value;

fn token(id: u64, content: &str) -> AddedToken {
    AddedToken { id, content: format!("\"{content}\""), special: "true".to_string() }
}

#[test]
fn places_of_a_model() {
    assert_eq!(
        hf_url("Qwen/Qwen3-ASR-0.6B", "config.json"),
        "https://huggingface.co/Qwen/Qwen3-ASR-0.6B/resolve/main/config.json"
    );
    assert_eq!(cache_name("Qwen/Qwen3-ASR-0.6B"), "Qwen--Qwen3-ASR-0.6B");
}

#[test]
fn cache_steps() {
    assert_eq!(cache_step(true, true), CacheStep::Use);
    assert_eq!(cache_step(false, true), CacheStep::RemoveAndDownload);
    assert_eq!(cache_step(false, false), CacheStep::Download);
}

#[test]
fn replies() {
    assert_eq!(http_outcome(200, false), Fetched::Body);
    assert_eq!(http_outcome(404, true), Fetched::Missing);
    assert_eq!(http_outcome(404, false), Fetched::Failed);
    assert_eq!(http_outcome(500, true), Fetched::Failed);
}

#[test]
fn shard_files() {
    let index = r#"{"weight_map":{"c":"m-2.safetensors","a":"m-1.safetensors","b":"m-1.safetensors"}}"#;
    assert_eq!(shards(index).unwrap(), vec!["m-1.safetensors".to_string(), "m-2.safetensors".to_string()]);
    assert_eq!(shards("{}").unwrap_err(), HubError::InvalidIndex);
    assert_eq!(shards("{").unwrap_err(), HubError::IndexSyntax);
    let pairs = vec![("x".to_string(), "\"f\"".to_string()), ("y".to_string(), "\"f\"".to_string())];
    assert_eq!(distinct_shards(&pairs), vec!["f".to_string()]);
}

#[test]
fn tokens_are_sorted_by_number() {
    let v = sort_tokens(&vec![token(9, "c"), token(2, "a"), token(5, "b")]);
    let ids: Vec<u64> = v.iter().map(|t| t.id).collect();
    assert_eq!(ids, vec![2, 5, 9]);
    let m = vec![
        ("7".to_string(), "\"<x>\"".to_string(), "true".to_string()),
        ("no".to_string(), "\"<y>\"".to_string(), "null".to_string()),
    ];
    let listed = list_tokens(&m);
    assert_eq!(listed[0].id, 7);
    assert_eq!(listed[0].content, "\"<x>\"");
    assert_eq!(listed[0].special, "true");
}

#[test]
fn the_tokenizer_file() {
    let config = r#"{"added_tokens_decoder":{"151643":{"content":"<|end|>","special":true},"151642":{"content":"\"q\"","special":false}}}"#;
    let text = build_qwen3_tokenizer_json("{ \"a\" : 0 , \"b\": 1 }", "#version: 0.2\na b\n\nab \"c\"\n", config).unwrap();
    let v: Value = serde_json::from_str(&text).unwrap();
    assert_eq!(v["version"], Value::from("1.0"));
    assert_eq!(v["model"]["type"], Value::from("BPE"));
    assert_eq!(v["model"]["vocab"]["b"], Value::from(1));
    assert_eq!(v["model"]["merges"], Value::from(vec!["a b", "ab \"c\""]));
    let added = v["added_tokens"].as_array().unwrap();
    assert_eq!(added.len(), 2);
    assert_eq!(added[0]["id"], Value::from(151642));
    assert_eq!(added[0]["content"], Value::from("\"q\""));
    assert_eq!(added[1]["special"], Value::from(true));
    assert_eq!(
        v["pre_tokenizer"]["pretokenizers"][0]["pattern"]["Regex"],
        Value::from(
            r"(?i:'s|'t|'re|'ve|'m|'ll|'d)|[^\r\n\p{L}\p{N}]?\p{L}+|\p{N}| ?[^\s\p{L}\p{N}]+[\r\n]*|\s*[\r\n]+|\s+(?!\S)|\s+"
        )
    );
    assert_eq!(v.to_string(), text);
    let bare = build_qwen3_tokenizer_json("{}", "", r#"{"added_tokens_decoder":{"3":{"special":0.1},"x":{}}}"#).unwrap();
    assert!(bare.starts_with("{\"added_tokens\":[{\"content\":null,\"id\":3,"));
    assert!(bare.contains("\"special\":0.1}],"));
    assert!(build_qwen3_tokenizer_json("{}", "", "[]").unwrap().starts_with("{\"added_tokens\":[],"));
}

#[test]
fn broken_tokenizer_inputs() {
    assert_eq!(build_qwen3_tokenizer_json("{", "", "{}").unwrap_err(), HubError::Vocab);
    assert_eq!(build_qwen3_tokenizer_json("{}", "", "[").unwrap_err(), HubError::TokenizerConfig);
}

fn named(a: &Action) -> String {
    match a {
        Action::Keep(n) | Action::TryKeep(n) | Action::Stream(n) | Action::Read(n) => n.clone(),
        Action::Write { name, .. } => format!("+{name}"),
        Action::Finish => "finish".to_string(),
    }
}

fn download(index: Option<&str>) -> Result<Vec<String>, HubError> {
    let (mut stage, mut action) = begin();
    let mut seen = vec![named(&action)];
    while !matches!(action, Action::Finish) {
        let event = match &action {
            Action::Keep(_) | Action::Stream(_) | Action::Write { .. } => Event::Done,
            Action::TryKeep(_) => index.map_or(Event::Missing, |t| Event::Text(t.to_string())),
            Action::Read(n) if n == "merges.txt" => Event::Text("#v\na b\n".to_string()),
            Action::Read(_) => Event::Text("{}".to_string()),
            Action::Finish => unreachable!(),
        };
        (stage, action) = step(stage, event)?;
        seen.push(named(&action));
    }
    assert!(matches!(stage, Stage::Finished));
    Ok(seen)
}

#[test]
fn the_marker_comes_last() {
    let tail = ["tokenizer_config.json", "vocab.json", "merges.txt", "+tokenizer.json", "+.complete", "finish"];
    let head = ["config.json", "model.safetensors.index.json"];
    let all = |w: &[&str]| -> Vec<String> { head.iter().chain(w).chain(&tail).map(|s| s.to_string()).collect() };
    assert_eq!(download(None).unwrap(), all(&["model.safetensors"]));
    let index = r#"{"weight_map":{"c":"m-2.safetensors","a":"m-1.safetensors","b":"m-1.safetensors"}}"#;
    assert_eq!(download(Some(index)).unwrap(), all(&["m-1.safetensors", "m-2.safetensors"]));
    assert_eq!(download(Some(r#"{"weight_map":{}}"#)).unwrap(), all(&[]));
    assert_eq!(download(Some("{}")).unwrap_err(), HubError::InvalidIndex);
    assert_eq!(download(Some("{")).unwrap_err(), HubError::IndexSyntax);
    assert_eq!(weight_files(&None).unwrap(), vec!["model.safetensors".to_string()]);
}

#[test]
fn tokenizer_files_that_do_not_read() {
    let merges = |vocab: &str, config: &str| {
        step(
            Stage::Merges { tok_config: config.to_string(), vocab: vocab.to_string() },
            Event::Text(String::new()),
        )
    };
    assert_eq!(merges("{", "{}").unwrap_err(), HubError::Vocab);
    assert_eq!(merges("{}", "{").unwrap_err(), HubError::TokenizerConfig);
    match merges(r#"{"a":1}"#, "{}").unwrap() {
        (Stage::Tokenizer, Action::Write { name, text }) => {
            assert_eq!(name, "tokenizer.json");
            assert_eq!(text, build_qwen3_tokenizer_json(r#"{"a":1}"#, "", "{}").unwrap());
        }
        other => panic!("{other:?}"),
    }
}
