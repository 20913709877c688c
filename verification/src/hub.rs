//! Model files on the hub: where they are, which ones a model has, and the
//! tokenizer file that is put together from them.
use serde_json::Value;
use vstd::prelude::*;

use crate::manifest::{lines, lines_of};
use crate::order::{key, keys, ordered, sorted, Key};
use crate::score::{lemma_texts_push, texts};
use crate::text::{chars_of, dec, lit, parse_u64, parse_value, push_dec64, str_eq, string_of};

verus! {

/// The compact form of a JSON text; none where it is no JSON.
pub uninterp spec fn json_compact(s: Seq<char>) -> Option<Seq<char>>;

/// `serde_json::from_str` into a `Value`, printed again by the value's compact
/// `Display`.
#[verifier::external_body]
fn compact(text: &str) -> (r: Option<String>)
    ensures
        match r {
            Some(t) => json_compact(text@) == Some(t@),
            None => json_compact(text@) is None,
        },
{
    serde_json::from_str::<Value>(text).ok().map(|v| v.to_string())
}

/// The members of the object under `field` of a JSON text, each value in compact
/// form, in the order that a `serde_json::Map` is walked. None where the text is
/// no JSON, and an inner none where there is no object under `field`.
pub uninterp spec fn json_members(s: Seq<char>, field: Seq<char>) -> Option<Option<Seq<(Seq<char>, Seq<char>)>>>;

/// A list of members as values.
pub open spec fn members_view(v: Seq<(String, String)>) -> Seq<(Seq<char>, Seq<char>)> {
    v.map_values(|p: (String, String)| (p.0@, p.1@))
}

/// `serde_json::from_str` into a `Value`, indexed by `field` and read by
/// `Value::as_object`, each value printed by its compact `Display`.
#[verifier::external_body]
fn members(text: &str, field: &str) -> (r: Option<Option<Vec<(String, String)>>>)
    ensures
        match r {
            None => json_members(text@, field@) is None,
            Some(None) => json_members(text@, field@) == Some(None::<Seq<(Seq<char>, Seq<char>)>>),
            Some(Some(v)) => json_members(text@, field@) == Some(Some(members_view(v@))),
        },
{
    let v: Value = serde_json::from_str(text).ok()?;
    Some(v[field].as_object().map(|m| m.iter().map(|(k, x)| (k.clone(), x.to_string())).collect()))
}

/// The members of the object under `field` of a JSON text, in the order that a
/// `serde_json::Map` is walked: each key, and what its value holds under `one`
/// and `two` in compact form, `null` where it holds nothing there. None where the
/// text is no JSON, and an inner none where there is no object under `field`.
pub uninterp spec fn json_entries(s: Seq<char>, field: Seq<char>, one: Seq<char>, two: Seq<char>) -> Option<
    Option<Seq<(Seq<char>, Seq<char>, Seq<char>)>>,
>;

/// A list of entries as values.
pub open spec fn entries_view(v: Seq<(String, String, String)>) -> Seq<(Seq<char>, Seq<char>, Seq<char>)> {
    v.map_values(|p: (String, String, String)| (p.0@, p.1@, p.2@))
}

/// `serde_json::from_str` into a `Value`, indexed by `field` and read by
/// `Value::as_object`, each value indexed by `one` and by `two` and printed by its
/// compact `Display`.
#[verifier::external_body]
fn entries(text: &str, field: &str, one: &str, two: &str) -> (r: Option<Option<Vec<(String, String, String)>>>)
    ensures
        match r {
            None => json_entries(text@, field@, one@, two@) is None,
            Some(None) => json_entries(text@, field@, one@, two@) == Some(
                None::<Seq<(Seq<char>, Seq<char>, Seq<char>)>>,
            ),
            Some(Some(v)) => json_entries(text@, field@, one@, two@) == Some(Some(entries_view(v@))),
        },
{
    let v: Value = serde_json::from_str(text).ok()?;
    let object = v[field].as_object();
    Some(object.map(|m| m.iter().map(|(k, x)| (k.clone(), x[one].to_string(), x[two].to_string())).collect()))
}

/// The string that a JSON text is; none where it is anything else.
pub uninterp spec fn json_string(s: Seq<char>) -> Option<Seq<char>>;

/// `serde_json::from_str` into a `Value`, read by `Value::as_str`.
#[verifier::external_body]
fn unquoted(text: &str) -> (r: Option<String>)
    ensures
        match r {
            Some(t) => json_string(text@) == Some(t@),
            None => json_string(text@) is None,
        },
{
    serde_json::from_str::<Value>(text).ok().and_then(|v| v.as_str().map(str::to_string))
}

/// A text as a JSON string.
pub uninterp spec fn json_quoted(s: Seq<char>) -> Seq<char>;

/// A `serde_json::Value` of a string, printed by its compact `Display`.
#[verifier::external_body]
fn quoted(text: &str) -> (r: String)
    ensures
        r@ == json_quoted(text@),
{
    Value::from(text).to_string()
}

/// Why a model's files cannot be used.
#[derive(Clone, Copy, Debug, PartialEq, Eq, Structural)]
pub enum HubError {
    /// The vocabulary is no JSON.
    Vocab,
    /// The tokenizer configuration is no JSON.
    TokenizerConfig,
    /// The shard index is no JSON.
    IndexSyntax,
    /// The shard index has no `weight_map` object.
    InvalidIndex,
}

/// Where a file of a model is.
pub open spec fn hub_url(model: Seq<char>, file: Seq<char>) -> Seq<char> {
    "https://huggingface.co/"@ + model + "/resolve/main/"@ + file
}

/// Where a file of a model is.
pub fn hf_url(model_id: &str, filename: &str) -> (r: String)
    ensures
        r@ == hub_url(model_id@, filename@),
{
    let mut s = lit("https://huggingface.co/");
    s.append(model_id);
    s.append("/resolve/main/");
    s.append(filename);
    s
}

/// A model's directory name: its id, every slash two dashes.
pub open spec fn dir_name(model: Seq<char>) -> Seq<char>
    decreases model.len(),
{
    if model.len() == 0 {
        Seq::empty()
    } else if model.last() == '/' {
        dir_name(model.drop_last()) + seq!['-', '-']
    } else {
        dir_name(model.drop_last()).push(model.last())
    }
}

/// A model's directory name.
pub fn cache_name(model_id: &str) -> (r: String)
    ensures
        r@ == dir_name(model_id@),
{
    let c = chars_of(model_id);
    let mut out: Vec<char> = Vec::new();
    for i in 0..c.len()
        invariant
            c@ == model_id@,
            out@ == dir_name(model_id@.take(i as int)),
    {
        let ghost t = model_id@.take(i + 1);
        assert(t.drop_last() =~= model_id@.take(i as int));
        if c[i] == '/' {
            out.push('-');
            out.push('-');
        } else {
            out.push(c[i]);
        }
        assert(out@ =~= dir_name(t));
    }
    assert(model_id@.take(c@.len() as int) =~= model_id@);
    string_of(out.as_slice())
}

/// What to do with a model's directory.
#[derive(Clone, Copy, Debug, PartialEq, Eq, Structural)]
pub enum CacheStep {
    /// It is complete.
    Use,
    /// It was left behind by a download that did not finish.
    RemoveAndDownload,
    Download,
}

/// What to do with a model's directory: the marker is written last, so a
/// directory without one is incomplete.
pub fn cache_step(marker: bool, dir: bool) -> (r: CacheStep)
    ensures
        r == if marker {
            CacheStep::Use
        } else if dir {
            CacheStep::RemoveAndDownload
        } else {
            CacheStep::Download
        },
{
    if marker {
        CacheStep::Use
    } else if dir {
        CacheStep::RemoveAndDownload
    } else {
        CacheStep::Download
    }
}

/// What an answer of the hub means.
#[derive(Clone, Copy, Debug, PartialEq, Eq, Structural)]
pub enum Fetched {
    Body,
    /// There is no such file, and it may be missing.
    Missing,
    Failed,
}

/// What a status means for a file that may be missing, or may not.
pub fn http_outcome(status: u16, may_miss: bool) -> (r: Fetched)
    ensures
        r == if status == 404 && may_miss {
            Fetched::Missing
        } else if 200 <= status < 300 {
            Fetched::Body
        } else {
            Fetched::Failed
        },
{
    if status == 404 && may_miss {
        Fetched::Missing
    } else if 200 <= status && status < 300 {
        Fetched::Body
    } else {
        Fetched::Failed
    }
}

/// The strings among the values of an index's members, in order.
pub open spec fn shard_texts(m: Seq<(Seq<char>, Seq<char>)>, n: nat) -> Seq<Seq<char>>
    decreases n,
{
    if n == 0 {
        Seq::empty()
    } else {
        let rest = shard_texts(m, (n - 1) as nat);
        match json_string(m[n - 1].1) {
            Some(s) => if rest.contains(s) {
                rest
            } else {
                rest.push(s)
            },
            None => rest,
        }
    }
}

fn known(v: &Vec<String>, s: &str) -> (r: bool)
    ensures
        r == texts(v@).contains(s@),
{
    for i in 0..v.len()
        invariant
            forall|k: int| 0 <= k < i ==> (#[trigger] texts(v@)[k]) != s@,
    {
        if str_eq(v[i].as_str(), s) {
            assert(texts(v@)[i as int] == s@);
            return true;
        }
    }
    false
}

/// The distinct weight files that an index of members names, in the order they
/// are first named.
pub fn distinct_shards(members: &Vec<(String, String)>) -> (r: Vec<String>)
    ensures
        texts(r@) == shard_texts(members_view(members@), members@.len()),
{
    let mut r: Vec<String> = Vec::new();
    assert(texts(r@) =~= Seq::empty());
    for i in 0..members.len()
        invariant
            texts(r@) == shard_texts(members_view(members@), i as nat),
    {
        assert(members_view(members@)[i as int].1 == members@[i as int].1@);
        if let Some(s) = unquoted(members[i].1.as_str()) {
            if !known(&r, s.as_str()) {
                let ghost before = r@;
                r.push(s);
                proof {
                    lemma_texts_push(before, s);
                }
            }
        }
    }
    r
}

/// The weight files of a model that has a shard index.
pub fn shards(index: &str) -> (r: Result<Vec<String>, HubError>)
    ensures
        match json_members(index@, "weight_map"@) {
            None => r is Err && r->Err_0 == HubError::IndexSyntax,
            Some(None) => r is Err && r->Err_0 == HubError::InvalidIndex,
            Some(Some(m)) => r is Ok && texts(r->Ok_0@) == shard_texts(m, m.len()),
        },
{
    match members(index, "weight_map") {
        None => Err(HubError::IndexSyntax),
        Some(None) => Err(HubError::InvalidIndex),
        Some(Some(m)) => {
            let r = distinct_shards(&m);
            assert(members_view(m@).len() == m@.len());
            Ok(r)
        },
    }
}

/// No weight file is named twice.
pub proof fn law_shards_distinct(m: Seq<(Seq<char>, Seq<char>)>, n: nat)
    requires
        n <= m.len(),
    ensures
        shard_texts(m, n).no_duplicates(),
        forall|i: int|
            0 <= i < n && json_string(#[trigger] m[i].1) is Some ==> shard_texts(m, n).contains(
                json_string(m[i].1)->Some_0,
            ),
    decreases n,
{
    if n > 0 {
        law_shards_distinct(m, (n - 1) as nat);
        let rest = shard_texts(m, (n - 1) as nat);
        let all = shard_texts(m, n);
        if let Some(s) = json_string(m[n - 1].1) {
            if !rest.contains(s) {
                assert(all[all.len() - 1] == s);
                assert forall|i: int|
                    0 <= i < n && json_string(#[trigger] m[i].1) is Some implies all.contains(
                    json_string(m[i].1)->Some_0,
                ) by {
                    if i < n - 1 {
                        let x = json_string(m[i].1)->Some_0;
                        assert(rest.contains(x));
                        let k = choose|k: int| 0 <= k < rest.len() && rest[k] == x;
                        assert(all[k] == x);
                    }
                }
            }
        }
    }
}

/// A token that the tokenizer adds to its vocabulary. `content` and `special` are
/// JSON.
#[derive(Debug)]
pub struct AddedToken {
    pub id: u64,
    pub content: String,
    pub special: String,
}

/// An added token as a value.
pub open spec fn token(t: AddedToken) -> (nat, Seq<char>, Seq<char>) {
    (t.id as nat, t.content@, t.special@)
}

/// Added tokens as values.
pub open spec fn tokens(v: Seq<AddedToken>) -> Seq<(nat, Seq<char>, Seq<char>)> {
    v.map_values(|t: AddedToken| token(t))
}

/// One entry of the added tokens.
pub open spec fn token_json(t: (nat, Seq<char>, Seq<char>)) -> Seq<char> {
    "{\"content\":"@ + t.1 + ",\"id\":"@ + dec(t.0) + ",\"lstrip\":false,\"normalized\":false,\"rstrip\":false,\"single_word\":false,\"special\":"@ + t.2 + "}"@
}

/// The entries of the first `n` added tokens.
pub open spec fn tokens_json(v: Seq<(nat, Seq<char>, Seq<char>)>, n: nat) -> Seq<char>
    decreases n,
{
    if n == 0 {
        Seq::empty()
    } else if n == 1 {
        token_json(v[0])
    } else {
        tokens_json(v, (n - 1) as nat) + ","@ + token_json(v[n - 1])
    }
}

/// The merge rules of a merge file: the lines that are neither empty nor
/// comments.
pub open spec fn merge_rules(l: Seq<Seq<char>>, n: nat) -> Seq<Seq<char>>
    decreases n,
{
    if n == 0 {
        Seq::empty()
    } else {
        let rest = merge_rules(l, (n - 1) as nat);
        let x = l[n - 1];
        if x.len() == 0 || x[0] == '#' {
            rest
        } else {
            rest.push(x)
        }
    }
}

/// The first `n` merge rules as JSON strings.
pub open spec fn merges_json(v: Seq<Seq<char>>, n: nat) -> Seq<char>
    decreases n,
{
    if n == 0 {
        Seq::empty()
    } else if n == 1 {
        json_quoted(v[0])
    } else {
        merges_json(v, (n - 1) as nat) + ","@ + json_quoted(v[n - 1])
    }
}

/// The tokenizer file: added tokens, vocabulary and merge rules around a fixed
/// byte-level pipeline.
pub open spec fn tokenizer_json(
    vocab: Seq<char>,
    merges: Seq<Seq<char>>,
    added: Seq<(nat, Seq<char>, Seq<char>)>,
) -> Seq<char> {
    "{\"added_tokens\":["@
        + tokens_json(added, added.len())
        + "],\"decoder\":{\"add_prefix_space\":false,\"trim_offsets\":false,\"type\":\"ByteLevel\",\"use_regex\":false},\"model\":{\"byte_fallback\":false,\"continuing_subword_prefix\":\"\",\"dropout\":null,\"end_of_word_suffix\":\"\",\"fuse_unk\":false,\"ignore_merges\":false,\"merges\":["@
        + merges_json(merges, merges.len())
        + "],\"type\":\"BPE\",\"unk_token\":null,\"vocab\":"@
        + vocab
        + "},\"normalizer\":{\"type\":\"NFC\"},\"padding\":null,\"post_processor\":{\"add_prefix_space\":false,\"trim_offsets\":false,\"type\":\"ByteLevel\",\"use_regex\":false},\"pre_tokenizer\":{\"pretokenizers\":[{\"behavior\":\"Isolated\",\"invert\":false,\"pattern\":{\"Regex\":\"(?i:'s|'t|'re|'ve|'m|'ll|'d)|[^\\\\r\\\\n\\\\p{L}\\\\p{N}]?\\\\p{L}+|\\\\p{N}| ?[^\\\\s\\\\p{L}\\\\p{N}]+[\\\\r\\\\n]*|\\\\s*[\\\\r\\\\n]+|\\\\s+(?!\\\\S)|\\\\s+\"},\"type\":\"Split\"},{\"add_prefix_space\":false,\"trim_offsets\":false,\"type\":\"ByteLevel\",\"use_regex\":false}],\"type\":\"Sequence\"},\"truncation\":null,\"version\":\"1.0\"}"@
}

fn rules(text: &str) -> (r: Vec<String>)
    ensures
        texts(r@) == merge_rules(lines_of(text@), lines_of(text@).len()),
{
    let l = lines(text);
    let mut r: Vec<String> = Vec::new();
    assert(texts(r@) =~= Seq::empty());
    for i in 0..l.len()
        invariant
            l@.len() == lines_of(text@).len(),
            forall|k: int| 0 <= k < l@.len() ==> (#[trigger] l@[k])@ == lines_of(text@)[k],
            texts(r@) == merge_rules(lines_of(text@), i as nat),
    {
        if l[i].len() > 0 && l[i][0] != '#' {
            let ghost before = r@;
            let s = string_of(l[i].as_slice());
            r.push(s);
            proof {
                lemma_texts_push(before, s);
            }
        }
    }
    r
}

/// Writes the tokenizer file. `vocab` is JSON, `merges` a merge file.
pub fn tokenizer_text(vocab: &str, merges: &str, added: &Vec<AddedToken>) -> (r: String)
    ensures
        r@ == tokenizer_json(
            vocab@,
            merge_rules(lines_of(merges@), lines_of(merges@).len()),
            tokens(added@),
        ),
{
    let mut a = String::new();
    for i in 0..added.len()
        invariant
            a@ == tokens_json(tokens(added@), i as nat),
    {
        let t = &added[i];
        let mut e = lit("{\"content\":");
        e.append(t.content.as_str());
        e.append(",\"id\":");
        push_dec64(&mut e, t.id);
        e.append(",\"lstrip\":false,\"normalized\":false,\"rstrip\":false,\"single_word\":false,\"special\":");
        e.append(t.special.as_str());
        e.append("}");
        if i > 0 {
            a.append(",");
        }
        a.append(e.as_str());
        proof {
            assert(tokens(added@)[i as int] == token(added@[i as int]));
            assert(a@ =~= tokens_json(tokens(added@), (i + 1) as nat));
        }
    }
    let m = rules(merges);
    let ghost v = texts(m@);
    let mut b = String::new();
    for i in 0..m.len()
        invariant
            v == texts(m@),
            b@ == merges_json(v, i as nat),
    {
        let q = quoted(m[i].as_str());
        if i > 0 {
            b.append(",");
        }
        b.append(q.as_str());
        proof {
            assert(v[i as int] == m@[i as int]@);
            assert(b@ =~= merges_json(v, (i + 1) as nat));
        }
    }
    let mut s = lit("{\"added_tokens\":[");
    s.append(a.as_str());
    s.append("],\"decoder\":{\"add_prefix_space\":false,\"trim_offsets\":false,\"type\":\"ByteLevel\",\"use_regex\":false},\"model\":{\"byte_fallback\":false,\"continuing_subword_prefix\":\"\",\"dropout\":null,\"end_of_word_suffix\":\"\",\"fuse_unk\":false,\"ignore_merges\":false,\"merges\":[");
    s.append(b.as_str());
    s.append("],\"type\":\"BPE\",\"unk_token\":null,\"vocab\":");
    s.append(vocab);
    s.append("},\"normalizer\":{\"type\":\"NFC\"},\"padding\":null,\"post_processor\":{\"add_prefix_space\":false,\"trim_offsets\":false,\"type\":\"ByteLevel\",\"use_regex\":false},\"pre_tokenizer\":{\"pretokenizers\":[{\"behavior\":\"Isolated\",\"invert\":false,\"pattern\":{\"Regex\":\"(?i:'s|'t|'re|'ve|'m|'ll|'d)|[^\\\\r\\\\n\\\\p{L}\\\\p{N}]?\\\\p{L}+|\\\\p{N}| ?[^\\\\s\\\\p{L}\\\\p{N}]+[\\\\r\\\\n]*|\\\\s*[\\\\r\\\\n]+|\\\\s+(?!\\\\S)|\\\\s+\"},\"type\":\"Split\"},{\"add_prefix_space\":false,\"trim_offsets\":false,\"type\":\"ByteLevel\",\"use_regex\":false}],\"type\":\"Sequence\"},\"truncation\":null,\"version\":\"1.0\"}");
    s
}

/// The added tokens among the first `n` entries of a configuration: those whose
/// key is a number.
pub open spec fn listed(m: Seq<(Seq<char>, Seq<char>, Seq<char>)>, n: nat) -> Seq<(nat, Seq<char>, Seq<char>)>
    decreases n,
{
    if n == 0 {
        Seq::empty()
    } else {
        let rest = listed(m, (n - 1) as nat);
        let (k, content, special) = m[n - 1];
        match parse_value(k, u64::MAX as nat) {
            Some(id) => rest.push((id, content, special)),
            None => rest,
        }
    }
}

/// The keys by which added tokens are sorted.
pub open spec fn id_keys(v: Seq<(nat, Seq<char>, Seq<char>)>) -> Seq<(int, Seq<char>)> {
    v.map_values(|t: (nat, Seq<char>, Seq<char>)| (t.0 as int, Seq::<char>::empty()))
}

/// Added tokens by id, equal ids in the order they were listed.
pub open spec fn by_id(v: Seq<(nat, Seq<char>, Seq<char>)>) -> Seq<(nat, Seq<char>, Seq<char>)> {
    ordered(id_keys(v)).map_values(|i: usize| v[i as int])
}

fn token_copy(t: &AddedToken) -> (r: AddedToken)
    ensures
        token(r) == token(*t),
{
    AddedToken { id: t.id, content: lit(t.content.as_str()), special: lit(t.special.as_str()) }
}

/// Sorts added tokens by id, keeping the order of equals.
pub fn sort_tokens(v: &Vec<AddedToken>) -> (r: Vec<AddedToken>)
    ensures
        tokens(r@) == by_id(tokens(v@)),
{
    let ghost t = tokens(v@);
    let mut k: Vec<Key> = Vec::new();
    for i in 0..v.len()
        invariant
            t == tokens(v@),
            keys(k@) == id_keys(t).take(i as int),
    {
        let one = Key { rank: v[i].id, name: Vec::new() };
        let ghost before = k@;
        k.push(one);
        proof {
            assert(one.name@ =~= Seq::<char>::empty());
            assert(t[i as int] == token(v@[i as int]));
            assert(keys(k@) =~= keys(before).push(key(one)));
            assert(id_keys(t).take(i + 1) =~= id_keys(t).take(i as int).push(id_keys(t)[i as int]));
        }
    }
    assert(id_keys(t).take(v@.len() as int) =~= id_keys(t));
    let o = sorted(&k);
    let mut r: Vec<AddedToken> = Vec::new();
    assert(tokens(r@) =~= by_id(t).take(0));
    for i in 0..o.len()
        invariant
            t == tokens(v@),
            o@ == ordered(id_keys(t)),
            o@.len() == v@.len(),
            forall|p: int| 0 <= p < o@.len() ==> #[trigger] o@[p] < v@.len(),
            tokens(r@) == by_id(t).take(i as int),
    {
        let c = token_copy(&v[o[i]]);
        let ghost before = r@;
        r.push(c);
        proof {
            assert(tokens(r@) =~= tokens(before).push(token(c)));
            assert(t[o@[i as int] as int] == token(v@[o@[i as int] as int]));
            assert(by_id(t).take(i + 1) =~= by_id(t).take(i as int).push(by_id(t)[i as int]));
        }
    }
    assert(by_id(t).take(o@.len() as int) =~= by_id(t));
    r
}

/// The added tokens of a configuration's entries, in the entries' order.
pub fn list_tokens(m: &Vec<(String, String, String)>) -> (r: Vec<AddedToken>)
    ensures
        tokens(r@) == listed(entries_view(m@), m@.len()),
{
    let mut r: Vec<AddedToken> = Vec::new();
    assert(tokens(r@) =~= Seq::empty());
    for i in 0..m.len()
        invariant
            tokens(r@) == listed(entries_view(m@), i as nat),
    {
        let ghost before = r@;
        assert(entries_view(m@)[i as int] == (m@[i as int].0@, m@[i as int].1@, m@[i as int].2@));
        if let Some(id) = parse_u64(m[i].0.as_str()) {
            let one = AddedToken { id, content: lit(m[i].1.as_str()), special: lit(m[i].2.as_str()) };
            r.push(one);
            assert(tokens(r@) =~= tokens(before).push(token(one)));
        }
    }
    r
}

/// The added tokens of a tokenizer configuration; none where it lists none.
pub open spec fn added_tokens(config: Seq<char>) -> Option<Seq<(nat, Seq<char>, Seq<char>)>> {
    match json_entries(config, "added_tokens_decoder"@, "content"@, "special"@) {
        None => None,
        Some(None) => Some(Seq::empty()),
        Some(Some(m)) => Some(by_id(listed(m, m.len()))),
    }
}

/// Puts the tokenizer file together from a vocabulary, a merge file and a
/// tokenizer configuration.
pub fn build_qwen3_tokenizer_json(vocab: &str, merges: &str, tok_config: &str) -> (r: Result<String, HubError>)
    ensures
        match (json_compact(vocab@), added_tokens(tok_config@)) {
            (None, _) => r is Err && r->Err_0 == HubError::Vocab,
            (Some(_), None) => r is Err && r->Err_0 == HubError::TokenizerConfig,
            (Some(v), Some(a)) => r is Ok && r->Ok_0@ == tokenizer_json(
                v,
                merge_rules(lines_of(merges@), lines_of(merges@).len()),
                a,
            ),
        },
{
    let v = match compact(vocab) {
        Some(v) => v,
        None => {
            return Err(HubError::Vocab);
        },
    };
    let added = match entries(tok_config, "added_tokens_decoder", "content", "special") {
        None => {
            return Err(HubError::TokenizerConfig);
        },
        Some(None) => Vec::new(),
        Some(Some(m)) => {
            let l = list_tokens(&m);
            assert(entries_view(m@).len() == m@.len());
            sort_tokens(&l)
        },
    };
    proof {
        assert(tokens(Seq::<AddedToken>::empty()) =~= Seq::empty());
        assert(added_tokens(tok_config@) == Some(tokens(added@)));
    }
    Ok(tokenizer_text(v.as_str(), merges, &added))
}

} // verus!
