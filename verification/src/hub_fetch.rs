//! Downloading a model: which file comes next, and when the download is complete.
use vstd::prelude::*;

use crate::hub::{
    added_tokens, build_qwen3_tokenizer_json, json_compact, json_members, merge_rules, shard_texts, shards,
    tokenizer_json, HubError,
};
use crate::manifest::lines_of;
use crate::score::{lemma_texts_push, texts};
use crate::text::lit;

verus! {

/// What a download does next.
#[derive(Debug)]
pub enum Action {
    /// Fetch a file that has to exist and keep it.
    Keep(String),
    /// Fetch a file that may be missing; keep it and hand its text back.
    TryKeep(String),
    /// Stream a weight file into the directory.
    Stream(String),
    /// Fetch a text that has to exist and hand it back.
    Read(String),
    /// Write a file.
    Write { name: String, text: String },
    /// Nothing is left to do.
    Finish,
}

/// What came of an action that did not fail.
#[derive(Debug)]
pub enum Event {
    Done,
    Text(String),
    Missing,
}

/// What a download waits for.
#[derive(Debug)]
pub enum Stage {
    Config,
    Index,
    /// The weight file before `at`.
    Weights { files: Vec<String>, at: usize },
    TokenizerConfig,
    Vocab { tok_config: String },
    Merges { tok_config: String, vocab: String },
    Tokenizer,
    Marker,
    Finished,
}

/// An action as a value.
pub enum Act {
    Keep(Seq<char>),
    TryKeep(Seq<char>),
    Stream(Seq<char>),
    Read(Seq<char>),
    Write { name: Seq<char>, text: Seq<char> },
    Finish,
}

/// An event as a value.
pub enum Reply {
    Done,
    Text(Seq<char>),
    Missing,
}

/// A stage as a value.
pub enum Place {
    Config,
    Index,
    Weights { files: Seq<Seq<char>>, at: int },
    TokenizerConfig,
    Vocab { tok_config: Seq<char> },
    Merges { tok_config: Seq<char>, vocab: Seq<char> },
    Tokenizer,
    Marker,
    Finished,
}

impl Action {
    /// The action as a value.
    pub open spec fn act(self) -> Act {
        match self {
            Action::Keep(n) => Act::Keep(n@),
            Action::TryKeep(n) => Act::TryKeep(n@),
            Action::Stream(n) => Act::Stream(n@),
            Action::Read(n) => Act::Read(n@),
            Action::Write { name, text } => Act::Write { name: name@, text: text@ },
            Action::Finish => Act::Finish,
        }
    }
}

impl Event {
    /// The event as a value.
    pub open spec fn reply(self) -> Reply {
        match self {
            Event::Done => Reply::Done,
            Event::Text(t) => Reply::Text(t@),
            Event::Missing => Reply::Missing,
        }
    }
}

impl Stage {
    /// The stage as a value.
    pub open spec fn place(self) -> Place {
        match self {
            Stage::Config => Place::Config,
            Stage::Index => Place::Index,
            Stage::Weights { files, at } => Place::Weights { files: texts(files@), at: at as int },
            Stage::TokenizerConfig => Place::TokenizerConfig,
            Stage::Vocab { tok_config } => Place::Vocab { tok_config: tok_config@ },
            Stage::Merges { tok_config, vocab } => Place::Merges { tok_config: tok_config@, vocab: vocab@ },
            Stage::Tokenizer => Place::Tokenizer,
            Stage::Marker => Place::Marker,
            Stage::Finished => Place::Finished,
        }
    }
}

/// The weight files of a model: the single file where there is no index, else
/// those that the index names.
pub open spec fn weights_of(index: Option<Seq<char>>) -> Result<Seq<Seq<char>>, HubError> {
    match index {
        None => Ok(seq!["model.safetensors"@]),
        Some(t) => match json_members(t, "weight_map"@) {
            None => Err(HubError::IndexSyntax),
            Some(None) => Err(HubError::InvalidIndex),
            Some(Some(m)) => Ok(shard_texts(m, m.len())),
        },
    }
}

/// The weight files of a model: the single file where there is no index, else
/// those that the index names.
pub fn weight_files(index: &Option<String>) -> (r: Result<Vec<String>, HubError>)
    ensures
        match *index {
            None => r is Ok && texts(r->Ok_0@) == seq!["model.safetensors"@],
            Some(t) => match json_members(t@, "weight_map"@) {
                None => r is Err && r->Err_0 == HubError::IndexSyntax,
                Some(None) => r is Err && r->Err_0 == HubError::InvalidIndex,
                Some(Some(m)) => r is Ok && texts(r->Ok_0@) == shard_texts(m, m.len()),
            },
        },
{
    match index {
        None => {
            let mut v: Vec<String> = Vec::new();
            assert(texts(v@) =~= Seq::empty());
            let one = lit("model.safetensors");
            let ghost before = v@;
            v.push(one);
            proof {
                lemma_texts_push(before, one);
            }
            assert(texts(v@) =~= seq!["model.safetensors"@]);
            Ok(v)
        },
        Some(t) => shards(t.as_str()),
    }
}

/// The tokenizer file that three texts make.
pub open spec fn tokenizer_of(vocab: Seq<char>, merges: Seq<char>, config: Seq<char>) -> Result<Seq<char>, HubError> {
    match (json_compact(vocab), added_tokens(config)) {
        (None, _) => Err(HubError::Vocab),
        (Some(_), None) => Err(HubError::TokenizerConfig),
        (Some(v), Some(a)) => Ok(tokenizer_json(v, merge_rules(lines_of(merges), lines_of(merges).len()), a)),
    }
}

/// The event is one that the stage waits for: a text where one was asked for, and
/// nothing missing but the index.
pub open spec fn expected(p: Place, r: Reply) -> bool {
    match p {
        Place::Index => r is Text || r is Missing,
        Place::TokenizerConfig => r is Text,
        Place::Vocab { .. } => r is Text,
        Place::Merges { .. } => r is Text,
        Place::Finished => false,
        _ => r is Done,
    }
}

/// Streams weight file `at`, or goes on to the tokenizer behind the last.
pub open spec fn on_weights(files: Seq<Seq<char>>, at: int) -> (Place, Act) {
    if at < files.len() {
        (Place::Weights { files, at: at + 1 }, Act::Stream(files[at]))
    } else {
        (Place::TokenizerConfig, Act::Read("tokenizer_config.json"@))
    }
}

/// The empty file that marks a complete download.
pub open spec fn marker() -> Act {
    Act::Write { name: ".complete"@, text: ""@ }
}

/// The tokenizer file, written.
pub open spec fn tokenizer_file(text: Seq<char>) -> Act {
    Act::Write { name: "tokenizer.json"@, text }
}

/// What follows an event.
pub open spec fn next(p: Place, r: Reply) -> Result<(Place, Act), HubError> {
    match p {
        Place::Config => Ok((Place::Index, Act::TryKeep("model.safetensors.index.json"@))),
        Place::Index => match weights_of(
            match r {
                Reply::Text(t) => Some(t),
                _ => None,
            },
        ) {
            Ok(files) => Ok(on_weights(files, 0)),
            Err(e) => Err(e),
        },
        Place::Weights { files, at } => Ok(on_weights(files, at)),
        Place::TokenizerConfig => Ok((Place::Vocab { tok_config: r->Text_0 }, Act::Read("vocab.json"@))),
        Place::Vocab { tok_config } => Ok(
            (Place::Merges { tok_config, vocab: r->Text_0 }, Act::Read("merges.txt"@)),
        ),
        Place::Merges { tok_config, vocab } => match tokenizer_of(vocab, r->Text_0, tok_config) {
            Ok(text) => Ok((Place::Tokenizer, tokenizer_file(text))),
            Err(e) => Err(e),
        },
        Place::Tokenizer => Ok((Place::Marker, marker())),
        _ => Ok((Place::Finished, Act::Finish)),
    }
}

/// How a download begins: with the configuration.
pub fn begin() -> (r: (Stage, Action))
    ensures
        r.0.place() == Place::Config,
        r.1.act() == Act::Keep("config.json"@),
{
    (Stage::Config, Action::Keep(lit("config.json")))
}

fn stream_next(files: Vec<String>, at: usize) -> (r: (Stage, Action))
    ensures
        (r.0.place(), r.1.act()) == on_weights(texts(files@), at as int),
{
    if at < files.len() {
        let name = lit(files[at].as_str());
        assert(texts(files@)[at as int] == name@);
        (Stage::Weights { files, at: at + 1 }, Action::Stream(name))
    } else {
        (Stage::TokenizerConfig, Action::Read(lit("tokenizer_config.json")))
    }
}

/// What follows an event: the stage that the download is in and what it does next.
pub fn step(stage: Stage, event: Event) -> (r: Result<(Stage, Action), HubError>)
    requires
        expected(stage.place(), event.reply()),
    ensures
        match next(stage.place(), event.reply()) {
            Ok(n) => r is Ok && (r->Ok_0.0.place(), r->Ok_0.1.act()) == n,
            Err(e) => r is Err && r->Err_0 == e,
        },
{
    let text: Option<String> = match event {
        Event::Text(t) => Some(t),
        _ => None,
    };
    match stage {
        Stage::Config => Ok((Stage::Index, Action::TryKeep(lit("model.safetensors.index.json")))),
        Stage::Index => match weight_files(&text) {
            Ok(files) => Ok(stream_next(files, 0)),
            Err(e) => Err(e),
        },
        Stage::Weights { files, at } => Ok(stream_next(files, at)),
        Stage::TokenizerConfig => {
            let tok_config = owned(text);
            Ok((Stage::Vocab { tok_config }, Action::Read(lit("vocab.json"))))
        },
        Stage::Vocab { tok_config } => {
            let vocab = owned(text);
            Ok((Stage::Merges { tok_config, vocab }, Action::Read(lit("merges.txt"))))
        },
        Stage::Merges { tok_config, vocab } => {
            let merges = owned(text);
            match build_qwen3_tokenizer_json(vocab.as_str(), merges.as_str(), tok_config.as_str()) {
                Ok(text) => Ok((Stage::Tokenizer, Action::Write { name: lit("tokenizer.json"), text })),
                Err(e) => Err(e),
            }
        },
        Stage::Tokenizer => Ok((Stage::Marker, Action::Write { name: lit(".complete"), text: lit("") })),
        Stage::Marker => Ok((Stage::Finished, Action::Finish)),
        Stage::Finished => Ok((Stage::Finished, Action::Finish)),
    }
}

fn owned(t: Option<String>) -> (r: String)
    requires
        t is Some,
    ensures
        r@ == t->Some_0@,
{
    match t {
        Some(s) => s,
        None => String::new(),
    }
}

/// A download under way: where it is, and everything it was told to do, in order.
pub struct Course {
    pub place: Place,
    pub acts: Seq<Act>,
}

/// A download that went through a list of events. None where an event was not
/// waited for, or a file did not read.
pub open spec fn run(replies: Seq<Reply>) -> Option<Course>
    decreases replies.len(),
{
    if replies.len() == 0 {
        Some(Course { place: Place::Config, acts: seq![Act::Keep("config.json"@)] })
    } else {
        match run(replies.drop_last()) {
            None => None,
            Some(c) => if !expected(c.place, replies.last()) {
                None
            } else {
                match next(c.place, replies.last()) {
                    Ok((place, a)) => Some(Course { place, acts: c.acts.push(a) }),
                    Err(_) => None,
                }
            },
        }
    }
}

/// Streams every file of a list.
pub open spec fn streams(files: Seq<Seq<char>>) -> Seq<Act> {
    files.map_values(|f: Seq<char>| Act::Stream(f))
}

/// Everything that a download does on the way to a place.
pub open spec fn way_to(p: Place, files: Seq<Seq<char>>, tokenizer: Seq<char>) -> Seq<Act> {
    let config = seq![Act::Keep("config.json"@)];
    let head = config.push(Act::TryKeep("model.safetensors.index.json"@));
    let weights = head + streams(files);
    let a = weights.push(Act::Read("tokenizer_config.json"@));
    let b = a.push(Act::Read("vocab.json"@));
    let c = b.push(Act::Read("merges.txt"@));
    let d = c.push(tokenizer_file(tokenizer));
    match p {
        Place::Config => config,
        Place::Index => head,
        Place::Weights { at, .. } => head + streams(files.take(at)),
        Place::TokenizerConfig => a,
        Place::Vocab { .. } => b,
        Place::Merges { .. } => c,
        Place::Tokenizer => d,
        Place::Marker => d.push(marker()),
        Place::Finished => d.push(marker()).push(Act::Finish),
    }
}

/// The weight files of a download: those of the index that the second event
/// brought.
pub open spec fn files_of(replies: Seq<Reply>) -> Seq<Seq<char>> {
    weights_of(
        match replies[1] {
            Reply::Text(t) => Some(t),
            _ => None,
        },
    )->Ok_0
}

/// A download does its work in one order: the configuration, the index, every
/// weight file, the three texts of the tokenizer, the tokenizer file and the
/// marker.
pub proof fn law_download_order(replies: Seq<Reply>)
    requires
        run(replies) is Some,
    ensures
        exists|tokenizer: Seq<char>|
            run(replies)->Some_0.acts == #[trigger] way_to(run(replies)->Some_0.place, files_of(replies), tokenizer),
        (run(replies)->Some_0.place is Config) == (replies.len() == 0),
        (run(replies)->Some_0.place is Index) == (replies.len() == 1),
        run(replies)->Some_0.place matches Place::Weights { files, at } ==> files == files_of(replies) && 0 < at <= files.len(),
    decreases replies.len(),
{
    let (q, acts) = (run(replies)->Some_0.place, run(replies)->Some_0.acts);
    let none = Seq::<char>::empty();
    if replies.len() == 0 {
        assert(acts == way_to(q, files_of(replies), none));
    } else {
        let before = replies.drop_last();
        law_download_order(before);
        let (p, done) = (run(before)->Some_0.place, run(before)->Some_0.acts);
        let r = replies.last();
        let files = files_of(replies);
        let t0 = choose|t: Seq<char>| done == #[trigger] way_to(p, files_of(before), t);
        if before.len() >= 2 {
            assert(before[1] == replies[1]);
            assert(files_of(before) == files);
        }
        match p {
            Place::Config => {
                assert(acts =~= way_to(q, files, none));
            },
            Place::Index => {
                assert(replies[1] == r);
                if files.len() > 0 {
                    assert(streams(files.take(1)) =~= seq![Act::Stream(files[0])]);
                } else {
                    assert(streams(files) =~= Seq::empty());
                }
                assert(acts =~= way_to(q, files, none));
            },
            Place::Weights { files: f, at } => {
                if at < files.len() {
                    assert(streams(files.take(at + 1)) =~= streams(files.take(at)).push(Act::Stream(files[at])));
                } else {
                    assert(files.take(at) =~= files);
                }
                assert(acts =~= way_to(q, files, none));
            },
            Place::Merges { tok_config, vocab } => {
                assert(acts =~= way_to(q, files, tokenizer_of(vocab, r->Text_0, tok_config)->Ok_0));
            },
            _ => {
                assert(acts =~= way_to(q, files, t0));
            },
        }
    }
}

/// The marker is written behind everything else: when a download is told to write
/// it, the configuration, the index and every weight file have been fetched and the
/// tokenizer file has been written, and nothing is written after it.
pub proof fn law_marker_last(replies: Seq<Reply>, i: int)
    requires
        run(replies) is Some,
        0 <= i < run(replies)->Some_0.acts.len(),
        run(replies)->Some_0.acts[i] == marker(),
    ensures
        ({
            let acts = run(replies)->Some_0.acts;
            &&& acts.take(i).contains(Act::Keep("config.json"@))
            &&& acts.take(i).contains(Act::TryKeep("model.safetensors.index.json"@))
            &&& forall|k: int|
                0 <= k < files_of(replies).len() ==> acts.take(i).contains(
                    Act::Stream(#[trigger] files_of(replies)[k]),
                )
            &&& exists|text: Seq<char>|
                acts.take(i).contains(#[trigger] tokenizer_file(text))
            &&& forall|k: int| i < k < acts.len() ==> (#[trigger] acts[k]) is Finish
        }),
{
    law_download_order(replies);
    let (p, acts) = (run(replies)->Some_0.place, run(replies)->Some_0.acts);
    let files = files_of(replies);
    let t = choose|t: Seq<char>| acts == #[trigger] way_to(p, files, t);
    reveal_strlit("tokenizer.json");
    reveal_strlit(".complete");
    let n = files.len() as int;
    let tok = tokenizer_file(t);
    assert("tokenizer.json"@.len() != ".complete"@.len());
    assert(tok != marker());
    assert(p is Marker || p is Finished);
    assert(i == n + 6);
    let b = acts.take(i);
    assert(b[0] == Act::Keep("config.json"@));
    assert(b[1] == Act::TryKeep("model.safetensors.index.json"@));
    assert(b[n + 5] == tok);
    assert forall|k: int| 0 <= k < n implies b.contains(Act::Stream(#[trigger] files[k])) by {
        assert(b[k + 2] == streams(files)[k]);
    }
}

} // verus!
