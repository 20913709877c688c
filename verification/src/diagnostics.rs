//! Entry points of the harness: what a caller gets back when the engine was held
//! or not, and when it succeeded or not.
use vstd::prelude::*;

use crate::cpu_tower::CpuAudioEncoder;
use crate::error::AsrError;
use crate::geometry::{conv_len, token_len};

verus! {

/// What an entry point returns: the error of the hold where the engine could not
/// be held, else the outcome, its failure as one of inference.
pub open spec fn returned<T>(held: Result<(), AsrError>, outcome: Result<T, String>) -> Result<T, AsrError> {
    match held {
        Err(e) => Err(e),
        Ok(_) => match outcome {
            Ok(v) => Ok(v),
            Err(e) => Err(AsrError::Inference(e)),
        },
    }
}

fn pass<T>(held: Result<(), AsrError>, outcome: Result<T, String>) -> (r: Result<T, AsrError>)
    ensures
        r == returned(held, outcome),
{
    match held {
        Err(e) => Err(e),
        Ok(_) => match outcome {
            Ok(v) => Ok(v),
            Err(e) => Err(AsrError::Inference(e)),
        },
    }
}

/// The outcome of a transcription that dumps its tensors.
pub fn transcribe_with_dump<T>(held: Result<(), AsrError>, outcome: Result<T, String>) -> (r: Result<T, AsrError>)
    ensures
        r == returned(held, outcome),
{
    pass(held, outcome)
}

/// The outcome of one that hands its tokens out as well.
pub fn transcribe_with_dump_streaming<T>(held: Result<(), AsrError>, outcome: Result<T, String>) -> (r: Result<
    T,
    AsrError,
>)
    ensures
        r == returned(held, outcome),
{
    pass(held, outcome)
}

/// The outcome of a comparison of the two audio towers.
pub fn diagnose_encoder(held: Result<(), AsrError>, outcome: Result<(), String>) -> (r: Result<(), AsrError>)
    ensures
        r == returned(held, outcome),
{
    pass(held, outcome)
}

/// Channels and planes of the conv levels for `n_mels` bins.
pub fn conv_geometry(held: Result<(), AsrError>, tower: &CpuAudioEncoder, n_mels: usize) -> (r: Result<
    [usize; 9],
    AsrError,
>)
    requires
        tower.wf(),
        1 <= n_mels <= usize::MAX / 4,
    ensures
        match held {
            Err(e) => r == Err::<[usize; 9], AsrError>(e),
            Ok(_) => r is Ok && r->Ok_0@ == seq![
                tower.c1.rows,
                conv_len(n_mels as int) as usize,
                conv_len(tower.chunk()) as usize,
                tower.c2.rows,
                conv_len(conv_len(n_mels as int)) as usize,
                conv_len(conv_len(tower.chunk())) as usize,
                tower.c3.rows,
                token_len(n_mels as int) as usize,
                token_len(tower.chunk()) as usize,
            ],
        },
{
    match held {
        Err(e) => Err(e),
        Ok(_) => Ok(tower.conv_geometry(n_mels)),
    }
}

/// Input width of the conv projection, 0 where the engine could not be held.
pub fn conv_out_in_features(held: Result<(), AsrError>, tower: &CpuAudioEncoder) -> (r: usize)
    ensures
        r == if held is Ok {
            tower.conv_out.cols
        } else {
            0
        },
{
    match held {
        Err(_) => 0,
        Ok(_) => tower.conv_out_in_features(),
    }
}

} // verus!
