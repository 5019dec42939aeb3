//! Running a buffer through a chain of stages, first to last.

use vstd::prelude::*;
use crate::base64_codec::{base64_text, lemma_base64_first, lemma_base64_round_trip};
use crate::error::PipeError;
use crate::hex_codec::{hex_digit, hex_text, lemma_hex_round_trip};
use crate::program::{outcome, transform, PipelineProgram};

verus! {

/// What the chain `ops` makes of `b`: each stage reads what the stage before
/// it wrote, and the first error ends the run.
pub open spec fn run(ops: Seq<PipelineProgram>, b: Seq<u8>) -> Result<Seq<u8>, PipeError>
    decreases ops.len(),
{
    if ops.len() == 0 {
        Ok(b)
    } else {
        match transform(ops[0], b) {
            Ok(next) => run(ops.skip(1), next),
            Err(e) => Err(e),
        }
    }
}

/// Threads `input` through the stages of `pipeline` in the order given. An
/// empty pipeline gives the input back. The first stage that refuses its
/// buffer ends the run with that stage's error.
pub fn do_pipeline(input: Vec<u8>, pipeline: &Vec<PipelineProgram>) -> (out: Result<
    Vec<u8>,
    PipeError,
>)
    ensures
        outcome(out) == run(pipeline@, input@),
{
    let mut val = input;
    let mut i: usize = 0;
    assert(pipeline@.skip(0) =~= pipeline@);
    while i < pipeline.len()
        invariant
            i <= pipeline.len(),
            run(pipeline@, input@) == run(pipeline@.skip(i as int), val@),
        decreases pipeline.len() - i,
    {
        assert(pipeline@.skip(i as int).skip(1) =~= pipeline@.skip(i + 1));
        match pipeline[i].handle(&val) {
            Ok(next) => {
                val = next;
            },
            Err(e) => {
                return Err(e);
            },
        }
        i = i + 1;
    }
    Ok(val)
}

/// A pipeline without stages changes nothing.
pub proof fn lemma_empty_pipeline_is_identity(b: Seq<u8>)
    ensures
        run(Seq::<PipelineProgram>::empty(), b) == Ok::<Seq<u8>, PipeError>(b),
{
}

/// A pipeline is its first stage followed by the rest.
pub proof fn lemma_run_two(first: PipelineProgram, second: PipelineProgram, b: Seq<u8>)
    ensures
        run(seq![first, second], b) == match transform(first, b) {
            Ok(mid) => transform(second, mid),
            Err(e) => Err(e),
        },
{
    let ops = seq![first, second];
    assert(ops.skip(1) =~= seq![second]);
    assert(seq![second].skip(1) =~= Seq::<PipelineProgram>::empty());
    reveal_with_fuel(run, 3);
}

/// An encoder followed by its decoder gives every buffer back: base64 and
/// hexadecimal alike.
pub proof fn lemma_round_trip(b: Seq<u8>)
    ensures
        run(seq![PipelineProgram::B64enc, PipelineProgram::B64dec], b) == Ok::<Seq<u8>, PipeError>(
            b,
        ),
        run(seq![PipelineProgram::Bin2hex, PipelineProgram::Hex2bin], b) == Ok::<
            Seq<u8>,
            PipeError,
        >(b),
{
    lemma_base64_round_trip(b);
    lemma_hex_round_trip(b);
    lemma_run_two(PipelineProgram::B64enc, PipelineProgram::B64dec, b);
    lemma_run_two(PipelineProgram::Bin2hex, PipelineProgram::Hex2bin, b);
}

/// A pipeline made of encoders alone never fails, whatever the buffer.
pub proof fn lemma_encoders_never_fail(ops: Seq<PipelineProgram>, b: Seq<u8>)
    requires
        forall|i: int| 0 <= i < ops.len() ==> (#[trigger] ops[i]).is_encoder(),
    ensures
        run(ops, b).is_ok(),
    decreases ops.len(),
{
    if ops.len() > 0 {
        assert(ops[0].is_encoder());
        lemma_encoders_never_fail(ops.skip(1), transform(ops[0], b).unwrap());
    }
}

/// The order of stages matters: on every buffer that is not empty, writing
/// hexadecimal and then base64 gives another text than writing base64 and
/// then hexadecimal.
pub proof fn lemma_order_matters(b: Seq<u8>)
    requires
        b.len() > 0,
    ensures
        run(seq![PipelineProgram::Bin2hex, PipelineProgram::B64enc], b) != run(
            seq![PipelineProgram::B64enc, PipelineProgram::Bin2hex],
            b,
        ),
{
    lemma_run_two(PipelineProgram::Bin2hex, PipelineProgram::B64enc, b);
    lemma_run_two(PipelineProgram::B64enc, PipelineProgram::Bin2hex, b);
    let h = hex_text(b);
    let t = base64_text(b);
    lemma_base64_first(h);
    lemma_base64_first(t);
    let first_left = base64_text(h)[0];
    let first_right = hex_text(t)[0];
    assert(h[0] == hex_digit(b[0] as int / 16));
    assert(first_left >= 77);
    assert(first_right == hex_digit(t[0] as int / 16));
    assert(t[0] <= 122);
    assert(first_right <= 55);
}

} // verus!
