//! The effect of decisions on the output stream, modelled for the engine that
//! owns the cursor: what one decision writes and retires, and what a whole
//! run of decisions writes.

use vstd::prelude::*;

use crate::decision::Decision;

verus! {

/// The bytes one decision writes when the window it judged was `s`: the
/// emitted prefix, followed by the insertion if there is one, and by the
/// skipped bytes unchanged if there is not.
pub open spec fn decision_output(s: Seq<u8>, d: Decision) -> Seq<u8> {
    s.subrange(0, d.emit_len as int) + match d.insert {
        Some(lit) => lit.bytes_spec(),
        None => s.subrange(d.emit_len as int, d.emit_len + d.skip_len),
    }
}

/// How many bytes of the window one decision retires.
pub open spec fn decision_consumed(d: Decision) -> int {
    d.emit_len + d.skip_len
}

/// Whether the decision stays within the window it judged.
pub open spec fn decision_fits(s: Seq<u8>, d: Decision) -> bool {
    d.emit_len + d.skip_len <= s.len()
}

/// Whether a run of decisions, each judging the remainder of `input` from the
/// cursor the previous ones left, stays within the input throughout.
pub open spec fn run_fits(input: Seq<u8>, cursor: int, ds: Seq<Decision>) -> bool
    decreases ds.len(),
{
    ds.len() == 0 || {
        &&& decision_fits(input.subrange(cursor, input.len() as int), ds[0])
        &&& run_fits(input, cursor + decision_consumed(ds[0]), ds.drop_first())
    }
}

/// The total number of input bytes a run of decisions retires.
pub open spec fn run_consumed(ds: Seq<Decision>) -> int
    decreases ds.len(),
{
    if ds.len() == 0 {
        0
    } else {
        decision_consumed(ds[0]) + run_consumed(ds.drop_first())
    }
}

/// Everything a run of decisions writes: the concatenation of each decision's
/// output, each judged against the remainder of `input` from the cursor the
/// previous ones left.
pub open spec fn run_output(input: Seq<u8>, cursor: int, ds: Seq<Decision>) -> Seq<u8>
    decreases ds.len(),
{
    if ds.len() == 0 {
        Seq::empty()
    } else {
        decision_output(input.subrange(cursor, input.len() as int), ds[0]) + run_output(
            input,
            cursor + decision_consumed(ds[0]),
            ds.drop_first(),
        )
    }
}

/// Byte-for-byte fidelity of the output stream: a run of decisions in which
/// no corrective insertion fires writes back exactly the input bytes it
/// retires, in order.
pub proof fn lemma_round_trip(input: Seq<u8>, cursor: int, ds: Seq<Decision>)
    requires
        0 <= cursor <= input.len(),
        run_fits(input, cursor, ds),
        forall|k: int| 0 <= k < ds.len() ==> ds[k].insert is None,
    ensures
        run_consumed(ds) >= 0,
        cursor + run_consumed(ds) <= input.len(),
        run_output(input, cursor, ds) == input.subrange(cursor, cursor + run_consumed(ds)),
    decreases ds.len(),
{
    if ds.len() == 0 {
        assert(run_output(input, cursor, ds) =~= input.subrange(cursor, cursor));
    } else {
        let d = ds[0];
        let rest = ds.drop_first();
        let window = input.subrange(cursor, input.len() as int);
        let step = decision_consumed(d);
        assert(forall|k: int| 0 <= k < rest.len() ==> rest[k] == ds[k + 1]);
        lemma_round_trip(input, cursor + step, rest);
        assert(decision_output(window, d) =~= input.subrange(cursor, cursor + step));
        assert(run_output(input, cursor, ds) =~= input.subrange(
            cursor,
            cursor + run_consumed(ds),
        ));
    }
}

} // verus!
