//! The script emitter: each bucket's lines, joined with newlines into one
//! payload per scope, ready to be written out by the caller.

use vstd::prelude::*;

use crate::buckets::BucketV;
use crate::buckets::Buckets;
use crate::config::pipeline_buckets;
use crate::config::DocumentV;
use crate::text::join_strings;
use crate::text::join_with;

verus! {

/// One emitted output: the scope (global when absent) and the whole payload
/// bound for that scope's file.
pub struct ScriptOutput {
    pub scope: Option<String>,
    pub payload: String,
}

/// Mathematical form of an emitted output.
pub ghost struct ScriptOutputV {
    pub scope: Option<Seq<char>>,
    pub payload: Seq<char>,
}

impl DeepView for ScriptOutput {
    type V = ScriptOutputV;

    open spec fn deep_view(&self) -> ScriptOutputV {
        ScriptOutputV { scope: self.scope.deep_view(), payload: self.payload@ }
    }
}

/// The payload of one bucket: its lines joined by line breaks.
pub open spec fn payload_of(lines: Seq<Seq<char>>) -> Seq<char> {
    join_with(lines, seq!['\n'])
}

/// The outputs of all buckets, one per bucket, in bucket order.
pub open spec fn outputs_of(bs: Seq<BucketV>) -> Seq<ScriptOutputV> {
    bs.map_values(|b: BucketV| ScriptOutputV { scope: b.scope, payload: payload_of(b.lines) })
}

/// Joins every bucket's lines into one payload per scope.
pub fn emit_buckets(b: &Buckets) -> (r: Vec<ScriptOutput>)
    ensures
        r.deep_view() == outputs_of(b@),
{
    broadcast use crate::text::lemma_deep_view_index;

    let mut r: Vec<ScriptOutput> = Vec::new();
    let mut i: usize = 0;
    while i < b.buckets.len()
        invariant
            i <= b.buckets@.len(),
            r@.len() == i,
            forall|j: int|
                0 <= j < i ==> r@[j].deep_view() == (ScriptOutputV {
                    scope: b@[j].scope,
                    payload: payload_of(b@[j].lines),
                }),
        decreases b.buckets@.len() - i,
    {
        let bucket = &b.buckets[i];
        proof {
            assert(bucket.deep_view() == b@[i as int]);
        }
        let payload = join_strings(&bucket.lines, "\n");
        proof {
            reveal_strlit("\n");
            assert("\n"@ =~= seq!['\n']);
        }
        let scope = match &bucket.scope {
            Some(s) => Some(s.clone()),
            None => None,
        };
        r.push(ScriptOutput { scope, payload });
        i += 1;
    }
    proof {
        assert(r.deep_view() =~= outputs_of(b@));
    }
    r
}

/// Emission is a pure function of the accumulated buckets: running the whole
/// pipeline again over the same documents reproduces identical payloads.
pub proof fn lemma_emit_idempotent(docs1: Seq<DocumentV>, docs2: Seq<DocumentV>)
    requires
        docs1 == docs2,
    ensures
        outputs_of(pipeline_buckets(docs1)) == outputs_of(pipeline_buckets(docs2)),
{
}

} // verus!
