use std::collections::hash_map::DefaultHasher;
use std::hash::Hasher;
use vstd::prelude::*;
use vstd::std_specs::hash::DefaultHasherAdditionalSpecFns;
use vstd::string::StringExecFns;
use vstd::utf8::encode_utf8;

use crate::consts;
use crate::endpoint::WordCountServer;
use crate::strategy::context::StrategyContext;
use crate::strategy::RouteStrategy;

verus! {

/// Routes a request by a hash of its payload: the same bytes go to the same
/// position of an unchanged snapshot. It keeps no state.
pub struct HashByRequest;

/// The hash of a payload: what the default hasher makes of its UTF-8 bytes
/// followed by one byte `0xff`, which cannot occur in UTF-8 and so marks the
/// end of the text.
pub open spec fn request_hash(req: Seq<char>) -> u64 {
    DefaultHasher::spec_finish(seq![encode_utf8(req), seq![0xffu8]])
}

/// The position that the payload `req` is routed to on a snapshot of `len`
/// endpoints.
pub open spec fn hashed_position(req: Seq<char>, len: nat) -> Option<int> {
    if len == 0 {
        None
    } else {
        Some(request_hash(req) as int % len as int)
    }
}

impl HashByRequest {
    pub fn new() -> (strategy: Self) {
        HashByRequest {  }
    }

    pub fn hash(t: &str) -> (digest: u64)
        ensures
            digest == request_hash(t@),
    {
        let end: [u8; 1] = [0xff];
        let mut hasher = DefaultHasher::new();
        hasher.write(t.as_bytes());
        hasher.write(end.as_slice());
        proof {
            assert(end@ =~= seq![0xffu8]);
            assert(hasher@ =~= seq![encode_utf8(t@), seq![0xffu8]]);
        }
        hasher.finish()
    }
}

impl RouteStrategy for HashByRequest {
    fn name(&self) -> (name: String)
        ensures
            name@ == consts::HASH_BY_REQUEST@,
    {
        String::from_str(consts::HASH_BY_REQUEST)
    }

    fn pick(&mut self, ctx: &StrategyContext, endpoints: &Vec<&WordCountServer>) -> (picked: Option<
        usize,
    >)
        ensures
            picked is None <==> endpoints.len() == 0,
            picked matches Some(i) ==> hashed_position(ctx@, endpoints.len() as nat) == Some(
                i as int,
            ),
    {
        let len = endpoints.len();
        if len == 0 {
            return None;
        }
        let hash = Self::hash(ctx.req());
        let server_idx = (hash % (len as u64)) as usize;
        Some(server_idx)
    }
}

/// Two picks by hash agree whenever their payloads are the same and their
/// snapshots have the same size: nothing else enters into the choice.
pub proof fn lemma_hash_pick_is_idempotent(req1: Seq<char>, req2: Seq<char>, len1: nat, len2: nat)
    requires
        req1 == req2,
        len1 == len2,
    ensures
        hashed_position(req1, len1) == hashed_position(req2, len2),
{
}

} // verus!
