//! The record kept for each subscriber stream, so that streams survive a restart.
use vstd::prelude::*;

verus! {

/// One subscriber stream of a call leg, as stored.
#[derive(Debug, Clone)]
pub struct CallDetails {
    pub call_leg_id: String,
    pub client_address: String,
    pub codec: String,
    pub mode: String,
    pub metadata: String,
}

impl Default for CallDetails {
    fn default() -> (r: CallDetails)
        ensures
            r.call_leg_id@ == Seq::<char>::empty(),
            r.client_address@ == Seq::<char>::empty(),
            r.codec@ == Seq::<char>::empty(),
            r.mode@ == Seq::<char>::empty(),
            r.metadata@ == Seq::<char>::empty(),
    {
        CallDetails {
            call_leg_id: String::new(),
            client_address: String::new(),
            codec: String::new(),
            mode: String::new(),
            metadata: String::new(),
        }
    }
}

} // verus!
