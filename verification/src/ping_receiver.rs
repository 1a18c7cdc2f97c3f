use vstd::prelude::*;

use crate::icmpv4::IcmpV4;
use crate::ping_error::PingResult;
use crate::records::PingReceiveRecord;
use crate::socket::Socket;

verus! {

/// The receiving half of the engine: attempts one receive per sync token and
/// publishes a receive record for each parsed reply.
pub struct PingReceiver {}

impl PingReceiver {
    /// One receive attempt, meant to be invoked once per sync token, never in
    /// a tight poll loop. "No data yet" returns cleanly having published
    /// nothing; a parsed reply appends exactly one receive record to
    /// `receive_record_tx`; a genuine transport error is propagated and
    /// publishes nothing.
    pub fn receive<S: Socket>(
        socket: &mut S,
        receive_record_tx: &mut Vec<PingReceiveRecord>,
    ) -> (r: PingResult<()>)
        ensures
            old(receive_record_tx)@.is_prefix_of(final(receive_record_tx)@),
            final(receive_record_tx)@.len() <= old(receive_record_tx)@.len() + 1,
            r is Err ==> final(receive_record_tx)@ == old(receive_record_tx)@,
            forall|j: int|
                old(receive_record_tx)@.len() <= j < final(receive_record_tx)@.len() ==> (
                #[trigger] final(receive_record_tx)@[j]).payload_size >= 8,
    {
        match IcmpV4::try_receive(socket) {
            Err(e) => Err(e),
            Ok(None) => Ok(()),
            Ok(Some((payload_size, ip_addr, sequence_number, receive_time))) => {
                let record = PingReceiveRecord { payload_size, ip_addr, sequence_number, receive_time };
                receive_record_tx.push(record);
                proof {
                    assert(old(receive_record_tx)@.is_prefix_of(receive_record_tx@)) by {
                        assert(receive_record_tx@.subrange(0, old(receive_record_tx)@.len() as int)
                            =~= old(receive_record_tx)@);
                    }
                }
                Ok(())
            },
        }
    }
}

} // verus!
