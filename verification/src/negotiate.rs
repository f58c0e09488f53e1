//! Session negotiation: obtaining a relay endpoint from the
//! backend, with bounded retries while the camera is busy.
//!
//! Only a busy reply is retried, with a fixed delay, up to five
//! requests in all; any other backend denial fails the negotiation
//! at once. The application shell makes the HTTP calls and hands
//! each reply to the state machine here.

use vstd::prelude::*;

use crate::api::LiveViewResponse;
use crate::errors::LiveError;
use crate::util::{contains_bytes, contains_seq, dec_repr, format_i64, push_all};

verus! {

/// Most backend requests a negotiation may make.
pub const MAX_NEGOTIATION_ATTEMPTS: u32 = 5;

/// Fixed delay before retrying a busy camera, in seconds.
pub const BUSY_RETRY_DELAY_SECONDS: u64 = 4;

/// One backend reply to a liveview request, as the application
/// hands it in: the endpoint, or the text of the denial.
pub enum LiveviewReply {
    Granted { endpoint: LiveViewResponse },
    Denied { message: Vec<u8> },
}

/// A denial that means the camera is busy: the text carries the
/// redirect status `307` or the word `busy`.
pub open spec fn busy_signal(msg: Seq<u8>) -> bool {
    contains_seq(msg, seq![51u8, 48u8, 55u8]) || contains_seq(msg, seq![98u8, 117u8, 115u8, 121u8])
}

/// Classifies a denial text.
pub fn is_busy_signal(msg: &[u8]) -> (r: bool)
    ensures
        r == busy_signal(msg@),
{
    let status: Vec<u8> = vec![51u8, 48u8, 55u8];
    let word: Vec<u8> = vec![98u8, 117u8, 115u8, 121u8];
    assert(status@ =~= seq![51u8, 48u8, 55u8]);
    assert(word@ =~= seq![98u8, 117u8, 115u8, 121u8]);
    contains_bytes(msg, status.as_slice()) || contains_bytes(msg, word.as_slice())
}

/// The reply is a busy denial.
pub open spec fn is_busy_denial(r: LiveviewReply) -> bool {
    match r {
        LiveviewReply::Denied { message } => busy_signal(message@),
        _ => false,
    }
}

/// What the negotiator asks of its driver after a reply.
pub enum NegotiationStep {
    /// Use this endpoint; negotiation is over.
    Granted { endpoint: LiveViewResponse },
    /// Sleep this many seconds and request again.
    RetryAfterDelay { delay_seconds: u64 },
    /// Negotiation is over and failed.
    Failed { error: LiveError, message: Vec<u8> },
}

/// Negotiation state: how many busy denials have been absorbed.
pub struct Negotiation {
    pub busy_replies: u32,
}

impl Negotiation {
    /// A fresh negotiation, before the first request.
    pub fn new() -> (r: Negotiation)
        ensures
            r.busy_replies == 0,
    {
        Negotiation { busy_replies: 0 }
    }

    /// Absorbs one backend reply.
    ///
    /// A grant ends the negotiation with its endpoint. A busy
    /// denial is retried after the fixed delay until the request
    /// budget is spent, and then fails with `DeviceBusyExhausted`;
    /// any other denial fails at once with
    /// `SessionNegotiationFailed` and the denial's own text.
    pub fn on_reply(&mut self, reply: LiveviewReply) -> (step: NegotiationStep)
        requires
            old(self).busy_replies < MAX_NEGOTIATION_ATTEMPTS,
        ensures
            match reply {
                LiveviewReply::Granted { endpoint } => step == (NegotiationStep::Granted {
                    endpoint,
                }) && final(self).busy_replies == old(self).busy_replies,
                LiveviewReply::Denied { message } => {
                    if busy_signal(message@) {
                        &&& final(self).busy_replies == old(self).busy_replies + 1
                        &&& if old(self).busy_replies + 1 == MAX_NEGOTIATION_ATTEMPTS {
                            step == (NegotiationStep::Failed {
                                error: LiveError::DeviceBusyExhausted,
                                message,
                            })
                        } else {
                            step == (NegotiationStep::RetryAfterDelay {
                                delay_seconds: BUSY_RETRY_DELAY_SECONDS,
                            })
                        }
                    } else {
                        &&& final(self).busy_replies == old(self).busy_replies
                        &&& step == (NegotiationStep::Failed {
                            error: LiveError::SessionNegotiationFailed,
                            message,
                        })
                    }
                },
            },
    {
        match reply {
            LiveviewReply::Granted { endpoint } => NegotiationStep::Granted { endpoint },
            LiveviewReply::Denied { message } => {
                if is_busy_signal(message.as_slice()) {
                    self.busy_replies = self.busy_replies + 1;
                    if self.busy_replies == MAX_NEGOTIATION_ATTEMPTS {
                        NegotiationStep::Failed { error: LiveError::DeviceBusyExhausted, message }
                    } else {
                        NegotiationStep::RetryAfterDelay {
                            delay_seconds: BUSY_RETRY_DELAY_SECONDS,
                        }
                    }
                } else {
                    NegotiationStep::Failed {
                        error: LiveError::SessionNegotiationFailed,
                        message,
                    }
                }
            },
        }
    }
}

/// Product tags of the doorbell family.
pub open spec fn is_doorbell_family(t: Seq<u8>) -> bool {
    t == seq![116u8, 117u8, 108u8, 105u8, 112u8] || t == seq![
        100u8, 111u8, 111u8, 114u8, 98u8, 101u8, 108u8, 108u8,
    ]
}

/// Product tags of the owl family.
pub open spec fn is_owl_family(t: Seq<u8>) -> bool {
    t == seq![111u8, 119u8, 108u8] || t == seq![109u8, 105u8, 110u8, 105u8]
}

/// The backend path of a liveview request: doorbells and owls use
/// their own v1 family paths; every other product uses the v5
/// camera path.
pub open spec fn liveview_path_spec(
    account_id: int,
    network_id: int,
    camera_id: int,
    t: Seq<u8>,
) -> Seq<u8> {
    let networks = seq![47u8, 110u8, 101u8, 116u8, 119u8, 111u8, 114u8, 107u8, 115u8, 47u8];
    let tail = seq![47u8, 108u8, 105u8, 118u8, 101u8, 118u8, 105u8, 101u8, 119u8];
    let v1 = seq![
        47u8, 97u8, 112u8, 105u8, 47u8, 118u8, 49u8, 47u8, 97u8, 99u8, 99u8, 111u8, 117u8,
        110u8, 116u8, 115u8, 47u8,
    ];
    let v5 = seq![
        47u8, 97u8, 112u8, 105u8, 47u8, 118u8, 53u8, 47u8, 97u8, 99u8, 99u8, 111u8, 117u8,
        110u8, 116u8, 115u8, 47u8,
    ];
    if is_doorbell_family(t) {
        v1 + dec_repr(account_id) + networks + dec_repr(network_id) + seq![
            47u8, 100u8, 111u8, 111u8, 114u8, 98u8, 101u8, 108u8, 108u8, 115u8, 47u8,
        ] + dec_repr(camera_id) + tail
    } else if is_owl_family(t) {
        v1 + dec_repr(account_id) + networks + dec_repr(network_id) + seq![
            47u8, 111u8, 119u8, 108u8, 115u8, 47u8,
        ] + dec_repr(camera_id) + tail
    } else {
        v5 + dec_repr(account_id) + networks + dec_repr(network_id) + seq![
            47u8, 99u8, 97u8, 109u8, 101u8, 114u8, 97u8, 115u8, 47u8,
        ] + dec_repr(camera_id) + tail
    }
}

/// Builds the backend path of a liveview request for the product's
/// path family, relative to the base URL.
pub fn liveview_request_path(
    account_id: i64,
    network_id: i64,
    camera_id: i64,
    product_type: &[u8],
) -> (r: Vec<u8>)
    ensures
        r@ == liveview_path_spec(
            account_id as int,
            network_id as int,
            camera_id as int,
            product_type@,
        ),
{
    let tulip: Vec<u8> = vec![116u8, 117u8, 108u8, 105u8, 112u8];
    let doorbell: Vec<u8> = vec![100u8, 111u8, 111u8, 114u8, 98u8, 101u8, 108u8, 108u8];
    let owl: Vec<u8> = vec![111u8, 119u8, 108u8];
    let mini: Vec<u8> = vec![109u8, 105u8, 110u8, 105u8];
    assert(tulip@ =~= seq![116u8, 117u8, 108u8, 105u8, 112u8]);
    assert(doorbell@ =~= seq![100u8, 111u8, 111u8, 114u8, 98u8, 101u8, 108u8, 108u8]);
    assert(owl@ =~= seq![111u8, 119u8, 108u8]);
    assert(mini@ =~= seq![109u8, 105u8, 110u8, 105u8]);
    let is_doorbell = crate::util::bytes_eq(product_type, tulip.as_slice())
        || crate::util::bytes_eq(product_type, doorbell.as_slice());
    let is_owl = crate::util::bytes_eq(product_type, owl.as_slice()) || crate::util::bytes_eq(
        product_type,
        mini.as_slice(),
    );
    let mut out: Vec<u8> = Vec::new();
    let prefix: Vec<u8> = if is_doorbell || is_owl {
        vec![
            47u8, 97u8, 112u8, 105u8, 47u8, 118u8, 49u8, 47u8, 97u8, 99u8, 99u8, 111u8, 117u8,
            110u8, 116u8, 115u8, 47u8,
        ]
    } else {
        vec![
            47u8, 97u8, 112u8, 105u8, 47u8, 118u8, 53u8, 47u8, 97u8, 99u8, 99u8, 111u8, 117u8,
            110u8, 116u8, 115u8, 47u8,
        ]
    };
    push_all(&mut out, prefix.as_slice());
    let account_digits = format_i64(account_id);
    push_all(&mut out, account_digits.as_slice());
    let networks: Vec<u8> = vec![
        47u8, 110u8, 101u8, 116u8, 119u8, 111u8, 114u8, 107u8, 115u8, 47u8,
    ];
    push_all(&mut out, networks.as_slice());
    let network_digits = format_i64(network_id);
    push_all(&mut out, network_digits.as_slice());
    let family: Vec<u8> = if is_doorbell {
        vec![47u8, 100u8, 111u8, 111u8, 114u8, 98u8, 101u8, 108u8, 108u8, 115u8, 47u8]
    } else if is_owl {
        vec![47u8, 111u8, 119u8, 108u8, 115u8, 47u8]
    } else {
        vec![47u8, 99u8, 97u8, 109u8, 101u8, 114u8, 97u8, 115u8, 47u8]
    };
    push_all(&mut out, family.as_slice());
    let camera_digits = format_i64(camera_id);
    push_all(&mut out, camera_digits.as_slice());
    let tail: Vec<u8> = vec![47u8, 108u8, 105u8, 118u8, 101u8, 118u8, 105u8, 101u8, 119u8];
    push_all(&mut out, tail.as_slice());
    assert(out@ =~= liveview_path_spec(
        account_id as int,
        network_id as int,
        camera_id as int,
        product_type@,
    ));
    out
}

/// Length of the longest prefix made of busy denials.
pub open spec fn busy_prefix(replies: Seq<LiveviewReply>) -> nat
    decreases replies.len(),
{
    if replies.len() == 0 {
        0
    } else if is_busy_denial(replies.first()) {
        1 + busy_prefix(replies.drop_first())
    } else {
        0
    }
}

proof fn lemma_busy_prefix_at(replies: Seq<LiveviewReply>, i: int)
    requires
        0 <= i <= replies.len(),
        forall|k: int| 0 <= k < i ==> is_busy_denial(#[trigger] replies[k]),
        i == replies.len() || !is_busy_denial(replies[i]),
    ensures
        busy_prefix(replies) == i,
    decreases i,
{
    if i == 0 {
    } else {
        assert(is_busy_denial(replies.first()));
        assert(forall|k: int| 0 <= k < i - 1 ==> #[trigger] replies.drop_first()[k] == replies[k
            + 1]);
        lemma_busy_prefix_at(replies.drop_first(), i - 1);
    }
}

/// How a whole negotiation ends, given the backend's replies in
/// order.
pub enum NegotiationOutcome {
    /// The endpoint of the first grant, after `calls` requests.
    Granted { endpoint: LiveViewResponse, calls: usize },
    /// Five busy denials in a row: `DeviceBusyExhausted` after
    /// exactly five requests.
    BusyExhausted { calls: usize },
    /// A non-busy denial: failed at once with its text.
    Failed { message: Vec<u8>, calls: usize },
    /// The reply script ended before any decision; `calls` replies
    /// were absorbed. A live backend always answers, so a driver
    /// never sees this.
    Unresolved { calls: usize },
}

/// Runs a whole negotiation against a script of replies, absorbing
/// them in order through the state machine until it decides.
///
/// The contract carries the two retry laws: a run whose script
/// opens with `n <= 4` busy denials followed by a grant returns
/// that grant after exactly `n + 1` requests; a script opening with
/// five busy denials exhausts the budget after exactly five
/// requests, no more.
#[verifier::loop_isolation(false)]
pub fn run_negotiation(replies: &mut Vec<LiveviewReply>) -> (r: NegotiationOutcome)
    ensures
        busy_prefix(old(replies)@) >= MAX_NEGOTIATION_ATTEMPTS ==> r == (
        NegotiationOutcome::BusyExhausted { calls: MAX_NEGOTIATION_ATTEMPTS as usize }),
        busy_prefix(old(replies)@) < MAX_NEGOTIATION_ATTEMPTS && busy_prefix(old(replies)@)
            < old(replies)@.len() ==> {
            let b = busy_prefix(old(replies)@);
            match old(replies)@[b as int] {
                LiveviewReply::Granted { endpoint } => r == (NegotiationOutcome::Granted {
                    endpoint,
                    calls: (b + 1) as usize,
                }),
                LiveviewReply::Denied { message } => r == (NegotiationOutcome::Failed {
                    message,
                    calls: (b + 1) as usize,
                }),
            }
        },
        busy_prefix(old(replies)@) < MAX_NEGOTIATION_ATTEMPTS && busy_prefix(old(replies)@)
            == old(replies)@.len() ==> r == (NegotiationOutcome::Unresolved {
            calls: old(replies)@.len() as usize,
        }),
{
    let ghost script = old(replies)@;
    let mut st = Negotiation::new();
    let mut calls: usize = 0;
    while replies.len() > 0 && st.busy_replies < MAX_NEGOTIATION_ATTEMPTS
        invariant
            st.busy_replies <= MAX_NEGOTIATION_ATTEMPTS,
            calls == script.len() - replies@.len(),
            st.busy_replies == calls,
            replies@ == script.skip(calls as int),
            forall|k: int| 0 <= k < calls ==> is_busy_denial(#[trigger] script[k]),
        decreases replies@.len(),
    {
        let reply = replies.remove(0);
        let ghost current = reply;
        proof {
            assert(script.skip(calls as int)[0] == script[calls as int]);
            assert(script.skip(calls as int).remove(0) =~= script.skip(calls as int + 1));
            assert(current == script[calls as int]);
        }
        let step = st.on_reply(reply);
        calls = calls + 1;
        match step {
            NegotiationStep::Granted { endpoint } => {
                proof {
                    assert(!is_busy_denial(current));
                    lemma_busy_prefix_at(script, calls - 1);
                }
                return NegotiationOutcome::Granted { endpoint, calls };
            },
            NegotiationStep::Failed { error, message } => {
                if matches!(error, LiveError::DeviceBusyExhausted) {
                    proof {
                        assert(is_busy_denial(current));
                        assert(forall|k: int| 0 <= k < calls ==> is_busy_denial(
                            #[trigger] script[k],
                        ));
                        lemma_busy_prefix_lower(script, calls as int);
                    }
                    return NegotiationOutcome::BusyExhausted { calls };
                } else {
                    proof {
                        assert(!is_busy_denial(current));
                        lemma_busy_prefix_at(script, calls - 1);
                    }
                    return NegotiationOutcome::Failed { message, calls };
                }
            },
            NegotiationStep::RetryAfterDelay { delay_seconds: _ } => {
                proof {
                    assert(is_busy_denial(current));
                }
            },
        }
    }
    proof {
        if st.busy_replies < MAX_NEGOTIATION_ATTEMPTS {
            lemma_busy_prefix_at(script, calls as int);
        } else {
            lemma_busy_prefix_lower(script, calls as int);
        }
    }
    if st.busy_replies < MAX_NEGOTIATION_ATTEMPTS {
        NegotiationOutcome::Unresolved { calls }
    } else {
        NegotiationOutcome::BusyExhausted { calls }
    }
}

proof fn lemma_busy_prefix_lower(replies: Seq<LiveviewReply>, i: int)
    requires
        0 <= i <= replies.len(),
        forall|k: int| 0 <= k < i ==> is_busy_denial(#[trigger] replies[k]),
    ensures
        busy_prefix(replies) >= i,
    decreases i,
{
    if i > 0 {
        assert(is_busy_denial(replies.first()));
        assert(forall|k: int| 0 <= k < i - 1 ==> #[trigger] replies.drop_first()[k] == replies[k
            + 1]);
        lemma_busy_prefix_lower(replies.drop_first(), i - 1);
    }
}

/// Law: a busy run of `n <= 4` denials followed by a grant ends
/// with that grant after exactly `n + 1` backend requests.
pub proof fn lemma_busy_then_granted(replies: Seq<LiveviewReply>, n: int)
    requires
        0 <= n <= 4,
        n < replies.len(),
        forall|k: int| 0 <= k < n ==> is_busy_denial(#[trigger] replies[k]),
        replies[n] is Granted,
    ensures
        busy_prefix(replies) == n,
        busy_prefix(replies) < MAX_NEGOTIATION_ATTEMPTS,
        busy_prefix(replies) < replies.len(),
{
    lemma_busy_prefix_at(replies, n);
}

/// Law: a run of five or more busy denials exhausts the budget
/// after exactly five requests, whatever follows.
pub proof fn lemma_busy_exhausted(replies: Seq<LiveviewReply>)
    requires
        replies.len() >= MAX_NEGOTIATION_ATTEMPTS,
        forall|k: int| 0 <= k < MAX_NEGOTIATION_ATTEMPTS ==> is_busy_denial(
            #[trigger] replies[k],
        ),
    ensures
        busy_prefix(replies) >= MAX_NEGOTIATION_ATTEMPTS,
{
    lemma_busy_prefix_lower(replies, MAX_NEGOTIATION_ATTEMPTS as int);
}

} // verus!
