//! The request dispatcher: routes inbound messages, gives each accepted
//! request its own time stamp, and pairs every finished run with the
//! correlation id it came with, exactly once.

use std::collections::HashMap;

use vstd::prelude::*;

use crate::invocation::{
    InvocationSpec, build_invocation, is_invocation_for, join_path, output_file_name,
    lemma_distinct_stamps_distinct_paths,
};
use crate::outcome::{GenerationResult, OutcomeView, Response, response_of};
use crate::request::{GenerationRequest, is_fallback};

verus! {

broadcast use vstd::std_specs::hash::group_hash_axioms;

/// Relies on chrono's `From<SystemTime> for DateTime<Utc>` and
/// `DateTime::timestamp`: the system clock in whole seconds since the Unix
/// epoch, negative for a clock set before it. Nothing is promised of the value.
#[verifier::external_body]
fn current_timestamp() -> (r: i64) {
    chrono::DateTime::<chrono::Utc>::from(std::time::SystemTime::now()).timestamp()
}

/// The message kind that asks for audio.
pub open spec fn generation_kind() -> Seq<char> {
    "generate_audio"@
}

/// The message is a generation request.
pub open spec fn is_generation_kind(kind: Option<String>) -> bool {
    kind.is_some() && kind.unwrap()@ == generation_kind()
}

/// The correlation id used when the message carries none.
pub open spec fn missing_id() -> Seq<char> {
    "unknown"@
}

/// The id that replies to a message are tagged with.
pub open spec fn correlation_id(id: Option<String>) -> Seq<char> {
    match id {
        Some(s) => s@,
        None => missing_id(),
    }
}

/// Failure reported when no fresh time stamp is left for a request.
pub open spec fn stamps_exhausted_message() -> Seq<char> {
    "No output file name is left for this request"@
}

/// The stamp for a request arriving at `now`, after `last` was handed out:
/// the clock's value when it has moved past `last`, else the next second after
/// `last`. None when no stamp above `last` exists.
pub open spec fn next_stamp(last: Option<i64>, now: i64) -> Option<i64> {
    match last {
        None => Some(now),
        Some(l) => if now > l {
            Some(now)
        } else if l < i64::MAX {
            Some((l + 1) as i64)
        } else {
            None
        },
    }
}

/// The views of a map's values.
pub open spec fn pending_view(m: Map<i64, String>) -> Map<i64, Seq<char>> {
    m.map_values(|s: String| s@)
}

/// The dispatcher's state as plain values.
pub struct BridgeView {
    pub output_dir: Seq<char>,
    pub last_stamp: Option<i64>,
    /// Correlation id of each request in flight, by its stamp.
    pub pending: Map<i64, Seq<char>>,
}

/// Dispatcher state shared by the request handlers.
pub struct Bridge {
    output_dir: String,
    last_stamp: Option<i64>,
    pending: HashMap<i64, String>,
}

impl View for Bridge {
    type V = BridgeView;

    closed spec fn view(&self) -> BridgeView {
        BridgeView {
            output_dir: self.output_dir@,
            last_stamp: self.last_stamp,
            pending: pending_view(self.pending@),
        }
    }
}

/// One request to run: its stamp, correlation id, request and invocation.
#[derive(Debug)]
pub struct Job {
    pub stamp: i64,
    pub id: String,
    pub request: GenerationRequest,
    pub invocation: InvocationSpec,
}

/// A response tagged with the correlation id of the request it answers.
#[derive(Debug)]
pub struct Reply {
    pub id: String,
    pub response: Response,
}

/// What became of an inbound message.
#[derive(Debug)]
pub enum Admission {
    /// Not a generation request: no reply is owed.
    Ignored,
    /// A request to run; its reply comes from `Bridge::finish`.
    Started(Job),
    /// A request answered at once, without running anything.
    Refused(Reply),
}

/// Well-formedness of a dispatcher state: every stamp in flight was handed
/// out, and none lies above the last one.
pub open spec fn view_wf(v: BridgeView) -> bool {
    &&& v.pending.dom().finite()
    &&& forall|k: i64| #[trigger]
        v.pending.contains_key(k) ==> v.last_stamp.is_some() && k <= v.last_stamp.unwrap()
}

/// The step from `pre` to `post` taken by a message with `kind`, `id` and
/// `payload` arriving at `now`, answered by `r`.
pub open spec fn accept_step(
    pre: BridgeView,
    post: BridgeView,
    kind: Option<String>,
    id: Option<String>,
    payload: Option<GenerationRequest>,
    now: i64,
    r: Admission,
) -> bool {
    if !is_generation_kind(kind) {
        r is Ignored && post == pre
    } else {
        match next_stamp(pre.last_stamp, now) {
            None => match r {
                Admission::Refused(reply) => {
                    &&& reply.id@ == correlation_id(id)
                    &&& reply.response@ == response_of(
                        OutcomeView::Failed(stamps_exhausted_message()),
                    )
                    &&& post == pre
                },
                _ => false,
            },
            Some(s) => match r {
                Admission::Started(job) => {
                    &&& job.stamp == s
                    &&& now <= s
                    &&& !pre.pending.contains_key(s)
                    &&& job.id@ == correlation_id(id)
                    &&& match payload {
                        Some(p) => job.request == p,
                        None => is_fallback(job.request),
                    }
                    &&& is_invocation_for(job.invocation, job.request, pre.output_dir, s as int)
                    &&& post.output_dir == pre.output_dir
                    &&& post.last_stamp == Some(s)
                    &&& post.pending == pre.pending.insert(s, correlation_id(id))
                },
                _ => false,
            },
        }
    }
}

impl Bridge {
    /// The state is well formed, as `view_wf` states of its view.
    pub closed spec fn wf(&self) -> bool {
        &&& view_wf(self@)
        &&& self.pending@.dom().finite()
    }

    /// A dispatcher writing its audio files under `output_dir`, with nothing in flight.
    pub fn new(output_dir: String) -> (r: Bridge)
        ensures
            r.wf(),
            r@.output_dir == output_dir@,
            r@.last_stamp.is_none(),
            r@.pending == Map::<i64, Seq<char>>::empty(),
    {
        let r = Bridge { output_dir, last_stamp: None, pending: HashMap::new() };
        assert(r@.pending =~= Map::<i64, Seq<char>>::empty());
        r
    }

    /// Handles one parsed message arriving at `now`. A message of another
    /// kind is ignored. A generation request is tagged with its id, or with
    /// the placeholder id when it has none; a payload that could not be read
    /// is replaced by the fallback request; the request gets a stamp above
    /// every earlier one and is recorded as in flight.
    pub fn accept_at(
        &mut self,
        kind: Option<String>,
        id: Option<String>,
        payload: Option<GenerationRequest>,
        now: i64,
    ) -> (r: Admission)
        requires
            old(self).wf(),
        ensures
            final(self).wf(),
            accept_step(old(self)@, final(self)@, kind, id, payload, now, r),
    {
        let is_generation = match &kind {
            Some(k) => *k == "generate_audio".to_owned(),
            None => false,
        };
        if !is_generation {
            return Admission::Ignored;
        }
        let cid = match id {
            Some(s) => s,
            None => "unknown".to_owned(),
        };
        let stamp: i64 = match self.last_stamp {
            None => now,
            Some(l) => {
                if now > l {
                    now
                } else if l < i64::MAX {
                    l + 1
                } else {
                    let response = GenerationResult::Failure {
                        message: "No output file name is left for this request".to_owned(),
                    }.to_response();
                    return Admission::Refused(Reply { id: cid, response });
                }
            },
        };
        let request = match payload {
            Some(p) => p,
            None => GenerationRequest::fallback(),
        };
        let invocation = build_invocation(&request, self.output_dir.as_str(), stamp);
        let ghost pre = self@;
        self.pending.insert(stamp, cid.clone());
        self.last_stamp = Some(stamp);
        assert(self@.pending =~= pre.pending.insert(stamp, cid@));
        Admission::Started(Job { stamp, id: cid, request, invocation })
    }

    /// Handles one parsed message, stamped with the current time.
    pub fn accept(
        &mut self,
        kind: Option<String>,
        id: Option<String>,
        payload: Option<GenerationRequest>,
    ) -> (r: Admission)
        requires
            old(self).wf(),
        ensures
            final(self).wf(),
            exists|now: i64| accept_step(old(self)@, final(self)@, kind, id, payload, now, r),
    {
        let now = current_timestamp();
        let r = self.accept_at(kind, id, payload, now);
        assert(accept_step(old(self)@, self@, kind, id, payload, now, r));
        r
    }

    /// Pairs the result of the run stamped `stamp` with its correlation id and
    /// takes it out of flight. A stamp not in flight (unknown, or already
    /// answered) gives no reply.
    pub fn finish(&mut self, stamp: i64, result: GenerationResult) -> (r: Option<Reply>)
        requires
            old(self).wf(),
        ensures
            final(self).wf(),
            final(self)@.output_dir == old(self)@.output_dir,
            final(self)@.last_stamp == old(self)@.last_stamp,
            final(self)@.pending == old(self)@.pending.remove(stamp),
            old(self)@.pending.contains_key(stamp) ==> r.is_some() && r.unwrap().id@ == old(
                self,
            )@.pending[stamp] && r.unwrap().response@ == response_of(result@),
            !old(self)@.pending.contains_key(stamp) ==> r.is_none(),
    {
        let ghost pre = self@;
        let removed = self.pending.remove(&stamp);
        assert(self@.pending =~= pre.pending.remove(stamp));
        match removed {
            Some(id) => Some(Reply { id, response: result.to_response() }),
            None => None,
        }
    }
}

/// Stamps strictly increase, so two requests accepted one after the other,
/// even within the same clock second, get distinct output paths.
pub proof fn lemma_same_tick_distinct_paths(
    dir: Seq<char>,
    last: Option<i64>,
    now1: i64,
    now2: i64,
)
    requires
        next_stamp(last, now1).is_some(),
        next_stamp(Some(next_stamp(last, now1).unwrap()), now2).is_some(),
    ensures
        ({
            let s1 = next_stamp(last, now1).unwrap();
            let s2 = next_stamp(Some(s1), now2).unwrap();
            &&& s1 < s2
            &&& join_path(dir, output_file_name(s1 as int)) != join_path(
                dir,
                output_file_name(s2 as int),
            )
        }),
{
    let s1 = next_stamp(last, now1).unwrap();
    let s2 = next_stamp(Some(s1), now2).unwrap();
    lemma_distinct_stamps_distinct_paths(dir, s1 as int, s2 as int);
}

/// The correlation ids replied with when the runs in flight finish in
/// `order`, each stamp replied to only while it is in flight.
pub open spec fn replies_in_order(pending: Map<i64, Seq<char>>, order: Seq<i64>) -> Seq<Seq<char>>
    decreases order.len(),
{
    if order.len() == 0 {
        Seq::empty()
    } else {
        let s = order[0];
        let head = if pending.contains_key(s) {
            seq![pending[s]]
        } else {
            Seq::empty()
        };
        head + replies_in_order(pending.remove(s), order.drop_first())
    }
}

/// What is still in flight after the runs finish in `order`.
pub open spec fn left_in_flight(pending: Map<i64, Seq<char>>, order: Seq<i64>) -> Map<
    i64,
    Seq<char>,
>
    decreases order.len(),
{
    if order.len() == 0 {
        pending
    } else {
        left_in_flight(pending.remove(order[0]), order.drop_first())
    }
}

/// Whatever order the runs in flight finish in, each is replied to exactly
/// once with its own correlation id: the replies follow the finishing order,
/// nothing stays in flight, and the set of ids replied with is the set of ids
/// submitted. When the submitted ids are distinct, no id is replied to twice.
pub proof fn lemma_each_request_answered_once(pending: Map<i64, Seq<char>>, order: Seq<i64>)
    requires
        order.no_duplicates(),
        order.to_set() == pending.dom(),
    ensures
        replies_in_order(pending, order) == order.map_values(|s: i64| pending[s]),
        left_in_flight(pending, order) == Map::<i64, Seq<char>>::empty(),
        replies_in_order(pending, order).to_set() == pending.values(),
        (forall|a: i64, b: i64|
            pending.contains_key(a) && pending.contains_key(b) && a != b ==> pending[a]
                != pending[b]) ==> replies_in_order(pending, order).no_duplicates(),
    decreases order.len(),
{
    if order.len() == 0 {
        assert(pending.dom() =~= Set::<i64>::empty());
        assert(pending =~= Map::<i64, Seq<char>>::empty());
        assert(replies_in_order(pending, order) =~= order.map_values(|s: i64| pending[s]));
        assert(pending.values() =~= Set::<Seq<char>>::empty());
        assert(replies_in_order(pending, order).to_set() =~= Set::<Seq<char>>::empty());
    } else {
        let s = order[0];
        let rest = order.drop_first();
        let smaller = pending.remove(s);
        assert(order.contains(s));
        assert(order.to_set().contains(s));
        assert(pending.contains_key(s));
        assert forall|x: i64| rest.to_set().contains(x) <==> smaller.dom().contains(x) by {
            if rest.to_set().contains(x) {
                let j = choose|j: int| 0 <= j < rest.len() && rest[j] == x;
                assert(order[j + 1] == x);
                assert(order.to_set().contains(x));
                assert(x != s);
            }
            if smaller.dom().contains(x) {
                assert(order.to_set().contains(x));
                let j = choose|j: int| 0 <= j < order.len() && order[j] == x;
                assert(j != 0);
                assert(rest[j - 1] == x);
            }
        }
        assert(rest.to_set() =~= smaller.dom());
        assert(rest.no_duplicates()) by {
            assert forall|i: int, j: int| 0 <= i < rest.len() && 0 <= j < rest.len() && i != j implies rest[i]
                != rest[j] by {
                assert(rest[i] == order[i + 1] && rest[j] == order[j + 1]);
            }
        }
        lemma_each_request_answered_once(smaller, rest);
        let tail = replies_in_order(smaller, rest);
        let all = replies_in_order(pending, order);
        assert(all == seq![pending[s]] + tail);
        assert(all =~= order.map_values(|x: i64| pending[x])) by {
            assert forall|i: int| 0 <= i < all.len() implies all[i] == pending[order[i]] by {
                if i > 0 {
                    assert(all[i] == tail[i - 1]);
                    assert(rest[i - 1] == order[i]);
                    assert(order[i] != s);
                }
            }
        }
        assert(all.to_set() =~= pending.values()) by {
            assert forall|v: Seq<char>| all.to_set().contains(v) <==> pending.values().contains(v) by {
                if all.to_set().contains(v) {
                    let i = choose|i: int| 0 <= i < all.len() && all[i] == v;
                    assert(pending.contains_key(order[i]));
                }
                if pending.values().contains(v) {
                    let k = choose|k: i64| pending.contains_key(k) && pending[k] == v;
                    assert(order.to_set().contains(k));
                    let i = choose|i: int| 0 <= i < order.len() && order[i] == k;
                    assert(all[i] == v);
                }
            }
        }
        if forall|a: i64, b: i64|
            pending.contains_key(a) && pending.contains_key(b) && a != b ==> pending[a]
                != pending[b] {
            assert forall|i: int, j: int| 0 <= i < all.len() && 0 <= j < all.len() && i != j implies all[i]
                != all[j] by {
                assert(order[i] != order[j]);
                assert(order.to_set().contains(order[i]));
                assert(order.to_set().contains(order[j]));
            }
        }
    }
}

} // verus!
