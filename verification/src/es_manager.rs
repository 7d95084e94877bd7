//! Round-robin use of a set of search-cluster clients, with a queue of
//! bulk requests to send again after a failure.

use std::marker::PhantomData;
use vstd::prelude::*;

use crate::bulk::views;

verus! {

/// The url of a node, as a client records it.
pub type UrlView = Seq<char>;

/// A client's record of the answers it gave to pings, oldest first.
pub type PingRecord = Seq<bool>;

/// A client's record of the bulk requests it was handed, oldest first:
/// index name, lines, and the client's answer.
pub type PushRecord = Seq<(Seq<char>, Seq<Seq<char>>, bool)>;

/// A client of one search-cluster node. Implementations talk to the
/// network, so nothing is promised of what their methods answer. Each
/// client stands for the url it was built from, and keeps, as a ghost
/// record, what it was handed and what it answered.
pub trait ESClient: Sized {
    /// The url of the node this client talks to.
    spec fn url(&self) -> UrlView;

    /// The answers this client gave to pings, oldest first.
    spec fn pings(&self) -> PingRecord;

    /// The bulk requests this client was handed, oldest first: index
    /// name, lines, and the client's answer.
    spec fn pushes(&self) -> PushRecord;

    /// Connects a client to the node at `url`.
    fn new(url: &String) -> (c: Self)
        ensures
            c.url() == url@,
            c.pings() == Seq::<bool>::empty(),
            c.pushes() == Seq::<(Seq<char>, Seq<Seq<char>>, bool)>::empty(),
    ;

    /// Sends a bulk request for the index `index_str`; `true` when the
    /// node accepted it.
    fn push_messages(&mut self, index_str: &String, data: &Vec<String>) -> (accepted: bool)
        ensures
            final(self).url() == old(self).url(),
            final(self).pings() == old(self).pings(),
            final(self).pushes() == old(self).pushes().push((index_str@, views(data@), accepted)),
    ;

    /// `true` when the node answers.
    fn ping(&mut self) -> (alive: bool)
        ensures
            final(self).url() == old(self).url(),
            final(self).pings() == old(self).pings().push(alive),
            final(self).pushes() == old(self).pushes(),
    ;
}

/// Asks a client whether its node answers.
fn check_client<TClient: ESClient>(es: &mut TClient) -> (alive: bool)
    ensures
        final(es).url() == old(es).url(),
        final(es).pings() == old(es).pings().push(alive),
        final(es).pushes() == old(es).pushes(),
{
    es.ping()
}

/// The position that follows `current` among `end` positions: the next
/// one, or the first after the last.
pub open spec fn next_position(current: int, end: int) -> int {
    if current < end - 1 {
        current + 1
    } else {
        0
    }
}

/// The position reached from `current` after `steps` moves.
pub open spec fn position_after(current: int, end: int, steps: nat) -> int
    decreases steps,
{
    if steps == 0 {
        current
    } else {
        next_position(position_after(current, end, (steps - 1) as nat), end)
    }
}

/// Moving `steps` times from a valid position among `end` positions lands
/// on `(current + steps) % end`: every position is visited in turn.
pub proof fn position_after_is_modular(current: int, end: int, steps: nat)
    requires
        0 <= current < end,
    ensures
        position_after(current, end, steps) == (current + steps) % end,
    decreases steps,
{
    if steps == 0 {
        vstd::arithmetic::div_mod::lemma_small_mod(current as nat, end as nat);
    } else {
        let prev = (steps - 1) as nat;
        position_after_is_modular(current, end, prev);
        let p = (current + prev) % end;
        vstd::arithmetic::div_mod::lemma_mod_bound(current + prev, end);
        vstd::arithmetic::div_mod::lemma_add_mod_noop(current + prev, 1, end);
        if end == 1 {
            assert((current + steps) % end == 0);
        } else if p < end - 1 {
            vstd::arithmetic::div_mod::lemma_small_mod(1, end as nat);
            vstd::arithmetic::div_mod::lemma_small_mod((p + 1) as nat, end as nat);
            assert((current + steps) % end == (p + 1) % end);
        } else {
            vstd::arithmetic::div_mod::lemma_small_mod(1, end as nat);
            vstd::arithmetic::div_mod::lemma_mod_self_0(end);
            assert((current + steps) % end == (p + 1) % end);
        }
    }
}

/// The answers that client `i` records during one search from `start`
/// among `end` positions that pinged `count` clients in turn: every ping
/// but the last answered `false`, the last one answered `last`.
pub open spec fn search_answers(start: int, end: int, count: nat, last: bool, i: int) -> Seq<bool>
    decreases count,
{
    if count == 0 {
        Seq::empty()
    } else {
        let before = search_answers(start, end, (count - 1) as nat, false, i);
        if position_after(start, end, (count - 1) as nat) == i {
            before.push(last)
        } else {
            before
        }
    }
}

/// A search that pinged more than one client recorded a refusal as the
/// first answer of the client it started from.
proof fn lemma_search_starts_with_refusal(start: int, end: int, count: nat, last: bool)
    requires
        count >= 2,
    ensures
        search_answers(start, end, count, last, start).len() >= 1,
        search_answers(start, end, count, last, start)[0] == false,
    decreases count,
{
    let before = search_answers(start, end, (count - 1) as nat, false, start);
    if count == 2 {
        assert(position_after(start, end, 0) == start);
        assert(search_answers(start, end, 0, false, start) == Seq::<bool>::empty());
        assert(search_answers(start, end, 1, false, start) == Seq::<bool>::empty().push(false));
    } else {
        lemma_search_starts_with_refusal(start, end, (count - 1) as nat, false);
    }
}

/// A search whose first ping answered ends on the client it started
/// from: when the first answer recorded for the starting client is an
/// acceptance, no client was skipped.
pub proof fn immediate_answer_keeps_position(start: int, end: int, k: nat)
    requires
        search_answers(start, end, k + 1, true, start).len() >= 1,
        search_answers(start, end, k + 1, true, start)[0] == true,
    ensures
        k == 0,
        position_after(start, end, k) == start,
{
    if k >= 1 {
        lemma_search_starts_with_refusal(start, end, k + 1, true);
    }
}

/// When every update finds its client answering at once, each update
/// moves the cursor one position on: from the first client, successive
/// updates use the clients 0, 1, ..., end - 1, 0, ... in turn.
pub proof fn successive_updates_go_round(positions: Seq<int>, end: int)
    requires
        end > 0,
        positions.len() > 0,
        positions[0] == 0,
        forall|t: int|
            0 <= t < positions.len() - 1 ==> #[trigger] positions[t + 1] == next_position(
                positions[t],
                end,
            ),
    ensures
        forall|t: int| 0 <= t < positions.len() ==> #[trigger] positions[t] == t % end,
{
    assert forall|t: int| 0 <= t < positions.len() implies #[trigger] positions[t] == t % end by {
        lemma_positions_follow_steps(positions, end, t);
        position_after_is_modular(0, end, t as nat);
    }
}

proof fn lemma_positions_follow_steps(positions: Seq<int>, end: int, t: int)
    requires
        0 <= t < positions.len(),
        positions[0] == 0,
        forall|u: int|
            0 <= u < positions.len() - 1 ==> #[trigger] positions[u + 1] == next_position(
                positions[u],
                end,
            ),
    ensures
        positions[t] == position_after(0, end, t as nat),
    decreases t,
{
    if t > 0 {
        lemma_positions_follow_steps(positions, end, t - 1);
        assert(positions[(t - 1) + 1] == next_position(positions[t - 1], end));
    }
}

/// A round-robin position among `end` targets.
#[derive(Clone, Copy)]
struct RRCursor {
    current: u32,
    end: u32,
}

impl RRCursor {
    fn new(end: u32) -> (c: RRCursor)
        ensures
            c.current == 0,
            c.end == end,
    {
        RRCursor { current: 0, end: end }
    }

    fn current(&self) -> (c: u32)
        ensures
            c == self.current,
    {
        self.current
    }

    fn next(&mut self)
        requires
            old(self).end > 0,
        ensures
            final(self).end == old(self).end,
            final(self).current as int == next_position(old(self).current as int, old(self).end as int),
    {
        if self.current < (self.end - 1) {
            self.current += 1;
        } else {
            self.current = 0;
        }
    }
}

/// What one answer to a ping leads to while looking for a node that
/// answers.
#[derive(Debug, Clone, Copy, PartialEq, Eq)]
pub enum PingStep {
    /// The current client answered: it is the one to use.
    Reachable,
    /// The current client did not answer; the cursor moved on, and this
    /// many clients have failed in a row.
    Retry(u32),
    /// More clients failed in a row than there are clients.
    Exhausted,
}

/// Spreads bulk requests over a set of clients in turn, and keeps the
/// requests that a client refused, to send them again.
pub struct ESManager<'a, T: 'a> {
    clients: Vec<T>,
    cursor: RRCursor,
    phantom: PhantomData<&'a T>,
    retry_queue: Vec<(String, Vec<String>)>,
}

/// The view of a queued bulk request: its index name and its lines.
pub open spec fn request_view(r: (String, Vec<String>)) -> (Seq<char>, Seq<Seq<char>>) {
    (r.0@, views(r.1@))
}

impl<'a, TClient: ESClient> ESManager<'a, TClient> {
    /// The number of clients.
    pub closed spec fn num_clients(&self) -> nat {
        self.clients@.len()
    }

    /// The client at index `i`.
    pub closed spec fn client(&self, i: int) -> TClient {
        self.clients@[i]
    }

    /// The index of the client in use.
    pub closed spec fn position(&self) -> int {
        self.cursor.current as int
    }

    /// The number of positions the cursor cycles through: the number of
    /// clients, taken modulo 2^32.
    pub closed spec fn cycle_len(&self) -> int {
        self.cursor.end as int
    }

    /// The bulk requests waiting to be sent again, oldest first.
    pub closed spec fn retry_queue(&self) -> Seq<(Seq<char>, Seq<Seq<char>>)> {
        self.retry_queue@.map_values(|r: (String, Vec<String>)| request_view(r))
    }

    /// The cursor cycles through as many positions as there are clients
    /// (modulo 2^32), and points at one of them.
    pub closed spec fn well_formed(&self) -> bool {
        &&& self.cursor.end as int == self.clients@.len() as int % 0x1_0000_0000
        &&& self.cursor.end == 0 ==> self.cursor.current == 0
        &&& self.cursor.end > 0 ==> self.cursor.current < self.cursor.end
    }

    /// The same clients, in the same order, each with the same record,
    /// as in `before`.
    pub open spec fn same_clients(&self, before: &Self) -> bool {
        &&& self.num_clients() == before.num_clients()
        &&& forall|i: int| 0 <= i < before.num_clients() ==> #[trigger] self.client(i) == before.client(i)
    }

    /// The clients of `before`, each talking to the same node and with
    /// the same record of bulk requests; each one's record of pings grew
    /// by what one search from the client in use recorded for it: `count`
    /// pings in turn, all refused but the last, which answered `last`.
    pub open spec fn searched(&self, before: &Self, count: nat, last: bool) -> bool {
        &&& self.num_clients() == before.num_clients()
        &&& forall|i: int|
            0 <= i < before.num_clients() ==> {
                &&& #[trigger] self.client(i).url() == before.client(i).url()
                &&& self.client(i).pushes() == before.client(i).pushes()
                &&& self.client(i).pings() == before.client(i).pings() + search_answers(
                    before.position(),
                    before.cycle_len(),
                    count,
                    last,
                    i,
                )
            }
    }

    /// The facts of `well_formed` that callers use.
    pub proof fn lemma_well_formed(&self)
        requires
            self.well_formed(),
        ensures
            self.cycle_len() == self.num_clients() % 0x1_0000_0000,
            0 <= self.position(),
            self.cycle_len() > 0 ==> self.position() < self.cycle_len(),
            self.cycle_len() == 0 ==> self.position() == 0,
            self.position() < self.num_clients() || self.num_clients() == 0,
    {
    }

    /// One client per url, in order, the first one in use, and nothing
    /// to send again.
    pub fn new(urls: Vec<String>) -> (m: ESManager<'a, TClient>)
        ensures
            m.well_formed(),
            m.num_clients() == urls.len(),
            forall|i: int|
                0 <= i < urls.len() ==> {
                    &&& #[trigger] m.client(i).url() == urls@[i]@
                    &&& m.client(i).pings() == Seq::<bool>::empty()
                    &&& m.client(i).pushes() == Seq::<(Seq<char>, Seq<Seq<char>>, bool)>::empty()
                },
            m.position() == 0,
            m.cycle_len() == urls@.len() as int % 0x1_0000_0000,
            m.retry_queue() == Seq::<(Seq<char>, Seq<Seq<char>>)>::empty(),
    {
        let size: u32 = (urls.len() as u64 % 0x1_0000_0000u64) as u32;
        let mut clients: Vec<TClient> = Vec::new();
        let mut i: usize = 0;
        while i < urls.len()
            invariant
                i <= urls.len(),
                clients.len() == i,
                forall|j: int|
                    0 <= j < i ==> {
                        &&& #[trigger] clients@[j].url() == urls@[j]@
                        &&& clients@[j].pings() == Seq::<bool>::empty()
                        &&& clients@[j].pushes() == Seq::<(Seq<char>, Seq<Seq<char>>, bool)>::empty()
                    },
            decreases urls.len() - i,
        {
            clients.push(TClient::new(&urls[i]));
            i = i + 1;
        }
        let m = ESManager {
            clients: clients,
            phantom: PhantomData,
            cursor: RRCursor::new(size),
            retry_queue: Vec::new(),
        };
        assert(m.retry_queue() =~= Seq::<(Seq<char>, Seq<Seq<char>>)>::empty());
        m
    }

    /// Sends a bulk request through the client in use and answers what
    /// that client answered: the client's record of bulk requests gains
    /// this request with its answer, and no other client is touched.
    /// When the client refuses it, the request joins the end of the retry
    /// queue.
    pub fn push_messages(&mut self, index_str: &String, data: &Vec<String>) -> (accepted: bool)
        requires
            old(self).well_formed(),
            old(self).num_clients() > 0,
        ensures
            final(self).well_formed(),
            final(self).num_clients() == old(self).num_clients(),
            final(self).position() == old(self).position(),
            final(self).cycle_len() == old(self).cycle_len(),
            final(self).client(old(self).position()).url() == old(self).client(old(self).position()).url(),
            final(self).client(old(self).position()).pings() == old(self).client(
                old(self).position(),
            ).pings(),
            final(self).client(old(self).position()).pushes() == old(self).client(
                old(self).position(),
            ).pushes().push((index_str@, views(data@), accepted)),
            forall|i: int|
                0 <= i < old(self).num_clients() && i != old(self).position()
                    ==> #[trigger] final(self).client(i) == old(self).client(i),
            accepted ==> final(self).retry_queue() == old(self).retry_queue(),
            !accepted ==> final(self).retry_queue() == old(self).retry_queue().push(
                (index_str@, views(data@)),
            ),
    {
        proof {
            self.lemma_well_formed();
        }
        let index = self.cursor.current() as usize;
        let accepted = self.clients[index].push_messages(index_str, data);
        if !accepted {
            let queued = (index_str.clone(), clone_lines(data));
            self.retry_queue.push(queued);
            assert(self.retry_queue@.map_values(|r: (String, Vec<String>)| request_view(r))
                =~= old(self).retry_queue@.map_values(|r: (String, Vec<String>)| request_view(r)).push(
                (index_str@, views(data@)),
            ));
            false
        } else {
            true
        }
    }

    /// Moves to the next client in turn.
    pub fn advance_cursor(&mut self)
        requires
            old(self).well_formed(),
            old(self).cycle_len() > 0,
        ensures
            final(self).well_formed(),
            final(self).same_clients(&*old(self)),
            final(self).cycle_len() == old(self).cycle_len(),
            final(self).position() == next_position(old(self).position(), old(self).cycle_len()),
            final(self).retry_queue() == old(self).retry_queue(),
    {
        self.cursor.next();
    }

    /// The decision after one ping of the client in use, when
    /// `fail_count` clients have failed in a row before it: an answer
    /// ends the search; silence moves the cursor on and counts one more
    /// failure, and the search gives up for now once more clients have
    /// failed in a row than the cursor has positions.
    pub fn after_ping(&mut self, alive: bool, fail_count: u32) -> (step: PingStep)
        requires
            old(self).well_formed(),
            old(self).cycle_len() > 0,
            fail_count < u32::MAX,
        ensures
            final(self).well_formed(),
            final(self).same_clients(&*old(self)),
            final(self).cycle_len() == old(self).cycle_len(),
            final(self).retry_queue() == old(self).retry_queue(),
            alive ==> step == PingStep::Reachable && final(self).position() == old(self).position(),
            !alive ==> final(self).position() == next_position(
                old(self).position(),
                old(self).cycle_len(),
            ),
            !alive && fail_count + 1 > old(self).cycle_len() ==> step == PingStep::Exhausted,
            !alive && fail_count + 1 <= old(self).cycle_len() ==> step == PingStep::Retry(
                (fail_count + 1) as u32,
            ),
    {
        if alive {
            PingStep::Reachable
        } else {
            self.cursor.next();
            let failed = fail_count + 1;
            if failed > self.cursor.end {
                PingStep::Exhausted
            } else {
                PingStep::Retry(failed)
            }
        }
    }

    /// Pings the clients in turn, from the one in use, until one answers
    /// or more clients have failed in a row than the cursor has
    /// positions. Each ping is recorded by the client that was pinged.
    /// With `true`, `k` clients refused and the next one answered: the
    /// cursor stays on it. With `false`, `cycle_len + 1` clients refused
    /// in turn and the cursor moved that many times.
    pub fn find_reachable_client(&mut self) -> (found: bool)
        requires
            old(self).well_formed(),
            old(self).cycle_len() > 0,
            old(self).cycle_len() < u32::MAX,
        ensures
            final(self).well_formed(),
            final(self).cycle_len() == old(self).cycle_len(),
            final(self).retry_queue() == old(self).retry_queue(),
            found ==> exists|k: nat|
                #![trigger position_after(old(self).position(), old(self).cycle_len(), k)]
                k <= old(self).cycle_len() && final(self).position() == position_after(
                    old(self).position(),
                    old(self).cycle_len(),
                    k,
                ) && final(self).searched(&*old(self), k + 1, true),
            !found ==> final(self).searched(
                &*old(self),
                (old(self).cycle_len() + 1) as nat,
                false,
            ),
            !found ==> final(self).position() == position_after(
                old(self).position(),
                old(self).cycle_len(),
                (old(self).cycle_len() + 1) as nat,
            ),
            !found ==> final(self).position() == (old(self).position() + 1) % old(self).cycle_len(),
    {
        let ghost start = self.position();
        let ghost end = self.cycle_len();
        proof {
            self.lemma_well_formed();
            assert forall|i: int| 0 <= i < old(self).num_clients() implies #[trigger] old(
                self,
            ).client(i).pings() == old(self).client(i).pings() + search_answers(
                start,
                end,
                0,
                false,
                i,
            ) by {
                assert(old(self).client(i).pings() + Seq::<bool>::empty() =~= old(
                    self,
                ).client(i).pings());
            }
        }
        let mut fail_count: u32 = 0;
        loop
            invariant
                self.well_formed(),
                self.cycle_len() == end,
                end == old(self).cycle_len(),
                start == old(self).position(),
                0 < end < u32::MAX,
                0 <= start < end,
                self.retry_queue() == old(self).retry_queue(),
                fail_count <= end,
                self.position() == position_after(start, end, fail_count as nat),
                self.searched(&*old(self), fail_count as nat, false),
            decreases end - fail_count,
        {
            proof {
                self.lemma_well_formed();
            }
            let ghost before = *self;
            let index = self.cursor.current() as usize;
            let alive = check_client(&mut self.clients[index]);
            let ghost pinged = *self;
            proof {
                assert forall|i: int| 0 <= i < old(self).num_clients() implies {
                    &&& #[trigger] pinged.client(i).url() == old(self).client(i).url()
                    &&& pinged.client(i).pushes() == old(self).client(i).pushes()
                    &&& pinged.client(i).pings() == old(self).client(i).pings() + search_answers(
                        start,
                        end,
                        (fail_count + 1) as nat,
                        alive,
                        i,
                    )
                } by {
                    assert(position_after(start, end, fail_count as nat) == index as int);
                    assert(before.client(i).url() == old(self).client(i).url());
                    assert(before.client(i).pings() == old(self).client(i).pings() + search_answers(
                        start,
                        end,
                        fail_count as nat,
                        false,
                        i,
                    ));
                    if i == index as int {
                        assert(pinged.client(i).pings() == before.client(i).pings().push(alive));
                        assert(old(self).client(i).pings() + search_answers(
                            start,
                            end,
                            fail_count as nat,
                            false,
                            i,
                        ).push(alive) =~= (old(self).client(i).pings() + search_answers(
                            start,
                            end,
                            fail_count as nat,
                            false,
                            i,
                        )).push(alive));
                    } else {
                        assert(pinged.client(i) == before.client(i));
                    }
                }
            }
            match self.after_ping(alive, fail_count) {
                PingStep::Reachable => {
                    assert(self.searched(&*old(self), (fail_count + 1) as nat, true));
                    assert(position_after(start, end, fail_count as nat) == self.position());
                    return true;
                },
                PingStep::Exhausted => {
                    assert(self.searched(&*old(self), (fail_count + 1) as nat, false));
                    assert(position_after(start, end, (fail_count + 1) as nat) == next_position(
                        position_after(start, end, fail_count as nat),
                        end,
                    ));
                    assert(fail_count + 1 == end + 1);
                    proof {
                        position_after_is_modular(start, end, (end + 1) as nat);
                        vstd::arithmetic::div_mod::lemma_mod_add_multiples_vanish(start + 1, end);
                        assert(start + (end + 1) == end + (start + 1));
                    }
                    return false;
                },
                PingStep::Retry(failed) => {
                    assert(position_after(start, end, (fail_count + 1) as nat) == next_position(
                        position_after(start, end, fail_count as nat),
                        end,
                    ));
                    fail_count = failed;
                },
            }
        }
    }

    /// Sends again the newest queued request through the client in use.
    /// `None` when nothing is queued, and nothing is sent. Otherwise the
    /// client's answer: the client's record of bulk requests gains that
    /// request with its answer, no other client is touched, an accepted
    /// request leaves the queue and a refused one stays at its end.
    pub fn retry_next(&mut self) -> (outcome: Option<bool>)
        requires
            old(self).well_formed(),
            old(self).num_clients() > 0,
        ensures
            final(self).well_formed(),
            final(self).num_clients() == old(self).num_clients(),
            final(self).position() == old(self).position(),
            final(self).cycle_len() == old(self).cycle_len(),
            old(self).retry_queue().len() == 0 ==> outcome is None && final(self).retry_queue()
                == old(self).retry_queue() && final(self).same_clients(&*old(self)),
            old(self).retry_queue().len() > 0 ==> {
                &&& outcome is Some
                &&& final(self).client(old(self).position()).url() == old(self).client(
                    old(self).position(),
                ).url()
                &&& final(self).client(old(self).position()).pings() == old(self).client(
                    old(self).position(),
                ).pings()
                &&& final(self).client(old(self).position()).pushes() == old(self).client(
                    old(self).position(),
                ).pushes().push(
                    (
                        old(self).retry_queue().last().0,
                        old(self).retry_queue().last().1,
                        outcome.unwrap(),
                    ),
                )
                &&& forall|i: int|
                    0 <= i < old(self).num_clients() && i != old(self).position()
                        ==> #[trigger] final(self).client(i) == old(self).client(i)
            },
            outcome == Some(true) ==> final(self).retry_queue() == old(self).retry_queue().drop_last(),
            outcome == Some(false) ==> final(self).retry_queue() == old(self).retry_queue(),
    {
        match self.retry_queue.pop() {
            Some(head) => {
                assert(self.retry_queue() =~= old(self).retry_queue().drop_last());
                let (index, data) = head;
                assert(old(self).retry_queue().last() == (index@, views(data@)));
                let accepted = self.push_messages(&index, &data);
                assert(old(self).retry_queue() =~= old(self).retry_queue().drop_last().push(
                    (index@, views(data@)),
                ));
                Some(accepted)
            },
            None => None,
        }
    }

    /// The number of clients.
    pub fn client_count(&self) -> (n: usize)
        ensures
            n == self.num_clients(),
    {
        self.clients.len()
    }

    /// The index of the client in use.
    pub fn current_index(&self) -> (i: u32)
        ensures
            i == self.position(),
    {
        self.cursor.current()
    }

    /// The number of requests waiting to be sent again.
    pub fn pending_retries(&self) -> (n: usize)
        ensures
            n == self.retry_queue().len(),
    {
        self.retry_queue.len()
    }
}

/// A copy of a list of lines.
fn clone_lines(lines: &Vec<String>) -> (copy: Vec<String>)
    ensures
        views(copy@) == views(lines@),
{
    let mut copy: Vec<String> = Vec::new();
    let mut i: usize = 0;
    while i < lines.len()
        invariant
            i <= lines.len(),
            views(copy@) == views(lines@).take(i as int),
        decreases lines.len() - i,
    {
        copy.push(lines[i].clone());
        assert(views(lines@).take(i + 1) == views(lines@).take(i as int).push(lines@[i as int]@));
        i = i + 1;
    }
    assert(views(lines@).take(lines.len() as int) == views(lines@));
    copy
}

} // verus!
