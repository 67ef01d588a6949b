//! The order in which senders are created at startup.
//!
//! The sender runtime hands out ports in creation order, and a receiver comes
//! back to the port it knew. So at startup the previous instance's ports are
//! waited for, and the senders created one at a time, by ascending playlist id:
//! every restart gives every output the same port.

use vstd::prelude::*;

verus! {

/// The first port the sender runtime hands out.
pub const NDI_PORT_BASE: u16 = 5960;

/// Milliseconds between two looks at the ports.
pub const PORT_WAIT_POLL_INTERVAL_MS: u64 = 250;

/// Looks at the ports before startup goes on regardless.
pub const PORT_WAIT_MAX_POLLS: u32 = 40;

/// A sender has this long to report ready.
pub const SENDER_READY_TIMEOUT_MS: u64 = 5_000;

/// The ports to wait for: one per output, and two to spare.
pub open spec fn ports_of(n: int) -> Seq<u16> {
    Seq::new((n + 2) as nat, |i: int| (NDI_PORT_BASE + i) as u16)
}

/// The ports that `n_outputs` senders may use: from the base through the base
/// plus the number of outputs plus one.
pub fn ndi_port_range(n_outputs: usize) -> (r: Vec<u16>)
    requires
        NDI_PORT_BASE + n_outputs + 1 <= u16::MAX,
    ensures
        r@ == ports_of(n_outputs as int),
{
    let mut ports: Vec<u16> = Vec::new();
    let mut i: usize = 0;
    while i < n_outputs + 2
        invariant
            i <= n_outputs + 2,
            NDI_PORT_BASE + n_outputs + 1 <= u16::MAX,
            ports@ == ports_of(n_outputs as int).take(i as int),
        decreases n_outputs + 2 - i,
    {
        ports.push(NDI_PORT_BASE + i as u16);
        assert(ports@ =~= ports_of(n_outputs as int).take(i + 1));
        i = i + 1;
    }
    assert(ports@ =~= ports_of(n_outputs as int));
    ports
}

/// A playlist, as far as startup looks at it.
#[derive(Debug, Clone, Default, PartialEq, Eq)]
pub struct Playlist {
    pub id: i64,
    pub ndi_output_name: String,
    pub is_active: bool,
}

/// An output to create: playlist id and sender name.
pub type Output = (i64, String);

/// An output as a mathematical value.
pub open spec fn output_view(o: Output) -> (i64, Seq<char>) {
    (o.0, o.1@)
}

/// Outputs as mathematical values.
pub open spec fn outputs_of(v: Seq<Output>) -> Seq<(i64, Seq<char>)> {
    v.map_values(|o: Output| output_view(o))
}

/// Where an output of playlist `id` goes in the order: after every output of a
/// smaller or equal id.
pub open spec fn place_of(order: Seq<(i64, Seq<char>)>, id: i64) -> int
    decreases order.len(),
{
    if order.len() == 0 || order.last().0 <= id {
        order.len() as int
    } else {
        place_of(order.drop_last(), id)
    }
}

/// The outputs of `playlists` that have a name, by ascending playlist id; equal
/// ids keep their order.
pub open spec fn creation_order(playlists: Seq<Playlist>) -> Seq<(i64, Seq<char>)>
    decreases playlists.len(),
{
    if playlists.len() == 0 {
        Seq::empty()
    } else {
        let order = creation_order(playlists.drop_last());
        let p = playlists.last();
        if p.ndi_output_name@.len() == 0 {
            order
        } else {
            order.insert(place_of(order, p.id), (p.id, p.ndi_output_name@))
        }
    }
}

proof fn lemma_place(order: Seq<(i64, Seq<char>)>, id: i64)
    ensures
        0 <= place_of(order, id) <= order.len(),
        forall|i: int| place_of(order, id) <= i < order.len() ==> id < (#[trigger] order[i]).0,
        place_of(order, id) > 0 ==> order[place_of(order, id) - 1].0 <= id,
    decreases order.len(),
{
    if order.len() > 0 && order.last().0 > id {
        let head = order.drop_last();
        lemma_place(head, id);
        let p = place_of(head, id);
        assert forall|i: int| p <= i < order.len() implies id < (#[trigger] order[i]).0 by {
            if i < order.len() - 1 {
                assert(head[i] == order[i]);
            }
        }
    }
}

/// The creation order ascends by playlist id, whatever the order of the input.
pub proof fn law_creation_order_ascends(playlists: Seq<Playlist>, i: int, j: int)
    requires
        0 <= i <= j < creation_order(playlists).len(),
    ensures
        creation_order(playlists)[i].0 <= creation_order(playlists)[j].0,
    decreases playlists.len(),
{
    let order = creation_order(playlists.drop_last());
    let p = playlists.last();
    if p.ndi_output_name@.len() == 0 {
        law_creation_order_ascends(playlists.drop_last(), i, j);
    } else {
        let at = place_of(order, p.id);
        lemma_place(order, p.id);
        let (i0, j0) = (
            if i > at {
                i - 1
            } else {
                i
            },
            if j > at {
                j - 1
            } else {
                j
            },
        );
        if i != at && j != at {
            law_creation_order_ascends(playlists.drop_last(), i0, j0);
        } else if i == at && j != at {
            assert(p.id < order[j - 1].0);
        } else if j == at && i != at {
            law_creation_order_ascends(playlists.drop_last(), i, at - 1);
        }
    }
}

/// Exactly the named playlists get an output, each once per entry.
pub proof fn law_creation_order_holds_the_named_playlists(playlists: Seq<Playlist>)
    ensures
        creation_order(playlists).to_multiset() == playlists.filter(
            |p: Playlist| p.ndi_output_name@.len() != 0,
        ).map_values(|p: Playlist| (p.id, p.ndi_output_name@)).to_multiset(),
    decreases playlists.len(),
{
    broadcast use vstd::seq_lib::group_to_multiset_ensures;

    let named = |p: Playlist| p.ndi_output_name@.len() != 0;
    let view = |p: Playlist| (p.id, p.ndi_output_name@);
    reveal(Seq::filter);
    if playlists.len() == 0 {
        assert(playlists.filter(named).map_values(view) =~= Seq::empty());
    } else {
        let rest = playlists.drop_last();
        let p = playlists.last();
        law_creation_order_holds_the_named_playlists(rest);
        if p.ndi_output_name@.len() != 0 {
            let order = creation_order(rest);
            lemma_place(order, p.id);
            order.to_multiset_ensures();
            assert(creation_order(playlists).to_multiset() =~= order.to_multiset().insert(
                view(p),
            ));
            assert(playlists.filter(named).map_values(view) =~= rest.filter(named).map_values(
                view,
            ).push(view(p)));
        }
    }
}

/// The outputs to create at startup, in order.
pub fn ordered_active_for_startup(playlists: &[Playlist]) -> (r: Vec<Output>)
    ensures
        outputs_of(r@) == creation_order(playlists@),
{
    let mut out: Vec<Output> = Vec::new();
    let mut i: usize = 0;
    assert(outputs_of(out@) =~= creation_order(playlists@.take(0)));
    while i < playlists.len()
        invariant
            i <= playlists@.len(),
            outputs_of(out@) == creation_order(playlists@.take(i as int)),
        decreases playlists@.len() - i,
    {
        let p: &Playlist = &playlists[i];
        proof {
            assert(playlists@.take(i + 1).drop_last() =~= playlists@.take(i as int));
            assert(playlists@.take(i + 1).last() == playlists@[i as int]);
        }
        if p.ndi_output_name.as_str().unicode_len() > 0 {
            let ghost order = outputs_of(out@);
            let mut at: usize = out.len();
            assert(order.take(at as int) =~= order);
            while at > 0 && out[at - 1].0 > p.id
                invariant
                    at <= out@.len(),
                    order == outputs_of(out@),
                    place_of(order, p.id) == place_of(order.take(at as int), p.id),
                decreases at,
            {
                assert(order.take(at as int).last() == output_view(out@[at - 1]));
                assert(order.take(at as int).drop_last() =~= order.take(at - 1));
                at = at - 1;
            }
            proof {
                if at > 0 {
                    assert(order.take(at as int).last() == output_view(out@[at - 1]));
                }
                assert(place_of(order, p.id) == at);
            }
            out.insert(at, (p.id, p.ndi_output_name.clone()));
            assert(outputs_of(out@) =~= order.insert(at as int, (p.id, p.ndi_output_name@)));
        }
        i = i + 1;
    }
    assert(playlists@.take(i as int) =~= playlists@);
    out
}

/// How the wait for the ports ended.
#[derive(Debug, Clone, Copy, PartialEq, Eq, Structural)]
pub enum PortWaitOutcome {
    /// Free at the first look.
    FreeImmediately,
    /// Free after this many waits.
    FreeAfter(u32),
    /// Not all free after this many waits: startup goes on regardless.
    TimedOut(u32),
}

/// What follows a look at the ports.
#[derive(Debug, Clone, Copy, PartialEq, Eq, Structural)]
pub enum PortWaitStep {
    /// Sleep, then look again: this will be wait number `attempt`.
    Again { attempt: u32 },
    Done(PortWaitOutcome),
}

/// What follows a look at the ports after `attempt` waits.
pub open spec fn port_step_of(attempt: u32, free: bool, max_polls: u32) -> PortWaitStep {
    if free {
        PortWaitStep::Done(
            if attempt == 0 {
                PortWaitOutcome::FreeImmediately
            } else {
                PortWaitOutcome::FreeAfter(attempt)
            },
        )
    } else if attempt >= max_polls {
        PortWaitStep::Done(PortWaitOutcome::TimedOut(max_polls))
    } else {
        PortWaitStep::Again { attempt: (attempt + 1) as u32 }
    }
}

/// Decide after a look at the ports.
pub fn port_wait_step(attempt: u32, free: bool, max_polls: u32) -> (r: PortWaitStep)
    ensures
        r == port_step_of(attempt, free, max_polls),
{
    if free {
        if attempt == 0 {
            PortWaitStep::Done(PortWaitOutcome::FreeImmediately)
        } else {
            PortWaitStep::Done(PortWaitOutcome::FreeAfter(attempt))
        }
    } else if attempt >= max_polls {
        PortWaitStep::Done(PortWaitOutcome::TimedOut(max_polls))
    } else {
        PortWaitStep::Again { attempt: attempt + 1 }
    }
}

/// How the wait ends when the looks give `looks`, one after the other.
pub open spec fn waited(looks: Seq<bool>, attempt: u32, max_polls: u32) -> Option<PortWaitOutcome>
    decreases looks.len(),
{
    if looks.len() == 0 {
        None
    } else {
        match port_step_of(attempt, looks[0], max_polls) {
            PortWaitStep::Done(outcome) => Some(outcome),
            PortWaitStep::Again { attempt: next } => waited(looks.skip(1), next, max_polls),
        }
    }
}

/// The wait is bounded: after one look more than the bound it has ended, and it
/// never waits longer than the bound.
pub proof fn law_port_wait_is_bounded(looks: Seq<bool>, attempt: u32, max_polls: u32)
    requires
        attempt <= max_polls,
        looks.len() > max_polls - attempt,
    ensures
        waited(looks, attempt, max_polls) is Some,
        waited(looks, attempt, max_polls)->0 matches PortWaitOutcome::FreeAfter(n) ==> n
            <= max_polls,
    decreases looks.len(),
{
    match port_step_of(attempt, looks[0], max_polls) {
        PortWaitStep::Done(_) => {},
        PortWaitStep::Again { attempt: next } => {
            law_port_wait_is_bounded(looks.skip(1), next, max_polls);
        },
    }
}

/// Every one of `looks` is an answer that `prober` may give on `ports`.
pub open spec fn looked<P: FnMut(&[u16]) -> bool>(
    prober: P,
    ports: &[u16],
    looks: Seq<bool>,
) -> bool {
    forall|i: int| 0 <= i < looks.len() ==> call_ensures(prober, (ports,), #[trigger] looks[i])
}

proof fn lemma_waits(looks: Seq<bool>, attempt: u32, max_polls: u32, last: bool)
    requires
        attempt + looks.len() <= max_polls,
        forall|i: int| 0 <= i < looks.len() ==> !looks[i],
    ensures
        waited(looks.push(last), attempt, max_polls) == match port_step_of(
            (attempt + looks.len()) as u32,
            last,
            max_polls,
        ) {
            PortWaitStep::Done(outcome) => Some(outcome),
            PortWaitStep::Again { .. } => None,
        },
    decreases looks.len(),
{
    let all = looks.push(last);
    reveal_with_fuel(waited, 2);
    if looks.len() == 0 {
        assert(all.skip(1).len() == 0);
    } else {
        assert(all[0] == looks[0]);
        assert(all.skip(1) =~= looks.skip(1).push(last));
        lemma_waits(looks.skip(1), (attempt + 1) as u32, max_polls, last);
    }
}

/// Look at the ports until `prober` finds them all free, at most one look more
/// than `max_polls`, with a `sleep` before every look but the first.
///
/// The contract fixes the outcome by answers that the prober may give. It leaves unsaid
/// how often the prober and the sleep are called, and which call gave which answer: the
/// contract of a function value does not count its calls.
pub fn wait_for_ports_free<P: FnMut(&[u16]) -> bool, S: FnMut()>(
    prober: P,
    ports: &[u16],
    max_polls: u32,
    sleep: S,
) -> (r: PortWaitOutcome)
    requires
        call_requires(prober, (ports,)),
        call_requires(sleep, ()),
    ensures
        exists|looks: Seq<bool>|
            looked(prober, ports, looks) && #[trigger] waited(looks, 0, max_polls) == Some(r),
{
    let mut look: P = prober;
    let mut rest: S = sleep;
    let mut attempt: u32 = 0;
    let ghost mut looks: Seq<bool> = Seq::empty();
    loop
        invariant
            call_requires(prober, (ports,)),
            call_requires(sleep, ()),
            look == prober,
            rest == sleep,
            attempt <= max_polls,
            looks.len() == attempt,
            looked(prober, ports, looks),
            forall|i: int| 0 <= i < looks.len() ==> !looks[i],
        decreases max_polls - attempt,
    {
        let free: bool = look(ports);
        let ghost all = looks.push(free);
        proof {
            assert(looked(prober, ports, all)) by {
                assert forall|i: int| 0 <= i < all.len() implies call_ensures(
                    prober,
                    (ports,),
                    #[trigger] all[i],
                ) by {
                    if i < looks.len() {
                        assert(all[i] == looks[i]);
                    }
                }
            }
            lemma_waits(looks, 0, max_polls, free);
        }
        match port_wait_step(attempt, free, max_polls) {
            PortWaitStep::Done(outcome) => {
                assert(waited(all, 0, max_polls) == Some(outcome));
                return outcome;
            },
            PortWaitStep::Again { attempt: next } => {
                rest();
                proof {
                    looks = all;
                }
                attempt = next;
            },
        }
    }
}

/// What a newly created sender reported.
pub enum ReadyEvent {
    /// Ready, with the address it advertises, if any.
    Ready(Option<String>),
    /// The output existed already: nothing will be reported.
    Existing,
    /// Nothing within the time allowed.
    TimedOut,
}

/// The address to record for an output: `Some` to record it (possibly as
/// unknown), `None` to keep the one on record.
pub fn sender_url_record(event: ReadyEvent) -> (r: Option<Option<String>>)
    ensures
        r == match event {
            ReadyEvent::Ready(url) => Some(url),
            ReadyEvent::Existing => None,
            ReadyEvent::TimedOut => Some(None::<String>),
        },
{
    match event {
        ReadyEvent::Ready(url) => Some(url),
        ReadyEvent::Existing => None,
        ReadyEvent::TimedOut => Some(None),
    }
}

/// The address that discovery found for playlist `id`: the first of that id.
pub open spec fn discovered_url(found: Seq<Output>, id: i64) -> Option<Seq<char>>
    decreases found.len(),
{
    if found.len() == 0 {
        None
    } else if found[0].0 == id {
        Some(found[0].1@)
    } else {
        discovered_url(found.skip(1), id)
    }
}

/// The address that discovery found for playlist `id`, if any.
pub fn find_sender_url(found: &Vec<Output>, id: i64) -> (r: Option<String>)
    ensures
        match r {
            Some(url) => discovered_url(found@, id) == Some(url@),
            None => discovered_url(found@, id) is None,
        },
{
    let mut i: usize = 0;
    assert(found@.skip(0) =~= found@);
    while i < found.len()
        invariant
            i <= found@.len(),
            discovered_url(found@, id) == discovered_url(found@.skip(i as int), id),
        decreases found@.len() - i,
    {
        let ghost rest = found@.skip(i as int);
        assert(rest[0] == found@[i as int]);
        if found[i].0 == id {
            return Some(found[i].1.clone());
        }
        assert(rest.skip(1) =~= found@.skip(i + 1));
        i = i + 1;
    }
    None
}

/// The ports are consecutive from 5960 on, one for each output and two to spare.
pub proof fn law_the_ports_are_consecutive(n: int, i: int)
    requires
        0 <= n,
        5960 + n + 1 <= u16::MAX,
        0 <= i < n + 2,
    ensures
        ports_of(n).len() == n + 2,
        ports_of(n)[i] == 5960 + i,
{
}

/// An output's place of creation does not depend on later ones of the same id: outputs
/// of one playlist id are created in the order in which they were listed.
pub proof fn law_equal_ids_keep_their_order(playlists: Seq<Playlist>, id: i64)
    ensures
        creation_order(playlists).filter(|o: (i64, Seq<char>)| o.0 == id) == playlists.filter(
            |p: Playlist| p.id == id && p.ndi_output_name@.len() != 0,
        ).map_values(|p: Playlist| (p.id, p.ndi_output_name@)),
    decreases playlists.len(),
{
    let of_id = |o: (i64, Seq<char>)| o.0 == id;
    let named = |p: Playlist| p.id == id && p.ndi_output_name@.len() != 0;
    let view = |p: Playlist| (p.id, p.ndi_output_name@);
    reveal(Seq::filter);
    if playlists.len() == 0 {
        assert(creation_order(playlists).filter(of_id) =~= playlists.filter(named).map_values(view));
    } else {
        let rest = playlists.drop_last();
        let p = playlists.last();
        law_equal_ids_keep_their_order(rest, id);
        let order = creation_order(rest);
        if p.ndi_output_name@.len() != 0 {
            let at = place_of(order, p.id);
            lemma_place(order, p.id);
            let (head, tail) = (order.take(at), order.skip(at));
            let one = seq![view(p)];
            assert(creation_order(playlists) =~= head + one + tail);
            assert(order =~= head + tail);
            Seq::filter_distributes_over_add(head, tail, of_id);
            Seq::filter_distributes_over_add(head + one, tail, of_id);
            Seq::filter_distributes_over_add(head, one, of_id);
            lemma_filter_one(view(p), of_id);
            if p.id == id {
                lemma_filter_none(tail, of_id);
                assert(creation_order(playlists).filter(of_id) =~= order.filter(of_id).push(
                    view(p),
                ));
                assert(playlists.filter(named).map_values(view) =~= rest.filter(
                    named,
                ).map_values(view).push(view(p)));
            } else {
                assert(creation_order(playlists).filter(of_id) =~= order.filter(of_id));
            }
        }
    }
}

proof fn lemma_filter_one<T>(x: T, keep: spec_fn(T) -> bool)
    ensures
        seq![x].filter(keep) == if keep(x) {
            seq![x]
        } else {
            Seq::empty()
        },
{
    reveal_with_fuel(Seq::filter, 2);
    assert(seq![x].drop_last() =~= Seq::empty());
    assert(Seq::<T>::empty().filter(keep) =~= Seq::empty());
    assert(Seq::empty().push(x) =~= seq![x]);
}

proof fn lemma_filter_none<T>(s: Seq<T>, keep: spec_fn(T) -> bool)
    requires
        forall|i: int| 0 <= i < s.len() ==> !keep(#[trigger] s[i]),
    ensures
        s.filter(keep) == Seq::<T>::empty(),
    decreases s.len(),
{
    reveal(Seq::filter);
    if s.len() > 0 {
        assert forall|i: int| 0 <= i < s.drop_last().len() implies !keep(
            #[trigger] s.drop_last()[i],
        ) by {
            assert(s.drop_last()[i] == s[i]);
        }
        lemma_filter_none(s.drop_last(), keep);
        assert(!keep(s[s.len() - 1]));
    }
}

/// The wait ends at the first look that finds the ports free, and says how many waits
/// that took; after the last look it goes on regardless.
pub proof fn law_how_the_port_wait_ends(waits: u32, max_polls: u32)
    requires
        waits <= max_polls,
    ensures
        ({
            let looks = Seq::new(waits as nat, |i: int| false);
            &&& waited(looks.push(true), 0, max_polls) == Some(
                if waits == 0 {
                    PortWaitOutcome::FreeImmediately
                } else {
                    PortWaitOutcome::FreeAfter(waits)
                },
            )
            &&& waited(looks.push(false), 0, max_polls) == if waits == max_polls {
                Some(PortWaitOutcome::TimedOut(max_polls))
            } else {
                None
            }
        }),
{
    let looks = Seq::new(waits as nat, |i: int| false);
    lemma_waits(looks, 0, max_polls, true);
    lemma_waits(looks, 0, max_polls, false);
}

/// The address of a playlist is the one of the first discovery that names it, and there
/// is none where none does.
pub proof fn law_the_first_discovery_counts(before: Seq<Output>, hit: Output, after: Seq<Output>)
    requires
        forall|i: int| 0 <= i < before.len() ==> (#[trigger] before[i]).0 != hit.0,
    ensures
        discovered_url(before + seq![hit] + after, hit.0) == Some(hit.1@),
        discovered_url(before, hit.0) is None,
    decreases before.len(),
{
    let all = before + seq![hit] + after;
    if before.len() > 0 {
        assert(all[0] == before[0]);
        assert(all.skip(1) =~= before.skip(1) + seq![hit] + after);
        assert forall|i: int| 0 <= i < before.skip(1).len() implies (
        #[trigger] before.skip(1)[i]).0 != hit.0 by {
            assert(before.skip(1)[i] == before[i + 1]);
        }
        law_the_first_discovery_counts(before.skip(1), hit, after);
    } else {
        assert(all[0] == hit);
    }
}

/// An address is recorded exactly for a sender that was created, as it was reported; one
/// that reported nothing in time has none.
pub proof fn law_which_address_is_recorded(event: ReadyEvent, r: Option<Option<String>>)
    requires
        call_ensures(sender_url_record, (event,), r),
    ensures
        r is None <==> event is Existing,
        event matches ReadyEvent::Ready(url) ==> r == Some(url),
        event is TimedOut ==> r == Some(None::<String>),
{
}

} // verus!
