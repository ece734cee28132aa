//! Group message fan-out: messages are collected per group for a window,
//! each group's messages are framed into one JSON array, and the array is
//! sent to every registered member of the group.
use vstd::prelude::*;
use std::collections::HashMap;
use vstd::std_specs::iter::IteratorSpec;
use crate::batch::{step_answer, CloseRule, WindowEvent, WindowStep, FORWARD_CLOSE_RULE};
use crate::json::{json_raw_text, raw_json_text};
use crate::labels::{content_label_name, lemma_content_label_names_distinct};
use crate::records::GroupForwardMessage;
use crate::registry::{no_repeats, GroupRegistry};
use crate::text::{
    decimal, i64_to_text, lemma_decimal_digits, signed_decimal, spec_parse_i64,
};

verus! {

broadcast use vstd::std_specs::hash::group_hash_axioms;

/// One group's framed messages.
pub struct GroupPayload {
    pub group_id: i64,
    pub body: String,
}

/// The messages collected in the current window: each message by its id
/// (a later message with the same id replaces the earlier one), and each
/// group's message ids in arrival order.
pub struct ForwardWindow {
    messages: HashMap<i64, GroupForwardMessage>,
    queues: HashMap<i64, Vec<i64>>,
}

pub open spec fn payload_view(p: GroupPayload) -> (i64, Seq<char>) {
    (p.group_id, p.body@)
}

/// Group `g`'s queue, empty when the group has none yet.
pub open spec fn queue_of(qs: Map<i64, Seq<i64>>, g: i64) -> Seq<i64> {
    if qs.contains_key(g) {
        qs[g]
    } else {
        Seq::empty()
    }
}

/// The queues after message `m` of group `g` arrives: appended to the
/// group's queue, which is new if the group had none.
pub open spec fn queued(qs: Map<i64, Seq<i64>>, g: i64, m: i64) -> Map<i64, Seq<i64>> {
    qs.insert(g, queue_of(qs, g).push(m))
}

/// The queues taken group by group in `order`.
pub open spec fn queues_in(qs: Map<i64, Seq<i64>>, order: Seq<i64>) -> Seq<(i64, Seq<i64>)> {
    order.map_values(|g: i64| (g, qs[g]))
}

/// A walk of the groups: each group of the window once, in some order.
pub open spec fn walks(order: Seq<i64>, qs: Map<i64, Seq<i64>>) -> bool {
    order.no_duplicates() && order.to_set() == qs.dom()
}

/// The JSON object that forwards one message to a group's members: the ids
/// as decimal strings, the kind's name, and the message's own JSON value.
pub open spec fn forward_entry_text(group_id: i64, msg: GroupForwardMessage, raw: Seq<char>) -> Seq<
    char,
> {
    "{\"group_id\":\""@ + signed_decimal(group_id as int) + "\",\"sender_id\":\""@
        + signed_decimal(msg.sender_id as int) + "\",\"message_id\":\""@ + signed_decimal(
        msg.message_id as int,
    ) + "\",\"content_type\":\""@ + content_label_name(msg.content_type)
        + "\",\"description\":"@ + raw + "}"@
}

/// The entry for message `m` in group `g`: none when the message is unknown
/// or its body is not a JSON value.
pub open spec fn entry_for(msgs: Map<i64, GroupForwardMessage>, g: i64, m: i64) -> Option<
    Seq<char>,
> {
    if msgs.contains_key(m) {
        match json_raw_text(msgs[m].description@) {
            Some(raw) => Some(forward_entry_text(g, msgs[m], raw)),
            None => None,
        }
    } else {
        None
    }
}

/// The entries of a group's queue, in order.
pub open spec fn entries(msgs: Map<i64, GroupForwardMessage>, g: i64, ids: Seq<i64>) -> Seq<
    Seq<char>,
>
    decreases ids.len(),
{
    if ids.len() == 0 {
        Seq::empty()
    } else {
        let rest = entries(msgs, g, ids.drop_last());
        match entry_for(msgs, g, ids.last()) {
            Some(e) => rest.push(e),
            None => rest,
        }
    }
}

/// Entries separated by commas.
pub open spec fn join_entries(es: Seq<Seq<char>>) -> Seq<char>
    decreases es.len(),
{
    if es.len() == 0 {
        Seq::empty()
    } else if es.len() == 1 {
        es[0]
    } else {
        join_entries(es.drop_last()) + ","@ + es.last()
    }
}

/// A JSON array of the entries.
pub open spec fn array_text(es: Seq<Seq<char>>) -> Seq<char> {
    "["@ + join_entries(es) + "]"@
}

/// The payload of each group, in the order the queues are given; a group none of whose
/// messages has a JSON body gets no payload.
pub open spec fn group_payloads(
    msgs: Map<i64, GroupForwardMessage>,
    qs: Seq<(i64, Seq<i64>)>,
) -> Seq<(i64, Seq<char>)>
    decreases qs.len(),
{
    if qs.len() == 0 {
        Seq::empty()
    } else {
        let rest = group_payloads(msgs, qs.drop_last());
        let q = qs.last();
        let es = entries(msgs, q.0, q.1);
        if es.len() > 0 {
            rest.push((q.0, array_text(es)))
        } else {
            rest
        }
    }
}

/// Who gets payload `p`: every listed member, as the unsigned id the
/// connections are keyed by.
pub open spec fn member_deliveries(members: Seq<i64>, p: int) -> Seq<(u64, usize)> {
    members.map_values(|m: i64| (m as u64, p as usize))
}

pub open spec fn members_of(t: Map<i64, Seq<i64>>, g: i64) -> Seq<i64> {
    if t.contains_key(g) {
        t[g]
    } else {
        Seq::empty()
    }
}

/// Every (recipient, payload index) pair, payload by payload, member by
/// member.
pub open spec fn deliveries(t: Map<i64, Seq<i64>>, groups: Seq<i64>) -> Seq<(u64, usize)>
    decreases groups.len(),
{
    if groups.len() == 0 {
        Seq::empty()
    } else {
        deliveries(t, groups.drop_last()) + member_deliveries(
            members_of(t, groups.last()),
            groups.len() - 1,
        )
    }
}

impl ForwardWindow {
    /// The messages by id.
    pub closed spec fn messages(&self) -> Map<i64, GroupForwardMessage> {
        self.messages@
    }

    /// Each group's message ids, in arrival order.
    pub closed spec fn queues(&self) -> Map<i64, Seq<i64>> {
        self.queues@.map_values(|q: Vec<i64>| q@)
    }

    /// An empty window.
    pub fn new() -> (w: Self)
        ensures
            w.messages() == Map::<i64, GroupForwardMessage>::empty(),
            w.queues() == Map::<i64, Seq<i64>>::empty(),
    {
        let w = ForwardWindow { messages: HashMap::new(), queues: HashMap::new() };
        assert(w.queues() =~= Map::<i64, Seq<i64>>::empty());
        w
    }

    /// Whether nothing arrived in this window.
    pub fn is_empty(&self) -> (res: bool)
        ensures
            res == (self.queues().dom() == Set::<i64>::empty()),
    {
        let res = self.queues.is_empty();
        proof {
            assert(self.queues().dom() =~= self.queues@.dom());
            if !res {
                let g = choose|g: i64| self.queues@.dom().contains(g);
                assert(self.queues().dom().contains(g));
            }
        }
        res
    }

    /// Takes in a message: stored under its id (replacing a message with the
    /// same id), and its id appended to its group's queue.
    pub fn record(&mut self, msg: GroupForwardMessage)
        ensures
            final(self).messages() == old(self).messages().insert(msg.message_id, msg),
            final(self).queues() == queued(old(self).queues(), msg.group_id, msg.message_id),
    {
        let g = msg.group_id;
        let m = msg.message_id;
        let ghost qs = self.queues();
        self.messages.insert(m, msg);
        let mut queue = match self.queues.remove(&g) {
            Some(q) => q,
            None => Vec::new(),
        };
        assert(queue@ == queue_of(qs, g));
        queue.push(m);
        self.queues.insert(g, queue);
        assert(self.queues() =~= queued(qs, g, m));
    }

    /// Takes in one event of the collecting window and says what to do next,
    /// under the collector's close rule: a message is recorded, other events
    /// change nothing.
    pub fn step(&mut self, event: WindowEvent<GroupForwardMessage>) -> (res: WindowStep)
        ensures
            res == step_answer(event, FORWARD_CLOSE_RULE),
            match event {
                WindowEvent::Received(msg) => {
                    &&& final(self).messages() == old(self).messages().insert(msg.message_id, msg)
                    &&& final(self).queues() == queued(
                        old(self).queues(),
                        msg.group_id,
                        msg.message_id,
                    )
                },
                _ => final(self).messages() == old(self).messages() && final(self).queues()
                    == old(self).queues(),
            },
    {
        match event {
            WindowEvent::Received(msg) => {
                self.record(msg);
                WindowStep::Continue
            },
            WindowEvent::Elapsed => WindowStep::EndWindow,
            WindowEvent::Closed => match FORWARD_CLOSE_RULE {
                CloseRule::Stop => WindowStep::Stop,
                CloseRule::EndWindow => WindowStep::EndWindow,
                CloseRule::KeepWaiting => WindowStep::Continue,
            },
        }
    }

    /// Frames each group's messages (see `group_payloads`), walking the
    /// groups in the order the queue map is walked, which the map leaves
    /// open.
    pub fn payloads(&self) -> (res: Vec<GroupPayload>)
        ensures
            exists|order: Seq<i64>|
                walks(order, self.queues()) && res@.map_values(|p: GroupPayload| payload_view(p))
                    == group_payloads(self.messages(), queues_in(self.queues(), order)),
    {
        let order = group_order(&self.queues);
        let ghost qs = self.queues();
        assert(qs.dom() =~= self.queues@.dom());
        let ghost walk = queues_in(qs, order@);
        let mut out: Vec<GroupPayload> = Vec::new();
        let mut i: usize = 0;
        while i < order.len()
            invariant
                i <= order@.len(),
                qs == self.queues(),
                qs.dom() == self.queues@.dom(),
                walks(order@, qs),
                walk == queues_in(qs, order@),
                out@.map_values(|p: GroupPayload| payload_view(p)) == group_payloads(
                    self.messages(),
                    walk.take(i as int),
                ),
            decreases order@.len() - i,
        {
            let g = order[i];
            assert(order@.to_set().contains(g));
            let q = self.queues.get(&g).unwrap();
            assert(walk[i as int] == (g, q@));
            let es = self.entries_of(g, q);
            let ghost before = out@.map_values(|p: GroupPayload| payload_view(p));
            assert(walk.take(i + 1).drop_last() =~= walk.take(i as int));
            assert(walk.take(i + 1).last() == (g, q@));
            if es.len() > 0 {
                let body = array_of(&es);
                out.push(GroupPayload { group_id: g, body });
                assert(out@.map_values(|p: GroupPayload| payload_view(p)) =~= before.push(
                    (g, array_text(es@.map_values(|s: String| s@))),
                ));
            } else {
                assert(out@.map_values(|p: GroupPayload| payload_view(p)) =~= before);
            }
            i = i + 1;
        }
        assert(walk.take(order@.len() as int) =~= walk);
        out
    }

    /// The entries of one group's queue (see `entries`).
    fn entries_of(&self, g: i64, ids: &Vec<i64>) -> (res: Vec<String>)
        ensures
            res@.map_values(|s: String| s@) == entries(self.messages(), g, ids@),
    {
        let mut out: Vec<String> = Vec::new();
        let mut j: usize = 0;
        while j < ids.len()
            invariant
                j <= ids@.len(),
                out@.map_values(|s: String| s@) == entries(
                    self.messages(),
                    g,
                    ids@.take(j as int),
                ),
            decreases ids@.len() - j,
        {
            let m = ids[j];
            let ghost before = out@.map_values(|s: String| s@);
            assert(ids@.take(j + 1).drop_last() =~= ids@.take(j as int));
            assert(ids@.take(j + 1).last() == m);
            match self.messages.get(&m) {
                Some(msg) => {
                    match raw_json_text(msg.description.as_slice()) {
                        Some(raw) => {
                            let e = entry_text(g, msg, &raw);
                            out.push(e);
                            assert(out@.map_values(|s: String| s@) =~= before.push(
                                forward_entry_text(g, *msg, raw@),
                            ));
                        },
                        None => {
                            assert(out@.map_values(|s: String| s@) =~= before);
                        },
                    }
                },
                None => {
                    assert(out@.map_values(|s: String| s@) =~= before);
                },
            }
            j = j + 1;
        }
        assert(ids@.take(ids@.len() as int) =~= ids@);
        out
    }
}

/// The groups of a window, in the order the map is walked.
fn group_order(queues: &HashMap<i64, Vec<i64>>) -> (res: Vec<i64>)
    ensures
        res@.no_duplicates(),
        res@.to_set() == queues@.dom(),
{
    let ghost walk: Seq<i64> = queues.keys().remaining().unref();
    let mut out: Vec<i64> = Vec::new();
    for g in it: queues.keys()
        invariant
            walk == it.seq().unref(),
            out@ == walk.take(it.index() as int),
    {
        out.push(*g);
        assert(out@ =~= walk.take(it.index() + 1));
    }
    assert(out@ =~= walk);
    out
}

fn entry_text(g: i64, msg: &GroupForwardMessage, raw: &String) -> (res: String)
    ensures
        res@ == forward_entry_text(g, *msg, raw@),
{
    let mut out = String::new();
    out.append("{\"group_id\":\"");
    let gt = i64_to_text(g);
    out.append(gt.as_str());
    out.append("\",\"sender_id\":\"");
    let st = i64_to_text(msg.sender_id);
    out.append(st.as_str());
    out.append("\",\"message_id\":\"");
    let mt = i64_to_text(msg.message_id);
    out.append(mt.as_str());
    out.append("\",\"content_type\":\"");
    out.append(msg.content_type.name());
    out.append("\",\"description\":");
    out.append(raw.as_str());
    out.append("}");
    assert(out@ =~= forward_entry_text(g, *msg, raw@));
    out
}

fn array_of(es: &Vec<String>) -> (res: String)
    ensures
        res@ == array_text(es@.map_values(|s: String| s@)),
{
    let ghost ev = es@.map_values(|s: String| s@);
    let mut out = String::new();
    out.append("[");
    let mut j: usize = 0;
    while j < es.len()
        invariant
            j <= es@.len(),
            ev == es@.map_values(|s: String| s@),
            out@ == "["@ + join_entries(ev.take(j as int)),
        decreases es@.len() - j,
    {
        assert(ev.take(j + 1).drop_last() =~= ev.take(j as int));
        if j > 0 {
            out.append(",");
        }
        out.append(es[j].as_str());
        proof {
            if j == 0 {
                assert(ev.take(1) =~= seq![ev[0]]);
                assert(join_entries(ev.take(j as int)) =~= Seq::<char>::empty());
            }
        }
        assert(out@ =~= "["@ + join_entries(ev.take(j + 1)));
        j = j + 1;
    }
    out.append("]");
    assert(ev.take(es@.len() as int) =~= ev);
    out
}

/// Every pair is another: no member gets the same payload twice.
pub open spec fn pairs_distinct(ds: Seq<(u64, usize)>) -> bool {
    forall|i: int, j: int| 0 <= i < j < ds.len() ==> ds[i] != ds[j]
}

/// Who gets which payload: every member registered for the payload's group,
/// in payload order and member order (see `deliveries`), each member once
/// per payload. Members without a live connection are skipped when the
/// payloads are sent.
pub fn delivery_plan(registry: &GroupRegistry, payloads: &Vec<GroupPayload>) -> (res: Vec<
    (u64, usize),
>)
    ensures
        res@ == deliveries(
            registry@,
            payloads@.map_values(|p: GroupPayload| p.group_id),
        ),
        pairs_distinct(res@),
{
    let ghost gs = payloads@.map_values(|p: GroupPayload| p.group_id);
    let mut out: Vec<(u64, usize)> = Vec::new();
    let mut p: usize = 0;
    while p < payloads.len()
        invariant
            p <= payloads@.len(),
            gs == payloads@.map_values(|p: GroupPayload| p.group_id),
            out@ == deliveries(registry@, gs.take(p as int)),
            pairs_distinct(out@),
            forall|i: int| 0 <= i < out@.len() ==> (#[trigger] out@[i]).1 < p,
        decreases payloads@.len() - p,
    {
        let g = payloads[p].group_id;
        let members = registry.members(g);
        let ghost base = out@;
        let mut k: usize = 0;
        while k < members.len()
            invariant
                k <= members@.len(),
                out@ == base + member_deliveries(members@.take(k as int), p as int),
                pairs_distinct(out@),
                forall|i: int| 0 <= i < base.len() ==> (#[trigger] base[i]).1 < p,
                forall|i: int|
                    base.len() <= i < out@.len() ==> (#[trigger] out@[i]) == (
                        members@[i - base.len()] as u64,
                        p,
                    ),
                out@.len() == base.len() + k,
                no_repeats(members@),
            decreases members@.len() - k,
        {
            let ghost prev = out@;
            proof {
                assert forall|i: int| 0 <= i < prev.len() implies prev[i] != (
                    members@[k as int] as u64,
                    p,
                ) by {
                    if i < base.len() {
                        assert(prev[i] == base[i]);
                    } else {
                        assert(members@[i - base.len()] != members@[k as int]);
                        lemma_cast_injective(members@[i - base.len()], members@[k as int]);
                    }
                }
            }
            out.push((members[k] as u64, p));
            assert(members@.take(k + 1).map_values(|m: i64| (m as u64, p as usize))
                =~= members@.take(k as int).map_values(|m: i64| (m as u64, p as usize)).push(
                (members@[k as int] as u64, p),
            ));
            assert(out@ =~= base + member_deliveries(members@.take(k + 1), p as int));
            k = k + 1;
        }
        assert(members@.take(members@.len() as int) =~= members@);
        assert(gs.take(p + 1).drop_last() =~= gs.take(p as int));
        assert(gs.take(p + 1).last() == g);
        assert(members@ == members_of(registry@, g));
        assert forall|i: int| 0 <= i < out@.len() implies (#[trigger] out@[i]).1 < p + 1 by {
            if i >= base.len() {
                assert(out@[i] == (members@[i - base.len()] as u64, p));
            } else {
                assert(out@[i] == base[i]);
            }
        }
        p = p + 1;
    }
    assert(gs.take(payloads@.len() as int) =~= gs);
    out
}

proof fn lemma_cast_injective(a: i64, b: i64)
    requires
        a != b,
    ensures
        a as u64 != b as u64,
{
    assert(a as u64 != b as u64) by (bit_vector)
        requires
            a != b,
    ;
}


/// Entries are framed with a single comma between neighbours: no entries
/// give nothing, one entry gives itself, and each further entry follows a
/// comma behind the ones before.
pub proof fn lemma_join_entries_commas(es: Seq<Seq<char>>, e: Seq<char>)
    ensures
        join_entries(Seq::<Seq<char>>::empty()) == Seq::<char>::empty(),
        join_entries(seq![e]) == e,
        es.len() > 0 ==> join_entries(es.push(e)) == join_entries(es) + ","@ + e,
{
    assert(es.push(e).drop_last() =~= es);
    assert(es.push(e).last() == e);
}

/// A group's body is a JSON array of its entries: `[]` when empty, `[e]` for
/// one entry, and each further entry goes in before the closing bracket
/// behind a comma.
pub proof fn lemma_array_text_grows(es: Seq<Seq<char>>, e: Seq<char>)
    ensures
        array_text(Seq::<Seq<char>>::empty()) == "[]"@,
        array_text(seq![e]) == "["@ + e + "]"@,
        es.len() > 0 ==> array_text(es.push(e)) == array_text(es).drop_last() + ","@ + e + "]"@,
{
    reveal_strlit("[]");
    reveal_strlit("[");
    reveal_strlit("]");
    lemma_join_entries_commas(es, e);
    assert(array_text(Seq::<Seq<char>>::empty()) =~= "[]"@);
    if es.len() > 0 {
        assert(array_text(es).drop_last() =~= "["@ + join_entries(es));
        assert(array_text(es.push(e)) =~= array_text(es).drop_last() + ","@ + e + "]"@);
    }
}

/// A message's entry is there when the message is known and its body is a
/// JSON value, and absent otherwise; a queue's entries are those of its
/// messages in order; and a group gets a payload exactly when it has an
/// entry, behind the payloads of the groups before it.
pub proof fn lemma_payloads_follow_queues(
    msgs: Map<i64, GroupForwardMessage>,
    g: i64,
    ids: Seq<i64>,
    m: i64,
    qs: Seq<(i64, Seq<i64>)>,
)
    ensures
        msgs.contains_key(m) && json_raw_text(msgs[m].description@) is Some ==> entry_for(msgs, g, m)
            == Some(forward_entry_text(g, msgs[m], json_raw_text(msgs[m].description@)->0)),
        !msgs.contains_key(m) || json_raw_text(msgs[m].description@) is None ==> entry_for(
            msgs,
            g,
            m,
        ) is None,
        entries(msgs, g, Seq::<i64>::empty()) == Seq::<Seq<char>>::empty(),
        entries(msgs, g, ids.push(m)) == match entry_for(msgs, g, m) {
            Some(e) => entries(msgs, g, ids).push(e),
            None => entries(msgs, g, ids),
        },
        group_payloads(msgs, Seq::<(i64, Seq<i64>)>::empty()) == Seq::<(i64, Seq<char>)>::empty(),
        group_payloads(msgs, qs.push((g, ids))) == if entries(msgs, g, ids).len() > 0 {
            group_payloads(msgs, qs).push((g, array_text(entries(msgs, g, ids))))
        } else {
            group_payloads(msgs, qs)
        },
{
    assert(ids.push(m).drop_last() =~= ids);
    assert(qs.push((g, ids)).drop_last() =~= qs);
}

/// Every payload reaches every member listed for its group: for payload
/// `p` and the `i`-th member of its group, the plan holds the pair of that
/// member and `p`, whatever the payloads before it.
pub proof fn lemma_every_member_gets_its_payload(
    t: Map<i64, Seq<i64>>,
    groups: Seq<i64>,
    p: int,
    i: int,
)
    requires
        0 <= p < groups.len(),
        t.contains_key(groups[p]),
        0 <= i < t[groups[p]].len(),
    ensures
        deliveries(t, groups).contains((t[groups[p]][i] as u64, p as usize)),
    decreases groups.len(),
{
    let rest = groups.drop_last();
    let last = member_deliveries(members_of(t, groups.last()), groups.len() - 1);
    assert(deliveries(t, groups) == deliveries(t, rest) + last);
    if p < groups.len() - 1 {
        assert(rest[p] == groups[p]);
        lemma_every_member_gets_its_payload(t, rest, p, i);
        let k = choose|k: int|
            0 <= k < deliveries(t, rest).len() && deliveries(t, rest)[k] == (
                t[groups[p]][i] as u64,
                p as usize,
            );
        assert(deliveries(t, groups)[k] == deliveries(t, rest)[k]);
    } else {
        let k = deliveries(t, rest).len() + i;
        assert(deliveries(t, groups)[k] == last[i]);
    }
}

/// The plan sends nothing else: each of its pairs is a member listed for
/// some payload's group, with that payload.
pub proof fn lemma_plan_holds_only_members(t: Map<i64, Seq<i64>>, groups: Seq<i64>, k: int)
    requires
        0 <= k < deliveries(t, groups).len(),
    ensures
        exists|p: int, i: int|
            0 <= p < groups.len() && t.contains_key(groups[p]) && 0 <= i < t[groups[p]].len()
                && deliveries(t, groups)[k] == (#[trigger] t[groups[p]][i] as u64, p as usize),
    decreases groups.len(),
{
    let rest = groups.drop_last();
    let q = groups.len() - 1;
    let last = member_deliveries(members_of(t, groups.last()), q);
    assert(deliveries(t, groups) == deliveries(t, rest) + last);
    if k < deliveries(t, rest).len() {
        lemma_plan_holds_only_members(t, rest, k);
        let (p, i) = choose|p: int, i: int|
            0 <= p < rest.len() && t.contains_key(rest[p]) && 0 <= i < t[rest[p]].len()
                && deliveries(t, rest)[k] == (#[trigger] t[rest[p]][i] as u64, p as usize);
        assert(rest[p] == groups[p]);
        assert(deliveries(t, groups)[k] == (t[groups[p]][i] as u64, p as usize));
    } else {
        let i = k - deliveries(t, rest).len();
        assert(t.contains_key(groups[q]));
        assert(deliveries(t, groups)[k] == (t[groups[q]][i] as u64, q as usize));
    }
}

/// The text of a signed id reads back as the id, negative ones included.
proof fn lemma_signed_text_round_trip(v: i64)
    ensures
        spec_parse_i64(signed_decimal(v as int)) == Some(v),
{
    if v >= 0 {
        crate::text::lemma_i64_text_round_trip(v);
    } else {
        let n = (-(v as int)) as nat;
        lemma_decimal_digits(n);
        let s = signed_decimal(v as int);
        assert(s[0] == '-');
        assert(s.drop_first() =~= decimal(n));
    }
}

/// A forwarded entry names its message: the group, sender and message ids
/// are texts that read back as those ids, and the kind is the message's own
/// kind's name; the description is the message's JSON value as it came.
/// Returned are the three id texts.
pub proof fn lemma_entry_names_message(g: i64, msg: GroupForwardMessage, raw: Seq<char>) -> (ids:
    (Seq<char>, Seq<char>, Seq<char>))
    ensures
        forward_entry_text(g, msg, raw) == "{\"group_id\":\""@ + ids.0 + "\",\"sender_id\":\""@
            + ids.1 + "\",\"message_id\":\""@ + ids.2 + "\",\"content_type\":\""@
            + content_label_name(msg.content_type) + "\",\"description\":"@ + raw + "}"@,
        spec_parse_i64(ids.0) == Some(g),
        spec_parse_i64(ids.1) == Some(msg.sender_id),
        spec_parse_i64(ids.2) == Some(msg.message_id),
{
    lemma_signed_text_round_trip(g);
    lemma_signed_text_round_trip(msg.sender_id);
    lemma_signed_text_round_trip(msg.message_id);
    (
        signed_decimal(g as int),
        signed_decimal(msg.sender_id as int),
        signed_decimal(msg.message_id as int),
    )
}

/// Two messages that differ only in their kind give different entries: the
/// entry carries the kind.
pub proof fn lemma_entries_tell_kinds_apart(
    g: i64,
    a: GroupForwardMessage,
    b: GroupForwardMessage,
    raw: Seq<char>,
)
    requires
        a.sender_id == b.sender_id,
        a.message_id == b.message_id,
        a.content_type != b.content_type,
    ensures
        forward_entry_text(g, a, raw) != forward_entry_text(g, b, raw),
{
    lemma_content_label_names_distinct(a.content_type, b.content_type);
    let na = content_label_name(a.content_type);
    let nb = content_label_name(b.content_type);
    let head = "{\"group_id\":\""@ + signed_decimal(g as int) + "\",\"sender_id\":\""@
        + signed_decimal(a.sender_id as int) + "\",\"message_id\":\""@ + signed_decimal(
        a.message_id as int,
    ) + "\",\"content_type\":\""@;
    let tail = "\",\"description\":"@ + raw + "}"@;
    assert(forward_entry_text(g, a, raw) =~= head + na + tail);
    assert(forward_entry_text(g, b, raw) =~= head + nb + tail);
    if forward_entry_text(g, a, raw) == forward_entry_text(g, b, raw) {
        assert(na.len() == nb.len());
        assert((head + na + tail).subrange(head.len() as int, (head.len() + na.len()) as int) =~= na);
        assert((head + nb + tail).subrange(head.len() as int, (head.len() + nb.len()) as int) =~= nb);
    }
}

} // verus!
