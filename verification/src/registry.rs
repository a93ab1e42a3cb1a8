//! Participant registry and broadcaster.
//!
//! A single coordinator loop owns the set of live participants, applies
//! join, leave and chat events strictly in arrival order, and fans each
//! message out to every live participant but its originator.  The fan-out
//! only *enqueues* deliveries; actually writing them to sockets is the
//! per-connection writers' business, so one wedged receiver never delays
//! the coordinator or the other participants.

use vstd::prelude::*;

use crate::envelope::Envelope;
use crate::envelope::chat_text;
use crate::envelope::envelope_text;
use crate::envelope::join_text;
use crate::envelope::leave_text;
use crate::envelope::render;

verus! {

/// A live, named connection as the registry tracks it.
pub struct Participant {
    /// Identity, unique for the connection's lifetime and never reused.
    pub id: u128,
    /// Display name, fixed at registration.
    pub name: String,
}

impl View for Participant {
    type V = (u128, Seq<char>);

    open spec fn view(&self) -> (u128, Seq<char>) {
        (self.id, self.name@)
    }
}

impl Participant {
    /// An owned copy, for sharing one participant with several loops.
    pub fn duplicate(&self) -> (r: Participant)
        ensures
            r@ == self@,
    {
        Participant { id: self.id, name: self.name.clone() }
    }
}

/// One unit of coordination handed to the registry loop, consumed once.
pub enum RegistryEvent {
    /// A connection completed its name handshake.
    Joined(Participant),
    /// A connection ended: stream closure, read failure, or shutdown.
    Left(Participant),
    /// A participant sent a chat line with the given body.
    Chat(Participant, String),
}

/// The mathematical value of a registry event.
pub enum RegistryEventModel {
    Joined { id: u128, name: Seq<char> },
    Left { id: u128, name: Seq<char> },
    Chat { id: u128, name: Seq<char>, body: Seq<char> },
}

impl View for RegistryEvent {
    type V = RegistryEventModel;

    open spec fn view(&self) -> RegistryEventModel {
        match self {
            RegistryEvent::Joined(p) => RegistryEventModel::Joined { id: p.id, name: p.name@ },
            RegistryEvent::Left(p) => RegistryEventModel::Left { id: p.id, name: p.name@ },
            RegistryEvent::Chat(p, body) => RegistryEventModel::Chat {
                id: p.id,
                name: p.name@,
                body: body@,
            },
        }
    }
}

/// One outbound message the broadcaster asks a connection's writer to send.
pub struct Delivery {
    /// The recipient's id.
    pub to: u128,
    /// The wire text the writer must frame and send.
    pub message: String,
}

impl View for Delivery {
    type V = (u128, Seq<char>);

    open spec fn view(&self) -> (u128, Seq<char>) {
        (self.to, self.message@)
    }
}

/// The mathematical value of a batch of deliveries.
pub open spec fn deliveries(ds: Seq<Delivery>) -> Seq<(u128, Seq<char>)> {
    ds.map_values(|d: Delivery| d@)
}

/// True when some live participant carries `id`.
pub open spec fn has_id(r: Seq<(u128, Seq<char>)>, id: u128) -> bool {
    exists|i: int| 0 <= i < r.len() && r[i].0 == id
}

/// Position of the first participant carrying `id`; `r.len()` if absent.
pub open spec fn index_of_id(r: Seq<(u128, Seq<char>)>, id: u128) -> int
    decreases r.len(),
{
    if r.len() == 0 {
        0
    } else if r[0].0 == id {
        0
    } else {
        1 + index_of_id(r.skip(1), id)
    }
}

/// The registry's invariant: no id occurs twice.
pub open spec fn distinct_ids(r: Seq<(u128, Seq<char>)>) -> bool {
    forall|i: int, j: int| 0 <= i < j < r.len() ==> r[i].0 != r[j].0
}

/// The registry after removing the participant carrying `id`, by swapping
/// the last entry into its place; unchanged when `id` is absent.
pub open spec fn remove_id(r: Seq<(u128, Seq<char>)>, id: u128) -> Seq<(u128, Seq<char>)> {
    if has_id(r, id) {
        r.update(index_of_id(r, id), r.last()).drop_last()
    } else {
        r
    }
}

/// One message addressed to every participant but the sender, in registry
/// order.
pub open spec fn fan_out(r: Seq<(u128, Seq<char>)>, sender: u128, msg: Seq<char>) -> Seq<
    (u128, Seq<char>),
>
    decreases r.len(),
{
    if r.len() == 0 {
        Seq::empty()
    } else {
        fan_out(r.drop_last(), sender, msg) + (if r.last().0 == sender {
            Seq::empty()
        } else {
            seq![(r.last().0, msg)]
        })
    }
}

/// `index_of_id` names the least position carrying `id`.
pub proof fn lemma_index_of_id(r: Seq<(u128, Seq<char>)>, id: u128)
    ensures
        0 <= index_of_id(r, id) <= r.len(),
        has_id(r, id) ==> index_of_id(r, id) < r.len() && r[index_of_id(r, id)].0 == id,
        forall|j: int| 0 <= j < index_of_id(r, id) ==> r[j].0 != id,
        !has_id(r, id) ==> index_of_id(r, id) == r.len(),
    decreases r.len(),
{
    if r.len() == 0 {
        assert(!has_id(r, id));
    } else if r[0].0 == id {
        assert(has_id(r, id));
    } else {
        let t = r.skip(1);
        lemma_index_of_id(t, id);
        assert(forall|j: int| 0 <= j < t.len() ==> t[j] == r[j + 1]);
        if has_id(t, id) {
            let j = choose|j: int| 0 <= j < t.len() && t[j].0 == id;
            assert(r[j + 1].0 == id);
            assert(has_id(r, id));
        }
        if has_id(r, id) {
            let i = choose|i: int| 0 <= i < r.len() && r[i].0 == id;
            assert(i != 0);
            assert(t[i - 1].0 == id);
            assert(has_id(t, id));
        }
        assert(forall|j: int| 1 <= j < index_of_id(r, id) ==> r[j] == t[j - 1] && t[j - 1].0 != id);
    }
}

/// Any position carrying `id` with none before it is `index_of_id`.
pub proof fn lemma_index_of_id_unique(r: Seq<(u128, Seq<char>)>, id: u128, i: int)
    requires
        0 <= i < r.len(),
        r[i].0 == id,
        forall|j: int| 0 <= j < i ==> r[j].0 != id,
    ensures
        index_of_id(r, id) == i,
{
    assert(has_id(r, id));
    lemma_index_of_id(r, id);
    let f = index_of_id(r, id);
    if f < i {
        assert(r[f].0 != id);
    } else if f > i {
        assert(r[i].0 != id);
    }
}

/// What removal does to membership: the removed id is gone, every other id
/// stays, distinctness is kept, and removing an absent id changes nothing.
pub proof fn lemma_remove_id(r: Seq<(u128, Seq<char>)>, id: u128)
    requires
        distinct_ids(r),
    ensures
        distinct_ids(remove_id(r, id)),
        !has_id(remove_id(r, id), id),
        forall|x: u128| x != id ==> (has_id(remove_id(r, id), x) <==> has_id(r, x)),
        !has_id(r, id) ==> remove_id(r, id) == r,
        has_id(r, id) ==> remove_id(r, id).len() == r.len() - 1,
{
    if has_id(r, id) {
        lemma_index_of_id(r, id);
        let k = index_of_id(r, id);
        let u = remove_id(r, id);
        let n = r.len() as int;
        assert(forall|j: int|
            0 <= j < n - 1 ==> u[j] == (if j == k {
                r[n - 1]
            } else {
                r[j]
            }));
        assert forall|x: u128| x != id implies (has_id(u, x) <==> has_id(r, x)) by {
            if has_id(u, x) {
                let j = choose|j: int| 0 <= j < u.len() && u[j].0 == x;
                if j == k {
                    assert(r[n - 1].0 == x);
                } else {
                    assert(r[j].0 == x);
                }
                assert(has_id(r, x));
            }
            if has_id(r, x) {
                let i = choose|i: int| 0 <= i < n && r[i].0 == x;
                if i == n - 1 {
                    if k < n - 1 {
                        assert(u[k].0 == x);
                    }
                    // when k == n - 1 the removed entry is the last one,
                    // and r[i].0 == id contradicts x != id
                } else if i == k {
                    // r[k].0 == id contradicts x != id
                } else {
                    assert(u[i].0 == x);
                }
                assert(has_id(u, x));
            }
        }
        assert(!has_id(u, id)) by {
            if has_id(u, id) {
                let j = choose|j: int| 0 <= j < u.len() && u[j].0 == id;
                if j == k {
                    assert(r[n - 1].0 == id);
                    assert(k < n - 1 ==> r[n - 1].0 != r[k].0);
                } else {
                    assert(r[j].0 == id);
                    assert(j != k ==> r[j].0 != r[k].0);
                }
            }
        }
    }
}

/// The live-participant set, owned by the single coordinator loop.
pub struct Registry {
    members: Vec<Participant>,
}

impl View for Registry {
    type V = Seq<(u128, Seq<char>)>;

    closed spec fn view(&self) -> Seq<(u128, Seq<char>)> {
        self.members@.map_values(|p: Participant| p@)
    }
}

impl Registry {
    /// The invariant every operation preserves: ids are pairwise distinct.
    pub open spec fn wf(&self) -> bool {
        distinct_ids(self@)
    }

    /// An empty registry.
    pub fn new() -> (r: Registry)
        ensures
            r@ == Seq::<(u128, Seq<char>)>::empty(),
            r.wf(),
    {
        let r = Registry { members: Vec::new() };
        proof {
            assert(r@ =~= Seq::<(u128, Seq<char>)>::empty());
        }
        r
    }

    /// How many participants are live.
    pub fn count(&self) -> (n: usize)
        ensures
            n == self@.len(),
    {
        self.members.len()
    }

    /// True when a live participant carries `id`.
    pub fn contains_id(&self, id: u128) -> (r: bool)
        ensures
            r == has_id(self@, id),
    {
        let n = self.members.len();
        let mut i: usize = 0;
        while i < n
            invariant
                0 <= i <= n,
                n == self.members@.len(),
                forall|j: int| 0 <= j < i ==> self@[j].0 != id,
            decreases n - i,
        {
            if self.members[i].id == id {
                assert(self@[i as int].0 == id);
                return true;
            }
            i += 1;
        }
        false
    }

    /// Appends a newly joined participant.  The id must be fresh, which the
    /// orchestrator guarantees by constructing each id once per connection.
    pub fn add(&mut self, p: Participant)
        requires
            old(self).wf(),
            !has_id(old(self)@, p.id),
        ensures
            final(self)@ == old(self)@.push(p@),
            final(self).wf(),
    {
        let ghost v = p@;
        self.members.push(p);
        proof {
            assert(self@ =~= old(self)@.push(v));
            assert forall|i: int, j: int|
                0 <= i < j < self@.len() implies self@[i].0 != self@[j].0 by {
                if j < self@.len() - 1 {
                    assert(old(self).wf());
                } else {
                    assert(self@[j] == v);
                    assert(!has_id(old(self)@, v.0));
                    assert(self@[i] == old(self)@[i]);
                }
            }
        }
    }

    /// Removes the participant carrying `id`, swapping the last entry into
    /// its place.  An absent id is a no-op, never an error: a removal may
    /// race the one a simultaneous read failure already caused.
    pub fn remove(&mut self, id: u128)
        requires
            old(self).wf(),
        ensures
            final(self)@ == remove_id(old(self)@, id),
            final(self).wf(),
            !has_id(final(self)@, id),
            !has_id(old(self)@, id) ==> final(self)@ == old(self)@,
    {
        let n = self.members.len();
        let mut i: usize = 0;
        while i < n
            invariant
                0 <= i <= n,
                n == self.members@.len(),
                self == old(self),
                old(self).wf(),
                forall|j: int| 0 <= j < i ==> self@[j].0 != id,
            decreases n - i,
        {
            if self.members[i].id == id {
                proof {
                    assert(self@[i as int].0 == id);
                    assert(has_id(self@, id));
                    lemma_index_of_id_unique(self@, id, i as int);
                }
                self.members.swap_remove(i);
                proof {
                    lemma_remove_id(old(self)@, id);
                    assert(self@ =~= old(self)@.update(i as int, old(self)@.last()).drop_last());
                    assert(self@ == remove_id(old(self)@, id));
                }
                return;
            }
            i += 1;
        }
        proof {
            assert(!has_id(self@, id));
            lemma_remove_id(old(self)@, id);
        }
    }

    /// Fan-out: one delivery of the envelope's wire text addressed to every
    /// live participant but the sender, in registry order.  Deliveries are
    /// enqueued, never written here, so a slow receiver only delays itself.
    pub fn broadcast(&self, sender: u128, env: &Envelope) -> (out: Vec<Delivery>)
        ensures
            deliveries(out@) == fan_out(self@, sender, envelope_text(env@)),
    {
        let text = render(env);
        let mut out: Vec<Delivery> = Vec::new();
        let n = self.members.len();
        let mut i: usize = 0;
        proof {
            assert(self@.take(0) =~= Seq::<(u128, Seq<char>)>::empty());
        }
        while i < n
            invariant
                0 <= i <= n,
                n == self.members@.len(),
                text@ == envelope_text(env@),
                deliveries(out@) == fan_out(self@.take(i as int), sender, envelope_text(env@)),
            decreases n - i,
        {
            let ghost prev = out@;
            if self.members[i].id != sender {
                let message = text.clone();
                out.push(Delivery { to: self.members[i].id, message });
            }
            i += 1;
            proof {
                let m = envelope_text(env@);
                let t = self@.take(i as int);
                assert(t.drop_last() =~= self@.take(i as int - 1));
                assert(t.last() == self@[i as int - 1]);
                if self@[i as int - 1].0 == sender {
                    assert(deliveries(out@) =~= fan_out(t.drop_last(), sender, m)
                        + Seq::<(u128, Seq<char>)>::empty());
                } else {
                    assert(deliveries(out@) =~= deliveries(prev) + seq![
                        (self@[i as int - 1].0, m),
                    ]);
                }
            }
        }
        proof {
            assert(self@.take(n as int) =~= self@);
        }
        out
    }
}

/// What one event does to the registry: joins append, leaves remove, chats
/// leave it unchanged.
pub open spec fn step_registry(r: Seq<(u128, Seq<char>)>, ev: RegistryEventModel) -> Seq<
    (u128, Seq<char>),
> {
    match ev {
        RegistryEventModel::Joined { id, name } => r.push((id, name)),
        RegistryEventModel::Left { id, name } => remove_id(r, id),
        RegistryEventModel::Chat { id, name, body } => r,
    }
}

/// What one event makes the coordinator enqueue: the join fan-out is
/// computed after the add, the leave fan-out after the removal, and a chat
/// fan-out over the unchanged registry.
pub open spec fn step_deliveries(r: Seq<(u128, Seq<char>)>, ev: RegistryEventModel) -> Seq<
    (u128, Seq<char>),
> {
    match ev {
        RegistryEventModel::Joined { id, name } => fan_out(r.push((id, name)), id, join_text(name)),
        RegistryEventModel::Left { id, name } => fan_out(remove_id(r, id), id, leave_text(name)),
        RegistryEventModel::Chat { id, name, body } => fan_out(r, id, chat_text(name, body)),
    }
}

impl Registry {
    /// Applies one event as the coordinator does: Add completes before the
    /// join fan-out is computed, Remove before the leave fan-out, so a
    /// removed participant is never addressed with its own leave notice.
    pub fn handle_event(&mut self, ev: RegistryEvent) -> (out: Vec<Delivery>)
        requires
            old(self).wf(),
            ev matches RegistryEvent::Joined(p) ==> !has_id(old(self)@, p.id),
        ensures
            final(self).wf(),
            final(self)@ == step_registry(old(self)@, ev@),
            deliveries(out@) == step_deliveries(old(self)@, ev@),
    {
        match ev {
            RegistryEvent::Joined(p) => {
                let env = Envelope::Join { name: p.name.clone() };
                let sid = p.id;
                self.add(p);
                self.broadcast(sid, &env)
            },
            RegistryEvent::Left(p) => {
                let env = Envelope::Leave { name: p.name.clone() };
                self.remove(p.id);
                self.broadcast(p.id, &env)
            },
            RegistryEvent::Chat(p, body) => {
                let sid = p.id;
                let env = Envelope::Chat { sender: p.name, body };
                self.broadcast(sid, &env)
            },
        }
    }
}

/// No self-delivery: a fan-out never addresses the sender itself.
pub proof fn lemma_no_self_delivery(r: Seq<(u128, Seq<char>)>, sender: u128, msg: Seq<char>)
    ensures
        forall|k: int|
            0 <= k < fan_out(r, sender, msg).len() ==> (#[trigger] fan_out(r, sender, msg)[k]).0
                != sender,
    decreases r.len(),
{
    if r.len() > 0 {
        lemma_no_self_delivery(r.drop_last(), sender, msg);
        let f = fan_out(r, sender, msg);
        let fd = fan_out(r.drop_last(), sender, msg);
        assert forall|k: int| 0 <= k < f.len() implies (#[trigger] f[k]).0 != sender by {
            if k < fd.len() {
                assert(f[k] == fd[k]);
            } else {
                assert(r.last().0 != sender);
            }
        }
    }
}

/// Broadcast completeness: every live participant other than the sender is
/// addressed with the message, whatever becomes of the other deliveries.
pub proof fn lemma_broadcast_reaches_all(r: Seq<(u128, Seq<char>)>, sender: u128, msg: Seq<char>)
    ensures
        forall|i: int|
            0 <= i < r.len() && (#[trigger] r[i]).0 != sender ==> fan_out(
                r,
                sender,
                msg,
            ).contains((r[i].0, msg)),
    decreases r.len(),
{
    if r.len() > 0 {
        let d = r.drop_last();
        lemma_broadcast_reaches_all(d, sender, msg);
        let f = fan_out(r, sender, msg);
        let fd = fan_out(d, sender, msg);
        assert forall|i: int|
            0 <= i < r.len() && (#[trigger] r[i]).0 != sender implies f.contains(
            (r[i].0, msg),
        ) by {
            if i < r.len() - 1 {
                assert(d[i] == r[i]);
                assert(fd.contains((r[i].0, msg)));
                let j = choose|j: int| 0 <= j < fd.len() && fd[j] == (r[i].0, msg);
                assert(f[j] == (r[i].0, msg));
            } else {
                assert(r.last() == r[i]);
                assert(f[fd.len() as int] == (r[i].0, msg));
            }
        }
    }
}

/// The registry after a sequence of events, applied in arrival order.
pub open spec fn run_registry(
    r: Seq<(u128, Seq<char>)>,
    evs: Seq<RegistryEventModel>,
) -> Seq<(u128, Seq<char>)>
    decreases evs.len(),
{
    if evs.len() == 0 {
        r
    } else {
        run_registry(step_registry(r, evs[0]), evs.skip(1))
    }
}

/// Every delivery a sequence of events produces, in the order the
/// single-consumer coordinator enqueues them.
pub open spec fn run_deliveries(
    r: Seq<(u128, Seq<char>)>,
    evs: Seq<RegistryEventModel>,
) -> Seq<(u128, Seq<char>)>
    decreases evs.len(),
{
    if evs.len() == 0 {
        Seq::empty()
    } else {
        step_deliveries(r, evs[0]) + run_deliveries(step_registry(r, evs[0]), evs.skip(1))
    }
}

/// The messages addressed to `id`, in enqueue order.
pub open spec fn sent_to(ds: Seq<(u128, Seq<char>)>, id: u128) -> Seq<Seq<char>>
    decreases ds.len(),
{
    if ds.len() == 0 {
        Seq::empty()
    } else {
        (if ds[0].0 == id {
            seq![ds[0].1]
        } else {
            Seq::empty()
        }) + sent_to(ds.skip(1), id)
    }
}

/// `sent_to` distributes over concatenation of delivery batches.
pub proof fn lemma_sent_to_concat(a: Seq<(u128, Seq<char>)>, b: Seq<(u128, Seq<char>)>, id: u128)
    ensures
        sent_to(a + b, id) == sent_to(a, id) + sent_to(b, id),
    decreases a.len(),
{
    if a.len() == 0 {
        assert(a + b =~= b);
        assert(sent_to(a, id) + sent_to(b, id) =~= sent_to(b, id));
    } else {
        assert((a + b)[0] == a[0]);
        assert((a + b).skip(1) =~= a.skip(1) + b);
        lemma_sent_to_concat(a.skip(1), b, id);
        assert(sent_to(a, id) + sent_to(b, id) =~= (if a[0].0 == id {
            seq![a[0].1]
        } else {
            Seq::<Seq<char>>::empty()
        }) + (sent_to(a.skip(1), id) + sent_to(b, id)));
    }
}

/// Ordering: when A joins, then B joins, then A sends a chat, B has been
/// addressed with exactly A's chat — never B's own join notice — and A with
/// exactly B's join notice, never A's own join or A's own chat.
pub proof fn lemma_ordering(
    a_id: u128,
    a_name: Seq<char>,
    b_id: u128,
    b_name: Seq<char>,
    body: Seq<char>,
)
    requires
        a_id != b_id,
    ensures
        ({
            let evs = seq![
                RegistryEventModel::Joined { id: a_id, name: a_name },
                RegistryEventModel::Joined { id: b_id, name: b_name },
                RegistryEventModel::Chat { id: a_id, name: a_name, body },
            ];
            let ds = run_deliveries(Seq::empty(), evs);
            sent_to(ds, b_id) == seq![chat_text(a_name, body)] && sent_to(ds, a_id) == seq![
                join_text(b_name),
            ]
        }),
{
    reveal_with_fuel(fan_out, 4);
    reveal_with_fuel(run_registry, 5);
    reveal_with_fuel(run_deliveries, 5);
    reveal_with_fuel(sent_to, 4);
    let evs = seq![
        RegistryEventModel::Joined { id: a_id, name: a_name },
        RegistryEventModel::Joined { id: b_id, name: b_name },
        RegistryEventModel::Chat { id: a_id, name: a_name, body },
    ];
    let r0 = Seq::<(u128, Seq<char>)>::empty();
    let r1 = r0.push((a_id, a_name));
    let r2 = r1.push((b_id, b_name));

    // fan-outs of the three steps
    let d0 = step_deliveries(r0, evs[0]);
    let d1 = step_deliveries(r1, evs[1]);
    let d2 = step_deliveries(r2, evs[2]);

    assert(evs[0] == RegistryEventModel::Joined { id: a_id, name: a_name });
    assert(evs[1] == RegistryEventModel::Joined { id: b_id, name: b_name });
    assert(evs[2] == RegistryEventModel::Chat { id: a_id, name: a_name, body });

    assert(r1.drop_last() =~= r0);
    assert(r2.drop_last() =~= r1);
    assert(r1.last() == (a_id, a_name));
    assert(r2.last() == (b_id, b_name));

    // A's join is fanned out over {A} and reaches nobody.
    assert(d0 =~= Seq::<(u128, Seq<char>)>::empty());
    // B's join is fanned out over {A, B} and reaches exactly A.
    assert(d1 =~= seq![(a_id, join_text(b_name))]);
    // A's chat is fanned out over {A, B} and reaches exactly B.
    assert(d2 =~= seq![(b_id, chat_text(a_name, body))]);

    // assemble the full delivery sequence
    assert(evs.skip(1) =~= seq![evs[1], evs[2]]);
    assert(evs.skip(1).skip(1) =~= seq![evs[2]]);
    assert(seq![evs[2]].skip(1) =~= Seq::<RegistryEventModel>::empty());
    assert(step_registry(r0, evs[0]) == r1);
    assert(step_registry(r1, evs[1]) == r2);
    let ds = run_deliveries(r0, evs);
    assert(ds == d0 + (d1 + (d2 + Seq::<(u128, Seq<char>)>::empty())));

    lemma_sent_to_concat(d0, d1 + (d2 + Seq::<(u128, Seq<char>)>::empty()), b_id);
    lemma_sent_to_concat(d1, d2 + Seq::<(u128, Seq<char>)>::empty(), b_id);
    lemma_sent_to_concat(d2, Seq::<(u128, Seq<char>)>::empty(), b_id);
    lemma_sent_to_concat(d0, d1 + (d2 + Seq::<(u128, Seq<char>)>::empty()), a_id);
    lemma_sent_to_concat(d1, d2 + Seq::<(u128, Seq<char>)>::empty(), a_id);
    lemma_sent_to_concat(d2, Seq::<(u128, Seq<char>)>::empty(), a_id);

    assert(d1.skip(1) =~= Seq::<(u128, Seq<char>)>::empty());
    assert(d2.skip(1) =~= Seq::<(u128, Seq<char>)>::empty());

    assert(sent_to(ds, b_id) =~= seq![chat_text(a_name, body)]);
    assert(sent_to(ds, a_id) =~= seq![join_text(b_name)]);
}

} // verus!
