//! Slots: how many commands may run at once, and who waits for one.

use vstd::prelude::*;

verus! {

/// The slots of the daemon. Those who ask are known by tickets: each holds a
/// slot, waits for one in the order of asking, or has been turned away.
#[derive(Debug)]
pub struct Slots {
    total: usize,
    running: Vec<u64>,
    waiting: Vec<u64>,
    open: bool,
}

/// What `Slots` hold.
#[verifier::ext_equal]
pub struct SlotsView {
    pub total: nat,
    pub running: Seq<u64>,
    pub waiting: Seq<u64>,
    pub open: bool,
}

impl View for Slots {
    type V = SlotsView;

    closed spec fn view(&self) -> SlotsView {
        SlotsView {
            total: self.total as nat,
            running: self.running@,
            waiting: self.waiting@,
            open: self.open,
        }
    }
}

/// Something that happens to the slots.
#[derive(Debug, Clone, Copy)]
pub enum SlotEvent {
    /// Someone asks for a slot.
    Ask { ticket: u64 },
    /// Someone is done with a slot, or waits no longer.
    Leave { ticket: u64 },
    /// No slot is given away from now on.
    Close,
}

/// What follows from an event.
#[derive(Debug)]
pub struct SlotChange {
    /// Who gets a slot now.
    pub started: Option<u64>,
    /// Who is turned away now.
    pub refused: Vec<u64>,
}

/// What a `SlotChange` holds.
#[verifier::ext_equal]
pub struct SlotChangeView {
    pub started: Option<u64>,
    pub refused: Seq<u64>,
}

impl View for SlotChange {
    type V = SlotChangeView;

    open spec fn view(&self) -> SlotChangeView {
        SlotChangeView { started: self.started, refused: self.refused@ }
    }
}

/// The slots before anyone has asked.
pub open spec fn all_free(total: nat) -> SlotsView {
    SlotsView { total, running: Seq::empty(), waiting: Seq::empty(), open: true }
}

/// The first place of a ticket that stands in a list.
pub open spec fn place(list: Seq<u64>, ticket: u64) -> int {
    list.index_of_first(ticket)->0
}

/// No one gets a slot, and no one is turned away.
pub open spec fn quiet() -> SlotChangeView {
    SlotChangeView { started: None, refused: Seq::empty() }
}

/// What an event does to the slots. A slot that becomes free goes to the one
/// who has waited longest.
pub open spec fn slot_step(slots: SlotsView, event: SlotEvent) -> (SlotsView, SlotChangeView) {
    match event {
        SlotEvent::Ask { ticket } => if slots.running.contains(ticket) || slots.waiting.contains(
            ticket,
        ) {
            (slots, quiet())
        } else if !slots.open {
            (slots, SlotChangeView { started: None, refused: seq![ticket] })
        } else if slots.running.len() < slots.total {
            (
                SlotsView { running: slots.running.push(ticket), ..slots },
                SlotChangeView { started: Some(ticket), ..quiet() },
            )
        } else {
            (SlotsView { waiting: slots.waiting.push(ticket), ..slots }, quiet())
        },
        SlotEvent::Leave { ticket } => if slots.running.contains(ticket) {
            let left = slots.running.remove(place(slots.running, ticket));
            if slots.waiting.len() > 0 {
                (
                    SlotsView {
                        running: left.push(slots.waiting[0]),
                        waiting: slots.waiting.drop_first(),
                        ..slots
                    },
                    SlotChangeView { started: Some(slots.waiting[0]), ..quiet() },
                )
            } else {
                (SlotsView { running: left, ..slots }, quiet())
            }
        } else if slots.waiting.contains(ticket) {
            (
                SlotsView {
                    waiting: slots.waiting.remove(place(slots.waiting, ticket)),
                    ..slots
                },
                quiet(),
            )
        } else {
            (slots, quiet())
        },
        SlotEvent::Close => (
            SlotsView { waiting: Seq::empty(), open: false, ..slots },
            SlotChangeView { started: None, refused: slots.waiting },
        ),
    }
}

/// Whether the slots are in order: no more tickets hold a slot than there are
/// slots, no ticket stands twice, someone waits only where every slot is taken,
/// and no one waits once they are closed.
pub open spec fn in_order(slots: SlotsView) -> bool {
    &&& slots.running.len() <= slots.total
    &&& slots.running.no_duplicates()
    &&& slots.waiting.no_duplicates()
    &&& forall|i: int, j: int|
        0 <= i < slots.running.len() && 0 <= j < slots.waiting.len()
            ==> #[trigger] slots.running[i] != #[trigger] slots.waiting[j]
    &&& slots.waiting.len() > 0 ==> slots.running.len() == slots.total && slots.open
}

/// The slots after some events.
pub open spec fn slots_after(total: nat, events: Seq<SlotEvent>) -> SlotsView
    decreases events.len(),
{
    if events.len() == 0 {
        all_free(total)
    } else {
        slot_step(slots_after(total, events.drop_last()), events.last()).0
    }
}

/// What followed from event number `k`.
pub open spec fn change_at(total: nat, events: Seq<SlotEvent>, k: int) -> SlotChangeView {
    slot_step(slots_after(total, events.take(k)), events[k]).1
}

/// Whether `ticket` got a slot at event number `k` and has not left since.
pub open spec fn has_run_since(total: nat, events: Seq<SlotEvent>, ticket: u64, k: int) -> bool {
    0 <= k < events.len() && change_at(total, events, k).started == Some(ticket) && forall|j: int|
        k < j < events.len() ==> #[trigger] events[j] != (SlotEvent::Leave { ticket })
}

/// Whether `ticket` got a slot and has not left since.
pub open spec fn runs(total: nat, events: Seq<SlotEvent>, ticket: u64) -> bool {
    exists|k: int| #[trigger] has_run_since(total, events, ticket, k)
}

fn place_of(list: &Vec<u64>, ticket: u64) -> (at: Option<usize>)
    ensures
        match at {
            Some(at) => list@.contains(ticket) && at == place(list@, ticket) && at
                < list@.len(),
            None => !list@.contains(ticket),
        },
{
    let mut i: usize = 0;
    while i < list.len()
        invariant
            i <= list.len(),
            forall|k: int| 0 <= k < i ==> list@[k] != ticket,
        decreases list.len() - i,
    {
        if list[i] == ticket {
            assert(list@.contains(ticket));
            proof {
                list@.index_of_first_ensures(ticket);
            }
            return Some(i);
        }
        i += 1;
    }
    None
}

impl Slots {
    /// As many slots as `total`, all free.
    pub fn new(total: usize) -> (slots: Slots)
        ensures
            slots@ == all_free(total as nat),
    {
        Slots { total, running: Vec::new(), waiting: Vec::new(), open: true }
    }

    /// Takes note of an event.
    pub fn step(&mut self, event: SlotEvent) -> (change: SlotChange)
        ensures
            (final(self)@, change@) == slot_step(old(self)@, event),
    {
        match event {
            SlotEvent::Ask { ticket } => {
                if place_of(&self.running, ticket).is_some() || place_of(
                    &self.waiting,
                    ticket,
                ).is_some() {
                    SlotChange { started: None, refused: Vec::new() }
                } else if !self.open {
                    SlotChange { started: None, refused: vec![ticket] }
                } else if self.running.len() < self.total {
                    self.running.push(ticket);
                    SlotChange { started: Some(ticket), refused: Vec::new() }
                } else {
                    self.waiting.push(ticket);
                    SlotChange { started: None, refused: Vec::new() }
                }
            },
            SlotEvent::Leave { ticket } => {
                let mut started: Option<u64> = None;
                if let Some(at) = place_of(&self.running, ticket) {
                    self.running.remove(at);
                    if self.waiting.len() > 0 {
                        let next: u64 = self.waiting.remove(0);
                        self.running.push(next);
                        started = Some(next);
                    }
                } else if let Some(at) = place_of(&self.waiting, ticket) {
                    self.waiting.remove(at);
                }
                SlotChange { started, refused: Vec::new() }
            },
            SlotEvent::Close => {
                let mut refused: Vec<u64> = Vec::new();
                refused.append(&mut self.waiting);
                self.open = false;
                SlotChange { started: None, refused }
            },
        }
    }
}

/// Every event leaves the slots in order.
pub proof fn slots_stay_in_order(slots: SlotsView, event: SlotEvent)
    requires
        in_order(slots),
    ensures
        in_order(slot_step(slots, event).0),
        slot_step(slots, event).0.total == slots.total,
{
    let after = slot_step(slots, event).0;
    match event {
        SlotEvent::Leave { ticket } => {
            if slots.running.contains(ticket) {
                slots.running.index_of_first_ensures(ticket);
                let at = place(slots.running, ticket);
                let left = slots.running.remove(at);
                assert forall|i: int| 0 <= i < left.len() implies (#[trigger] left[i])
                    == slots.running[if i < at { i } else { i + 1 }] by {}
                if slots.waiting.len() > 0 {
                    assert forall|j: int| 0 <= j < after.waiting.len() implies (
                    #[trigger] after.waiting[j]) == slots.waiting[j + 1] by {}
                }
            } else if slots.waiting.contains(ticket) {
                slots.waiting.index_of_first_ensures(ticket);
                let at = place(slots.waiting, ticket);
                assert forall|j: int| 0 <= j < after.waiting.len() implies (
                #[trigger] after.waiting[j]) == slots.waiting[if j < at { j } else { j + 1 }] by {}
            }
        },
        _ => {},
    }
}

proof fn slots_after_are_in_order(total: nat, events: Seq<SlotEvent>)
    ensures
        in_order(slots_after(total, events)),
        slots_after(total, events).total == total,
    decreases events.len(),
{
    if events.len() > 0 {
        slots_after_are_in_order(total, events.drop_last());
        slots_stay_in_order(slots_after(total, events.drop_last()), events.last());
    }
}

proof fn who_runs_holds_a_slot(total: nat, events: Seq<SlotEvent>, ticket: u64, k: int)
    requires
        has_run_since(total, events, ticket, k),
    ensures
        slots_after(total, events).running.contains(ticket),
    decreases events.len(),
{
    let some = events.drop_last();
    let before = slots_after(total, some);
    let after = slots_after(total, events);
    if k == events.len() - 1 {
        assert(events.take(k) =~= some);
        assert(after.running.last() == ticket);
        assert(after.running.contains(after.running.last()));
    } else {
        assert(some.take(k) =~= events.take(k));
        assert forall|j: int| k < j < some.len() implies #[trigger] some[j] != (SlotEvent::Leave {
            ticket,
        }) by {
            assert(some[j] == events[j]);
        }
        who_runs_holds_a_slot(total, some, ticket, k);
        before.running.index_of_first_ensures(ticket);
        let at = place(before.running, ticket);
        assert(before.running[at] == ticket);
        assert(events[events.len() - 1] != (SlotEvent::Leave { ticket }));
        match events.last() {
            SlotEvent::Leave { ticket: other } => {
                if before.running.contains(other) {
                    before.running.index_of_first_ensures(other);
                    let gone = place(before.running, other);
                    let left = before.running.remove(gone);
                    let now = if at < gone { at } else { at - 1 };
                    assert(left[now] == ticket);
                    assert(after.running[now] == ticket);
                }
            },
            SlotEvent::Ask { .. } => {
                assert(after.running[at] == ticket);
            },
            SlotEvent::Close => {},
        }
    }
}

/// Whatever happens and in whatever order, no more commands run at once than
/// there are slots.
pub proof fn no_more_run_than_there_are_slots(
    total: nat,
    events: Seq<SlotEvent>,
    tickets: Seq<u64>,
)
    requires
        tickets.no_duplicates(),
        forall|i: int| 0 <= i < tickets.len() ==> runs(total, events, #[trigger] tickets[i]),
    ensures
        tickets.len() <= total,
{
    let running = slots_after(total, events).running;
    slots_after_are_in_order(total, events);
    assert forall|ticket: u64| tickets.to_set().contains(ticket) implies running.to_set().contains(
        ticket,
    ) by {
        let i = tickets.index_of(ticket);
        assert(tickets[i] == ticket);
        assert(runs(total, events, tickets[i]));
        let k = choose|k: int| has_run_since(total, events, ticket, k);
        who_runs_holds_a_slot(total, events, ticket, k);
    }
    tickets.unique_seq_to_set();
    running.unique_seq_to_set();
    vstd::seq_lib::seq_to_set_is_finite(running);
    vstd::set_lib::lemma_len_subset(tickets.to_set(), running.to_set());
}

proof fn closed_slots_stay_closed(total: nat, events: Seq<SlotEvent>, k: int)
    requires
        0 <= k < events.len(),
        events[k] is Close,
    ensures
        !slots_after(total, events).open,
    decreases events.len(),
{
    if k < events.len() - 1 {
        assert(events.drop_last()[k] == events[k]);
        closed_slots_stay_closed(total, events.drop_last(), k);
    }
}

/// Closing turns away everyone who still waits; from then on no one gets a
/// slot, and whoever asks is turned away.
pub proof fn nothing_starts_once_closed(total: nat, events: Seq<SlotEvent>, k: int, later: int)
    requires
        0 <= k < later < events.len(),
        events[k] is Close,
    ensures
        change_at(total, events, k).refused == slots_after(total, events.take(k)).waiting,
        change_at(total, events, later).started is None,
        events[later] matches SlotEvent::Ask { ticket } ==> slots_after(
            total,
            events.take(later),
        ).running.contains(ticket) || change_at(total, events, later).refused == seq![ticket],
{
    let before = events.take(later);
    assert(before[k] == events[k]);
    closed_slots_stay_closed(total, before, k);
    slots_after_are_in_order(total, before);
}

/// As long as the slots are open, no slot lies idle while someone waits, and
/// a slot that is given back goes to the one who has waited longest.
pub proof fn no_slot_lies_idle(total: nat, events: Seq<SlotEvent>, ticket: u64)
    ensures
        slots_after(total, events).waiting.len() > 0 ==> {
            let slots = slots_after(total, events);
            slots.running.len() == total && (slots.running.contains(ticket) ==> slot_step(
                slots,
                SlotEvent::Leave { ticket },
            ).1.started == Some(slots.waiting[0]))
        },
{
    slots_after_are_in_order(total, events);
}

} // verus!
