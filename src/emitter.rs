use crate::launchpad::{
    cell_index, lemma_cell_index_bijective, style_or_off, valid_button, Button, ButtonStyle,
    Buttons, CELL_COUNT,
};
use vstd::prelude::*;

verus! {

/// A button must be sent: the device can address it and its style differs between the
/// two mappings, a missing entry counting as unlit.
pub open spec fn must_send(
    new: Map<Button, ButtonStyle>,
    sent: Map<Button, ButtonStyle>,
    b: Button,
) -> bool {
    valid_button(b) && style_or_off(new, b) != style_or_off(sent, b)
}

/// The buttons that must be sent to bring the device from `sent` to `new`.
pub open spec fn changed_set(
    new: Map<Button, ButtonStyle>,
    sent: Map<Button, ButtonStyle>,
) -> Set<Button> {
    Set::new(|b: Button| must_send(new, sent, b))
}

/// The buttons of an update, in order.
pub open spec fn update_buttons(u: Seq<(Button, ButtonStyle)>) -> Set<Button> {
    Set::new(|b: Button| exists|i: int| 0 <= i < u.len() && (#[trigger] u[i]).0 == b)
}

/// What the device was last told to show.
pub struct EmittedState {
    sent: Buttons,
}

impl EmittedState {
    pub closed spec fn wf(&self) -> bool {
        self.sent.wf()
    }

    /// The mapping that the device last accepted.
    pub closed spec fn sent(&self) -> Map<Button, ButtonStyle> {
        self.sent@
    }

    /// A state in which nothing has been sent: every button counts as unlit.
    pub fn new() -> (r: EmittedState)
        ensures
            r.wf(),
            r.sent() == Map::<Button, ButtonStyle>::empty(),
    {
        EmittedState { sent: Buttons::new() }
    }

    /// The buttons whose style differs between `new` and what was last sent, each with its
    /// style in `new` (unlit where `new` has none), in the order of the cell table.
    pub fn changes(&self, new: &Buttons) -> (r: Vec<(Button, ButtonStyle)>)
        requires
            self.wf(),
            new.wf(),
        ensures
            update_buttons(r@) == changed_set(new@, self.sent()),
            forall|i: int|
                0 <= i < r@.len() ==> must_send(new@, self.sent(), (#[trigger] r@[i]).0) && r@[i].1
                    == style_or_off(new@, r@[i].0),
            forall|i: int, j: int|
                0 <= i < j < r@.len() ==> cell_index((#[trigger] r@[i]).0) < cell_index(
                    (#[trigger] r@[j]).0,
                ),
    {
        proof {
            lemma_cell_index_bijective();
        }
        let mut out: Vec<(Button, ButtonStyle)> = Vec::new();
        let mut i: usize = 0;
        while i < CELL_COUNT
            invariant
                self.wf(),
                new.wf(),
                i <= CELL_COUNT,
                forall|k: int|
                    0 <= k < out@.len() ==> must_send(new@, self.sent(), (#[trigger] out@[k]).0)
                        && out@[k].1 == style_or_off(new@, out@[k].0) && cell_index(out@[k].0)
                        < i,
                forall|k: int, j: int|
                    0 <= k < j < out@.len() ==> cell_index((#[trigger] out@[k]).0) < cell_index(
                        (#[trigger] out@[j]).0,
                    ),
                forall|b: Button|
                    #![trigger must_send(new@, self.sent(), b)]
                    must_send(new@, self.sent(), b) && cell_index(b) < i ==> exists|k: int|
                        0 <= k < out@.len() && (#[trigger] out@[k]).0 == b,
            decreases CELL_COUNT - i,
        {
            let (b, _) = new.entry_at(i);
            let s = new.style_or_off(&b);
            let t = self.sent.style_or_off(&b);
            let ghost old_out = out@;
            if s != t {
                out.push((b, s));
                assert(out@[old_out.len() as int].0 == b);
            }
            assert forall|c: Button|
                #![trigger must_send(new@, self.sent(), c)]
                must_send(new@, self.sent(), c) && cell_index(c) < i + 1 implies exists|k: int|
                0 <= k < out@.len() && (#[trigger] out@[k]).0 == c by {
                if cell_index(c) == i {
                    assert(c == b);
                    assert(out@[out@.len() - 1].0 == c);
                } else {
                    let k = choose|k: int| 0 <= k < old_out.len() && (#[trigger] old_out[k]).0 == c;
                    assert(out@[k] == old_out[k]);
                }
            }
            i += 1;
        }
        assert(update_buttons(out@) =~= changed_set(new@, self.sent()));
        out
    }

    /// Records that the device accepted `new` in full.
    pub fn commit(&mut self, new: Buttons)
        requires
            new.wf(),
        ensures
            final(self).wf(),
            final(self).sent() == new@,
    {
        self.sent = new;
    }

    /// Records that the device was cleared.
    pub fn clear(&mut self)
        ensures
            final(self).wf(),
            final(self).sent() == Map::<Button, ButtonStyle>::empty(),
    {
        self.sent = Buttons::new();
    }
}

/// After the device accepted a mapping, sending the same mapping again changes nothing.
pub proof fn lemma_same_grid_sends_nothing(m: Map<Button, ButtonStyle>)
    ensures
        changed_set(m, m) == Set::<Button>::empty(),
{
    assert(changed_set(m, m) =~= Set::<Button>::empty());
}

} // verus!
