//! The sending half of a std channel, as far as the library uses it: a handle
//! that is cloned and on which single values are handed over.

use std::sync::mpsc::Sender;
use vstd::prelude::*;

verus! {

/// `std::sync::mpsc::Sender`, opaque: what is queued on a channel, and whether
/// its receiver still lives, is outside the library's knowledge.
#[verifier::external_type_specification]
#[verifier::external_body]
#[verifier::reject_recursive_types(T)]
pub struct ExSender<T>(Sender<T>);

/// `Sender::clone`: another handle on the same channel. Nothing is claimed
/// of it.
pub assume_specification<T>[ <Sender<T> as Clone>::clone ](sender: &Sender<T>) -> (other: Sender<T>)
;

/// `Sender::send`, reporting only whether the value was accepted. A send
/// fails exactly when the receiver is gone, which no argument determines, so
/// the result is left open.
#[verifier::external_body]
pub(crate) fn deliver<T>(sender: &Sender<T>, item: T) -> (accepted: bool) {
    sender.send(item).is_ok()
}

/// Whether a stage goes on after handing its output to the next one.
#[derive(Clone, Copy, Debug, PartialEq, Eq, Structural)]
pub enum Flow {
    /// Everything was handed on.
    Continue,
    /// The next stage is gone. The stage stops here rather than drop what
    /// follows without a trace.
    Stop,
}

/// The flow of a stage that produced `produced` items of which the next
/// stage accepted `accepted`.
pub open spec fn flow_of(produced: nat, accepted: nat) -> Flow {
    if accepted >= produced {
        Flow::Continue
    } else {
        Flow::Stop
    }
}

/// A stage goes on exactly when all it produced was accepted.
pub fn flow_after(produced: usize, accepted: usize) -> (flow: Flow)
    ensures
        flow == flow_of(produced as nat, accepted as nat),
{
    if accepted >= produced {
        Flow::Continue
    } else {
        Flow::Stop
    }
}

/// Sends `items` in order and stops at the first that is refused. Returns
/// how many were accepted: all of them, or those before the refused one.
pub fn deliver_all<T>(sender: &Sender<T>, items: Vec<T>) -> (accepted: usize)
    ensures
        accepted <= items.len(),
{
    let ghost total = items.len();
    let mut accepted: usize = 0;
    for item in it: items
        invariant
            it.seq().len() == total,
            accepted == it.index(),
    {
        if !deliver(sender, item) {
            return accepted;
        }
        accepted += 1;
    }
    accepted
}

/// Hands the output of a stage to the next one, in order, and says whether
/// the stage goes on: it stops if the next stage has gone.
pub fn hand_on<T>(sender: &Sender<T>, items: Vec<T>) -> (flow: Flow)
    ensures
        items.len() == 0 ==> flow == Flow::Continue,
        exists|accepted: nat|
            accepted <= items.len() && flow == #[trigger] flow_of(items.len() as nat, accepted),
{
    let produced = items.len();
    let accepted = deliver_all(sender, items);
    let flow = flow_after(produced, accepted);
    assert(flow == flow_of(produced as nat, accepted as nat));
    flow
}

} // verus!
