//! The callback that the native library invokes before it sends an event, and
//! the slot that keeps it alive for as long as the library may invoke it.
//!
//! A callback is registered in a [`Slot`], which boxes it and answers with an
//! opaque context pointer. The native library gets that pointer together with
//! the entry point and passes it back on every invocation. The slot goes from
//! empty to registered with the first registration and back to empty when it
//! is disposed of; a handle that a later registration replaces stays valid
//! until then, because the native library may still hold its pointer.

use crate::value::Value;
use vstd::prelude::*;

verus! {

/// A callback that sees every event before it is sent and decides what is
/// sent in its place.
///
/// The native library invokes it from its own threads, hence the bounds. The
/// caller contains a callback that unwinds by ending the process.
pub trait BeforeSend: 'static + Send + Sync {
    /// Whether the callback may be invoked on `value`. The native library
    /// chooses the events, so a callback can only be registered if this holds
    /// of every value.
    open spec fn accepts(&self, value: Value) -> bool {
        true
    }

    /// Whether `sent` is what the callback may hand back for `value`.
    open spec fn sends(&self, value: Value, sent: Value) -> bool {
        true
    }

    /// Before send callback.
    fn before_send(&self, value: Value) -> (sent: Value)
        requires
            self.accepts(value),
        ensures
            self.sends(value, sent),
    ;
}

impl<T: Fn(Value) -> Value + 'static + Send + Sync> BeforeSend for T {
    open spec fn accepts(&self, value: Value) -> bool {
        call_requires(*self, (value,))
    }

    open spec fn sends(&self, value: Value, sent: Value) -> bool {
        call_ensures(*self, (value,), sent)
    }

    fn before_send(&self, value: Value) -> (sent: Value) {
        self(value)
    }
}

/// How a registered callback is stored: boxed behind its capability, and
/// boxed again so that one thin pointer stands for it.
pub type Data = Box<Box<dyn BeforeSend>>;

/// The registration slot of the before-send callback.
///
/// It owns every handle from registration to disposal. A context pointer is
/// an identity token: the slot alone can turn it back into the callback.
pub struct Slot {
    handles: Vec<Data>,
}

impl Slot {
    #[verifier::type_invariant]
    spec fn accepts_all(&self) -> bool {
        forall|i: int, value: Value|
            0 <= i < self.handles@.len() ==> #[trigger] self.handles@[i].accepts(value)
    }

    /// The handles that the slot keeps alive, oldest first. The last one is
    /// the registered callback, the others were replaced by it.
    pub closed spec fn handles(&self) -> Seq<Data> {
        self.handles@
    }

    /// Whether `context` is the pointer of a handle that the slot keeps alive.
    /// The null pointer never is.
    pub open spec fn valid(&self, context: usize) -> bool {
        1 <= context <= self.handles().len()
    }

    /// The callback that a valid pointer stands for.
    pub open spec fn callback(&self, context: usize) -> Data
        recommends
            self.valid(context),
    {
        self.handles()[context - 1]
    }

    /// Whether nothing is registered. No pointer is valid then.
    pub open spec fn is_empty(&self) -> bool {
        self.handles().len() == 0
    }

    /// Whether `after` is this slot with one more registration, which was
    /// answered with `context`: the next pointer, for a handle behind the
    /// ones that were there.
    pub open spec fn registers(self, after: Slot, context: usize) -> bool {
        &&& context == self.handles().len() + 1
        &&& after.handles().len() == context
        &&& after.handles().drop_last() =~= self.handles()
    }

    /// Whether `after` is this slot disposed of, with `disposed` given up:
    /// every handle that there was, once.
    pub open spec fn disposes(self, after: Slot, disposed: Seq<Data>) -> bool {
        &&& disposed == self.handles()
        &&& after.is_empty()
    }

    /// An empty slot.
    pub fn new() -> (slot: Slot)
        ensures
            slot.is_empty(),
    {
        Slot { handles: Vec::new() }
    }

    /// The number of handles that the slot keeps alive: zero when it is
    /// empty. It is also the pointer of the registered callback.
    pub fn len(&self) -> (len: usize)
        ensures
            len == self.handles().len(),
    {
        self.handles.len()
    }

    /// Whether `context` may be passed to the entry point.
    pub fn is_valid(&self, context: usize) -> (valid: bool)
        ensures
            valid == self.valid(context),
    {
        1 <= context && context <= self.handles.len()
    }

    /// Registers `before_send` and answers with its context pointer.
    ///
    /// The pointer is not null and stands for `before_send` until the slot is
    /// disposed of. Pointers of earlier registrations keep their callbacks.
    pub fn register<B: BeforeSend>(&mut self, before_send: B) -> (context: usize)
        requires
            old(self).handles().len() < usize::MAX,
            forall|value: Value| before_send.accepts(value),
        ensures
            old(self).registers(*final(self), context),
            forall|earlier: usize|
                #![trigger final(self).callback(earlier)]
                #![trigger old(self).valid(earlier)]
                old(self).valid(earlier) ==> final(self).valid(earlier) && final(self).callback(
                    earlier,
                ) == old(self).callback(earlier),
            forall|value: Value, sent: Value|
                #![trigger final(self).callback(context).sends(value, sent)]
                #![trigger before_send.sends(value, sent)]
                final(self).callback(context).sends(value, sent) <==> before_send.sends(
                    value,
                    sent,
                ),
    {
        proof {
            use_type_invariant(&*self);
        }
        let data: Data = Box::new(Box::new(before_send));
        let mut handles: Vec<Data> = Vec::new();
        core::mem::swap(&mut self.handles, &mut handles);
        handles.push(data);
        let context = handles.len();
        self.handles = handles;
        context
    }

    /// Disposes of the slot: gives up every handle, oldest first, and leaves
    /// the slot empty. The callbacks end when the caller drops what it got.
    ///
    /// To be called once the native library has shut down: no pointer is
    /// valid afterwards.
    pub fn dispose(&mut self) -> (disposed: Vec<Data>)
        ensures
            old(self).disposes(*final(self), disposed@),
            forall|context: usize| !final(self).valid(context),
    {
        let mut disposed: Vec<Data> = Vec::new();
        core::mem::swap(&mut self.handles, &mut disposed);
        disposed
    }
}

/// The entry point that the native library invokes with each event.
///
/// `closure` is the context pointer that [`Slot::register`] answered with.
/// The callback behind it is invoked once on `event`, and what it hands back
/// is returned. `hint` is reserved.
pub fn sentry_contrib_native_before_send(
    slot: &Slot,
    event: u64,
    _hint: usize,
    closure: usize,
) -> (sent: u64)
    requires
        slot.valid(closure),
    ensures
        slot.callback(closure).sends(Value { raw: event }, Value { raw: sent }),
{
    proof {
        use_type_invariant(slot);
    }
    let before_send = &slot.handles[closure - 1];
    before_send.before_send(Value::from_raw(event)).into_raw()
}

/// A registration leaves every pointer that was valid before it valid, with
/// the callback it stood for, and answers with a pointer that is valid, not
/// null and none of those.
pub proof fn lemma_registration_keeps_pointers(
    before: Slot,
    after: Slot,
    context: usize,
    earlier: usize,
)
    requires
        before.registers(after, context),
        before.valid(earlier),
    ensures
        after.valid(earlier),
        after.callback(earlier) == before.callback(earlier),
        after.valid(context),
        context != 0,
        context != earlier,
{
    assert(after.handles().drop_last()[earlier - 1] == after.handles()[earlier - 1]);
}

/// One registration is disposed of once: the first disposal after a
/// registration in an empty slot gives up the one handle that the pointer
/// stood for, and a second one finds nothing to give up.
pub proof fn lemma_one_disposal_per_registration(
    empty: Slot,
    registered: Slot,
    disposed: Slot,
    again: Slot,
    context: usize,
    first: Seq<Data>,
    second: Seq<Data>,
)
    requires
        empty.is_empty(),
        empty.registers(registered, context),
        registered.disposes(disposed, first),
        disposed.disposes(again, second),
    ensures
        context == 1,
        registered.valid(context),
        first.len() == 1,
        first[0] == registered.callback(context),
        second.len() == 0,
        again.is_empty(),
{
}

} // verus!
