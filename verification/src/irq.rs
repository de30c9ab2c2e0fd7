//! Interrupt handler registry and dispatch.
use vstd::prelude::*;

verus! {

/// Return value for interrupt handlers.
#[derive(Debug, Clone, Copy, PartialEq, Eq, Structural)]
pub enum IrqReturn {
    /// The interrupt was handled successfully.
    Handled,
    /// The interrupt was not handled and should be passed to the next handler.
    Unhandled,
}

/// Callbacks for handling interrupts.
///
/// This is executed in the context of the interrupt handler, so it should be fast and not
/// block.
pub trait IrqHandler {
    /// Handles an interrupt.
    fn handle(&self) -> IrqReturn;
}

/// Number of interrupt lines.
pub const NR_IRQS: usize = 1024;

/// The handlers registered for each interrupt line.
pub struct IrqTable<H> {
    handlers: Vec<Option<H>>,
}

impl<H: IrqHandler> IrqTable<H> {
    /// The handlers, by interrupt line.
    pub closed spec fn handlers_spec(&self) -> Seq<Option<H>> {
        self.handlers@
    }

    /// Creates a table with no handler.
    pub fn new() -> (r: Self)
        ensures
            r.handlers_spec().len() == NR_IRQS,
            forall|i: int| 0 <= i < NR_IRQS ==> (#[trigger] r.handlers_spec()[i]) is None,
    {
        let mut handlers: Vec<Option<H>> = Vec::new();
        while handlers.len() < NR_IRQS
            invariant
                handlers@.len() <= NR_IRQS,
                forall|i: int| 0 <= i < handlers@.len() ==> (#[trigger] handlers@[i]) is None,
            decreases NR_IRQS - handlers@.len(),
        {
            handlers.push(None);
        }
        IrqTable { handlers }
    }

    /// Registers `handler` for line `irq`, replacing any previous one.
    pub fn request_irq(&mut self, irq: u32, handler: H)
        requires
            old(self).handlers_spec().len() == NR_IRQS,
            irq < NR_IRQS,
        ensures
            final(self).handlers_spec() == old(self).handlers_spec().update(irq as int, Some(handler)),
    {
        self.handlers.set(irq as usize, Some(handler));
    }

    /// Dispatches an interrupt to the handler registered for its line and returns what that
    /// handler returns; `Unhandled` if there is none.
    pub fn dispatch_irq(&self, irq: u32) -> (r: IrqReturn)
        requires
            self.handlers_spec().len() == NR_IRQS,
            irq < NR_IRQS,
        ensures
            self.handlers_spec()[irq as int] is None ==> r == IrqReturn::Unhandled,
            self.handlers_spec()[irq as int] matches Some(h) ==> call_ensures(H::handle, (&h,), r),
    {
        match &self.handlers[irq as usize] {
            Some(h) => h.handle(),
            None => IrqReturn::Unhandled,
        }
    }
}

} // verus!
