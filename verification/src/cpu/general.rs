//! A clocked register: a value that changes only on a clock tick, and only
//! when writing was enabled for that tick.
use vstd::prelude::*;

verus! {

#[derive(Clone, Copy)]
pub struct Register<T> {
    value: T,
    to_latch_value: T,
    is_write_enabled: bool,
}

impl<T: Copy> Register<T> {
    /// The value the register holds (what `get` returns).
    pub closed spec fn value(&self) -> T {
        self.value
    }

    /// The value offered to the register for the next tick.
    pub closed spec fn latched(&self) -> T {
        self.to_latch_value
    }

    /// Whether the next tick stores the offered value.
    pub closed spec fn write_enabled(&self) -> bool {
        self.is_write_enabled
    }

    /// Between ticks nothing is pending: the offered value is the held one
    /// and writing is disabled.
    pub open spec fn settled(&self) -> bool {
        &&& self.latched() == self.value()
        &&& !self.write_enabled()
    }

    pub fn get(&self) -> (r: T)
        ensures
            r == self.value(),
    {
        self.value
    }

    /// Offers a value for the next tick.
    pub fn set(&mut self, to_latch_value: T)
        ensures
            final(self).latched() == to_latch_value,
            final(self).value() == old(self).value(),
            final(self).write_enabled() == old(self).write_enabled(),
    {
        self.to_latch_value = to_latch_value;
    }

    pub fn set_write(&mut self, is_enabled: bool)
        ensures
            final(self).write_enabled() == is_enabled,
            final(self).value() == old(self).value(),
            final(self).latched() == old(self).latched(),
    {
        self.is_write_enabled = is_enabled;
    }

    /// The clock edge: stores the offered value if writing was enabled,
    /// otherwise drops it; either way the register is settled afterwards.
    pub fn tick(&mut self)
        ensures
            final(self).value() == (if old(self).write_enabled() {
                old(self).latched()
            } else {
                old(self).value()
            }),
            final(self).settled(),
    {
        if self.is_write_enabled {
            self.value = self.to_latch_value;
        } else {
            self.to_latch_value = self.value;
        }
        self.is_write_enabled = false;
    }
}

impl<T: Copy + Default> Register<T> {
    /// A settled register holding the type's default value.
    pub fn new() -> (r: Self)
        ensures
            r.settled(),
            call_ensures(T::default, (), r.value()),
    {
        let d = T::default();
        Register { value: d, to_latch_value: d, is_write_enabled: false }
    }
}

/// A tick right after a tick changes nothing: a settled register keeps its
/// value through the next tick.
pub proof fn law_settled_tick_keeps<T: Copy>(r: Register<T>)
    requires
        r.settled(),
    ensures
        (if r.write_enabled() {
            r.latched()
        } else {
            r.value()
        }) == r.value(),
{
}

} // verus!
