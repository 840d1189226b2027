//! The interrupt controller. The hypervisor routes interrupts by itself, so what is left is to
//! signal the event of an interrupt.

use crate::eventfd::{EventCall, EventFd};
use crate::os::{IoError, OsError};
use vstd::prelude::*;

verus! {

/// A failure of a device.
#[derive(Clone, Copy, Debug, PartialEq, Eq, Structural)]
pub enum DeviceError {
    /// Failed to signal the used queue.
    FailedSignalingUsedQueue(IoError),
}

pub struct WhpIoapic {}

impl WhpIoapic {
    pub fn new() -> (chip: Self)
        ensures
            chip == (WhpIoapic {  }),
    {
        Self {  }
    }

    /// The controller has no memory-mapped registers.
    pub fn get_mmio_addr(&self) -> (addr: u64)
        ensures
            addr == 0,
    {
        0
    }

    pub fn get_mmio_size(&self) -> (size: u64)
        ensures
            size == 0,
    {
        0
    }

    /// Raises an interrupt by writing to its event. The outcome of the call goes to
    /// `set_irq_done`.
    pub fn set_irq(&self, _irq_line: Option<u32>, interrupt_evt: Option<&EventFd>) -> (r: Result<
        EventCall,
        DeviceError,
    >)
        ensures
            match interrupt_evt {
                Some(evt) => r == Ok::<EventCall, DeviceError>(
                    EventCall::Signal { handle: evt.handle() },
                ),
                None => r == Err::<EventCall, DeviceError>(
                    DeviceError::FailedSignalingUsedQueue(IoError::EventNotSetUp),
                ),
            },
    {
        if let Some(interrupt_evt) = interrupt_evt {
            Ok(interrupt_evt.write(1))
        } else {
            Err(DeviceError::FailedSignalingUsedQueue(IoError::EventNotSetUp))
        }
    }

    /// What raising an interrupt comes back with.
    pub fn set_irq_done(set: Result<(), OsError>) -> (r: Result<(), DeviceError>)
        ensures
            match set {
                Ok(()) => r is Ok,
                Err(e) => r == Err::<(), DeviceError>(
                    DeviceError::FailedSignalingUsedQueue(IoError::Os(e)),
                ),
            },
    {
        match EventFd::write_done(set) {
            Ok(()) => Ok(()),
            Err(e) => Err(DeviceError::FailedSignalingUsedQueue(e)),
        }
    }

    /// Reads nothing: the hypervisor emulates the controller.
    pub fn read(&mut self, _vcpuid: u64, _offset: u64, _data: &mut [u8])
        ensures
            final(_data)@ == old(_data)@,
            *final(self) == *old(self),
    {
    }

    /// Writes nothing: the hypervisor emulates the controller.
    pub fn write(&mut self, _vcpuid: u64, _offset: u64, _data: &[u8])
        ensures
            *final(self) == *old(self),
    {
    }
}

} // verus!
