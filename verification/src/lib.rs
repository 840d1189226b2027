//! Verified core of a virtual machine monitor backend for the Windows Hypervisor Platform.

pub mod boot;
pub mod channel;
pub mod emulation;
pub mod epoll;
pub mod errno;
pub mod eventfd;
pub mod gdt;
pub mod guest_mem;
pub mod laws;
pub mod link_args;
pub mod os;
pub mod paging;
pub mod registers;
pub mod vstate;
pub mod whpioapic;
