//! A growable set of sockets addressed by stable handles.
//!
//! The hosting interface stores its sockets here and passes handles
//! around instead of borrows.  Slots are reused: adding picks the first
//! free slot, removing frees it.

use vstd::prelude::*;

use crate::socket::Socket;

verus! {

/// A handle identifying one socket in a [`SocketSet`].
#[derive(Clone, Copy, Debug, PartialEq, Eq, Structural)]
pub struct SocketHandle(pub usize);

/// One slot of a socket set, together with its metadata.
#[derive(Debug)]
pub struct Item {
    /// The handle under which the socket was added.
    pub handle: SocketHandle,
    /// Whether the host treats the socket as non-blocking.
    pub non_blocking: bool,
    /// The socket itself.
    pub socket: Socket,
}

/// Space for storing one socket.
#[derive(Debug)]
pub struct SocketStorage {
    pub inner: Option<Item>,
}

impl SocketStorage {
    /// An empty slot.
    pub fn empty() -> (r: SocketStorage)
        ensures
            r.inner is None,
    {
        SocketStorage { inner: None }
    }
}

/// An extensible set of sockets.
#[derive(Debug)]
pub struct SocketSet {
    pub sockets: Vec<SocketStorage>,
}

impl SocketSet {
    /// A handle is valid when it names an occupied slot.
    pub open spec fn spec_valid(self, handle: SocketHandle) -> bool {
        &&& handle.0 < self.sockets@.len()
        &&& self.sockets@[handle.0 as int].inner is Some
    }

    /// Create a socket set using the provided storage.
    pub fn new(sockets: Vec<SocketStorage>) -> (r: SocketSet)
        ensures
            r.sockets@ == sockets@,
    {
        SocketSet { sockets }
    }

    /// Add a socket to the set, and return its handle.
    pub fn add(&mut self, socket: Socket) -> (r: SocketHandle)
        ensures
            final(self).spec_valid(r),
            final(self).sockets@[r.0 as int].inner matches Some(it) && it.socket == socket
                && it.handle == r && it.non_blocking == false,
            final(self).sockets@.len() >= old(self).sockets@.len(),
            forall|i: int|
                0 <= i < old(self).sockets@.len() && i != r.0 ==> final(self).sockets@[i]
                    == old(self).sockets@[i],
    {
        self.add_ext(socket, false)
    }

    /// Add a socket to the set with its metadata, and return its
    /// handle: the first free slot is reused, else the set grows.
    pub fn add_ext(&mut self, socket: Socket, non_blocking: bool) -> (r: SocketHandle)
        ensures
            final(self).spec_valid(r),
            final(self).sockets@[r.0 as int].inner matches Some(it) && it.socket == socket
                && it.handle == r && it.non_blocking == non_blocking,
            final(self).sockets@.len() >= old(self).sockets@.len(),
            r.0 >= old(self).sockets@.len() || old(self).sockets@[r.0 as int].inner is None,
            forall|i: int|
                0 <= i < old(self).sockets@.len() && i != r.0 ==> final(self).sockets@[i]
                    == old(self).sockets@[i],
    {
        let mut index: usize = 0;
        while index < self.sockets.len()
            invariant
                index <= self.sockets@.len(),
                *self == *old(self),
            decreases self.sockets@.len() - index,
        {
            if self.sockets[index].inner.is_none() {
                let handle = SocketHandle(index);
                self.sockets.set(
                    index,
                    SocketStorage { inner: Some(Item { handle, non_blocking, socket }) },
                );
                return handle;
            }
            index = index + 1;
        }
        let i = self.sockets.len();
        let handle = SocketHandle(i);
        self.sockets.push(SocketStorage { inner: Some(Item { handle, non_blocking, socket }) });
        handle
    }

    /// Swap a new socket into the slot of `handle` and re-add the
    /// socket that was there, returning the re-added socket's handle.
    pub fn swap(&mut self, handle: SocketHandle, socket: Socket) -> (r: SocketHandle)
        requires
            old(self).spec_valid(handle),
        ensures
            final(self).spec_valid(handle),
            final(self).sockets@[handle.0 as int].inner matches Some(it) && it.socket == socket,
            final(self).spec_valid(r),
    {
        let i = handle.0;
        let non_blocking = match &self.sockets[i].inner {
            Some(it) => it.non_blocking,
            None => false,
        };
        let old_item = self.sockets[i].inner.take();
        self.sockets.set(i, SocketStorage { inner: Some(Item { handle, non_blocking, socket }) });
        match old_item {
            Some(it) => self.add_ext(it.socket, it.non_blocking),
            None => {
                proof {
                    assert(false);
                }
                handle
            },
        }
    }

    /// Get a socket from the set by its handle.
    pub fn get(&self, handle: SocketHandle) -> (r: &Socket)
        requires
            self.spec_valid(handle),
        ensures
            self.sockets@[handle.0 as int].inner matches Some(it) && *r == it.socket,
    {
        match &self.sockets[handle.0].inner {
            Some(it) => &it.socket,
            None => {
                proof {
                    assert(false);
                }
                unreached()
            },
        }
    }

    /// Get a mutable socket from the set by its handle.
    pub fn get_mut(&mut self, handle: SocketHandle) -> (r: &mut Socket)
        requires
            old(self).spec_valid(handle),
        ensures
            old(self).sockets@[handle.0 as int].inner matches Some(it) && *r == it.socket,
            final(self).sockets@.len() == old(self).sockets@.len(),
            final(self).sockets@[handle.0 as int].inner matches Some(it) && it.socket == *final(r)
                && final(self).spec_valid(handle),
            forall|i: int|
                0 <= i < old(self).sockets@.len() && i != handle.0 ==> final(self).sockets@[i]
                    == old(self).sockets@[i],
    {
        let slot = vstd::std_specs::vec::vec_index_mut(&mut self.sockets, handle.0);
        match &mut slot.inner {
            Some(it) => &mut it.socket,
            None => {
                proof {
                    assert(false);
                }
                unreached()
            },
        }
    }

    /// Remove a socket from the set by its handle, freeing its slot
    /// without changing the socket's state.
    pub fn remove(&mut self, handle: SocketHandle) -> (r: Socket)
        requires
            old(self).spec_valid(handle),
        ensures
            old(self).sockets@[handle.0 as int].inner matches Some(it) && r == it.socket,
            final(self).sockets@.len() == old(self).sockets@.len(),
            final(self).sockets@[handle.0 as int].inner is None,
            forall|i: int|
                0 <= i < old(self).sockets@.len() && i != handle.0 ==> final(self).sockets@[i]
                    == old(self).sockets@[i],
    {
        let taken = self.sockets[handle.0].inner.take();
        match taken {
            Some(it) => it.socket,
            None => {
                proof {
                    assert(false);
                }
                Socket::new()
            },
        }
    }

    /// The handles of every socket in the set, in slot order.
    pub fn iter(&self) -> (r: Vec<SocketHandle>)
        ensures
            forall|j: int|
                0 <= j < r@.len() ==> self.spec_valid(#[trigger] r@[j]),
    {
        let mut handles: Vec<SocketHandle> = Vec::new();
        let mut i: usize = 0;
        while i < self.sockets.len()
            invariant
                i <= self.sockets@.len(),
                forall|j: int| 0 <= j < handles@.len() ==> self.spec_valid(#[trigger] handles@[j]),
            decreases self.sockets@.len() - i,
        {
            match &self.sockets[i].inner {
                Some(it) => {
                    handles.push(SocketHandle(i));
                },
                None => {},
            }
            i = i + 1;
        }
        handles
    }
}

} // verus!
