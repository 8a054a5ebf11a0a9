//! A channel: a flow-controlled virtual stream inside one connection. The
//! connection owns the channel table; the terminal and child process behind
//! a session channel live with the I/O layer.

use vstd::prelude::*;

verus! {

/// A channel id, unique per connection side.
pub type ChannelId = u32;

/// A request addressed to one channel.
#[derive(Debug)]
pub enum ChannelRequest {
    /// Allocate a pseudo-terminal with the given geometry.
    Pty {
        term: Vec<u8>,
        chars: u16,
        rows: u16,
        pixel_width: u16,
        pixel_height: u16,
        modes: Vec<u8>,
    },
    /// Spawn a login shell on the channel's terminal.
    Shell,
}

/// One virtual stream: its ids, windows and packet bound.
pub struct Channel {
    /// The server-chosen local id.
    pub id: ChannelId,
    /// The client-chosen peer id.
    pub peer_id: ChannelId,
    /// How many more bytes the peer may send us.
    pub window_size: u32,
    /// The window the peer was granted at open, the top-up target.
    pub initial_window_size: u32,
    /// How many more bytes we may send the peer.
    pub peer_window_size: u32,
    /// The largest data payload either side may send.
    pub max_packet_size: u32,
}

impl Channel {
    /// A fresh channel; both windows start at the window the client asked
    /// for, mirrored back in the open confirmation.
    pub fn new(id: ChannelId, peer_id: ChannelId, peer_window_size: u32, max_packet_size: u32) -> (r:
        Channel)
        ensures
            r.id == id,
            r.peer_id == peer_id,
            r.window_size == peer_window_size,
            r.initial_window_size == peer_window_size,
            r.peer_window_size == peer_window_size,
            r.max_packet_size == max_packet_size,
    {
        Channel {
            id,
            peer_id,
            window_size: peer_window_size,
            initial_window_size: peer_window_size,
            peer_window_size: peer_window_size,
            max_packet_size,
        }
    }

    /// The server-chosen local id.
    pub fn id(&self) -> (r: ChannelId)
        ensures
            r == self.id,
    {
        self.id
    }

    /// The client-chosen peer id.
    pub fn peer_id(&self) -> (r: ChannelId)
        ensures
            r == self.peer_id,
    {
        self.peer_id
    }

    /// How many more bytes the peer may send us.
    pub fn window_size(&self) -> (r: u32)
        ensures
            r == self.window_size,
    {
        self.window_size
    }

    /// The largest data payload either side may send.
    pub fn max_packet_size(&self) -> (r: u32)
        ensures
            r == self.max_packet_size,
    {
        self.max_packet_size
    }

    /// Consume `len` bytes of the local window on received data, and top
    /// the window back up to its initial size once it has fallen below
    /// half, returning the adjustment to grant the peer.
    pub fn consume_local_window(&mut self, len: u32) -> (r: Option<u32>)
        requires
            len <= old(self).window_size,
            old(self).initial_window_size >= old(self).window_size,
        ensures
            *final(self) == (match r {
                Some(adjust) => (Channel {
                    window_size: old(self).initial_window_size,
                    ..*old(self)
                }),
                None => (Channel {
                    window_size: (old(self).window_size - len) as u32,
                    ..*old(self)
                }),
            }),
            match r {
                Some(adjust) => {
                    &&& old(self).window_size - len < old(self).initial_window_size / 2
                    &&& adjust == old(self).initial_window_size - (old(self).window_size - len)
                },
                None => old(self).window_size - len >= old(self).initial_window_size / 2,
            },
    {
        self.window_size = self.window_size - len;
        if self.window_size < self.initial_window_size / 2 {
            let adjust = self.initial_window_size - self.window_size;
            self.window_size = self.initial_window_size;
            Some(adjust)
        } else {
            None
        }
    }

    /// Consume `len` bytes of the peer's window on sent data.
    pub fn consume_peer_window(&mut self, len: u32)
        requires
            len <= old(self).peer_window_size,
        ensures
            *final(self) == (Channel {
                peer_window_size: (old(self).peer_window_size - len) as u32,
                ..*old(self)
            }),
    {
        self.peer_window_size = self.peer_window_size - len;
    }

    /// Widen the peer's window on a WINDOW_ADJUST from the client,
    /// saturating at the u32 bound.
    pub fn grow_peer_window(&mut self, amount: u32)
        ensures
            *final(self) == (Channel {
                peer_window_size: if old(self).peer_window_size + amount <= u32::MAX {
                    (old(self).peer_window_size + amount) as u32
                } else {
                    u32::MAX
                },
                ..*old(self)
            }),
    {
        if amount <= u32::MAX - self.peer_window_size {
            self.peer_window_size = self.peer_window_size + amount;
        } else {
            self.peer_window_size = u32::MAX;
        }
    }
}

} // verus!
