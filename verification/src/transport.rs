//! The byte link to one panel, and the record of what was asked of it.

use vstd::prelude::*;
use core::time::Duration;
use crate::discovery::Endpoint;
use crate::error::Error;

verus! {

/// An open, byte-oriented duplex link to one panel, and the host
/// facilities that find and open such links.
///
/// Nothing is promised about what an implementation does: every
/// guarantee of this crate holds whatever the link answers. Where a
/// contract speaks of what a link "may" answer, it means an answer
/// that meets whatever the implementation itself ensures.
pub trait Transport: Sized {
    /// Lists the serial endpoints that the host can see, in the host's order.
    fn endpoints() -> Result<Vec<Endpoint>, Error>;

    /// Opens the link to the device at `path`.
    fn open(path: &str, baud_rate: u32, timeout: Duration) -> Result<Self, Error>;

    /// Hands all of `bytes` to the link, or fails. No count is
    /// returned: an implementation that could hand over only a part
    /// of the bytes must fail.
    fn write(&mut self, bytes: &[u8]) -> Result<(), Error>;

    /// Pushes out whatever the link still buffers.
    fn flush(&mut self) -> Result<(), Error>;

    /// Fills `buf` from the link, or fails once the read timeout elapses.
    fn read_exact(&mut self, buf: &mut [u8; 32]) -> Result<(), Error>;

    /// Changes how long a read may block.
    fn set_timeout(&mut self, timeout: Duration) -> Result<(), Error>;

    /// The name of the link, where it has one.
    fn name(&self) -> Option<String>;
}

/// One request made of a link, with what the link answered.
pub enum Exchange {
    /// The link was opened at this path, with this baud rate and read timeout.
    Open(Seq<char>, u32, Duration),
    /// The bytes handed to the link, and the failure if it refused them.
    Write(Seq<u8>, Option<Error>),
    /// A flush, and the failure if it did not go through.
    Flush(Option<Error>),
    /// A read of one reply: the bytes that arrived, or the failure.
    Read(Result<Seq<u8>, Error>),
    /// A change of the read timeout, and the failure if the link refused it.
    SetTimeout(Duration, Option<Error>),
}

/// The failure that an outcome carries, if any.
pub open spec fn fault<V>(outcome: Result<V, Error>) -> Option<Error> {
    match outcome {
        Ok(_) => None,
        Err(e) => Some(e),
    }
}

/// What a read is recorded as: the buffer as the link left it, or the failure.
pub open spec fn read_result(outcome: Result<(), Error>, buf: Seq<u8>) -> Result<Seq<u8>, Error> {
    match outcome {
        Ok(_) => Ok(buf),
        Err(e) => Err(e),
    }
}

/// Whether `listing` is an answer that the host of the links `T`
/// may give when it is asked for its endpoints: the answer meets
/// whatever `T::endpoints` ensures.
pub open spec fn may_list<T: Transport>(listing: Result<Vec<Endpoint>, Error>) -> bool {
    call_ensures(T::endpoints, (), listing)
}

/// Whether `opening` is an answer that `T::open` may give for
/// exactly these arguments.
pub open spec fn answers_open<T: Transport>(
    path: &str,
    baud_rate: u32,
    timeout: Duration,
    opening: Result<T, Error>,
) -> bool {
    call_ensures(T::open, (path, baud_rate, timeout), opening)
}

/// Whether `opening` is an answer that opening a link `T` may give
/// for a path of these characters, this baud rate and this read
/// timeout: the answer meets whatever `T::open` ensures.
pub open spec fn may_open<T: Transport>(
    path: Seq<char>,
    baud_rate: u32,
    timeout: Duration,
    opening: Result<T, Error>,
) -> bool {
    exists|p: &str| p@ == path && #[trigger] answers_open::<T>(p, baud_rate, timeout, opening)
}

/// Whether `name` is an answer that `link` may give when it is asked
/// for its name: the answer meets whatever `T::name` ensures.
pub open spec fn may_name<T: Transport>(link: T, name: Option<String>) -> bool {
    call_ensures(T::name, (&link,), name)
}

/// A link together with the history of every request made through it.
pub struct Port<T: Transport> {
    link: T,
    log: Ghost<Seq<Exchange>>,
}

impl<T: Transport> Port<T> {
    /// Every request made of the link through this port, oldest first.
    pub closed spec fn history(&self) -> Seq<Exchange> {
        self.log@
    }

    /// The link that the port drives.
    pub closed spec fn link(&self) -> T {
        self.link
    }

    /// Wraps a link that is already open; its history starts empty.
    pub fn new(link: T) -> (port: Self)
        ensures
            port.link() == link,
            port.history() == Seq::<Exchange>::empty(),
    {
        Port { link, log: Ghost(Seq::empty()) }
    }

    /// Opens the link at `path` and returns what the link answered:
    /// the opened link in a port whose history starts with that
    /// request, or the failure of the link as it is. The link is
    /// asked once and never again after a failure. A refused opening
    /// leaves no port and so no record: the contract does not tell
    /// one attempt from several.
    pub fn open(path: &str, baud_rate: u32, timeout: Duration) -> (opened: Result<Self, Error>)
        ensures
            match opened {
                Ok(port) => {
                    &&& may_open::<T>(path@, baud_rate, timeout, Ok(port.link()))
                    &&& port.history() == seq![Exchange::Open(path@, baud_rate, timeout)]
                },
                Err(e) => may_open::<T>(path@, baud_rate, timeout, Err(e)),
            },
    {
        let opening = T::open(path, baud_rate, timeout);
        assert(answers_open::<T>(path, baud_rate, timeout, opening));
        match opening {
            Ok(link) => {
                let log = Ghost(Seq::empty().push(Exchange::Open(path@, baud_rate, timeout)));
                Ok(Port { link, log })
            },
            Err(e) => Err(e),
        }
    }

    /// Hands `bytes` to the link and records the request.
    pub(crate) fn write(&mut self, bytes: &[u8]) -> (outcome: Result<(), Error>)
        ensures
            final(self).history() == old(self).history().push(
                Exchange::Write(bytes@, fault(outcome)),
            ),
    {
        let outcome = self.link.write(bytes);
        proof {
            self.log@ = self.log@.push(Exchange::Write(bytes@, fault(outcome)));
        }
        outcome
    }

    /// Flushes the link and records the request.
    pub(crate) fn flush(&mut self) -> (outcome: Result<(), Error>)
        ensures
            final(self).history() == old(self).history().push(Exchange::Flush(fault(outcome))),
    {
        let outcome = self.link.flush();
        proof {
            self.log@ = self.log@.push(Exchange::Flush(fault(outcome)));
        }
        outcome
    }

    /// Reads one reply from the link into `buf` and records the request.
    pub(crate) fn read_exact(&mut self, buf: &mut [u8; 32]) -> (outcome: Result<(), Error>)
        ensures
            final(self).history() == old(self).history().push(
                Exchange::Read(read_result(outcome, final(buf)@)),
            ),
    {
        let outcome = self.link.read_exact(buf);
        proof {
            self.log@ = self.log@.push(Exchange::Read(read_result(outcome, buf@)));
        }
        outcome
    }

    /// Changes the read timeout of the link and records the request.
    pub(crate) fn set_timeout(&mut self, timeout: Duration) -> (outcome: Result<(), Error>)
        ensures
            final(self).history() == old(self).history().push(
                Exchange::SetTimeout(timeout, fault(outcome)),
            ),
    {
        let outcome = self.link.set_timeout(timeout);
        proof {
            self.log@ = self.log@.push(Exchange::SetTimeout(timeout, fault(outcome)));
        }
        outcome
    }

    /// The name that the link gives itself, where it gives one.
    pub fn name(&self) -> (name: Option<String>)
        ensures
            may_name(self.link(), name),
    {
        self.link.name()
    }

    /// Borrows the link, to look at it.
    pub fn inner(&self) -> (link: &T)
        ensures
            *link == self.link(),
    {
        &self.link
    }

    /// Gives the link back and forgets its history.
    pub fn into_inner(self) -> (link: T)
        ensures
            link == self.link(),
    {
        self.link
    }
}

} // verus!
