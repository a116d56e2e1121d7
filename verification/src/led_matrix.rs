//! The handle over one panel or an ordered group of panels.

use vstd::prelude::*;
use core::time::Duration;
use crate::codec::{
    byte_flag, decode_flags, encode_flag, flag_byte, frame_of, framed, lemma_stage_frame,
    stage_frame, status_byte, Command,
};
use crate::discovery::{panel_names, panel_names_of, texts, Endpoint};
use crate::error::Error;
use crate::label::{collection_label, collection_label_text, device_label, device_label_text};
use crate::fanout::{
    broke_at, delivered_in_turn, failed, fanned, laid_out, lemma_delivered_in_turn_per_port,
    lemma_requests_keep_frames_prefixed, prefixed,
    lemma_delivered_in_turn_push, lemma_fanned_send, lemma_wire_of_delivered, queried,
    sent_in_turn, served, status_of, statuses_of, stopped_at, wire, Request,
};
use crate::transport::{fault, may_list, may_name, may_open, Exchange, Port, Transport};

verus! {

/// Baud rate at which every panel is opened.
pub const BAUD_RATE: u32 = 115_200;

/// Read timeout, in milliseconds, with which every panel is opened.
pub const DEFAULT_TIMEOUT_MILLIS: u64 = 20;

/// The duration of `count` milliseconds: what `Duration::from_millis`
/// of std returns for `count`.
pub uninterp spec fn milliseconds(count: u64) -> Duration;

/// `Duration::from_millis` of std. Taken on trust from its
/// documentation and not proved here: it returns the duration of the
/// given number of milliseconds, the same duration for the same number.
pub assume_specification[ Duration::from_millis ](millis: u64) -> (duration: Duration)
    ensures
        duration == milliseconds(millis),
;

/// One panel, or an ordered group of panels driven as one.
pub enum LedMatrix<T: Transport> {
    Device(Port<T>),
    Collection(Vec<Port<T>>),
}

/// The history of each port of `ports`, in order.
pub open spec fn histories_of<T: Transport>(ports: Seq<Port<T>>) -> Seq<Seq<Exchange>> {
    Seq::new(ports.len(), |i: int| ports[i].history())
}

/// The history of a port that was just opened at `path` with the
/// fixed baud rate and the default read timeout.
pub open spec fn opened(path: Seq<char>) -> Seq<Exchange> {
    seq![Exchange::Open(path, BAUD_RATE, milliseconds(DEFAULT_TIMEOUT_MILLIS))]
}

/// Whether a history holds nothing but the opening of the port, at
/// the fixed baud rate and with the default read timeout.
pub open spec fn just_opened(history: Seq<Exchange>) -> bool {
    &&& history.len() == 1
    &&& history[0] matches Exchange::Open(_, baud_rate, timeout)
    &&& baud_rate == BAUD_RATE
    &&& timeout == milliseconds(DEFAULT_TIMEOUT_MILLIS)
}

/// Whether `port` is what opening the device at `path` gave: the
/// link that the device answered with, at the fixed baud rate and
/// with the default read timeout, and a history of that request alone.
pub open spec fn opened_as<T: Transport>(port: Port<T>, path: Seq<char>) -> bool {
    &&& port.history() == opened(path)
    &&& may_open::<T>(path, BAUD_RATE, milliseconds(DEFAULT_TIMEOUT_MILLIS), Ok(port.link()))
}

/// Whether `e` is a failure that the device at `path` may answer
/// with when it is opened at the fixed baud rate and with the default
/// read timeout.
pub open spec fn refuses<T: Transport>(path: Seq<char>, e: Error) -> bool {
    may_open::<T>(path, BAUD_RATE, milliseconds(DEFAULT_TIMEOUT_MILLIS), Err::<T, Error>(e))
}

/// Whether the device at `path` may open.
pub open spec fn opens<T: Transport>(path: Seq<char>) -> bool {
    exists|port: Port<T>| #[trigger] opened_as(port, path)
}

/// Device `k` of `paths` refused to open with `e`, after every
/// device before it had opened.
pub open spec fn refused_at<T: Transport>(paths: Seq<Seq<char>>, e: Error, k: int) -> bool {
    &&& 0 <= k < paths.len()
    &&& forall|i: int| 0 <= i < k ==> opens::<T>(#[trigger] paths[i])
    &&& refuses::<T>(paths[k], e)
}

/// Whether `opening` is what opening the devices at `paths` one
/// after the other gives: a group of one port for each device, in
/// order, each holding what its device answered; or, if a device
/// refused, the failure of the first device that did.
pub open spec fn opens_each<T: Transport>(
    paths: Seq<Seq<char>>,
    opening: Result<LedMatrix<T>, Error>,
) -> bool {
    match opening {
        Ok(matrix) => {
            &&& matrix is Collection
            &&& matrix.ports().len() == paths.len()
            &&& forall|i: int|
                0 <= i < paths.len() ==> opened_as(#[trigger] matrix.ports()[i], paths[i])
        },
        Err(e) => exists|k: int| refused_at::<T>(paths, e, k),
    }
}

/// Whether `opening` is what opening the panels of `listing` gives:
/// the failure of the host if it could not be asked, else what
/// opening each panel of the listing gives.
pub open spec fn opens_listed<T: Transport>(
    listing: Result<Vec<Endpoint>, Error>,
    opening: Result<LedMatrix<T>, Error>,
) -> bool {
    match listing {
        Ok(endpoints) => opens_each(panel_names_of(endpoints@), opening),
        Err(e) => opening matches Err(failure) && failure == e,
    }
}

/// Whether `opening` is what opening the panels of some listing
/// gives that the host may answer with.
pub open spec fn opens_all<T: Transport>(opening: Result<LedMatrix<T>, Error>) -> bool {
    exists|listing: Result<Vec<Endpoint>, Error>| #[trigger]
        may_list::<T>(listing) && opens_listed(listing, opening)
}

/// The ports gathered after one more opening: the ports so far and
/// the new port behind them, or the failure of the opening and no
/// ports at all.
pub open spec fn admitted<T: Transport>(
    ports: Seq<Port<T>>,
    opening: Result<Port<T>, Error>,
) -> Result<Seq<Port<T>>, Error> {
    match opening {
        Ok(port) => Ok(ports.push(port)),
        Err(e) => Err(e),
    }
}

/// The ports gathered from the outcomes of opening one device after
/// the other, stopping at the first that failed.
pub open spec fn gathered<T: Transport>(openings: Seq<Result<Port<T>, Error>>) -> Result<
    Seq<Port<T>>,
    Error,
>
    decreases openings.len(),
{
    if openings.len() == 0 {
        Ok(Seq::empty())
    } else {
        match gathered(openings.drop_last()) {
            Ok(ports) => admitted(ports, openings.last()),
            Err(e) => Err(e),
        }
    }
}

/// A group is opened whole or not at all: the ports are gathered if
/// and only if every device could be opened, and then there is one
/// port for each device, in the order of the devices. If any device
/// failed there is no group, and the failure returned is that of the
/// first device that failed.
pub proof fn lemma_all_or_nothing<T: Transport>(openings: Seq<Result<Port<T>, Error>>)
    ensures
        gathered(openings) is Ok <==> forall|i: int|
            0 <= i < openings.len() ==> (#[trigger] openings[i]) is Ok,
        gathered(openings) matches Ok(ports) ==> {
            &&& ports.len() == openings.len()
            &&& forall|i: int| 0 <= i < ports.len() ==> openings[i] == Ok::<Port<T>, Error>(ports[i])
        },
        gathered(openings) matches Err(e) ==> exists|k: int|
            {
                &&& 0 <= k < openings.len()
                &&& #[trigger] openings[k] == Err::<Port<T>, Error>(e)
                &&& forall|i: int| 0 <= i < k ==> (#[trigger] openings[i]) is Ok
            },
    decreases openings.len(),
{
    if openings.len() > 0 {
        let earlier = openings.drop_last();
        lemma_all_or_nothing(earlier);
        assert forall|i: int| 0 <= i < earlier.len() implies earlier[i] == openings[i] by {}
        match gathered(earlier) {
            Ok(ports) => {
                match openings.last() {
                    Ok(port) => {
                        assert forall|i: int| 0 <= i < openings.len() implies (
                        #[trigger] openings[i]) is Ok by {
                            if i < earlier.len() {
                                assert(earlier[i] is Ok);
                            }
                        }
                    },
                    Err(e) => {
                        let k = openings.len() - 1;
                        assert(openings[k] == Err::<Port<T>, Error>(e));
                        assert forall|i: int| 0 <= i < k implies (#[trigger] openings[i]) is Ok by {
                            assert(earlier[i] is Ok);
                        }
                    },
                }
            },
            Err(e) => {
                let k = choose|k: int|
                    {
                        &&& 0 <= k < earlier.len()
                        &&& #[trigger] earlier[k] == Err::<Port<T>, Error>(e)
                        &&& forall|i: int| 0 <= i < k ==> (#[trigger] earlier[i]) is Ok
                    };
                assert(openings[k] == Err::<Port<T>, Error>(e));
                assert forall|i: int| 0 <= i < k implies (#[trigger] openings[i]) is Ok by {
                    assert(earlier[i] is Ok);
                }
            },
        }
    }
}

/// The label of a handle whose links have the given names.
pub open spec fn label_text(single: bool, names: Seq<Option<String>>) -> Seq<char> {
    if single {
        device_label_text(names[0])
    } else {
        collection_label_text(names)
    }
}

/// Whether `names` holds, for each port in order, a name that the
/// link of that port may answer with when it is asked for its name.
pub open spec fn named_by<T: Transport>(ports: Seq<Port<T>>, names: Seq<Option<String>>) -> bool {
    &&& names.len() == ports.len()
    &&& forall|i: int| 0 <= i < ports.len() ==> may_name((#[trigger] ports[i]).link(), names[i])
}

/// The flag that each port last replied with, in port order.
pub open spec fn flags_of(histories: Seq<Seq<Exchange>>) -> Seq<bool> {
    Seq::new(histories.len(), |i: int| byte_flag(status_of(histories[i])))
}

/// Writes `buff` to one port and flushes it.
fn write_one<T: Transport>(port: &mut Port<T>, buff: &[u8]) -> (result: Result<(), Error>)
    ensures
        match result {
            Ok(_) => served(old(port).history(), final(port).history(), Request::Send(buff@)),
            Err(e) => failed(
                old(port).history(),
                final(port).history(),
                Request::Send(buff@),
                e,
            ),
        },
{
    match port.write(buff) {
        Ok(()) => port.flush(),
        Err(e) => Err(e),
    }
}

/// Reads one reply from one port and returns its status byte.
fn read_one<T: Transport>(port: &mut Port<T>) -> (result: Result<u8, Error>)
    ensures
        match result {
            Ok(status) => {
                &&& served(old(port).history(), final(port).history(), Request::Receive)
                &&& status == status_of(final(port).history())
            },
            Err(e) => failed(
                old(port).history(),
                final(port).history(),
                Request::Receive,
                e,
            ),
        },
{
    let mut buff: [u8; 32] = [0u8; 32];
    match port.read_exact(&mut buff) {
        Ok(()) => {
            assert(port.history().last() == Exchange::Read(Ok(buff@)));
            Ok(status_byte(&buff))
        },
        Err(e) => Err(e),
    }
}

/// Writes `buff` to each port in order, stopping at the first failure.
fn write_each<T: Transport>(ports: &mut Vec<Port<T>>, buff: &[u8]) -> (result: Result<(), Error>)
    ensures
        fanned(
            histories_of(old(ports)@),
            histories_of(final(ports)@),
            Request::Send(buff@),
            fault(result),
        ),
{
    let ghost before = histories_of(ports@);
    let ghost request = Request::Send(buff@);
    let n = ports.len();
    let mut i: usize = 0;
    while i < n
        invariant
            i <= n,
            n == ports.len(),
            before == histories_of(old(ports)@),
            before.len() == n,
            request == Request::Send(buff@),
            forall|j: int| 0 <= j < i ==> served(before[j], #[trigger] ports@[j].history(), request),
            forall|j: int| i <= j < n ==> #[trigger] ports@[j].history() == before[j],
        decreases n - i,
    {
        let port = &mut ports[i];
        match write_one(port, buff) {
            Ok(()) => {},
            Err(e) => {
                assert(stopped_at(before, histories_of(ports@), request, e, i as int));
                return Err(e);
            },
        }
        i += 1;
    }
    Ok(())
}

/// Reads one reply from each port in order, stopping at the first failure.
fn read_each<T: Transport>(ports: &mut Vec<Port<T>>) -> (result: Result<Vec<u8>, Error>)
    ensures
        fanned(
            histories_of(old(ports)@),
            histories_of(final(ports)@),
            Request::Receive,
            fault(result),
        ),
        result matches Ok(statuses) ==> statuses@ == statuses_of(histories_of(final(ports)@)),
{
    let ghost before = histories_of(ports@);
    let mut statuses: Vec<u8> = Vec::new();
    let n = ports.len();
    let mut i: usize = 0;
    while i < n
        invariant
            i <= n,
            n == ports.len(),
            before == histories_of(old(ports)@),
            before.len() == n,
            statuses.len() == i,
            forall|j: int|
                0 <= j < i ==> served(before[j], #[trigger] ports@[j].history(), Request::Receive),
            forall|j: int| 0 <= j < i ==> #[trigger] statuses@[j] == status_of(ports@[j].history()),
            forall|j: int| i <= j < n ==> #[trigger] ports@[j].history() == before[j],
        decreases n - i,
    {
        let port = &mut ports[i];
        match read_one(port) {
            Ok(status) => {
                statuses.push(status);
            },
            Err(e) => {
                assert(stopped_at(before, histories_of(ports@), Request::Receive, e, i as int));
                return Err(e);
            },
        }
        i += 1;
    }
    assert(statuses@ =~= statuses_of(histories_of(ports@)));
    Ok(statuses)
}

/// Sets the read timeout of each port in order, stopping at the first failure.
fn configure_each<T: Transport>(ports: &mut Vec<Port<T>>, timeout: Duration) -> (result: Result<
    (),
    Error,
>)
    ensures
        fanned(
            histories_of(old(ports)@),
            histories_of(final(ports)@),
            Request::Timeout(timeout),
            fault(result),
        ),
{
    let ghost before = histories_of(ports@);
    let ghost request = Request::Timeout(timeout);
    let n = ports.len();
    let mut i: usize = 0;
    while i < n
        invariant
            i <= n,
            n == ports.len(),
            before == histories_of(old(ports)@),
            before.len() == n,
            request == Request::Timeout(timeout),
            forall|j: int| 0 <= j < i ==> served(before[j], #[trigger] ports@[j].history(), request),
            forall|j: int| i <= j < n ==> #[trigger] ports@[j].history() == before[j],
        decreases n - i,
    {
        let port = &mut ports[i];
        match port.set_timeout(timeout) {
            Ok(()) => {},
            Err(e) => {
                assert(stopped_at(before, histories_of(ports@), request, e, i as int));
                return Err(e);
            },
        }
        i += 1;
    }
    Ok(())
}

impl<T: Transport> LedMatrix<T> {
    /// The ports behind the handle, in the order in which they are driven.
    pub open spec fn ports(&self) -> Seq<Port<T>> {
        match self {
            LedMatrix::Device(port) => seq![*port],
            LedMatrix::Collection(vec) => vec@,
        }
    }

    /// The history of each port, in the order of `ports`.
    pub open spec fn histories(&self) -> Seq<Seq<Exchange>> {
        histories_of(self.ports())
    }

    /// Whether two handles are of the same variant and drive as many ports.
    pub open spec fn same_shape(&self, other: &Self) -> bool {
        &&& (self is Device) == (other is Device)
        &&& self.ports().len() == other.ports().len()
    }

    /// Whether every write that the handle has asked of its links
    /// starts with the prefix of the protocol.
    pub open spec fn well_framed(&self) -> bool {
        forall|i: int| 0 <= i < self.ports().len() ==> prefixed(#[trigger] self.histories()[i])
    }

    /// Whether `after` is this handle after `frame` was sent to its
    /// ports in order, with `result`: every port took the frame, or
    /// the first port that failed stopped the send with its failure.
    pub open spec fn sends(&self, after: &Self, frame: Seq<u8>, result: Result<(), Error>) -> bool {
        &&& after.same_shape(self)
        &&& fanned(self.histories(), after.histories(), Request::Send(frame), fault(result))
    }

    /// Whether `after` is this handle after `frame` was sent to its
    /// ports in order and then one reply read from each in order, with
    /// `result`: the first failure of either step stopped the exchange.
    pub open spec fn asks<V>(&self, after: &Self, frame: Seq<u8>, result: Result<V, Error>) -> bool {
        &&& after.same_shape(self)
        &&& queried(self.histories(), after.histories(), frame, fault(result))
    }

    /// A handle over one link that is already open.
    pub fn device(link: T) -> (matrix: Self)
        ensures
            matrix is Device,
            matrix.ports().len() == 1,
            matrix.ports()[0].link() == link,
            matrix.histories() == seq![Seq::<Exchange>::empty()],
            matrix.well_framed(),
    {
        let matrix = LedMatrix::Device(Port::new(link));
        assert(matrix.histories() =~= seq![Seq::<Exchange>::empty()]);
        matrix
    }

    /// A handle over a group of links that are already open, driven
    /// in the order given.
    pub fn from_links(links: Vec<T>) -> (matrix: Self)
        ensures
            matrix is Collection,
            matrix.ports().len() == links.len(),
            forall|i: int|
                0 <= i < links.len() ==> {
                    &&& (#[trigger] matrix.ports()[i]).link() == links[i]
                    &&& matrix.ports()[i].history() == Seq::<Exchange>::empty()
                },
            matrix.well_framed(),
    {
        let mut links = links;
        let ghost given = links@;
        let mut reversed: Vec<Port<T>> = Vec::new();
        while links.len() > 0
            invariant
                links.len() + reversed.len() == given.len(),
                links@ == given.take(links.len() as int),
                forall|i: int|
                    0 <= i < reversed.len() ==> {
                        &&& (#[trigger] reversed@[i]).link() == given[given.len() - 1 - i]
                        &&& reversed@[i].history() == Seq::<Exchange>::empty()
                    },
            decreases links.len(),
        {
            let link = links.pop().unwrap();
            reversed.push(Port::new(link));
        }
        let mut ports: Vec<Port<T>> = Vec::new();
        while reversed.len() > 0
            invariant
                reversed.len() + ports.len() == given.len(),
                forall|i: int|
                    0 <= i < reversed.len() ==> {
                        &&& (#[trigger] reversed@[i]).link() == given[given.len() - 1 - i]
                        &&& reversed@[i].history() == Seq::<Exchange>::empty()
                    },
                forall|i: int|
                    0 <= i < ports.len() ==> {
                        &&& (#[trigger] ports@[i]).link() == given[i]
                        &&& ports@[i].history() == Seq::<Exchange>::empty()
                    },
            decreases reversed.len(),
        {
            let port = reversed.pop().unwrap();
            ports.push(port);
        }
        LedMatrix::Collection(ports)
    }

    /// Adds the outcome of opening one more device to the ports
    /// gathered so far. A device that could not be opened leaves no
    /// ports at all: the failure is returned as it is, and the ports
    /// gathered so far are closed.
    pub fn enlist(ports: Vec<Port<T>>, opening: Result<Port<T>, Error>) -> (gathered: Result<
        Vec<Port<T>>,
        Error,
    >)
        ensures
            match gathered {
                Ok(grown) => admitted(ports@, opening) == Ok::<Seq<Port<T>>, Error>(grown@),
                Err(e) => admitted(ports@, opening) == Err::<Seq<Port<T>>, Error>(e),
            },
    {
        match opening {
            Ok(port) => {
                let mut ports = ports;
                ports.push(port);
                Ok(ports)
            },
            Err(e) => Err(e),
        }
    }

    /// Opens the panel at `device`, at the fixed baud rate and with
    /// the default read timeout, and returns what the device
    /// answered: a handle over the opened link, or the failure of the
    /// device as it is. The device is asked once and never again
    /// after a failure; a refused opening leaves no record, so the
    /// contract does not tell one attempt from several.
    pub fn open(device: String) -> (opening: Result<Self, Error>)
        ensures
            match opening {
                Ok(matrix) => {
                    &&& matrix is Device
                    &&& opened_as(matrix.ports()[0], device@)
                    &&& matrix.histories() == seq![opened(device@)]
                    &&& matrix.well_framed()
                },
                Err(e) => refuses::<T>(device@, e),
            },
    {
        let timeout = Duration::from_millis(DEFAULT_TIMEOUT_MILLIS);
        match Port::open(device.as_str(), BAUD_RATE, timeout) {
            Ok(port) => {
                let matrix = LedMatrix::Device(port);
                assert(matrix.histories() =~= seq![opened(device@)]);
                Ok(matrix)
            },
            Err(e) => Err(e),
        }
    }

    /// Opens every panel of `devices`, in the order given. If one of
    /// them cannot be opened there is no handle: the ports opened so
    /// far are closed again and the failure is returned. Each device
    /// is asked once and none again after a failure; a refused opening
    /// leaves no record, so the contract does not tell one attempt
    /// from several.
    pub fn open_many(devices: Vec<String>) -> (opening: Result<Self, Error>)
        ensures
            opens_each(texts(devices@), opening),
            opening matches Ok(matrix) ==> {
                &&& matrix is Collection
                &&& matrix.histories() == texts(devices@).map_values(|path: Seq<char>| opened(path))
                &&& matrix.well_framed()
            },
            devices.len() == 0 ==> opening is Ok,
    {
        let timeout = Duration::from_millis(DEFAULT_TIMEOUT_MILLIS);
        let mut ports: Vec<Port<T>> = Vec::new();
        let n = devices.len();
        let mut i: usize = 0;
        while i < n
            invariant
                i <= n,
                n == devices.len(),
                ports.len() == i,
                timeout == milliseconds(DEFAULT_TIMEOUT_MILLIS),
                forall|j: int| 0 <= j < i ==> opened_as(#[trigger] ports@[j], devices[j]@),
                forall|j: int| 0 <= j < i ==> opens::<T>(#[trigger] texts(devices@)[j]),
            decreases n - i,
        {
            let opening = Port::open(devices[i].as_str(), BAUD_RATE, timeout);
            ports = match Self::enlist(ports, opening) {
                Ok(grown) => grown,
                Err(e) => {
                    assert(refused_at::<T>(texts(devices@), e, i as int));
                    return Err(e);
                },
            };
            assert(opened_as(ports@[i as int], texts(devices@)[i as int]));
            i += 1;
        }
        let matrix = LedMatrix::Collection(ports);
        assert(matrix.histories() =~= texts(devices@).map_values(|path: Seq<char>| opened(path)));
        Ok(matrix)
    }

    /// Opens every panel among `endpoints`, in the order in which
    /// they are listed.
    pub fn open_among(endpoints: &Vec<Endpoint>) -> (opening: Result<Self, Error>)
        ensures
            opens_each(panel_names_of(endpoints@), opening),
            opening matches Ok(matrix) ==> {
                &&& matrix is Collection
                &&& matrix.histories() == panel_names_of(endpoints@).map_values(
                    |path: Seq<char>| opened(path),
                )
                &&& matrix.well_framed()
            },
            panel_names_of(endpoints@).len() == 0 ==> opening is Ok,
    {
        let names = panel_names(endpoints);
        assert(names@.len() == texts(names@).len());
        Self::open_many(names)
    }

    /// Opens every panel of a listing of the host. A host that could
    /// not be asked gives its failure and nothing is opened.
    pub fn open_listed(listing: Result<Vec<Endpoint>, Error>) -> (opening: Result<Self, Error>)
        ensures
            opens_listed(listing, opening),
            match listing {
                Ok(endpoints) => {
                    &&& opening matches Ok(matrix) ==> {
                        &&& matrix is Collection
                        &&& matrix.histories() == panel_names_of(endpoints@).map_values(
                            |path: Seq<char>| opened(path),
                        )
                        &&& matrix.well_framed()
                    }
                    &&& panel_names_of(endpoints@).len() == 0 ==> opening is Ok
                },
                Err(e) => opening matches Err(failure) && failure == e,
            },
    {
        match listing {
            Ok(endpoints) => Self::open_among(&endpoints),
            Err(e) => Err(e),
        }
    }

    /// Asks the host for its endpoints and opens every panel among
    /// them, in the host's order: what `open_listed` makes of the
    /// host's answer. A host that cannot be asked gives its failure; a
    /// panel that cannot be opened gives its own; a host without
    /// panels gives an empty group. The host and each panel are asked
    /// once and none again after a failure; a refused request leaves
    /// no record, so the contract does not tell one attempt from
    /// several.
    pub fn open_all() -> (opening: Result<Self, Error>)
        ensures
            opens_all(opening),
            opening matches Ok(matrix) ==> {
                &&& matrix is Collection
                &&& forall|i: int|
                    0 <= i < matrix.ports().len() ==> just_opened(#[trigger] matrix.histories()[i])
                &&& matrix.well_framed()
            },
    {
        let listing = T::endpoints();
        assert(may_list::<T>(listing));
        let ghost answer = listing;
        let ghost paths = if listing is Ok {
            panel_names_of(listing->Ok_0@)
        } else {
            Seq::empty()
        };
        let opening = Self::open_listed(listing);
        assert(may_list::<T>(answer) && opens_listed(answer, opening));
        proof {
            if opening is Ok {
                let matrix = opening->Ok_0;
                let fresh = paths.map_values(|path: Seq<char>| opened(path));
                assert(matrix.histories().len() == matrix.ports().len());
                assert forall|i: int| 0 <= i < matrix.ports().len() implies just_opened(
                    #[trigger] matrix.histories()[i],
                ) by {
                    assert(fresh[i] == opened(paths[i]));
                }
            }
        }
        opening
    }

    /// Asks every link for its name, in port order, and returns what
    /// each link answered. Nothing is written to a link or read from it.
    pub fn names(&self) -> (names: Vec<Option<String>>)
        ensures
            named_by(self.ports(), names@),
    {
        let mut names: Vec<Option<String>> = Vec::new();
        match self {
            LedMatrix::Device(port) => {
                names.push(port.name());
            },
            LedMatrix::Collection(vec) => {
                let n = vec.len();
                let mut i: usize = 0;
                while i < n
                    invariant
                        i <= n,
                        n == vec.len(),
                        names.len() == i,
                        forall|j: int|
                            0 <= j < i ==> may_name((#[trigger] vec@[j]).link(), names@[j]),
                    decreases n - i,
                {
                    names.push(vec[i].name());
                    i += 1;
                }
            },
        }
        names
    }

    /// A label for the handle: "LED matrix" and the name of its
    /// link, or "LED matrices" and the names of its links in port
    /// order, separated by commas. The names are what the links
    /// answer; a link without a name is shown as "unnamed". Nothing is
    /// written to a link or read from it.
    pub fn label(&self) -> (text: String)
        ensures
            exists|names: Seq<Option<String>>|
                named_by(self.ports(), names) && text@ == #[trigger] label_text(
                    self is Device,
                    names,
                ),
    {
        let names = self.names();
        match self {
            LedMatrix::Device(_) => {
                let text = device_label(&names[0]);
                assert(text@ == label_text(true, names@));
                text
            },
            LedMatrix::Collection(_) => {
                let text = collection_label(&names);
                assert(text@ == label_text(false, names@));
                text
            },
        }
    }

    /// Writes `buff` to every port in order and flushes each, stopping
    /// at the first port that fails. Ports before it keep what they
    /// were sent; ports after it are not touched.
    pub(crate) fn write_buff(&mut self, buff: &[u8]) -> (result: Result<(), Error>)
        ensures
            old(self).sends(final(self), buff@, result),
    {
        match self {
            LedMatrix::Device(port) => {
                let result = write_one(port, buff);
                proof {
                    if result is Err {
                        assert(stopped_at(
                            old(self).histories(),
                            histories_of(seq![*port]),
                            Request::Send(buff@),
                            result->Err_0,
                            0,
                        ));
                    }
                }
                result
            },
            LedMatrix::Collection(vec) => write_each(vec, buff),
        }
    }

    /// Reads one reply from every port in order and returns the status
    /// byte of each, stopping at the first port that fails.
    pub fn read(&mut self) -> (result: Result<Vec<u8>, Error>)
        ensures
            final(self).same_shape(old(self)),
            fanned(old(self).histories(), final(self).histories(), Request::Receive, fault(result)),
            result matches Ok(statuses) ==> statuses@ == statuses_of(final(self).histories()),
    {
        match self {
            LedMatrix::Device(port) => {
                match read_one(port) {
                    Ok(status) => {
                        let mut statuses: Vec<u8> = Vec::new();
                        statuses.push(status);
                        assert(statuses@ =~= statuses_of(histories_of(seq![*port])));
                        Ok(statuses)
                    },
                    Err(e) => {
                        assert(stopped_at(
                            old(self).histories(),
                            histories_of(seq![*port]),
                            Request::Receive,
                            e,
                            0,
                        ));
                        Err(e)
                    },
                }
            },
            LedMatrix::Collection(vec) => read_each(vec),
        }
    }

    /// Sets the read timeout of every port in order, stopping at the
    /// first port that refuses it.
    pub fn set_read_timeout(&mut self, timeout: Duration) -> (result: Result<(), Error>)
        ensures
            final(self).same_shape(old(self)),
            fanned(
                old(self).histories(),
                final(self).histories(),
                Request::Timeout(timeout),
                fault(result),
            ),
    {
        match self {
            LedMatrix::Device(port) => {
                let result = port.set_timeout(timeout);
                proof {
                    if result is Err {
                        assert(stopped_at(
                            old(self).histories(),
                            histories_of(seq![*port]),
                            Request::Timeout(timeout),
                            result->Err_0,
                            0,
                        ));
                    }
                }
                result
            },
            LedMatrix::Collection(vec) => configure_each(vec, timeout),
        }
    }

    /// Frames `body` with the prefix and sends it to every port.
    pub fn cmd(&mut self, body: &[u8]) -> (result: Result<(), Error>)
        ensures
            old(self).sends(final(self), framed(body@), result),
    {
        let buff = frame_of(body);
        self.write_buff(buff.as_slice())
    }

    /// Sends the toggle with the given opcode, its flag as one byte.
    pub fn set_cmd(&mut self, opcode: u8, flag: bool) -> (result: Result<(), Error>)
        ensures
            old(self).sends(final(self), framed(seq![opcode, flag_byte(flag)]), result),
    {
        let mut body: Vec<u8> = Vec::new();
        body.push(opcode);
        body.push(encode_flag(flag));
        assert(body@ =~= seq![opcode, flag_byte(flag)]);
        self.cmd(body.as_slice())
    }

    /// Reads one reply from every port and returns each status byte as a flag.
    pub fn read_bool(&mut self) -> (result: Result<Vec<bool>, Error>)
        ensures
            final(self).same_shape(old(self)),
            fanned(old(self).histories(), final(self).histories(), Request::Receive, fault(result)),
            result matches Ok(flags) ==> flags@ == flags_of(final(self).histories()),
    {
        match self.read() {
            Ok(statuses) => {
                let flags = decode_flags(&statuses);
                assert(flags@ =~= flags_of(self.histories()));
                Ok(flags)
            },
            Err(e) => Err(e),
        }
    }

    /// Sends the frame of `command` to every port.
    fn issue(&mut self, command: Command) -> (result: Result<(), Error>)
        ensures
            old(self).sends(final(self), command.frame(), result),
    {
        let body = command.encode_body();
        self.cmd(body.as_slice())
    }

    /// Sends the frame of `command` to every port, then reads the
    /// status byte that each port answers with.
    fn ask(&mut self, command: Command) -> (result: Result<Vec<u8>, Error>)
        ensures
            old(self).asks(final(self), command.frame(), result),
            result matches Ok(statuses) ==> statuses@ == statuses_of(final(self).histories()),
    {
        match self.issue(command) {
            Ok(()) => {},
            Err(e) => {
                return Err(e);
            },
        }
        proof {
            lemma_fanned_send(old(self).histories(), self.histories(), command.frame());
        }
        self.read()
    }

    /// Sends the frame of `command` to every port, then reads the
    /// flag that each port answers with.
    fn ask_flag(&mut self, command: Command) -> (result: Result<Vec<bool>, Error>)
        ensures
            old(self).asks(final(self), command.frame(), result),
            result matches Ok(flags) ==> flags@ == flags_of(final(self).histories()),
    {
        match self.issue(command) {
            Ok(()) => {},
            Err(e) => {
                return Err(e);
            },
        }
        proof {
            lemma_fanned_send(old(self).histories(), self.histories(), command.frame());
        }
        self.read_bool()
    }

    /// Asks every panel for its brightness, 0 to 255.
    pub fn get_brightness(&mut self) -> (result: Result<Vec<u8>, Error>)
        ensures
            old(self).asks(final(self), Command::GetBrightness.frame(), result),
            result matches Ok(levels) ==> levels@ == statuses_of(final(self).histories()),
    {
        self.ask(Command::GetBrightness)
    }

    /// Sets the brightness of every panel, 0 to 255.
    pub fn set_brightness(&mut self, pct: u8) -> (result: Result<(), Error>)
        ensures
            old(self).sends(final(self), Command::SetBrightness(pct).frame(), result),
    {
        self.issue(Command::SetBrightness(pct))
    }

    /// Fills every panel to `pct` percent. A level above 100 is
    /// refused before anything is written.
    pub fn percent(&mut self, pct: u8) -> (result: Result<(), Error>)
        ensures
            final(self).same_shape(old(self)),
            pct > 100 ==> result == Err::<(), Error>(Error::PercentOutOfRange(pct)) && *final(self)
                == *old(self),
            pct <= 100 ==> old(self).sends(final(self), Command::Percent(pct).frame(), result),
    {
        if pct > 100 {
            return Err(Error::PercentOutOfRange(pct));
        }
        self.issue(Command::Percent(pct))
    }

    /// Shows the gradient pattern.
    pub fn gradient(&mut self) -> (result: Result<(), Error>)
        ensures
            old(self).sends(final(self), Command::Gradient.frame(), result),
    {
        self.issue(Command::Gradient)
    }

    /// Shows the double gradient pattern.
    pub fn double_gradient(&mut self) -> (result: Result<(), Error>)
        ensures
            old(self).sends(final(self), Command::DoubleGradient.frame(), result),
    {
        self.issue(Command::DoubleGradient)
    }

    /// Shows the lotus pattern, laid out horizontally.
    pub fn lotus_horizontal(&mut self) -> (result: Result<(), Error>)
        ensures
            old(self).sends(final(self), Command::LotusHorizontal.frame(), result),
    {
        self.issue(Command::LotusHorizontal)
    }

    /// Shows the zigzag pattern.
    pub fn zigzag(&mut self) -> (result: Result<(), Error>)
        ensures
            old(self).sends(final(self), Command::Zigzag.frame(), result),
    {
        self.issue(Command::Zigzag)
    }

    /// Lights every pixel at full brightness.
    pub fn full_brightness(&mut self) -> (result: Result<(), Error>)
        ensures
            old(self).sends(final(self), Command::FullBrightness.frame(), result),
    {
        self.issue(Command::FullBrightness)
    }

    /// Shows the panic pattern.
    pub fn panic(&mut self) -> (result: Result<(), Error>)
        ensures
            old(self).sends(final(self), Command::Panic.frame(), result),
    {
        self.issue(Command::Panic)
    }

    /// Shows the lotus pattern, laid out vertically.
    pub fn lotus_vertical(&mut self) -> (result: Result<(), Error>)
        ensures
            old(self).sends(final(self), Command::LotusVertical.frame(), result),
    {
        self.issue(Command::LotusVertical)
    }

    /// Shows the test pattern.
    pub fn test(&mut self) -> (result: Result<(), Error>)
        ensures
            old(self).sends(final(self), Command::Test.frame(), result),
    {
        self.issue(Command::Test)
    }

    /// Asks every panel whether it sleeps.
    pub fn get_sleep(&mut self) -> (result: Result<Vec<bool>, Error>)
        ensures
            old(self).asks(final(self), Command::GetSleep.frame(), result),
            result matches Ok(flags) ==> flags@ == flags_of(final(self).histories()),
    {
        self.ask_flag(Command::GetSleep)
    }

    /// Puts every panel to sleep, or wakes it.
    pub fn set_sleep(&mut self, sleep: bool) -> (result: Result<(), Error>)
        ensures
            old(self).sends(final(self), Command::SetSleep(sleep).frame(), result),
    {
        assert(Command::SetSleep(sleep).body() =~= seq![0x03u8, flag_byte(sleep)]);
        self.set_cmd(0x03, sleep)
    }

    /// Asks every panel whether it animates.
    pub fn get_animate(&mut self) -> (result: Result<Vec<bool>, Error>)
        ensures
            old(self).asks(final(self), Command::GetAnimate.frame(), result),
            result matches Ok(flags) ==> flags@ == flags_of(final(self).histories()),
    {
        self.ask_flag(Command::GetAnimate)
    }

    /// Starts or stops the animation of every panel.
    pub fn set_animate(&mut self, animate: bool) -> (result: Result<(), Error>)
        ensures
            old(self).sends(final(self), Command::SetAnimate(animate).frame(), result),
    {
        assert(Command::SetAnimate(animate).body() =~= seq![
            0x04u8,
            flag_byte(animate),
        ]);
        self.set_cmd(0x04, animate)
    }

    /// Uploads a whole black-and-white image and shows it.
    pub fn draw_bw_buffer(&mut self, bytes: &[u8; 39]) -> (result: Result<(), Error>)
        ensures
            old(self).sends(final(self), Command::DrawBwBuffer(*bytes).frame(), result),
    {
        self.issue(Command::DrawBwBuffer(*bytes))
    }

    /// Uploads one column into the staging area of every panel,
    /// without showing it. The index is sent as given; the panel has
    /// columns 0 to 8.
    pub fn stage_col(&mut self, col: u8, bytes: &[u8; 34]) -> (result: Result<(), Error>)
        ensures
            old(self).sends(final(self), Command::StageCol(col, *bytes).frame(), result),
    {
        self.issue(Command::StageCol(col, *bytes))
    }

    /// Shows the columns staged so far.
    pub fn flush_cols(&mut self) -> (result: Result<(), Error>)
        ensures
            old(self).sends(final(self), Command::FlushCols.frame(), result),
    {
        self.issue(Command::FlushCols)
    }

    /// Stages the nine columns in ascending order, then shows them.
    /// A failure leaves the columns before it staged on every panel.
    pub fn draw_cols(&mut self, cols: &[[u8; 34]; 9]) -> (result: Result<(), Error>)
        ensures
            final(self).same_shape(old(self)),
            sent_in_turn(
                old(self).histories(),
                final(self).histories(),
                draw_frames(columns_of(cols@)),
                fault(result),
            ),
    {
        let ghost before = self.histories();
        let ghost frames = draw_frames(columns_of(cols@));
        let mut i: usize = 0;
        while i < 9
            invariant
                i <= 9,
                cols@.len() == 9,
                self.same_shape(old(self)),
                before == old(self).histories(),
                frames == draw_frames(columns_of(cols@)),
                self.histories() == delivered_in_turn(before, frames.take(i as int)),
            decreases 9 - i,
        {
            let ghost staged = self.histories();
            proof {
                lemma_stage_frame(i as u8, cols@[i as int]);
            }
            match self.stage_col(i as u8, &cols[i]) {
                Ok(()) => {},
                Err(e) => {
                    assert(broke_at(before, self.histories(), frames, e, i as int));
                    return Err(e);
                },
            }
            proof {
                lemma_fanned_send(staged, self.histories(), frames[i as int]);
                lemma_delivered_in_turn_push(before, frames.take(i as int), frames[i as int]);
                assert(frames.take(i + 1) =~= frames.take(i as int).push(frames[i as int]));
            }
            i += 1;
        }
        let ghost staged = self.histories();
        match self.flush_cols() {
            Ok(()) => {},
            Err(e) => {
                assert(broke_at(before, self.histories(), frames, e, 9));
                return Err(e);
            },
        }
        proof {
            lemma_fanned_send(staged, self.histories(), frames[9]);
            lemma_delivered_in_turn_push(before, frames.take(9), frames[9]);
            assert(frames =~= frames.take(9).push(frames[9]));
        }
        Ok(())
    }
}

/// The frames that drawing `cols` writes: one frame per column, in
/// ascending order of the index, then the frame that shows them.
pub open spec fn draw_frames(cols: Seq<Seq<u8>>) -> Seq<Seq<u8>> {
    Seq::new(
        cols.len() + 1,
        |i: int|
            if i < cols.len() {
                stage_frame(i as u8, cols[i])
            } else {
                Command::FlushCols.frame()
            },
    )
}

/// The pixels of each column, in column order.
pub open spec fn columns_of(cols: Seq<[u8; 34]>) -> Seq<Seq<u8>> {
    Seq::new(cols.len(), |i: int| cols[i]@)
}

/// Drawing nine columns is staging each of them in ascending order
/// and then showing them: if `steps` are the histories of the ports
/// before and after each of nine successful `stage_col` calls, for
/// the columns 0 to 8 of `cols`, and one successful `flush_cols`,
/// then the ports end with the histories that a successful
/// `draw_cols(cols)` leaves, and every port has put the same bytes on
/// the wire.
pub proof fn lemma_draw_cols_is_stage_cols_then_flush(
    steps: Seq<Seq<Seq<Exchange>>>,
    cols: [[u8; 34]; 9],
)
    requires
        steps.len() == 11,
        forall|i: int|
            0 <= i < 9 ==> fanned(
                #[trigger] steps[i],
                steps[i + 1],
                Request::Send(Command::StageCol(i as u8, cols@[i]).frame()),
                None,
            ),
        fanned(steps[9], steps[10], Request::Send(Command::FlushCols.frame()), None),
    ensures
        sent_in_turn(steps[0], steps[10], draw_frames(columns_of(cols@)), None),
        forall|port: int|
            0 <= port < steps[0].len() ==> wire(#[trigger] steps[10][port]) == wire(steps[0][port])
                + laid_out(draw_frames(columns_of(cols@))),
{
    let frames = draw_frames(columns_of(cols@));
    let before = steps[0];
    assert(frames.take(0) =~= Seq::<Seq<u8>>::empty());
    assert forall|i: int| 0 <= i <= 10 implies #[trigger] steps[i] == delivered_in_turn(
        before,
        frames.take(i),
    ) by {
        lemma_steps(steps, cols, i);
    }
    assert(frames.take(10) =~= frames);
    assert forall|port: int| 0 <= port < before.len() implies wire(#[trigger] steps[10][port])
        == wire(before[port]) + laid_out(frames) by {
        lemma_delivered_in_turn_per_port(before, frames, port);
        lemma_wire_of_delivered(before[port], frames);
    }
}

/// After `i` of the steps the ports have the first `i` frames.
proof fn lemma_steps(steps: Seq<Seq<Seq<Exchange>>>, cols: [[u8; 34]; 9], i: int)
    requires
        steps.len() == 11,
        0 <= i <= 10,
        forall|i: int|
            0 <= i < 9 ==> fanned(
                #[trigger] steps[i],
                steps[i + 1],
                Request::Send(Command::StageCol(i as u8, cols@[i]).frame()),
                None,
            ),
        fanned(steps[9], steps[10], Request::Send(Command::FlushCols.frame()), None),
    ensures
        steps[i] == delivered_in_turn(steps[0], draw_frames(columns_of(cols@)).take(i)),
    decreases i,
{
    let frames = draw_frames(columns_of(cols@));
    if i == 0 {
        assert(frames.take(0) =~= Seq::<Seq<u8>>::empty());
    } else {
        lemma_steps(steps, cols, i - 1);
        if i <= 9 {
            lemma_stage_frame((i - 1) as u8, cols@[i - 1]);
        }
        lemma_fanned_send(steps[i - 1], steps[i], frames[i - 1]);
        lemma_delivered_in_turn_push(steps[0], frames.take(i - 1), frames[i - 1]);
        assert(frames.take(i) =~= frames.take(i - 1).push(frames[i - 1]));
    }
}

/// Every frame that a handle sends starts with the prefix: a handle
/// whose links were only ever written frames with the prefix is still
/// such a handle after any operation, whether the operation succeeded
/// or stopped at a failure. Every operation sends the frame of a
/// command, or a body behind the prefix, so this holds of all of them.
pub proof fn lemma_handle_stays_well_framed<T: Transport>(
    before: LedMatrix<T>,
    after: LedMatrix<T>,
    request: Request,
    failure: Option<Error>,
)
    requires
        before.well_framed(),
        after.same_shape(&before),
        fanned(before.histories(), after.histories(), request, failure),
        request matches Request::Send(frame) ==> frame.len() >= 2 && frame.subrange(0, 2)
            == crate::codec::prefix(),
    ensures
        after.well_framed(),
{
    lemma_requests_keep_frames_prefixed(before.histories(), after.histories(), request, failure);
}

} // verus!
