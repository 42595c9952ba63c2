//! Finding the ear controller on USB and talking to its serial port.

use vstd::prelude::*;

use crate::text::{decimal, decimal_text};

verus! {

/// The vendor of the controller's USB Serial/JTAG port.
pub const ESP_VID: u16 = 0x303a;

/// The product of the controller's USB Serial/JTAG port.
pub const ESP_PID: u16 = 0x1001;

/// The class of a CDC Communications interface.
pub const CLASS_COMMS: u8 = 0x02;

/// The class of a CDC Data interface.
pub const CLASS_DATA: u8 = 0x0A;

/// The greatest number of reads that one drain makes.
pub const DRAIN_READS: u32 = 16;

/// Which way an endpoint carries data, seen from the host.
#[derive(Copy, Clone, Debug, PartialEq, Eq, Structural)]
pub enum Direction {
    In,
    Out,
}

/// How an endpoint carries data.
#[derive(Copy, Clone, Debug, PartialEq, Eq, Structural)]
pub enum TransferType {
    Control,
    Isochronous,
    Bulk,
    Interrupt,
}

/// An endpoint of an interface.
#[derive(Copy, Clone, Debug, PartialEq, Eq, Structural)]
pub struct Endpoint {
    pub address: u8,
    pub direction: Direction,
    pub transfer_type: TransferType,
}

/// One setting of an interface of the device's configuration.
#[derive(Debug)]
pub struct Interface {
    pub number: u8,
    pub class_code: u8,
    pub endpoints: Vec<Endpoint>,
}

/// Where the controller's serial port is reached.
#[derive(Copy, Clone, Debug, PartialEq, Eq, Structural)]
pub struct SerialPort {
    /// The interface that carries the data.
    pub iface_data: u8,
    /// The interface that carries the control requests, where there is one.
    pub iface_comms: Option<u8>,
    /// The endpoint to write to.
    pub ep_out: u8,
    /// The endpoint to read from.
    pub ep_in: u8,
}

/// A control request without data.
#[derive(Copy, Clone, Debug, PartialEq, Eq, Structural)]
pub struct ControlRequest {
    pub request_type: u8,
    pub request: u8,
    pub value: u16,
    pub index: u16,
}

/// The addresses of the bulk endpoints among `endpoints` that carry data the
/// way `d`, each with the number of its interface, in order.
pub open spec fn bulk_of(endpoints: Seq<Endpoint>, number: u8, d: Direction) -> Seq<(u8, u8)>
    decreases endpoints.len(),
{
    if endpoints.len() == 0 {
        Seq::empty()
    } else {
        let earlier = bulk_of(endpoints.drop_last(), number, d);
        let e = endpoints.last();
        if e.transfer_type == TransferType::Bulk && e.direction == d {
            earlier.push((number, e.address))
        } else {
            earlier
        }
    }
}

/// The addresses of the bulk endpoints of all CDC Data interfaces that carry
/// data the way `d`, each with the number of its interface, in order.
pub open spec fn bulk_endpoints(interfaces: Seq<Interface>, d: Direction) -> Seq<(u8, u8)>
    decreases interfaces.len(),
{
    if interfaces.len() == 0 {
        Seq::empty()
    } else {
        let earlier = bulk_endpoints(interfaces.drop_last(), d);
        let i = interfaces.last();
        if i.class_code == CLASS_DATA {
            earlier + bulk_of(i.endpoints@, i.number, d)
        } else {
            earlier
        }
    }
}

/// The first address that is not 0, or 0 where there is none.
pub open spec fn first_address(endpoints: Seq<(u8, u8)>) -> u8
    decreases endpoints.len(),
{
    if endpoints.len() == 0 {
        0
    } else {
        let earlier = first_address(endpoints.drop_last());
        if earlier != 0 {
            earlier
        } else {
            endpoints.last().1
        }
    }
}

/// The number of the first CDC Communications interface.
pub open spec fn comms_interface(interfaces: Seq<Interface>) -> Option<u8>
    decreases interfaces.len(),
{
    if interfaces.len() == 0 {
        None
    } else {
        let earlier = comms_interface(interfaces.drop_last());
        if earlier is None && interfaces.last().class_code == CLASS_COMMS {
            Some(interfaces.last().number)
        } else {
            earlier
        }
    }
}

/// The serial port of a device: there is one where a CDC Data interface has a
/// bulk endpoint to write to.
pub open spec fn serial_port(interfaces: Seq<Interface>) -> Option<SerialPort> {
    let outs = bulk_endpoints(interfaces, Direction::Out);
    if outs.len() > 0 {
        Some(
            SerialPort {
                iface_data: outs[0].0,
                iface_comms: comms_interface(interfaces),
                ep_out: first_address(outs),
                ep_in: first_address(bulk_endpoints(interfaces, Direction::In)),
            },
        )
    } else {
        None
    }
}

/// The number of the interface of the first endpoint.
pub open spec fn first_interface(endpoints: Seq<(u8, u8)>) -> Option<u8> {
    if endpoints.len() > 0 {
        Some(endpoints[0].0)
    } else {
        None
    }
}

/// Picks the serial port out of the interfaces of a device: the first bulk
/// endpoint each way among its CDC Data interfaces, and the first CDC
/// Communications interface.
pub fn select_port(interfaces: &Vec<Interface>) -> (r: Result<SerialPort, String>)
    ensures
        r is Ok <==> serial_port(interfaces@) is Some,
        r matches Ok(port) ==> serial_port(interfaces@) == Some(port),
        r matches Err(e) ==> e@ == "no CDC Data interface with bulk OUT"@,
{
    let mut iface_data: Option<u8> = None;
    let mut iface_comms: Option<u8> = None;
    let mut ep_out: u8 = 0;
    let mut ep_in: u8 = 0;
    let mut i: usize = 0;
    assert(interfaces@.take(0) == Seq::<Interface>::empty());
    while i < interfaces.len()
        invariant
            i <= interfaces@.len(),
            iface_comms == comms_interface(interfaces@.take(i as int)),
            iface_data == first_interface(
                bulk_endpoints(interfaces@.take(i as int), Direction::Out),
            ),
            ep_out == first_address(bulk_endpoints(interfaces@.take(i as int), Direction::Out)),
            ep_in == first_address(bulk_endpoints(interfaces@.take(i as int), Direction::In)),
        decreases interfaces@.len() - i,
    {
        let id: &Interface = &interfaces[i];
        let ghost outs = bulk_endpoints(interfaces@.take(i as int), Direction::Out);
        let ghost ins = bulk_endpoints(interfaces@.take(i as int), Direction::In);
        assert(interfaces@.take(i + 1).drop_last() == interfaces@.take(i as int));
        if id.class_code == CLASS_COMMS {
            if iface_comms.is_none() {
                iface_comms = Some(id.number);
            }
        } else if id.class_code == CLASS_DATA {
            let mut j: usize = 0;
            assert(id.endpoints@.take(0) == Seq::<Endpoint>::empty());
            assert(outs + Seq::<(u8, u8)>::empty() == outs);
            assert(ins + Seq::<(u8, u8)>::empty() == ins);
            while j < id.endpoints.len()
                invariant
                    j <= id.endpoints@.len(),
                    iface_data == first_interface(
                        outs + bulk_of(id.endpoints@.take(j as int), id.number, Direction::Out),
                    ),
                    ep_out == first_address(
                        outs + bulk_of(id.endpoints@.take(j as int), id.number, Direction::Out),
                    ),
                    ep_in == first_address(
                        ins + bulk_of(id.endpoints@.take(j as int), id.number, Direction::In),
                    ),
                decreases id.endpoints@.len() - j,
            {
                let ep: Endpoint = id.endpoints[j];
                let ghost out_now = bulk_of(id.endpoints@.take(j as int), id.number, Direction::Out);
                let ghost in_now = bulk_of(id.endpoints@.take(j as int), id.number, Direction::In);
                assert(id.endpoints@.take(j + 1).drop_last() == id.endpoints@.take(j as int));
                assert((outs + out_now.push((id.number, ep.address))).drop_last() == outs
                    + out_now);
                assert((ins + in_now.push((id.number, ep.address))).drop_last() == ins + in_now);
                if ep.transfer_type == TransferType::Bulk {
                    match ep.direction {
                        Direction::Out => {
                            if ep_out == 0 {
                                ep_out = ep.address;
                                if iface_data.is_none() {
                                    iface_data = Some(id.number);
                                }
                            }
                        },
                        Direction::In => {
                            if ep_in == 0 {
                                ep_in = ep.address;
                            }
                        },
                    }
                }
                j = j + 1;
            }
            assert(id.endpoints@.take(j as int) == id.endpoints@);
        }
        i = i + 1;
    }
    assert(interfaces@.take(i as int) == interfaces@);
    match iface_data {
        Some(iface_data) => Ok(SerialPort { iface_data, iface_comms, ep_out, ep_in }),
        None => Err(String::from_str("no CDC Data interface with bulk OUT")),
    }
}

/// Whether a device with these vendor and product numbers is the controller;
/// one whose numbers could not be read is not.
pub open spec fn is_board(ids: Option<(u16, u16)>) -> bool {
    ids == Some((ESP_VID, ESP_PID))
}

/// The first device that is the controller, given the vendor and product
/// numbers of each as far as they could be read.
pub fn find_board(ids: &Vec<Option<(u16, u16)>>) -> (r: Result<usize, String>)
    ensures
        r matches Ok(i) ==> {
            &&& i < ids@.len()
            &&& is_board(ids@[i as int])
            &&& forall|j: int| 0 <= j < i ==> !is_board(#[trigger] ids@[j])
        },
        r matches Err(e) ==> {
            &&& forall|j: int| 0 <= j < ids@.len() ==> !is_board(#[trigger] ids@[j])
            &&& e@
                == "no ESP JTAG/serial 303a:1001 found — is the port in host mode and the Xiao plugged in?"@
        },
{
    let mut i: usize = 0;
    while i < ids.len()
        invariant
            i <= ids@.len(),
            forall|j: int| 0 <= j < i ==> !is_board(#[trigger] ids@[j]),
        decreases ids@.len() - i,
    {
        match ids[i] {
            Some((vid, pid)) => {
                if vid == ESP_VID && pid == ESP_PID {
                    return Ok(i);
                }
            },
            None => {},
        }
        i = i + 1;
    }
    Err(
        String::from_str(
            "no ESP JTAG/serial 303a:1001 found — is the port in host mode and the Xiao plugged in?",
        ),
    )
}

/// The kinds of USB failure that are told apart.
#[derive(Copy, Clone, Debug, PartialEq, Eq, Structural)]
pub enum UsbErrorKind {
    /// The user may not use the device.
    Access,
    /// The device did not take or give data in time.
    Timeout,
    /// Anything else.
    Other,
}

/// What went wrong in a USB transfer or in claiming an interface.
#[derive(Debug)]
pub struct UsbError {
    pub kind: UsbErrorKind,
    /// What the USB library says of it.
    pub words: String,
}

/// An interface that is claimed.
#[derive(Copy, Clone, Debug, PartialEq, Eq, Structural)]
pub enum Claim {
    /// The interface that carries the control requests.
    Comms(u8),
    /// The interface that carries the data.
    Data(u8),
}

impl Claim {
    /// The number of the interface.
    pub open spec fn iface(self) -> u8 {
        match self {
            Claim::Comms(n) => n,
            Claim::Data(n) => n,
        }
    }

    /// The number of the interface.
    pub fn number(self) -> (r: u8)
        ensures
            r == self.iface(),
    {
        match self {
            Claim::Comms(n) => n,
            Claim::Data(n) => n,
        }
    }

    /// What is said of the interface where it cannot be claimed.
    pub open spec fn text(self) -> Seq<char> {
        match self {
            Claim::Comms(n) => "claim comms("@ + decimal(n as nat) + "): "@,
            Claim::Data(n) => "claim data("@ + decimal(n as nat) + "): "@,
        }
    }
}

/// Why an interface could not be claimed: libusb's name for the lack of access,
/// and otherwise what the USB library says.
pub open spec fn claim_cause(cause: UsbError) -> Seq<char> {
    match cause.kind {
        UsbErrorKind::Access => "LIBUSB_ERROR_ACCESS"@,
        _ => cause.words@,
    }
}

/// The error where the interface could not be claimed because of `cause`.
pub fn claim_error(claim: Claim, cause: &UsbError) -> (r: String)
    ensures
        r@ == claim.text() + claim_cause(*cause),
{
    let mut r: String = match claim {
        Claim::Comms(_) => String::from_str("claim comms("),
        Claim::Data(_) => String::from_str("claim data("),
    };
    r.append(decimal_text(claim.number() as u64).as_str());
    r.append("): ");
    match cause.kind {
        UsbErrorKind::Access => r.append("LIBUSB_ERROR_ACCESS"),
        _ => r.append(cause.words.as_str()),
    }
    r
}

impl SerialPort {
    /// The interfaces to claim, in the order in which they are claimed.
    pub open spec fn claimed(self) -> Seq<Claim> {
        match self.iface_comms {
            Some(c) => seq![Claim::Comms(c), Claim::Data(self.iface_data)],
            None => seq![Claim::Data(self.iface_data)],
        }
    }

    /// The interfaces to claim, in order: the control requests' where there is
    /// one, and then the data's.
    pub fn claim_order(&self) -> (r: Vec<Claim>)
        ensures
            r@ == self.claimed(),
    {
        let mut r: Vec<Claim> = Vec::new();
        match self.iface_comms {
            Some(c) => {
                r.push(Claim::Comms(c));
            },
            None => {},
        }
        r.push(Claim::Data(self.iface_data));
        assert(r@ == self.claimed());
        r
    }

    /// The interfaces to release, in order: the reverse of the order in which
    /// they were claimed.
    pub fn release_order(&self) -> (r: Vec<Claim>)
        ensures
            r@ == self.claimed().reverse(),
    {
        let mut r: Vec<Claim> = Vec::new();
        r.push(Claim::Data(self.iface_data));
        match self.iface_comms {
            Some(c) => {
                r.push(Claim::Comms(c));
            },
            None => {},
        }
        assert(r@ == self.claimed().reverse());
        r
    }

    /// The request that raises DTR and RTS, without which the controller takes
    /// no data: made of the interface for control requests, where there is one.
    pub fn line_state_request(&self) -> (r: Option<ControlRequest>)
        ensures
            r == match self.iface_comms {
                Some(c) => Some(
                    (ControlRequest {
                        request_type: 0x21,
                        request: 0x22,
                        value: 0x0003,
                        index: c as u16,
                    }),
                ),
                None => None,
            },
    {
        match self.iface_comms {
            Some(c) => Some(
                ControlRequest {
                    request_type: 0x21,
                    request: 0x22,
                    value: 0x0003,
                    index: c as u16,
                },
            ),
            None => None,
        }
    }
}

/// Why nothing could be written: a timeout goes by libusb's names, and any other
/// failure by what the USB library says.
pub open spec fn write_cause(cause: UsbError) -> Seq<char> {
    match cause.kind {
        UsbErrorKind::Timeout => "bulk_transfer: LIBUSB_ERROR_TIMEOUT"@,
        _ => "bulk OUT: "@ + cause.words@,
    }
}

/// What became of writing `len` bytes: `outcome` is how many were written, or
/// what went wrong. Anything but all of them is an error.
pub fn write_outcome(outcome: Result<usize, UsbError>, len: usize) -> (r: Result<(), String>)
    ensures
        r is Ok <==> outcome == Ok::<usize, UsbError>(len),
        outcome matches Ok(n) ==> (r matches Err(e) ==> e@ == "short write "@ + decimal(n as nat)
            + seq!['/'] + decimal(len as nat)),
        outcome matches Err(cause) ==> (r matches Err(e) ==> e@ == write_cause(cause)),
{
    match outcome {
        Ok(n) => {
            if n == len {
                Ok(())
            } else {
                proof {
                    reveal_strlit("/");
                }
                let mut e: String = String::from_str("short write ");
                e.append(decimal_text(n as u64).as_str());
                e.append("/");
                e.append(decimal_text(len as u64).as_str());
                assert("/"@ == seq!['/']);
                Err(e)
            }
        },
        Err(cause) => {
            match cause.kind {
                UsbErrorKind::Timeout => Err(
                    String::from_str("bulk_transfer: LIBUSB_ERROR_TIMEOUT"),
                ),
                _ => {
                    let mut e: String = String::from_str("bulk OUT: ");
                    e.append(cause.words.as_str());
                    Err(e)
                },
            }
        },
    }
}

/// Whether a drain goes on after its first `reads` reads, the last of which
/// gave `last` bytes, or none where it failed: as long as bytes come, and no
/// more than sixteen times.
pub fn keep_draining(reads: u32, last: Option<usize>) -> (r: bool)
    ensures
        r <==> reads < DRAIN_READS && (last matches Some(n) && n > 0),
{
    reads < DRAIN_READS && match last {
        Some(n) => n > 0,
        None => false,
    }
}

/// The first address is that of the first endpoint whose address is not 0.
pub proof fn first_address_is_first(endpoints: Seq<(u8, u8)>, k: int)
    requires
        0 <= k < endpoints.len(),
        endpoints[k].1 != 0,
        forall|j: int| 0 <= j < k ==> (#[trigger] endpoints[j]).1 == 0,
    ensures
        first_address(endpoints) == endpoints[k].1,
    decreases endpoints.len(),
{
    let init = endpoints.drop_last();
    if k < init.len() {
        assert forall|j: int| 0 <= j < k implies (#[trigger] init[j]).1 == 0 by {
            assert(init[j] == endpoints[j]);
        }
        first_address_is_first(init, k);
    } else {
        assert forall|j: int| 0 <= j < init.len() implies (#[trigger] init[j]).1 == 0 by {
            assert(init[j] == endpoints[j]);
        }
        lemma_no_address(init);
    }
}

proof fn lemma_no_address(endpoints: Seq<(u8, u8)>)
    requires
        forall|j: int| 0 <= j < endpoints.len() ==> (#[trigger] endpoints[j]).1 == 0,
    ensures
        first_address(endpoints) == 0,
    decreases endpoints.len(),
{
    if endpoints.len() > 0 {
        let init = endpoints.drop_last();
        assert forall|j: int| 0 <= j < init.len() implies (#[trigger] init[j]).1 == 0 by {
            assert(init[j] == endpoints[j]);
        }
        lemma_no_address(init);
    }
}

/// Where the first bulk endpoint to write to has an address, the data interface
/// is the one that it belongs to.
pub proof fn data_interface_has_the_endpoint(interfaces: Seq<Interface>)
    requires
        serial_port(interfaces) is Some,
        bulk_endpoints(interfaces, Direction::Out)[0].1 != 0,
    ensures
        (serial_port(interfaces)->0.iface_data, serial_port(interfaces)->0.ep_out)
            == bulk_endpoints(interfaces, Direction::Out)[0],
{
    first_address_is_first(bulk_endpoints(interfaces, Direction::Out), 0);
}

/// Every bulk endpoint that is counted belongs to a CDC Data interface of the
/// device and carries data the way it is counted for.
pub proof fn bulk_endpoints_are_bulk(interfaces: Seq<Interface>, d: Direction, k: int)
    requires
        0 <= k < bulk_endpoints(interfaces, d).len(),
    ensures
        exists|i: int, j: int|
            0 <= i < interfaces.len() && interfaces[i].class_code == CLASS_DATA
                && interfaces[i].number == bulk_endpoints(interfaces, d)[k].0 && 0 <= j
                < interfaces[i].endpoints@.len() && #[trigger] interfaces[i].endpoints@[j] == (
            Endpoint {
                address: bulk_endpoints(interfaces, d)[k].1,
                direction: d,
                transfer_type: TransferType::Bulk,
            }),
    decreases interfaces.len(),
{
    let init = interfaces.drop_last();
    let earlier = bulk_endpoints(init, d);
    if k < earlier.len() {
        bulk_endpoints_are_bulk(init, d, k);
        let (i, j) = choose|i: int, j: int|
            0 <= i < init.len() && init[i].class_code == CLASS_DATA && init[i].number
                == earlier[k].0 && 0 <= j < init[i].endpoints@.len()
                && #[trigger] init[i].endpoints@[j] == (Endpoint {
                address: earlier[k].1,
                direction: d,
                transfer_type: TransferType::Bulk,
            });
        assert(interfaces[i].endpoints@[j] == init[i].endpoints@[j]);
    } else {
        let i = interfaces.len() - 1;
        let j = lemma_bulk_of(interfaces[i].endpoints@, interfaces[i].number, d, k - earlier.len());
        assert(interfaces[i].endpoints@[j].direction == d);
    }
}

proof fn lemma_bulk_of(endpoints: Seq<Endpoint>, number: u8, d: Direction, k: int) -> (j: int)
    requires
        0 <= k < bulk_of(endpoints, number, d).len(),
    ensures
        0 <= j < endpoints.len(),
        bulk_of(endpoints, number, d)[k].0 == number,
        endpoints[j] == (Endpoint {
            address: bulk_of(endpoints, number, d)[k].1,
            direction: d,
            transfer_type: TransferType::Bulk,
        }),
    decreases endpoints.len(),
{
    if k < bulk_of(endpoints.drop_last(), number, d).len() {
        lemma_bulk_of(endpoints.drop_last(), number, d, k)
    } else {
        endpoints.len() - 1
    }
}

/// Whether the endpoint `j` of an interface is a bulk endpoint of a CDC Data
/// interface that carries data the way `d`.
pub open spec fn carries(i: Interface, j: int, d: Direction) -> bool {
    &&& i.class_code == 0x0A
    &&& 0 <= j < i.endpoints@.len()
    &&& i.endpoints@[j].transfer_type == TransferType::Bulk
    &&& i.endpoints@[j].direction == d
}

proof fn lemma_address_of_both(x: Seq<(u8, u8)>, y: Seq<(u8, u8)>)
    ensures
        first_address(x + y) == if first_address(x) != 0 {
            first_address(x)
        } else {
            first_address(y)
        },
    decreases y.len(),
{
    if y.len() == 0 {
        assert(x + y == x);
    } else {
        lemma_address_of_both(x, y.drop_last());
        assert((x + y).drop_last() == x + y.drop_last());
        assert((x + y).last() == y.last());
    }
}

/// The bulk endpoints of one interface: where none that carries data the way `d`
/// has an address, there is no first one.
proof fn lemma_of_none(eps: Seq<Endpoint>, number: u8, d: Direction)
    requires
        forall|j: int|
            0 <= j < eps.len() && (#[trigger] eps[j]).transfer_type == TransferType::Bulk
                && eps[j].direction == d ==> eps[j].address == 0,
    ensures
        first_address(bulk_of(eps, number, d)) == 0,
    decreases eps.len(),
{
    if eps.len() > 0 {
        let init = eps.drop_last();
        assert forall|j: int|
            0 <= j < init.len() && (#[trigger] init[j]).transfer_type == TransferType::Bulk
                && init[j].direction == d implies init[j].address == 0 by {
            assert(init[j] == eps[j]);
        }
        lemma_of_none(init, number, d);
        assert(eps[eps.len() - 1] == eps.last());
        let b = bulk_of(init, number, d);
        assert(b.push((number, eps.last().address)).drop_last() == b);
    }
}

/// The bulk endpoints of one interface: the first with an address is the first.
proof fn lemma_of_first(eps: Seq<Endpoint>, number: u8, d: Direction, k: int)
    requires
        0 <= k < eps.len(),
        eps[k].transfer_type == TransferType::Bulk,
        eps[k].direction == d,
        eps[k].address != 0,
        forall|j: int|
            0 <= j < k && (#[trigger] eps[j]).transfer_type == TransferType::Bulk
                && eps[j].direction == d ==> eps[j].address == 0,
    ensures
        first_address(bulk_of(eps, number, d)) == eps[k].address,
    decreases eps.len(),
{
    let init = eps.drop_last();
    let b = bulk_of(init, number, d);
    assert(b.push((number, eps.last().address)).drop_last() == b);
    assert forall|j: int|
        0 <= j < k && (#[trigger] init[j]).transfer_type == TransferType::Bulk
            && init[j].direction == d implies init[j].address == 0 by {
        assert(init[j] == eps[j]);
    }
    if k < init.len() {
        lemma_of_first(init, number, d, k);
    } else {
        lemma_of_none(init, number, d);
    }
}

/// The bulk endpoints of one interface all bear its number, and there are some
/// exactly where one of its endpoints is one.
proof fn lemma_of_number(eps: Seq<Endpoint>, number: u8, d: Direction)
    ensures
        bulk_of(eps, number, d).len() > 0 ==> bulk_of(eps, number, d)[0].0 == number,
        bulk_of(eps, number, d).len() > 0 <==> exists|j: int|
            0 <= j < eps.len() && (#[trigger] eps[j]).transfer_type == TransferType::Bulk
                && eps[j].direction == d,
    decreases eps.len(),
{
    if eps.len() > 0 {
        let init = eps.drop_last();
        lemma_of_number(init, number, d);
        assert(eps[eps.len() - 1] == eps.last());
        assert(forall|j: int| 0 <= j < init.len() ==> #[trigger] init[j] == eps[j]);
        assert(forall|j: int| 0 <= j < init.len() ==> init[j] == #[trigger] eps[j]);
    }
}

/// Where no endpoint that carries data the way `d` has an address, the port has
/// none that way.
pub proof fn port_without_address(interfaces: Seq<Interface>, d: Direction)
    requires
        forall|i: int, j: int|
            0 <= i < interfaces.len() && #[trigger] carries(interfaces[i], j, d)
                ==> interfaces[i].endpoints@[j].address == 0,
    ensures
        first_address(bulk_endpoints(interfaces, d)) == 0,
        serial_port(interfaces) matches Some(port) ==> (match d {
            Direction::Out => port.ep_out,
            Direction::In => port.ep_in,
        }) == 0,
    decreases interfaces.len(),
{
    if interfaces.len() > 0 {
        let init = interfaces.drop_last();
        let last = interfaces.last();
        assert forall|i: int, j: int|
            0 <= i < init.len() && #[trigger] carries(
                init[i],
                j,
                d,
            ) implies init[i].endpoints@[j].address == 0 by {
            assert(init[i] == interfaces[i]);
            assert(carries(interfaces[i], j, d));
        }
        port_without_address(init, d);
        if last.class_code == CLASS_DATA {
            let eps = last.endpoints@;
            assert forall|j: int|
                0 <= j < eps.len() && (#[trigger] eps[j]).transfer_type == TransferType::Bulk
                    && eps[j].direction == d implies eps[j].address == 0 by {
                assert(carries(interfaces[interfaces.len() - 1], j, d));
            }
            lemma_of_none(eps, last.number, d);
            lemma_address_of_both(bulk_endpoints(init, d), bulk_of(eps, last.number, d));
        }
    }
}

/// The port takes, each way, the first bulk endpoint of a CDC Data interface
/// that has an address, in the order in which the device lists its interfaces
/// and their endpoints.
pub proof fn port_takes_first_endpoint(interfaces: Seq<Interface>, d: Direction, i: int, j: int)
    requires
        0 <= i < interfaces.len(),
        carries(interfaces[i], j, d),
        interfaces[i].endpoints@[j].address != 0,
        forall|x: int, y: int|
            0 <= x <= i && (x < i || y < j) && #[trigger] carries(interfaces[x], y, d)
                ==> interfaces[x].endpoints@[y].address == 0,
    ensures
        first_address(bulk_endpoints(interfaces, d)) == interfaces[i].endpoints@[j].address,
        serial_port(interfaces) matches Some(port) ==> (match d {
            Direction::Out => port.ep_out,
            Direction::In => port.ep_in,
        }) == interfaces[i].endpoints@[j].address,
    decreases interfaces.len(),
{
    let init = interfaces.drop_last();
    let last = interfaces.last();
    let eps = last.endpoints@;
    lemma_address_of_both(bulk_endpoints(init, d), bulk_of(eps, last.number, d));
    assert forall|x: int, y: int|
        0 <= x < init.len() && x <= i && (x < i || y < j) && #[trigger] carries(
            init[x],
            y,
            d,
        ) implies init[x].endpoints@[y].address == 0 by {
        assert(init[x] == interfaces[x]);
        assert(carries(interfaces[x], y, d));
    }
    if i < init.len() {
        assert(init[i] == interfaces[i]);
        port_takes_first_endpoint(init, d, i, j);
    } else {
        port_without_address(init, d);
        assert forall|y: int|
            0 <= y < j && (#[trigger] eps[y]).transfer_type == TransferType::Bulk
                && eps[y].direction == d implies eps[y].address == 0 by {
            assert(carries(interfaces[i], y, d));
        }
        lemma_of_first(eps, last.number, d, j);
    }
}

/// There is a port exactly where a CDC Data interface has a bulk endpoint to
/// write to.
pub proof fn port_needs_endpoint_to_write_to(interfaces: Seq<Interface>, d: Direction)
    ensures
        bulk_endpoints(interfaces, d).len() > 0 <==> exists|i: int, j: int|
            0 <= i < interfaces.len() && #[trigger] carries(interfaces[i], j, d),
        serial_port(interfaces) is Some <==> exists|i: int, j: int|
            0 <= i < interfaces.len() && #[trigger] carries(interfaces[i], j, Direction::Out),
{
    lemma_any(interfaces, d);
    lemma_any(interfaces, Direction::Out);
}

proof fn lemma_any(interfaces: Seq<Interface>, d: Direction)
    ensures
        bulk_endpoints(interfaces, d).len() > 0 <==> exists|i: int, j: int|
            0 <= i < interfaces.len() && #[trigger] carries(interfaces[i], j, d),
    decreases interfaces.len(),
{
    if interfaces.len() > 0 {
        let init = interfaces.drop_last();
        let last = interfaces.last();
        let eps = last.endpoints@;
        lemma_any(init, d);
        lemma_of_number(eps, last.number, d);
        if bulk_endpoints(init, d).len() > 0 {
            let (i, j) = choose|i: int, j: int|
                0 <= i < init.len() && #[trigger] carries(init[i], j, d);
            assert(carries(interfaces[i], j, d));
        }
        if last.class_code == CLASS_DATA && bulk_of(eps, last.number, d).len() > 0 {
            let j = choose|j: int|
                0 <= j < eps.len() && (#[trigger] eps[j]).transfer_type == TransferType::Bulk
                    && eps[j].direction == d;
            assert(carries(interfaces[interfaces.len() - 1], j, d));
        }
        if exists|i: int, j: int|
            0 <= i < interfaces.len() && #[trigger] carries(interfaces[i], j, d) {
            let (i, j) = choose|i: int, j: int|
                0 <= i < interfaces.len() && #[trigger] carries(interfaces[i], j, d);
            if i < init.len() {
                assert(carries(init[i], j, d));
            } else {
                assert(eps[j].transfer_type == TransferType::Bulk);
            }
        }
    }
}

/// The data interface is the first CDC Data interface that has a bulk endpoint
/// to write to.
pub proof fn data_interface_is_first(interfaces: Seq<Interface>, i: int, j: int)
    requires
        0 <= i < interfaces.len(),
        carries(interfaces[i], j, Direction::Out),
        forall|x: int, y: int|
            0 <= x < i ==> !#[trigger] carries(interfaces[x], y, Direction::Out),
    ensures
        bulk_endpoints(interfaces, Direction::Out).len() > 0,
        bulk_endpoints(interfaces, Direction::Out)[0].0 == interfaces[i].number,
        serial_port(interfaces) matches Some(port) && port.iface_data == interfaces[i].number,
    decreases interfaces.len(),
{
    let d = Direction::Out;
    let init = interfaces.drop_last();
    let last = interfaces.last();
    if i < init.len() {
        assert(init[i] == interfaces[i]);
        assert forall|x: int, y: int| 0 <= x < i implies !#[trigger] carries(init[x], y, d) by {
            assert(!carries(interfaces[x], y, d));
        }
        data_interface_is_first(init, i, j);
    } else {
        lemma_any(init, d);
        assert forall|x: int, y: int|
            0 <= x < init.len() implies !#[trigger] carries(init[x], y, d) by {
            assert(!carries(interfaces[x], y, d));
        }
        assert(bulk_endpoints(init, d).len() == 0);
        let eps = last.endpoints@;
        lemma_of_number(eps, last.number, d);
        assert(eps[j].transfer_type == TransferType::Bulk);
        assert(bulk_endpoints(init, d) + bulk_of(eps, last.number, d) == bulk_of(
            eps,
            last.number,
            d,
        ));
    }
}

/// The interface for control requests is the first of its class, and there is
/// none exactly where the device has none.
pub proof fn comms_interface_is_first(interfaces: Seq<Interface>, i: int)
    ensures
        0 <= i < interfaces.len() && interfaces[i].class_code == 0x02 && (forall|x: int|
            0 <= x < i ==> (#[trigger] interfaces[x]).class_code != 0x02) ==> comms_interface(
            interfaces,
        ) == Some(interfaces[i].number),
        (forall|x: int| 0 <= x < interfaces.len() ==> (#[trigger] interfaces[x]).class_code != 0x02)
            ==> comms_interface(interfaces) is None,
        serial_port(interfaces) matches Some(port) ==> port.iface_comms == comms_interface(
            interfaces,
        ),
    decreases interfaces.len(),
{
    if interfaces.len() > 0 {
        let init = interfaces.drop_last();
        comms_interface_is_first(init, i);
        assert(forall|x: int| 0 <= x < init.len() ==> #[trigger] init[x] == interfaces[x]);
        assert(forall|x: int| 0 <= x < init.len() ==> init[x] == #[trigger] interfaces[x]);
        assert(interfaces[interfaces.len() - 1] == interfaces.last());
    }
}

/// The controller is known by its vendor and product numbers, and by both.
pub proof fn board_by_numbers(vid: u16, pid: u16)
    ensures
        is_board(Some((vid, pid))) <==> vid == 0x303a && pid == 0x1001,
        !is_board(None),
{
}

/// The interface for control requests is claimed where there is one, and before
/// that for the data, which always is; what is said of a failed claim gives the
/// interface's number.
pub proof fn claims_in_order(port: SerialPort, n: u8)
    ensures
        port.claimed().last() == Claim::Data(port.iface_data),
        port.iface_comms matches Some(c) ==> port.claimed().len() == 2 && port.claimed()[0]
            == Claim::Comms(c),
        port.iface_comms is None ==> port.claimed().len() == 1,
        Claim::Comms(n).iface() == n,
        Claim::Data(n).iface() == n,
        Claim::Comms(n).text() == "claim comms("@ + decimal(n as nat) + "): "@,
        Claim::Data(n).text() == "claim data("@ + decimal(n as nat) + "): "@,
{
}

/// A failed claim and a failed write go by libusb's names where access is denied
/// and where time runs out, and otherwise by the USB library's words.
pub proof fn failures_by_kind(cause: UsbError)
    ensures
        cause.kind == UsbErrorKind::Access ==> claim_cause(cause) == "LIBUSB_ERROR_ACCESS"@,
        cause.kind != UsbErrorKind::Access ==> claim_cause(cause) == cause.words@,
        cause.kind == UsbErrorKind::Timeout ==> write_cause(cause)
            == "bulk_transfer: LIBUSB_ERROR_TIMEOUT"@,
        cause.kind != UsbErrorKind::Timeout ==> write_cause(cause) == "bulk OUT: "@ + cause.words@,
{
}

} // verus!
