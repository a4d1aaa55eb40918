//! Finding the camera's PTP interface among a USB device's descriptors.

use vstd::prelude::*;

use crate::error::Error;

verus! {

/// USB vendor id of Fujifilm.
pub const FUJI_VENDOR_ID: u16 = 0x04CB;

/// USB interface class of PTP (still image capture).
pub const PTP_INTERFACE_CLASS: u8 = 6;

/// What an endpoint descriptor says that matters here.
#[derive(Debug, Clone, Copy, PartialEq, Eq)]
pub struct EndpointInfo {
    pub address: u8,
    /// The endpoint sends to the host.
    pub direction_in: bool,
    /// The endpoint does bulk transfers.
    pub bulk: bool,
}

/// What an interface descriptor (one alternate setting) says that matters
/// here.
#[derive(Debug, Clone)]
pub struct InterfaceInfo {
    pub number: u8,
    pub class_code: u8,
    pub endpoints: Vec<EndpointInfo>,
}

/// The PTP interface of a device and its bulk endpoints.
#[derive(Debug, Clone, Copy, PartialEq, Eq)]
pub struct PtpEndpoints {
    pub interface: u8,
    pub ep_in: u8,
    pub ep_out: u8,
}

/// The number of the last PTP interface descriptor.
pub open spec fn last_ptp_interface(ds: Seq<InterfaceInfo>) -> Option<u8>
    decreases ds.len(),
{
    if ds.len() == 0 {
        None
    } else if ds.last().class_code == PTP_INTERFACE_CLASS {
        Some(ds.last().number)
    } else {
        last_ptp_interface(ds.drop_last())
    }
}

/// The address of the last bulk endpoint in the given direction.
pub open spec fn last_bulk(eps: Seq<EndpointInfo>, direction_in: bool) -> Option<u8>
    decreases eps.len(),
{
    if eps.len() == 0 {
        None
    } else if eps.last().bulk && eps.last().direction_in == direction_in {
        Some(eps.last().address)
    } else {
        last_bulk(eps.drop_last(), direction_in)
    }
}

/// The address of the last bulk endpoint in the given direction among all
/// PTP interface descriptors.
pub open spec fn last_ptp_bulk(ds: Seq<InterfaceInfo>, direction_in: bool) -> Option<u8>
    decreases ds.len(),
{
    if ds.len() == 0 {
        None
    } else if ds.last().class_code == PTP_INTERFACE_CLASS && last_bulk(
        ds.last().endpoints@,
        direction_in,
    ) is Some {
        last_bulk(ds.last().endpoints@, direction_in)
    } else {
        last_ptp_bulk(ds.drop_last(), direction_in)
    }
}

/// The last bulk endpoint of `eps` in the given direction, or `prev`.
fn scan_endpoints(eps: &Vec<EndpointInfo>, direction_in: bool, prev: Option<u8>) -> (res: Option<
    u8,
>)
    ensures
        res == (match last_bulk(eps@, direction_in) {
            Some(a) => Some(a),
            None => prev,
        }),
{
    let mut found = prev;
    let mut j: usize = 0;
    while j < eps.len()
        invariant
            0 <= j <= eps@.len(),
            found == (match last_bulk(eps@.take(j as int), direction_in) {
                Some(a) => Some(a),
                None => prev,
            }),
        decreases eps@.len() - j,
    {
        let ep = eps[j];
        if ep.bulk && ep.direction_in == direction_in {
            found = Some(ep.address);
        }
        j = j + 1;
        assert(eps@.take(j as int).drop_last() == eps@.take(j - 1));
    }
    assert(eps@.take(eps@.len() as int) == eps@);
    found
}

/// Find the PTP interface and its bulk-in and bulk-out endpoints among the
/// interface descriptors of a device's active configuration, in order; where
/// there are several, the last one counts.
pub fn find_ptp_endpoints(descriptors: &Vec<InterfaceInfo>) -> (res: Result<PtpEndpoints, Error>)
    ensures
        match (
            last_ptp_interface(descriptors@),
            last_ptp_bulk(descriptors@, true),
            last_ptp_bulk(descriptors@, false),
        ) {
            (None, _, _) => res == Err::<PtpEndpoints, Error>(Error::NoPtpInterface),
            (Some(_), None, _) => res == Err::<PtpEndpoints, Error>(Error::NoBulkIn),
            (Some(_), Some(_), None) => res == Err::<PtpEndpoints, Error>(Error::NoBulkOut),
            (Some(i), Some(a), Some(b)) => res == Ok::<PtpEndpoints, Error>(
                PtpEndpoints { interface: i, ep_in: a, ep_out: b },
            ),
        },
{
    let mut iface_num: Option<u8> = None;
    let mut ep_in: Option<u8> = None;
    let mut ep_out: Option<u8> = None;
    let mut i: usize = 0;
    while i < descriptors.len()
        invariant
            0 <= i <= descriptors@.len(),
            iface_num == last_ptp_interface(descriptors@.take(i as int)),
            ep_in == last_ptp_bulk(descriptors@.take(i as int), true),
            ep_out == last_ptp_bulk(descriptors@.take(i as int), false),
        decreases descriptors@.len() - i,
    {
        let desc = &descriptors[i];
        if desc.class_code == PTP_INTERFACE_CLASS {
            iface_num = Some(desc.number);
            ep_in = scan_endpoints(&desc.endpoints, true, ep_in);
            ep_out = scan_endpoints(&desc.endpoints, false, ep_out);
        }
        i = i + 1;
        assert(descriptors@.take(i as int).drop_last() == descriptors@.take(i - 1));
    }
    assert(descriptors@.take(descriptors@.len() as int) == descriptors@);
    let iface = match iface_num {
        Some(n) => n,
        None => return Err(Error::NoPtpInterface),
    };
    let ep_in = match ep_in {
        Some(a) => a,
        None => return Err(Error::NoBulkIn),
    };
    let ep_out = match ep_out {
        Some(a) => a,
        None => return Err(Error::NoBulkOut),
    };
    Ok(PtpEndpoints { interface: iface, ep_in, ep_out })
}

} // verus!
