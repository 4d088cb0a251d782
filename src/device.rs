use vstd::prelude::*;

verus! {

/// Vendor id reported by the device descriptor of a KNX USB interface.
pub const KNX_VENDOR_ID: u16 = 0x135e;

/// Every way in which locating, resolving or running a session can fail.
#[derive(Clone, Copy, Debug, PartialEq, Eq, Structural)]
pub enum KnxError {
    /// The descriptor of an enumerated device could not be read.
    DescriptorUnavailable,
    DeviceNotFound,
    NoActiveConfiguration,
    NoInterface,
    NoInterfaceDescriptor,
    AmbiguousInputEndpoint,
    AmbiguousOutputEndpoint,
    MissingInputEndpoint,
    MissingOutputEndpoint,
    DeviceOpenFailed,
    DriverDetachFailed,
    InterfaceClaimFailed,
    ReadTimeout,
    ReadFailed,
    /// An event arrived that the session's current state does not expect.
    UnexpectedEvent,
}

/// USB transfer type of an endpoint.
#[derive(Clone, Copy, Debug, PartialEq, Eq, Structural)]
pub enum TransferType {
    Control,
    Isochronous,
    Bulk,
    Interrupt,
}

/// Direction of an endpoint, seen from the host.
#[derive(Clone, Copy, Debug, PartialEq, Eq, Structural)]
pub enum Direction {
    In,
    Out,
}

/// One endpoint descriptor of an interface descriptor set.
#[derive(Clone, Copy, Debug, PartialEq, Eq, Structural)]
pub struct Endpoint {
    pub address: u8,
    pub transfer_type: TransferType,
    pub direction: Direction,
}

/// True when the entry is a readable descriptor of some other vendor.
pub open spec fn is_other_vendor(e: Option<u16>) -> bool {
    e is Some && e != Some(KNX_VENDOR_ID)
}

/// Every entry before `i` is a readable descriptor of another vendor.
pub open spec fn passed_before(s: Seq<Option<u16>>, i: int) -> bool {
    forall|j: int| 0 <= j < i ==> #[trigger] is_other_vendor(s[j])
}

/// What the Locator returns for a list of vendor ids in enumeration order,
/// where `None` stands for a descriptor that could not be read: the index of
/// the first device with the KNX vendor id, unless an unreadable descriptor
/// comes first; `DeviceNotFound` when neither occurs.
pub open spec fn locate_post(s: Seq<Option<u16>>, r: Result<usize, KnxError>) -> bool {
    match r {
        Ok(i) => i < s.len() && s[i as int] == Some(KNX_VENDOR_ID) && passed_before(s, i as int),
        Err(KnxError::DescriptorUnavailable) => exists|i: int|
            0 <= i < s.len() && s[i] is None && passed_before(s, i),
        Err(KnxError::DeviceNotFound) => passed_before(s, s.len() as int),
        Err(_) => false,
    }
}

/// Two results that both meet the Locator's contract on the same list are
/// equal: locating against an unchanged device list always gives the same
/// answer.
pub proof fn lemma_locate_deterministic(
    s: Seq<Option<u16>>,
    r1: Result<usize, KnxError>,
    r2: Result<usize, KnxError>,
)
    requires
        locate_post(s, r1),
        locate_post(s, r2),
    ensures
        r1 == r2,
{
    lemma_locate_one_way(s, r1, r2);
    lemma_locate_one_way(s, r2, r1);
}

proof fn lemma_locate_one_way(s: Seq<Option<u16>>, r1: Result<usize, KnxError>, r2: Result<usize, KnxError>)
    requires
        locate_post(s, r1),
        locate_post(s, r2),
    ensures
        r1 is Ok ==> r1 == r2,
        r1 == Err::<usize, KnxError>(KnxError::DescriptorUnavailable) ==> r1 == r2,
{
    match r1 {
        Ok(i) => {
            assert(!is_other_vendor(s[i as int]));
            match r2 {
                Ok(j) => {
                    assert(!is_other_vendor(s[j as int]));
                },
                Err(KnxError::DescriptorUnavailable) => {
                    let k = choose|k: int| 0 <= k < s.len() && s[k] is None && passed_before(s, k);
                    assert(!is_other_vendor(s[k]));
                },
                _ => {},
            }
        },
        Err(KnxError::DescriptorUnavailable) => {
            let k = choose|k: int| 0 <= k < s.len() && s[k] is None && passed_before(s, k);
            assert(!is_other_vendor(s[k]));
            if let Ok(j) = r2 {
                assert(!is_other_vendor(s[j as int]));
            }
        },
        _ => {},
    }
}

/// Finds the first device, in enumeration order, whose vendor id is
/// `KNX_VENDOR_ID`. `vendor_ids[k]` is the vendor id read from the k-th
/// device's descriptor, or `None` where that read failed; a failed read seen
/// before any match fails the whole search.
pub fn find_device(vendor_ids: &Vec<Option<u16>>) -> (r: Result<usize, KnxError>)
    ensures
        locate_post(vendor_ids@, r),
        (forall|j: int| 0 <= j < vendor_ids@.len() ==> #[trigger] is_other_vendor(vendor_ids@[j]))
            ==> r == Err::<usize, KnxError>(KnxError::DeviceNotFound),
        forall|i: int|
            0 <= i < vendor_ids@.len() && vendor_ids@[i] == Some(KNX_VENDOR_ID) && passed_before(
                vendor_ids@,
                i,
            ) ==> r == Ok::<usize, KnxError>(i as usize),
{
    let mut r: Result<usize, KnxError> = Err(KnxError::DeviceNotFound);
    let mut k: usize = 0;
    while k < vendor_ids.len()
        invariant_except_break
            r == Err::<usize, KnxError>(KnxError::DeviceNotFound),
        invariant
            k <= vendor_ids@.len(),
            passed_before(vendor_ids@, k as int),
        ensures
            k <= vendor_ids@.len(),
            passed_before(vendor_ids@, k as int),
            r is Ok ==> r == Ok::<usize, KnxError>(k) && k < vendor_ids@.len() && vendor_ids@[k as int]
                == Some(KNX_VENDOR_ID),
            r == Err::<usize, KnxError>(KnxError::DescriptorUnavailable) ==> k < vendor_ids@.len()
                && vendor_ids@[k as int] is None,
            r == Err::<usize, KnxError>(KnxError::DeviceNotFound) ==> k == vendor_ids@.len(),
            r is Ok || r == Err::<usize, KnxError>(KnxError::DescriptorUnavailable) || r == Err::<
                usize,
                KnxError,
            >(KnxError::DeviceNotFound),
        decreases vendor_ids@.len() - k,
    {
        match vendor_ids[k] {
            None => {
                r = Err(KnxError::DescriptorUnavailable);
                break;
            },
            Some(v) => {
                if v == KNX_VENDOR_ID {
                    r = Ok(k);
                    break;
                }
            },
        }
        k = k + 1;
    }
    let n = vendor_ids.len();
    proof {
        let s = vendor_ids@;
        assert(locate_post(s, r));
        if forall|j: int| 0 <= j < s.len() ==> #[trigger] is_other_vendor(s[j]) {
            assert(locate_post(s, Err(KnxError::DeviceNotFound)));
            lemma_locate_deterministic(s, r, Err(KnxError::DeviceNotFound));
        }
        assert forall|i: int|
            0 <= i < s.len() && s[i] == Some(KNX_VENDOR_ID) && passed_before(s, i) implies r
                == Ok::<usize, KnxError>(i as usize) by {
            assert(locate_post(s, Ok(i as usize)));
            lemma_locate_deterministic(s, r, Ok(i as usize));
        }
    }
    r
}

} // verus!
