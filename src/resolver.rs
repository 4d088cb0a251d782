use vstd::prelude::*;
use crate::device::{Direction, Endpoint, KnxError, TransferType};

verus! {

/// One interface of a configuration: its number and its alternate
/// descriptor sets, each given by its list of endpoints.
pub struct Interface {
    pub number: u8,
    pub descriptor_sets: Vec<Vec<Endpoint>>,
}

/// A configuration descriptor: its interfaces, in the order declared.
pub struct Configuration {
    pub interfaces: Vec<Interface>,
}

/// What the Resolver produces: the device (by its index in the enumerated
/// list), the interface to claim, and the interrupt endpoints to use.
#[derive(Clone, Copy, Debug, PartialEq, Eq, Structural)]
pub struct SessionDescriptor {
    pub device: usize,
    pub interface_number: u8,
    pub input_endpoint_address: u8,
    pub output_endpoint_address: u8,
}

/// Reports `Ok` when `o` holds nothing, and `Err(err)` otherwise.
pub fn none_or<T, E>(o: &Option<T>, err: E) -> (r: Result<(), E>)
    ensures
        o is None ==> r is Ok,
        o is Some ==> r == Err::<(), E>(err),
{
    match o {
        None => Ok(()),
        Some(_) => Err(err),
    }
}

/// The endpoint is an interrupt endpoint of direction `d`.
pub open spec fn is_interrupt(e: Endpoint, d: Direction) -> bool {
    e.transfer_type == TransferType::Interrupt && e.direction == d
}

/// Number of interrupt endpoints of direction `d` in `s`.
pub open spec fn interrupt_count(s: Seq<Endpoint>, d: Direction) -> nat
    decreases s.len(),
{
    if s.len() == 0 {
        0
    } else {
        interrupt_count(s.drop_last(), d) + if is_interrupt(s.last(), d) {
            1nat
        } else {
            0nat
        }
    }
}

/// The scan of an endpoint list, endpoint by endpoint: the interrupt IN and
/// OUT addresses seen so far, or the ambiguity met first (a second interrupt
/// endpoint in a direction already taken). Other transfer types are skipped.
pub open spec fn scan(s: Seq<Endpoint>) -> Result<(Option<u8>, Option<u8>), KnxError>
    decreases s.len(),
{
    if s.len() == 0 {
        Ok((None, None))
    } else {
        let e = s.last();
        match scan(s.drop_last()) {
            Err(err) => Err(err),
            Ok((i, o)) => if is_interrupt(e, Direction::In) {
                if i is Some {
                    Err(KnxError::AmbiguousInputEndpoint)
                } else {
                    Ok((Some(e.address), o))
                }
            } else if is_interrupt(e, Direction::Out) {
                if o is Some {
                    Err(KnxError::AmbiguousOutputEndpoint)
                } else {
                    Ok((i, Some(e.address)))
                }
            } else {
                Ok((i, o))
            },
        }
    }
}

/// The input and output endpoint addresses of a descriptor set, or why
/// there is no single pair.
pub open spec fn endpoints_spec(s: Seq<Endpoint>) -> Result<(u8, u8), KnxError> {
    match scan(s) {
        Err(err) => Err(err),
        Ok((None, _)) => Err(KnxError::MissingInputEndpoint),
        Ok((Some(_), None)) => Err(KnxError::MissingOutputEndpoint),
        Ok((Some(i), Some(o))) => Ok((i, o)),
    }
}

/// Picks the one interrupt IN and the one interrupt OUT endpoint of a
/// descriptor set, ignoring endpoints of other transfer types.
pub fn resolve_endpoints(endpoints: &Vec<Endpoint>) -> (r: Result<(u8, u8), KnxError>)
    ensures
        r == endpoints_spec(endpoints@),
{
    let mut input: Option<u8> = None;
    let mut output: Option<u8> = None;
    let mut k: usize = 0;
    while k < endpoints.len()
        invariant
            k <= endpoints@.len(),
            scan(endpoints@.take(k as int)) == Ok::<(Option<u8>, Option<u8>), KnxError>(
                (input, output),
            ),
        decreases endpoints@.len() - k,
    {
        let ep = endpoints[k];
        proof {
            assert(endpoints@.take(k + 1).drop_last() =~= endpoints@.take(k as int));
        }
        if ep.transfer_type == TransferType::Interrupt {
            match ep.direction {
                Direction::In => {
                    let prev = input;
                    input = Some(ep.address);
                    let c = none_or(&prev, KnxError::AmbiguousInputEndpoint);
                    if let Err(e) = c {
                        proof {
                            scan_prefix_err(endpoints@, k as int + 1, e);
                        }
                        return Err(e);
                    }
                },
                Direction::Out => {
                    let prev = output;
                    output = Some(ep.address);
                    let c = none_or(&prev, KnxError::AmbiguousOutputEndpoint);
                    if let Err(e) = c {
                        proof {
                            scan_prefix_err(endpoints@, k as int + 1, e);
                        }
                        return Err(e);
                    }
                },
            }
        }
        k = k + 1;
    }
    proof {
        assert(endpoints@.take(k as int) =~= endpoints@);
    }
    match (input, output) {
        (None, _) => Err(KnxError::MissingInputEndpoint),
        (Some(_), None) => Err(KnxError::MissingOutputEndpoint),
        (Some(i), Some(o)) => Ok((i, o)),
    }
}

/// Once the scan of a prefix fails, the scan of the whole list fails the
/// same way.
proof fn scan_prefix_err(s: Seq<Endpoint>, n: int, e: KnxError)
    requires
        0 <= n <= s.len(),
        scan(s.take(n)) == Err::<(Option<u8>, Option<u8>), KnxError>(e),
    ensures
        scan(s) == Err::<(Option<u8>, Option<u8>), KnxError>(e),
    decreases s.len() - n,
{
    if n < s.len() {
        assert(s.take(n + 1).drop_last() =~= s.take(n));
        scan_prefix_err(s, n + 1, e);
    } else {
        assert(s.take(n) =~= s);
    }
}

/// What the Resolver yields for the device at index `device` given its
/// active configuration (`None` where it could not be had): the first
/// interface, its first descriptor set, and that set's endpoint pair.
pub open spec fn resolve_spec(device: usize, config: Option<Configuration>) -> Result<
    SessionDescriptor,
    KnxError,
> {
    match config {
        None => Err(KnxError::NoActiveConfiguration),
        Some(c) => if c.interfaces@.len() == 0 {
            Err(KnxError::NoInterface)
        } else if c.interfaces@[0].descriptor_sets@.len() == 0 {
            Err(KnxError::NoInterfaceDescriptor)
        } else {
            match endpoints_spec(c.interfaces@[0].descriptor_sets@[0]@) {
                Err(err) => Err(err),
                Ok((i, o)) => Ok(
                    SessionDescriptor {
                        device,
                        interface_number: c.interfaces@[0].number,
                        input_endpoint_address: i,
                        output_endpoint_address: o,
                    },
                ),
            }
        },
    }
}

/// Resolves the session of the device at index `device` from its active
/// configuration descriptor.
pub fn resolve(device: usize, config: &Option<Configuration>) -> (r: Result<SessionDescriptor, KnxError>)
    ensures
        r == resolve_spec(device, *config),
{
    let c = match config {
        None => {
            return Err(KnxError::NoActiveConfiguration);
        },
        Some(c) => c,
    };
    if c.interfaces.len() == 0 {
        return Err(KnxError::NoInterface);
    }
    let iface = &c.interfaces[0];
    if iface.descriptor_sets.len() == 0 {
        return Err(KnxError::NoInterfaceDescriptor);
    }
    match resolve_endpoints(&iface.descriptor_sets[0]) {
        Err(e) => Err(e),
        Ok((input, output)) => Ok(
            SessionDescriptor {
                device,
                interface_number: iface.number,
                input_endpoint_address: input,
                output_endpoint_address: output,
            },
        ),
    }
}

/// Some interrupt endpoint of direction `d` in `s` has address `a`.
pub open spec fn has_address(s: Seq<Endpoint>, d: Direction, a: u8) -> bool {
    exists|k: int| 0 <= k < s.len() && #[trigger] is_interrupt(s[k], d) && s[k].address == a
}

/// With at most one interrupt endpoint per direction the scan succeeds, and
/// it reports exactly the endpoints that are there.
proof fn lemma_scan_unambiguous(s: Seq<Endpoint>)
    requires
        interrupt_count(s, Direction::In) <= 1,
        interrupt_count(s, Direction::Out) <= 1,
    ensures
        scan(s) is Ok,
        (scan(s)->Ok_0.0 is None) == (interrupt_count(s, Direction::In) == 0),
        (scan(s)->Ok_0.1 is None) == (interrupt_count(s, Direction::Out) == 0),
        scan(s)->Ok_0.0 is Some ==> has_address(s, Direction::In, scan(s)->Ok_0.0->Some_0),
        scan(s)->Ok_0.1 is Some ==> has_address(s, Direction::Out, scan(s)->Ok_0.1->Some_0),
    decreases s.len(),
{
    if s.len() > 0 {
        let t = s.drop_last();
        lemma_scan_unambiguous(t);
        let (i, o) = scan(t)->Ok_0;
        if let Some(a) = i {
            let k = choose|k: int| 0 <= k < t.len() && #[trigger] is_interrupt(t[k], Direction::In) && t[k].address == a;
            assert(is_interrupt(s[k], Direction::In));
        }
        if let Some(a) = o {
            let k = choose|k: int| 0 <= k < t.len() && #[trigger] is_interrupt(t[k], Direction::Out) && t[k].address == a;
            assert(is_interrupt(s[k], Direction::Out));
        }
        assert(is_interrupt(s[s.len() - 1], Direction::In) ==> has_address(s, Direction::In, s.last().address));
        assert(is_interrupt(s[s.len() - 1], Direction::Out) ==> has_address(s, Direction::Out, s.last().address));
    }
}

/// With two or more interrupt endpoints of direction `d` and at most one
/// of the other direction, the scan fails on the ambiguity of `d`.
proof fn lemma_scan_ambiguous(s: Seq<Endpoint>, d: Direction, other: Direction)
    requires
        d != other,
        interrupt_count(s, d) >= 2,
        interrupt_count(s, other) <= 1,
    ensures
        scan(s) == Err::<(Option<u8>, Option<u8>), KnxError>(
            if d == Direction::In {
                KnxError::AmbiguousInputEndpoint
            } else {
                KnxError::AmbiguousOutputEndpoint
            },
        ),
    decreases s.len(),
{
    let t = s.drop_last();
    if interrupt_count(t, d) >= 2 {
        lemma_scan_ambiguous(t, d, other);
    } else {
        lemma_scan_unambiguous(t);
    }
}

/// A descriptor set with exactly one interrupt IN and one interrupt OUT
/// endpoint, whatever other endpoints it lists, resolves to the addresses of
/// those two endpoints and to the number of the interface it belongs to.
pub proof fn law_single_pair_resolves(device: usize, c: Configuration)
    requires
        c.interfaces@.len() >= 1,
        c.interfaces@[0].descriptor_sets@.len() >= 1,
        interrupt_count(c.interfaces@[0].descriptor_sets@[0]@, Direction::In) == 1,
        interrupt_count(c.interfaces@[0].descriptor_sets@[0]@, Direction::Out) == 1,
    ensures
        resolve_spec(device, Some(c)) is Ok,
        resolve_spec(device, Some(c))->Ok_0.device == device,
        resolve_spec(device, Some(c))->Ok_0.interface_number == c.interfaces@[0].number,
        has_address(
            c.interfaces@[0].descriptor_sets@[0]@,
            Direction::In,
            resolve_spec(device, Some(c))->Ok_0.input_endpoint_address,
        ),
        has_address(
            c.interfaces@[0].descriptor_sets@[0]@,
            Direction::Out,
            resolve_spec(device, Some(c))->Ok_0.output_endpoint_address,
        ),
{
    lemma_scan_unambiguous(c.interfaces@[0].descriptor_sets@[0]@);
}

/// A descriptor set with two or more interrupt IN endpoints, and at most one
/// interrupt OUT endpoint, fails with `AmbiguousInputEndpoint`.
pub proof fn law_two_inputs_ambiguous(s: Seq<Endpoint>)
    requires
        interrupt_count(s, Direction::In) >= 2,
        interrupt_count(s, Direction::Out) <= 1,
    ensures
        endpoints_spec(s) == Err::<(u8, u8), KnxError>(KnxError::AmbiguousInputEndpoint),
{
    lemma_scan_ambiguous(s, Direction::In, Direction::Out);
}

/// A descriptor set with two or more interrupt OUT endpoints, and at most
/// one interrupt IN endpoint, fails with `AmbiguousOutputEndpoint`.
pub proof fn law_two_outputs_ambiguous(s: Seq<Endpoint>)
    requires
        interrupt_count(s, Direction::Out) >= 2,
        interrupt_count(s, Direction::In) <= 1,
    ensures
        endpoints_spec(s) == Err::<(u8, u8), KnxError>(KnxError::AmbiguousOutputEndpoint),
{
    lemma_scan_ambiguous(s, Direction::Out, Direction::In);
}

/// A descriptor set with no interrupt IN endpoint and at most one interrupt
/// OUT endpoint fails with `MissingInputEndpoint`.
pub proof fn law_no_input_missing(s: Seq<Endpoint>)
    requires
        interrupt_count(s, Direction::In) == 0,
        interrupt_count(s, Direction::Out) <= 1,
    ensures
        endpoints_spec(s) == Err::<(u8, u8), KnxError>(KnxError::MissingInputEndpoint),
{
    lemma_scan_unambiguous(s);
}

} // verus!
