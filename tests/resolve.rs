use knx_usb::{
    none_or, resolve, resolve_endpoints, Configuration, Direction, Endpoint, Interface, KnxError,
    SessionDescriptor, TransferType,
};

fn ep(address: u8, direction: Direction, transfer_type: TransferType) -> Endpoint {
    Endpoint { address, transfer_type, direction }
}

fn config(number: u8, endpoints: Vec<Endpoint>) -> Option<Configuration> {
    Some(Configuration {
        interfaces: vec![Interface { number, descriptor_sets: vec![endpoints] }],
    })
}

#[test]
fn interrupt_pair_with_bulk_endpoint() {
    let eps = vec![
        ep(0x81, Direction::In, TransferType::Interrupt),
        ep(0x01, Direction::Out, TransferType::Interrupt),
        ep(0x82, Direction::In, TransferType::Bulk),
    ];
    let r = resolve(0, &config(0, eps));
    assert_eq!(
        r,
        Ok(SessionDescriptor {
            device: 0,
            interface_number: 0,
            input_endpoint_address: 0x81,
            output_endpoint_address: 0x01,
        })
    );
}

#[test]
fn single_pair_among_other_endpoints() {
    let eps = vec![
        ep(0x83, Direction::In, TransferType::Isochronous),
        ep(0x02, Direction::Out, TransferType::Interrupt),
        ep(0x00, Direction::Out, TransferType::Control),
        ep(0x85, Direction::In, TransferType::Interrupt),
        ep(0x04, Direction::Out, TransferType::Bulk),
    ];
    let r = resolve(3, &config(2, eps)).unwrap();
    assert_eq!(r.device, 3);
    assert_eq!(r.interface_number, 2);
    assert_eq!(r.input_endpoint_address, 0x85);
    assert_eq!(r.output_endpoint_address, 0x02);
}

#[test]
fn two_inputs_are_ambiguous() {
    let eps = vec![
        ep(0x81, Direction::In, TransferType::Interrupt),
        ep(0x01, Direction::Out, TransferType::Interrupt),
        ep(0x82, Direction::In, TransferType::Interrupt),
    ];
    assert_eq!(resolve_endpoints(&eps), Err(KnxError::AmbiguousInputEndpoint));
}

#[test]
fn two_outputs_are_ambiguous() {
    let eps = vec![
        ep(0x01, Direction::Out, TransferType::Interrupt),
        ep(0x81, Direction::In, TransferType::Interrupt),
        ep(0x02, Direction::Out, TransferType::Interrupt),
    ];
    assert_eq!(resolve_endpoints(&eps), Err(KnxError::AmbiguousOutputEndpoint));
}

#[test]
fn first_ambiguity_met_wins() {
    let eps = vec![
        ep(0x01, Direction::Out, TransferType::Interrupt),
        ep(0x02, Direction::Out, TransferType::Interrupt),
        ep(0x81, Direction::In, TransferType::Interrupt),
        ep(0x82, Direction::In, TransferType::Interrupt),
    ];
    assert_eq!(resolve_endpoints(&eps), Err(KnxError::AmbiguousOutputEndpoint));
}

#[test]
fn only_output_is_missing_input() {
    let eps = vec![ep(0x01, Direction::Out, TransferType::Interrupt)];
    assert_eq!(resolve_endpoints(&eps), Err(KnxError::MissingInputEndpoint));
}

#[test]
fn only_input_is_missing_output() {
    let eps = vec![
        ep(0x81, Direction::In, TransferType::Interrupt),
        ep(0x02, Direction::Out, TransferType::Bulk),
    ];
    assert_eq!(resolve_endpoints(&eps), Err(KnxError::MissingOutputEndpoint));
}

#[test]
fn no_endpoints_is_missing_input() {
    assert_eq!(resolve_endpoints(&vec![]), Err(KnxError::MissingInputEndpoint));
}

#[test]
fn no_active_configuration() {
    assert_eq!(resolve(0, &None), Err(KnxError::NoActiveConfiguration));
}

#[test]
fn configuration_without_interface() {
    let c = Some(Configuration { interfaces: vec![] });
    assert_eq!(resolve(0, &c), Err(KnxError::NoInterface));
}

#[test]
fn interface_without_descriptor_set() {
    let c = Some(Configuration {
        interfaces: vec![Interface { number: 1, descriptor_sets: vec![] }],
    });
    assert_eq!(resolve(0, &c), Err(KnxError::NoInterfaceDescriptor));
}

#[test]
fn only_first_interface_and_set_are_read() {
    let good = vec![
        ep(0x81, Direction::In, TransferType::Interrupt),
        ep(0x01, Direction::Out, TransferType::Interrupt),
    ];
    let c = Some(Configuration {
        interfaces: vec![
            Interface { number: 4, descriptor_sets: vec![vec![], good.clone()] },
            Interface { number: 5, descriptor_sets: vec![good] },
        ],
    });
    assert_eq!(resolve(0, &c), Err(KnxError::MissingInputEndpoint));
}

#[test]
fn resolving_twice_gives_the_same_answer() {
    let eps = vec![
        ep(0x81, Direction::In, TransferType::Interrupt),
        ep(0x01, Direction::Out, TransferType::Interrupt),
    ];
    let c = config(0, eps);
    assert_eq!(resolve(1, &c), resolve(1, &c));
}

#[test]
fn none_or_reports_a_held_value() {
    assert_eq!(none_or(&None::<u8>, "taken"), Ok(()));
    assert_eq!(none_or(&Some(7u8), "taken"), Err("taken"));
}
