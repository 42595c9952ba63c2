use solcatears::host::{step_error, Step};
use solcatears::usb::{
    claim_error, find_board, keep_draining, select_port, write_outcome, Claim,
    ControlRequest, Direction, Endpoint, Interface, SerialPort, TransferType, UsbError, UsbErrorKind,
    CLASS_COMMS, CLASS_DATA, ESP_PID, ESP_VID,
};

fn ep(address: u8, transfer_type: TransferType) -> Endpoint {
    let direction = if address & 0x80 != 0 { Direction::In } else { Direction::Out };
    Endpoint { address, direction, transfer_type }
}

fn failure(kind: UsbErrorKind, words: &str) -> UsbError {
    UsbError { kind, words: words.to_string() }
}

fn iface(number: u8, class_code: u8, endpoints: Vec<Endpoint>) -> Interface {
    Interface { number, class_code, endpoints }
}

#[test]
fn the_board_has_a_serial_port() {
    let all = vec![
        iface(0, CLASS_COMMS, vec![ep(0x82, TransferType::Interrupt)]),
        iface(1, CLASS_DATA, vec![ep(0x01, TransferType::Bulk), ep(0x81, TransferType::Bulk)]),
        iface(2, 0xff, vec![ep(0x02, TransferType::Bulk), ep(0x83, TransferType::Bulk)]),
    ];
    assert_eq!(
        select_port(&all),
        Ok(SerialPort { iface_data: 1, iface_comms: Some(0), ep_out: 0x01, ep_in: 0x81 })
    );
}

#[test]
fn the_first_of_each_kind_is_taken() {
    let all = vec![
        iface(3, CLASS_DATA, vec![ep(0x84, TransferType::Bulk), ep(0x05, TransferType::Interrupt)]),
        iface(4, CLASS_DATA, vec![ep(0x06, TransferType::Bulk), ep(0x87, TransferType::Bulk)]),
        iface(5, CLASS_COMMS, vec![]),
        iface(6, CLASS_COMMS, vec![]),
        iface(7, CLASS_DATA, vec![ep(0x08, TransferType::Bulk)]),
    ];
    assert_eq!(
        select_port(&all),
        Ok(SerialPort { iface_data: 4, iface_comms: Some(5), ep_out: 0x06, ep_in: 0x84 })
    );
}

#[test]
fn an_endpoint_without_an_address_gives_way() {
    let all = vec![
        iface(1, CLASS_DATA, vec![ep(0x00, TransferType::Bulk)]),
        iface(2, CLASS_DATA, vec![ep(0x03, TransferType::Bulk)]),
    ];
    assert_eq!(
        select_port(&all),
        Ok(SerialPort { iface_data: 1, iface_comms: None, ep_out: 0x03, ep_in: 0 })
    );
}

#[test]
fn without_a_bulk_endpoint_to_write_to_there_is_no_port() {
    let e = Err("no CDC Data interface with bulk OUT".to_string());
    assert_eq!(select_port(&vec![]), e);
    let all = vec![
        iface(0, CLASS_COMMS, vec![ep(0x01, TransferType::Bulk)]),
        iface(1, CLASS_DATA, vec![ep(0x81, TransferType::Bulk), ep(0x01, TransferType::Isochronous)]),
        iface(2, CLASS_DATA, vec![ep(0x02, TransferType::Control)]),
    ];
    assert_eq!(select_port(&all), e);
}

#[test]
fn the_first_matching_device_is_the_board() {
    let board = Some((ESP_VID, ESP_PID));
    assert_eq!(find_board(&vec![None, Some((ESP_VID, 1)), board, board]), Ok(2));
    assert_eq!(find_board(&vec![board]), Ok(0));
    let e = Err("no ESP JTAG/serial 303a:1001 found — is the port in host mode and the Xiao \
                 plugged in?"
        .to_string());
    assert_eq!(find_board(&vec![]), e);
    assert_eq!(find_board(&vec![None, Some((1, ESP_PID))]), e);
}

#[test]
fn interfaces_are_released_in_reverse() {
    let port = SerialPort { iface_data: 1, iface_comms: Some(0), ep_out: 1, ep_in: 0x81 };
    assert_eq!(port.claim_order(), [Claim::Comms(0), Claim::Data(1)]);
    assert_eq!(port.release_order(), [Claim::Data(1), Claim::Comms(0)]);
    let bare = SerialPort { iface_comms: None, ..port };
    assert_eq!(bare.claim_order(), [Claim::Data(1)]);
    assert_eq!(bare.release_order(), [Claim::Data(1)]);
    assert_eq!(Claim::Comms(4).number(), 4);
    assert_eq!(Claim::Data(255).number(), 255);
}

#[test]
fn a_refused_claim_names_the_interface() {
    assert_eq!(
        claim_error(Claim::Comms(0), &failure(UsbErrorKind::Access, "Access denied")),
        "claim comms(0): LIBUSB_ERROR_ACCESS"
    );
    assert_eq!(
        claim_error(Claim::Data(12), &failure(UsbErrorKind::Other, "Resource busy")),
        "claim data(12): Resource busy"
    );
    assert_eq!(
        claim_error(Claim::Data(1), &failure(UsbErrorKind::Timeout, "Operation timed out")),
        "claim data(1): Operation timed out"
    );
}

#[test]
fn a_write_that_times_out_ends_the_session_so() {
    let timeout = failure(UsbErrorKind::Timeout, "Operation timed out");
    let e = write_outcome(Err(timeout), 20).unwrap_err();
    assert_eq!(e, "bulk_transfer: LIBUSB_ERROR_TIMEOUT");
    assert_eq!(
        step_error(Step::SerialWrite, &e),
        "serial write: bulk_transfer: LIBUSB_ERROR_TIMEOUT"
    );
    let access = failure(UsbErrorKind::Access, "Access denied");
    assert_eq!(
        step_error(Step::SerialOpen, &claim_error(Claim::Data(1), &access)),
        "serial open failed: claim data(1): LIBUSB_ERROR_ACCESS"
    );
}

#[test]
fn the_line_state_goes_to_the_comms_interface() {
    let port = SerialPort { iface_data: 1, iface_comms: Some(4), ep_out: 1, ep_in: 0x81 };
    assert_eq!(
        port.line_state_request(),
        Some(ControlRequest { request_type: 0x21, request: 0x22, value: 3, index: 4 })
    );
    assert_eq!(SerialPort { iface_comms: None, ..port }.line_state_request(), None);
}

#[test]
fn only_a_whole_write_is_a_success() {
    assert_eq!(write_outcome(Ok(20), 20), Ok(()));
    assert_eq!(write_outcome(Ok(0), 0), Ok(()));
    assert_eq!(write_outcome(Ok(7), 20), Err("short write 7/20".to_string()));
    for kind in [UsbErrorKind::Other, UsbErrorKind::Access] {
        assert_eq!(
            write_outcome(Err(failure(kind, "Pipe error")), 20),
            Err("bulk OUT: Pipe error".to_string())
        );
    }
}

#[test]
fn draining_stops_when_nothing_comes() {
    assert!(keep_draining(1, Some(64)));
    assert!(!keep_draining(1, Some(0)));
    assert!(!keep_draining(1, None));
    assert!(keep_draining(15, Some(1)));
    assert!(!keep_draining(16, Some(64)));
}
