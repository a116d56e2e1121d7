use led_matrix_serial_api::discovery::{
    listed_panels, panel_names, Bus, Endpoint, FRAMEWORK_VENDOR_ID, LED_MATRIX_PRODUCT_ID,
};
use led_matrix_serial_api::Error;

fn endpoint(name: &str, bus: Bus) -> Endpoint {
    Endpoint { name: name.to_string(), bus }
}

#[test]
fn the_panel_identifiers_are_fixed() {
    assert_eq!(FRAMEWORK_VENDOR_ID, 0x32AC);
    assert_eq!(LED_MATRIX_PRODUCT_ID, 0x0020);
}

#[test]
fn only_matching_usb_endpoints_are_kept_in_order() {
    let endpoints = vec![
        endpoint("/dev/ttyS0", Bus::Pci),
        endpoint("/dev/ttyACM1", Bus::Usb { vid: 12972, pid: 32 }),
        endpoint("/dev/ttyUSB0", Bus::Usb { vid: 12972, pid: 33 }),
        endpoint("/dev/rfcomm0", Bus::Bluetooth),
        endpoint("/dev/ttyACM0", Bus::Usb { vid: 12972, pid: 32 }),
        endpoint("/dev/ttyUSB1", Bus::Usb { vid: 1, pid: 32 }),
        endpoint("/dev/ttyX", Bus::Unknown),
    ];
    assert_eq!(panel_names(&endpoints), vec!["/dev/ttyACM1", "/dev/ttyACM0"]);
}

#[test]
fn no_matching_endpoint_gives_an_empty_list() {
    let endpoints = vec![endpoint("/dev/ttyS0", Bus::Pci), endpoint("b", Bus::Usb { vid: 32, pid: 12972 })];
    assert_eq!(panel_names(&endpoints), Vec::<String>::new());
    assert_eq!(panel_names(&vec![]), Vec::<String>::new());
}

#[test]
fn a_listing_gives_its_panels_or_its_failure() {
    let listing = Ok(vec![
        endpoint("/dev/ttyACM3", Bus::Usb { vid: 12972, pid: 32 }),
        endpoint("/dev/ttyS1", Bus::Pci),
    ]);
    assert_eq!(listed_panels(listing), Ok(vec!["/dev/ttyACM3".to_string()]));
    assert_eq!(listed_panels(Ok(vec![])), Ok(vec![]));
    assert_eq!(
        listed_panels(Err(Error::SerialUnknown("no permission".to_string()))),
        Err(Error::SerialUnknown("no permission".to_string()))
    );
}
