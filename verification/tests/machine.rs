use input_diagnostics::machine_detect::{
    get_computer_model, has_cypress_device, has_serial_touchscreen, has_touchscreen,
    read_computer_model, swaps_touch_axes, ComputerModel,
};

const ALL: [ComputerModel; 5] = [
    ComputerModel::DatorBBFalt,
    ComputerModel::DatorBBFaltGPS,
    ComputerModel::DatorBarbarRS11,
    ComputerModel::DatorBarbarCMBRF8,
    ComputerModel::EjKand,
];

#[test]
fn touchscreen_models() {
    let with: Vec<ComputerModel> = ALL.iter().copied().filter(|m| has_touchscreen(*m)).collect();
    assert_eq!(with, vec![ComputerModel::DatorBBFalt, ComputerModel::DatorBBFaltGPS]);
}

#[test]
fn serial_touchscreen_models() {
    let with: Vec<ComputerModel> =
        ALL.iter().copied().filter(|m| has_serial_touchscreen(*m)).collect();
    assert_eq!(with, vec![ComputerModel::DatorBBFalt]);
}

#[test]
fn axis_swap_models() {
    let with: Vec<ComputerModel> = ALL.iter().copied().filter(|m| swaps_touch_axes(*m)).collect();
    assert_eq!(with, vec![ComputerModel::DatorBBFaltGPS]);
}

#[test]
fn cypress_device_is_found_in_the_listing() {
    let listing = "I: Bus=0011 Vendor=0002 Product=000d Version=0000\nN: Name=\"CyPS/2 Cypress Trackpad\"\nP: Phys=isa0060/serio1/input0\n";
    assert!(has_cypress_device(listing));
    assert!(has_cypress_device("Cypress"));
    assert!(!has_cypress_device(""));
    assert!(!has_cypress_device("N: Name=\"AT Translated Set 2 keyboard\"\n"));
    assert!(!has_cypress_device("cypress CYPRESS Cypres s"));
}

const WITH_CYPRESS: Option<&str> = Some("N: Name=\"CyPS/2 Cypress Trackpad\"\n");
const WITHOUT_CYPRESS: Option<&str> = Some("N: Name=\"AT Translated Set 2 keyboard\"\n");

#[test]
fn model_from_board_name() {
    assert_eq!(read_computer_model(Some("DR786EX"), None, None), ComputerModel::DatorBBFalt);
    assert_eq!(read_computer_model(Some("DR786EX"), None, WITH_CYPRESS), ComputerModel::DatorBBFalt);
    assert_eq!(
        read_computer_model(Some("CAPELL VALLEY(NAPA) CRB"), None, WITH_CYPRESS),
        ComputerModel::DatorBBFalt
    );
    assert_eq!(
        read_computer_model(Some("CAPELL VALLEY(NAPA) CRB"), None, WITHOUT_CYPRESS),
        ComputerModel::DatorBarbarCMBRF8
    );
    // A listing that could not be read names no Cypress device.
    assert_eq!(
        read_computer_model(Some("CAPELL VALLEY(NAPA) CRB"), None, None),
        ComputerModel::DatorBarbarCMBRF8
    );
    assert_eq!(
        read_computer_model(Some("something else"), None, WITH_CYPRESS),
        ComputerModel::EjKand
    );
    assert_eq!(read_computer_model(Some("dr786ex"), None, WITH_CYPRESS), ComputerModel::EjKand);
    assert_eq!(read_computer_model(Some("DR786 EX"), None, WITH_CYPRESS), ComputerModel::EjKand);
    assert_eq!(read_computer_model(Some(""), None, WITH_CYPRESS), ComputerModel::EjKand);
    assert_eq!(read_computer_model(None, None, WITH_CYPRESS), ComputerModel::EjKand);
}

#[test]
fn names_are_read_without_surrounding_white_space() {
    assert_eq!(read_computer_model(Some("DR786EX\n"), None, None), ComputerModel::DatorBBFalt);
    assert_eq!(
        read_computer_model(Some(" \tDR786EX \r\n"), None, None),
        ComputerModel::DatorBBFalt
    );
    assert_eq!(
        read_computer_model(Some("CAPELL VALLEY(NAPA) CRB\n"), None, WITH_CYPRESS),
        ComputerModel::DatorBBFalt
    );
    assert_eq!(read_computer_model(None, Some("DT10\n"), None), ComputerModel::DatorBBFaltGPS);
    assert_eq!(read_computer_model(None, Some("\u{a0}RS11\u{3000}"), None), ComputerModel::DatorBarbarRS11);
    assert_eq!(read_computer_model(None, Some("RS 11\n"), None), ComputerModel::EjKand);
}

#[test]
fn product_name_decides_over_board_name() {
    assert_eq!(read_computer_model(None, Some("DT10"), None), ComputerModel::DatorBBFaltGPS);
    assert_eq!(read_computer_model(None, Some("RS11"), None), ComputerModel::DatorBarbarRS11);
    assert_eq!(
        read_computer_model(Some("DR786EX"), Some("DT10"), WITH_CYPRESS),
        ComputerModel::DatorBBFaltGPS
    );
    assert_eq!(
        read_computer_model(Some("CAPELL VALLEY(NAPA) CRB"), Some("RS11"), WITHOUT_CYPRESS),
        ComputerModel::DatorBarbarRS11
    );
    assert_eq!(
        read_computer_model(Some("DR786EX"), Some("To be filled by O.E.M."), None),
        ComputerModel::DatorBBFalt
    );
    assert_eq!(read_computer_model(None, Some("DT100"), None), ComputerModel::EjKand);
}

#[test]
fn model_is_detected_once_and_kept() {
    let mut cache = None;
    let m = get_computer_model(&mut cache, Some("DR786EX\n"), None, None);
    assert_eq!(m, ComputerModel::DatorBBFalt);
    assert_eq!(cache, Some(ComputerModel::DatorBBFalt));
    // Later strings do not change what is kept.
    let m = get_computer_model(&mut cache, None, Some("RS11"), None);
    assert_eq!(m, ComputerModel::DatorBBFalt);
    assert_eq!(cache, Some(ComputerModel::DatorBBFalt));

    let mut cache = Some(ComputerModel::EjKand);
    assert_eq!(get_computer_model(&mut cache, None, Some("DT10"), None), ComputerModel::EjKand);
}
