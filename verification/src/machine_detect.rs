//! The computer models this tool knows, what input hardware each has, and how a
//! model is told from the identification strings of the firmware.

use vstd::prelude::*;
use crate::text::{contains, occurs_in, str_eq, trim, trimmed};

verus! {

/// The computer models that are told apart; `EjKand` is any other computer.
#[derive(Debug, Clone, Copy, PartialEq, Eq, Structural)]
pub enum ComputerModel {
    DatorBBFalt,
    DatorBBFaltGPS,
    DatorBarbarRS11,
    DatorBarbarCMBRF8,
    EjKand,
}

/// Whether the model has a touchscreen.
pub fn has_touchscreen(c: ComputerModel) -> (r: bool)
    ensures
        r == (c == ComputerModel::DatorBBFalt || c == ComputerModel::DatorBBFaltGPS),
{
    match c {
        ComputerModel::DatorBBFalt => true,
        ComputerModel::DatorBBFaltGPS => true,
        _ => false,
    }
}

/// Whether the model's touch panel is attached to the serial port.
pub fn has_serial_touchscreen(c: ComputerModel) -> (r: bool)
    ensures
        r == (c == ComputerModel::DatorBBFalt),
{
    match c {
        ComputerModel::DatorBBFalt => true,
        _ => false,
    }
}

/// Whether the model's touch hardware reports X as Y and Y as X.
pub fn swaps_touch_axes(c: ComputerModel) -> (r: bool)
    ensures
        r == (c == ComputerModel::DatorBBFaltGPS),
{
    match c {
        ComputerModel::DatorBBFaltGPS => true,
        _ => false,
    }
}

/// Part of the name of the device that tells apart the two models that share
/// a board name.
pub const CYPRESS: &'static str = "Cypress";

/// Whether the kernel's listing of input devices names a Cypress device.
pub fn has_cypress_device(input_devices: &str) -> (r: bool)
    ensures
        r == occurs_in(input_devices@, CYPRESS@),
{
    contains(input_devices, CYPRESS)
}

/// The model that the board name alone points to. Two models share one board
/// name; the one with a Cypress device among its input devices is told from
/// the one without.
pub open spec fn model_of_board(board_name: Seq<char>, input_devices: Option<Seq<char>>) -> ComputerModel {
    if board_name == "DR786EX"@ {
        ComputerModel::DatorBBFalt
    } else if board_name == "CAPELL VALLEY(NAPA) CRB"@ {
        if input_devices matches Some(listing) && occurs_in(listing, CYPRESS@) {
            ComputerModel::DatorBBFalt
        } else {
            ComputerModel::DatorBarbarCMBRF8
        }
    } else {
        ComputerModel::EjKand
    }
}

/// The model that the firmware's board name and product name point to, each
/// taken without surrounding white space and absent where it could not be
/// read. A product name that is known decides; otherwise the board name does.
pub open spec fn detect_model(
    board_name: Option<Seq<char>>,
    product_name: Option<Seq<char>>,
    input_devices: Option<Seq<char>>,
) -> ComputerModel {
    let by_board = match board_name {
        Some(b) => model_of_board(trimmed(b), input_devices),
        None => ComputerModel::EjKand,
    };
    match product_name {
        Some(p) => if trimmed(p) == "DT10"@ {
            ComputerModel::DatorBBFaltGPS
        } else if trimmed(p) == "RS11"@ {
            ComputerModel::DatorBarbarRS11
        } else {
            by_board
        },
        None => by_board,
    }
}

/// The view of an optional string.
pub open spec fn text_view(s: Option<&str>) -> Option<Seq<char>> {
    match s {
        Some(t) => Some(t@),
        None => None,
    }
}

/// Tells the model from what the firmware gives as board name and as product
/// name and from the kernel's listing of input devices, each absent where it
/// could not be read.
pub fn read_computer_model(
    board_name: Option<&str>,
    product_name: Option<&str>,
    input_devices: Option<&str>,
) -> (model: ComputerModel)
    ensures
        model == detect_model(
            text_view(board_name),
            text_view(product_name),
            text_view(input_devices),
        ),
{
    let mut model = ComputerModel::EjKand;
    if let Some(b) = board_name {
        let name = trim(b);
        if str_eq(name.as_str(), "DR786EX") {
            model = ComputerModel::DatorBBFalt;
        } else if str_eq(name.as_str(), "CAPELL VALLEY(NAPA) CRB") {
            let has_cypress = match input_devices {
                Some(listing) => has_cypress_device(listing),
                None => false,
            };
            if has_cypress {
                model = ComputerModel::DatorBBFalt;
            } else {
                model = ComputerModel::DatorBarbarCMBRF8;
            }
        }
    }
    if let Some(p) = product_name {
        let name = trim(p);
        if str_eq(name.as_str(), "DT10") {
            model = ComputerModel::DatorBBFaltGPS;
        } else if str_eq(name.as_str(), "RS11") {
            model = ComputerModel::DatorBarbarRS11;
        }
    }
    model
}

/// The model of this computer: the one in `cache` if it holds one, else the one
/// that the firmware's strings point to, which is then kept in `cache`.
pub fn get_computer_model(
    cache: &mut Option<ComputerModel>,
    board_name: Option<&str>,
    product_name: Option<&str>,
    input_devices: Option<&str>,
) -> (model: ComputerModel)
    ensures
        model == match *old(cache) {
            Some(m) => m,
            None => detect_model(
                text_view(board_name),
                text_view(product_name),
                text_view(input_devices),
            ),
        },
        *final(cache) == Some(model),
{
    if let Some(m) = *cache {
        return m;
    }
    let model = read_computer_model(board_name, product_name, input_devices);
    *cache = Some(model);
    model
}

} // verus!
