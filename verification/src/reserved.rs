//! The device names that DOS and Windows reserve.

use crate::text::same_text;
use vstd::prelude::*;

verus! {

/// The names that Win32 keeps for devices, in upper case. A file whose stem
/// is one of them cannot be made there, whatever its extension.
pub open spec fn reserved_names() -> Set<Seq<char>> {
    set![
        "AUX"@,
        "CON"@,
        "NUL"@,
        "PRN"@,
        "COM1"@,
        "COM2"@,
        "COM3"@,
        "COM4"@,
        "COM5"@,
        "COM6"@,
        "COM7"@,
        "COM8"@,
        "COM9"@,
        "LPT1"@,
        "LPT2"@,
        "LPT3"@,
        "LPT4"@,
        "LPT5"@,
        "LPT6"@,
        "LPT7"@,
        "LPT8"@,
        "LPT9"@,
        "CLOCK$"@,
        "$IDLE$"@,
        "CONFIG$"@,
        "KEYBD$"@,
        "LST"@,
        "SCREEN$"@,
    ]
}

/// Whether `upper`, a stem already in upper case, is a reserved device name.
pub fn is_reserved_name(upper: &str) -> (reserved: bool)
    ensures
        reserved == reserved_names().contains(upper@),
{
    same_text(upper, "AUX") || same_text(upper, "CON") || same_text(upper, "NUL") || same_text(
        upper,
        "PRN",
    ) || is_serial_port(upper) || is_parallel_port(upper) || same_text(upper, "CLOCK$")
        || same_text(upper, "$IDLE$") || same_text(upper, "CONFIG$") || same_text(upper, "KEYBD$")
        || same_text(upper, "LST") || same_text(upper, "SCREEN$")
}

/// Whether `upper` is one of `COM1` to `COM9`.
fn is_serial_port(upper: &str) -> (serial: bool)
    ensures
        serial == (upper@ == "COM1"@ || upper@ == "COM2"@ || upper@ == "COM3"@ || upper@ == "COM4"@
            || upper@ == "COM5"@ || upper@ == "COM6"@ || upper@ == "COM7"@ || upper@ == "COM8"@
            || upper@ == "COM9"@),
{
    same_text(upper, "COM1") || same_text(upper, "COM2") || same_text(upper, "COM3") || same_text(
        upper,
        "COM4",
    ) || same_text(upper, "COM5") || same_text(upper, "COM6") || same_text(upper, "COM7")
        || same_text(upper, "COM8") || same_text(upper, "COM9")
}

/// Whether `upper` is one of `LPT1` to `LPT9`.
fn is_parallel_port(upper: &str) -> (parallel: bool)
    ensures
        parallel == (upper@ == "LPT1"@ || upper@ == "LPT2"@ || upper@ == "LPT3"@ || upper@
            == "LPT4"@ || upper@ == "LPT5"@ || upper@ == "LPT6"@ || upper@ == "LPT7"@ || upper@
            == "LPT8"@ || upper@ == "LPT9"@),
{
    same_text(upper, "LPT1") || same_text(upper, "LPT2") || same_text(upper, "LPT3") || same_text(
        upper,
        "LPT4",
    ) || same_text(upper, "LPT5") || same_text(upper, "LPT6") || same_text(upper, "LPT7")
        || same_text(upper, "LPT8") || same_text(upper, "LPT9")
}

} // verus!
