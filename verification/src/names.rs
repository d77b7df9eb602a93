//! The names of the ASCII characters that are not printable.

use vstd::prelude::*;

verus! {

/// The name of the ASCII control character with the given byte value. The
/// newline, which can be encoded, has none, and neither has any byte from 32
/// on but 127.
pub open spec fn nonprintable_name(byte: u8) -> Option<Seq<char>> {
    match byte {
        0 => Some("Null"@),
        1 => Some("Start Of Heading"@),
        2 => Some("Start Of Text"@),
        3 => Some("End Of Text"@),
        4 => Some("End Of Transmission"@),
        5 => Some("Enquiry"@),
        6 => Some("Acknowledge"@),
        7 => Some("Bell"@),
        8 => Some("Backspace"@),
        9 => Some("Horizontal Tab"@),
        11 => Some("Vertical Tab"@),
        12 => Some("Form Feed"@),
        13 => Some("Carriage Return"@),
        14 => Some("Shift Out"@),
        15 => Some("Shift In"@),
        16 => Some("Data Link Escape"@),
        17 => Some("Data Control 1"@),
        18 => Some("Data Control 2"@),
        19 => Some("Data Control 3"@),
        20 => Some("Data Control 4"@),
        21 => Some("Negative Acknowledge"@),
        22 => Some("Synchronous Idle"@),
        23 => Some("End Of Transmission Block"@),
        24 => Some("Cancel"@),
        25 => Some("End Of Medium"@),
        26 => Some("Substitute"@),
        27 => Some("Escape"@),
        28 => Some("File Separator"@),
        29 => Some("Group Separator"@),
        30 => Some("Record Separator"@),
        31 => Some("Unit Separator"@),
        127 => Some("Delete"@),
        _ => None,
    }
}

/// Returns the name of the given ASCII byte if it is not printable and not
/// the newline.
pub fn nonprintable_ascii_repr(byte: u8) -> (name: Option<&'static str>)
    ensures
        name is Some <==> byte < 10 || 11 <= byte < 32 || byte == 127,
        match name {
            Some(s) => nonprintable_name(byte) == Some(s@),
            None => nonprintable_name(byte) is None,
        },
{
    if byte < 10 {
        let names: [&'static str; 10] = [
            "Null",
            "Start Of Heading",
            "Start Of Text",
            "End Of Text",
            "End Of Transmission",
            "Enquiry",
            "Acknowledge",
            "Bell",
            "Backspace",
            "Horizontal Tab",
        ];
        Some(names[byte as usize])
    } else if byte >= 11 && byte < 32 {
        let names: [&'static str; 21] = [
            "Vertical Tab",
            "Form Feed",
            "Carriage Return",
            "Shift Out",
            "Shift In",
            "Data Link Escape",
            "Data Control 1",
            "Data Control 2",
            "Data Control 3",
            "Data Control 4",
            "Negative Acknowledge",
            "Synchronous Idle",
            "End Of Transmission Block",
            "Cancel",
            "End Of Medium",
            "Substitute",
            "Escape",
            "File Separator",
            "Group Separator",
            "Record Separator",
            "Unit Separator",
        ];
        Some(names[byte as usize - 11])
    } else if byte == 127 {
        Some("Delete")
    } else {
        None
    }
}

} // verus!
