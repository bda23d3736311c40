use vstd::prelude::*;

verus! {
/// Backspace.
pub const BS: u8 = 0x8;

/// Delete.
pub const DEL: u8 = 0x7F;

/// Line status bit: a received byte waits in the receive buffer.
pub const LSR_INPUT_AVAILABLE: u8 = 1;

/// Line status bit: the transmit holding register is empty.
pub const LSR_OUTPUT_EMPTY: u8 = 32;

/// The bytes that the console transmits to show `data`: backspace and
/// delete erase the previous character (back, blank, back); any other byte
/// goes out as it is.
pub fn echo_bytes(data: u8) -> (r: Vec<u8>)
    ensures
        r@ == if data == BS || data == DEL {
            seq![BS, 0x20u8, BS]
        } else {
            seq![data]
        },
{
    let mut r: Vec<u8> = Vec::new();
    if data == BS || data == DEL {
        r.push(BS);
        r.push(0x20u8);
        r.push(BS);
    } else {
        r.push(data);
    }
    r
}

/// Whether the line status `lsr` reports a received byte.
pub fn input_available(lsr: u8) -> (r: bool)
    ensures
        r == (lsr & LSR_INPUT_AVAILABLE != 0),
{
    lsr & LSR_INPUT_AVAILABLE != 0
}

/// Whether the line status `lsr` reports room for a byte to transmit.
pub fn output_empty(lsr: u8) -> (r: bool)
    ensures
        r == (lsr & LSR_OUTPUT_EMPTY != 0),
{
    lsr & LSR_OUTPUT_EMPTY != 0
}

} // verus!
