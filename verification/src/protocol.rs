//! Interpretation of the single-byte serial control protocol and the
//! stepped-brightness demo schedule.

use vstd::prelude::*;

verus! {

/// The command byte that blanks the panel.
pub const CLEAR_COMMAND: u8 = 51;

/// The command byte that runs the stepped-brightness demo.
pub const BRIGHTNESS_DEMO_COMMAND: u8 = 54;

/// What a received control byte asks the display to do.
#[derive(Clone, Copy, PartialEq, Eq, Structural, Debug)]
pub enum Command {
    /// Render the preset image with this index.
    ShowImage(u8),
    /// Blank the panel.
    Clear,
    /// Render image 0 at stepped brightness levels.
    BrightnessDemo,
    /// Not a known command this tick; skip it.
    Ignore,
}

/// Decodes one control byte, given how many preset images exist: the two
/// named command bytes take precedence, any other byte below
/// `image_count` selects that image, and everything else is skipped.
pub fn interpret_command(byte: u8, image_count: u8) -> (c: Command)
    ensures
        byte == CLEAR_COMMAND ==> c == Command::Clear,
        byte == BRIGHTNESS_DEMO_COMMAND ==> c == Command::BrightnessDemo,
        byte != CLEAR_COMMAND && byte != BRIGHTNESS_DEMO_COMMAND && byte < image_count
            ==> c == Command::ShowImage(byte),
        byte != CLEAR_COMMAND && byte != BRIGHTNESS_DEMO_COMMAND && byte >= image_count
            ==> c == Command::Ignore,
{
    if byte == CLEAR_COMMAND {
        Command::Clear
    } else if byte == BRIGHTNESS_DEMO_COMMAND {
        Command::BrightnessDemo
    } else if byte < image_count {
        Command::ShowImage(byte)
    } else {
        Command::Ignore
    }
}

/// The brightness levels of the stepped demo: four coarse rising steps,
/// then sixteen fine falling steps from full brightness.
pub fn brightness_demo_levels() -> (levels: Vec<u8>)
    ensures
        levels@.len() == 20,
        forall|i: int| 0 <= i < 4 ==> #[trigger] levels@[i] == i * 64,
        forall|i: int| 0 <= i < 16 ==> #[trigger] levels@[4 + i] == 255 - i * 16,
{
    let mut levels: Vec<u8> = Vec::new();
    let mut i: usize = 0;
    while i < 4
        invariant
            i <= 4,
            levels@.len() == i,
            forall|j: int| 0 <= j < i ==> #[trigger] levels@[j] == j * 64,
        decreases 4 - i,
    {
        levels.push((i as u8) * 64);
        i = i + 1;
    }
    let mut k: usize = 0;
    while k < 16
        invariant
            k <= 16,
            levels@.len() == 4 + k,
            forall|j: int| 0 <= j < 4 ==> #[trigger] levels@[j] == j * 64,
            forall|j: int| 0 <= j < k ==> #[trigger] levels@[4 + j] == 255 - j * 16,
        decreases 16 - k,
    {
        levels.push(255 - (k as u8) * 16);
        k = k + 1;
    }
    levels
}

} // verus!
