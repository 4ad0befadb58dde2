use vstd::prelude::*;

verus! {

/// Whether an image read from the assets goes to the emulator: it was read in full
/// and is not empty.
pub fn worth_loading(read_ok: bool, image: &Vec<u8>) -> (r: bool)
    ensures
        r == (read_ok && image@.len() > 0),
{
    read_ok && image.len() > 0
}

/// Whether the emulator took the image: it reported an entry point above 0. Only
/// then is the emulator set up for Android and the game counted as loaded.
pub fn entry_found(entry: u32) -> (r: bool)
    ensures
        r == (entry > 0),
{
    entry > 0
}

} // verus!
