//! The stash alarm: which sound to play and how long the daemon pauses.
use vstd::prelude::*;
use vstd::string::StringExecFns;
use crate::numbers::{decimal, decimal_u64};

verus! {

/// `rand::random_range(low..high)`: a random number from the half-open
/// range, which the crate's documentation says panics when the range is empty.
#[verifier::external_body]
fn random_range(low: u64, high: u64) -> (r: u64)
    requires
        low < high,
    ensures
        low <= r < high,
{
    rand::random_range(low..high)
}

/// The bundled sound with number `i`.
pub open spec fn sound_file(i: nat) -> Seq<char> {
    "fart-"@ + decimal(i) + ".mp3"@
}

/// The name of the bundled sound with number `index`.
pub fn sound_file_name(index: u64) -> (r: String)
    ensures
        r@ == sound_file(index as nat),
{
    let mut s = String::from_str("fart-");
    let n = decimal_u64(index);
    s.append(n.as_str());
    s.append(".mp3");
    s
}

/// One of the six bundled sounds, chosen at random.
pub fn pick_sound_file() -> (r: String)
    ensures
        exists|i: nat| 1 <= i <= 6 && r@ == #[trigger] sound_file(i),
{
    let i = random_range(1, 7);
    let r = sound_file_name(i);
    assert(r@ == sound_file(i as nat));
    r
}

/// How long the daemon waits between two alarms: one second in fast (test)
/// mode, otherwise a random number of seconds from 5 to 29.
pub fn daemon_pause_secs(fast: bool) -> (r: u64)
    ensures
        fast ==> r == 1,
        !fast ==> 5 <= r < 30,
{
    if fast {
        random_range(1, 2)
    } else {
        random_range(5, 30)
    }
}

} // verus!
