//! The whole search: every satellite's code against one sample buffer.

use vstd::prelude::*;
use crate::decoder::{detections, Decoder, Found};
use crate::generator::ShiftRegGPS;
use crate::model::{code, is_binary};
use crate::params::{CODE_LENGTH, SATELLITES};

verus! {

/// The resolved bits of the first `ids` satellites, satellite by satellite
/// and, for each, in order of phase.
pub open spec fn all_detections(codes: Seq<Vec<u16>>, signal: Seq<i32>, ids: nat) -> Seq<Found>
    recommends
        ids <= codes.len(),
    decreases ids,
{
    if ids == 0 {
        Seq::empty()
    } else {
        all_detections(codes, signal, (ids - 1) as nat) + detections(
            codes[ids - 1]@,
            signal,
            (ids - 1) as usize,
            signal.len(),
        )
    }
}

/// One period of the code of every satellite in the tap table, indexed by
/// identity.
pub fn generate_codes() -> (gps_codes: Vec<Vec<u16>>)
    ensures
        gps_codes.len() == SATELLITES,
        forall|id: int|
            0 <= id < SATELLITES ==> (#[trigger] gps_codes[id])@ == code(id as nat),
        forall|id: int|
            0 <= id < SATELLITES ==> (#[trigger] gps_codes[id]).len() == CODE_LENGTH && is_binary(
                gps_codes[id]@,
            ),
{
    let mut gps_codes: Vec<Vec<u16>> = Vec::new();
    let mut gps_id: u16 = 0;
    while gps_id < SATELLITES
        invariant
            gps_id <= SATELLITES,
            gps_codes.len() == gps_id,
            forall|id: int| 0 <= id < gps_id ==> (#[trigger] gps_codes[id])@ == code(id as nat),
            forall|id: int|
                0 <= id < gps_id ==> (#[trigger] gps_codes[id]).len() == CODE_LENGTH && is_binary(
                    gps_codes[id]@,
                ),
        decreases SATELLITES - gps_id,
    {
        let mut generator = ShiftRegGPS::new(gps_id);
        let gps_code = generator.get_code();
        gps_codes.push(gps_code);
        gps_id += 1;
    }
    gps_codes
}

/// Searches the buffer for every code in turn, at every phase, and returns
/// all resolved bits. Nothing ends the search early.
pub fn decode_all(signal: Vec<i32>, gps_codes: &Vec<Vec<u16>>) -> (found: Vec<Found>)
    requires
        forall|id: int| 0 <= id < gps_codes.len() ==> (#[trigger] gps_codes[id]).len() == signal.len(),
    ensures
        found@ == all_detections(gps_codes@, signal@, gps_codes.len() as nat),
{
    let ghost samples = signal@;
    let mut decoder = Decoder { signal, gps_codes };
    let mut found: Vec<Found> = Vec::new();
    let mut gps_id: usize = 0;
    while gps_id < gps_codes.len()
        invariant
            gps_id <= gps_codes.len(),
            decoder.gps_codes == gps_codes,
            decoder.signal@ == samples,
            forall|id: int|
                0 <= id < gps_codes.len() ==> (#[trigger] gps_codes[id]).len() == samples.len(),
            found@ == all_detections(gps_codes@, samples, gps_id as nat),
        decreases gps_codes.len() - gps_id,
    {
        let mut hits = decoder.decode_with_gps(gps_id);
        found.append(&mut hits);
        gps_id += 1;
    }
    found
}

} // verus!
