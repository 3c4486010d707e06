use vstd::prelude::*;

verus! {

/// The peak after one more reading: the larger of the previous peak and the reading, in kilobytes.
pub open spec fn raised_peak(peak: Option<u64>, reading_bytes: u64) -> u64 {
    match peak {
        Some(p) => if reading_bytes / 1024 > p {
            reading_bytes / 1024
        } else {
            p
        },
        None => reading_bytes / 1024,
    }
}

/// One tick of the memory sampler: the new peak and whether polling goes on.
///
/// `reading` is the process's resident size in bytes, or `None` when it can no longer be read
/// (it has exited or is out of reach); then sampling ends silently. A stop request ends it too,
/// without taking the reading. The peak stays `None` until a sample is taken.
pub fn sample_step(peak: Option<u64>, reading: Option<u64>, stop_requested: bool) -> (r: (Option<u64>, bool))
    ensures
        stop_requested ==> r == (peak, false),
        !stop_requested && reading is None ==> r == (peak, false),
        !stop_requested ==> (reading matches Some(b) ==> r.1 && r.0 == Some(raised_peak(peak, b))),
{
    if stop_requested {
        return (peak, false);
    }
    match reading {
        None => (peak, false),
        Some(b) => {
            let kb = b / 1024;
            let next = match peak {
                Some(p) => if kb > p {
                    kb
                } else {
                    p
                },
                None => kb,
            };
            (Some(next), true)
        },
    }
}

/// The largest of a sequence of readings taken one after another, in kilobytes; `None` when there
/// were none.
pub open spec fn peak_of(readings: Seq<u64>) -> Option<u64>
    decreases readings.len(),
{
    if readings.len() == 0 {
        None
    } else {
        Some(raised_peak(peak_of(readings.drop_last()), readings.last()))
    }
}

/// Sampling a sequence of readings step by step yields their peak; no reading means no result.
pub proof fn lemma_peak_is_max(readings: Seq<u64>)
    ensures
        readings.len() == 0 <==> peak_of(readings) is None,
        forall|i: int| 0 <= i < readings.len() ==> #[trigger] (readings[i] / 1024) <= peak_of(readings)->0,
        readings.len() > 0 ==> exists|i: int| 0 <= i < readings.len() && readings[i] / 1024 == peak_of(readings)->0,
    decreases readings.len(),
{
    if readings.len() > 0 {
        let init = readings.drop_last();
        lemma_peak_is_max(init);
        assert forall|i: int| 0 <= i < readings.len() implies #[trigger] (readings[i] / 1024) <= peak_of(readings)->0 by {
            if i < init.len() {
                assert(readings[i] == init[i]);
            }
        }
        if init.len() > 0 && peak_of(init)->0 >= readings.last() / 1024 {
            let j = choose|j: int| 0 <= j < init.len() && init[j] / 1024 == peak_of(init)->0;
            assert(readings[j] == init[j]);
        } else {
            assert(readings[readings.len() - 1] == readings.last());
        }
    }
}

} // verus!
