use vstd::prelude::*;
use crate::channels::{first_index, lemma_first_index, lemma_first_index_unique, CLUSTER_WIDTH, NUM_CHANNELS, NUM_CLUSTERS};
use crate::error::{Arc2Error, ConfigIssue};

verus! {

/// Longest pulse the high-speed drivers produce, in nanoseconds.
pub const MAX_FAST_PULSE_NS: u128 = 500_000_000;

/// A fast-pulsed channel: `(channel, pulse voltage, normal voltage)`.
pub type FastChannel = (usize, i32, i32);

/// The transition direction of a channel: `true` when the pulse voltage is
/// not above the normal voltage.
pub open spec fn polarity(c: FastChannel) -> bool {
    c.1 <= c.2
}

/// Some earlier channel of the same cluster transitions the other way.
pub open spec fn polarity_conflict(chans: Seq<FastChannel>, j: int) -> bool {
    exists|i: int|
        0 <= i < j && #[trigger] (chans[i].0 / CLUSTER_WIDTH) == chans[j].0 / CLUSTER_WIDTH
            && polarity(chans[i]) != polarity(chans[j])
}

/// What is wrong with channel `j`, judged after the channels before it.
pub open spec fn fast_fault(
    chans: Seq<FastChannel>,
    timings: Seq<Option<u128>>,
    j: int,
) -> Option<Arc2Error> {
    let ch = chans[j].0;
    let cl = ch / CLUSTER_WIDTH;
    if ch >= NUM_CHANNELS {
        Some(Arc2Error::InvalidChannel(ch))
    } else if timings[cl as int] is None {
        Some(
            Arc2Error::InvalidConfiguration(
                ConfigIssue::MissingClusterTiming { channel: ch, cluster: cl },
            ),
        )
    } else if timings[cl as int]->Some_0 > MAX_FAST_PULSE_NS {
        Some(Arc2Error::InvalidConfiguration(ConfigIssue::ClusterPulseTooLong { channel: ch }))
    } else if polarity_conflict(chans, j) {
        Some(Arc2Error::InvalidConfiguration(ConfigIssue::MixedClusterPolarity { cluster: cl }))
    } else {
        None
    }
}

/// Index of the first faulty channel, or the number of channels.
pub open spec fn first_fast_fault(chans: Seq<FastChannel>, timings: Seq<Option<u128>>) -> int {
    first_index(chans.len() as int, |j: int| fast_fault(chans, timings, j) is Some)
}

/// The verdict on a fast multi-channel pulse: exactly one timing slot per
/// cluster is required, then the channels are judged in order and the first
/// fault is reported.
pub open spec fn fast_open_verdict(
    chans: Seq<FastChannel>,
    timings: Seq<Option<u128>>,
) -> Result<(), Arc2Error> {
    if timings.len() != NUM_CLUSTERS {
        Err(Arc2Error::InvalidConfiguration(ConfigIssue::ClusterTimingCount))
    } else if first_fast_fault(chans, timings) < chans.len() {
        Err(fast_fault(chans, timings, first_fast_fault(chans, timings))->Some_0)
    } else {
        Ok(())
    }
}

/// Validates a fast multi-channel pulse before anything is issued.
pub fn check_fast_open(chans: &[FastChannel], timings: &[Option<u128>]) -> (r: Result<
    (),
    Arc2Error,
>)
    ensures
        r == fast_open_verdict(chans@, timings@),
{
    if timings.len() != NUM_CLUSTERS {
        return Err(Arc2Error::InvalidConfiguration(ConfigIssue::ClusterTimingCount));
    }
    let ghost p = |j: int| fast_fault(chans@, timings@, j) is Some;
    let mut track: Vec<Option<bool>> = vec![None, None, None, None, None, None, None, None];
    let mut j: usize = 0;
    while j < chans.len()
        invariant
            timings@.len() == NUM_CLUSTERS,
            j <= chans@.len(),
            track@.len() == NUM_CLUSTERS,
            p == (|j: int| fast_fault(chans@, timings@, j) is Some),
            forall|i: int| 0 <= i < j ==> !#[trigger] p(i),
            forall|i: int| 0 <= i < j ==> chans@[i].0 < NUM_CHANNELS,
            forall|i: int|
                0 <= i < j ==> track@[#[trigger] (chans@[i].0 / CLUSTER_WIDTH) as int] == Some(
                    polarity(chans@[i]),
                ),
            forall|k: int|
                0 <= k < NUM_CLUSTERS && track@[k] is Some ==> exists|i: int|
                    0 <= i < j && #[trigger] (chans@[i].0 / CLUSTER_WIDTH) == k,
        decreases chans@.len() - j,
    {
        let (ch, active, normal) = chans[j];
        let fault: Option<Arc2Error> = if ch >= NUM_CHANNELS {
            Some(Arc2Error::InvalidChannel(ch))
        } else {
            let cl = ch / CLUSTER_WIDTH;
            match timings[cl] {
                None => Some(
                    Arc2Error::InvalidConfiguration(
                        ConfigIssue::MissingClusterTiming { channel: ch, cluster: cl },
                    ),
                ),
                Some(t) => {
                    if t > MAX_FAST_PULSE_NS {
                        Some(
                            Arc2Error::InvalidConfiguration(
                                ConfigIssue::ClusterPulseTooLong { channel: ch },
                            ),
                        )
                    } else {
                        let pol = active <= normal;
                        match track[cl] {
                            Some(b) => {
                                if b != pol {
                                    proof {
                                        let k = cl as int;
                                        let i = choose|i: int|
                                            0 <= i < j && #[trigger] (chans@[i].0 / CLUSTER_WIDTH)
                                                == k;
                                        assert(track@[(chans@[i].0 / CLUSTER_WIDTH) as int]
                                            == Some(polarity(chans@[i])));
                                        assert(polarity_conflict(chans@, j as int));
                                    }
                                    Some(
                                        Arc2Error::InvalidConfiguration(
                                            ConfigIssue::MixedClusterPolarity { cluster: cl },
                                        ),
                                    )
                                } else {
                                    proof {
                                        assert(!polarity_conflict(chans@, j as int)) by {
                                            assert forall|i: int|
                                                0 <= i < j && #[trigger] (chans@[i].0
                                                    / CLUSTER_WIDTH) == chans@[j as int].0
                                                    / CLUSTER_WIDTH implies polarity(chans@[i])
                                                == polarity(chans@[j as int]) by {
                                                assert(track@[(chans@[i].0 / CLUSTER_WIDTH) as int]
                                                    == Some(polarity(chans@[i])));
                                            }
                                        }
                                    }
                                    None
                                }
                            },
                            None => {
                                proof {
                                    assert(!polarity_conflict(chans@, j as int)) by {
                                        assert forall|i: int|
                                            0 <= i < j && #[trigger] (chans@[i].0 / CLUSTER_WIDTH)
                                                == chans@[j as int].0 / CLUSTER_WIDTH implies false by {
                                            assert(track@[(chans@[i].0 / CLUSTER_WIDTH) as int]
                                                == Some(polarity(chans@[i])));
                                        }
                                    }
                                }
                                track.set(cl, Some(pol));
                                None
                            },
                        }
                    }
                },
            }
        };
        assert(fault == fast_fault(chans@, timings@, j as int));
        match fault {
            Some(e) => {
                proof {
                    lemma_first_index_unique(chans@.len() as int, p, j as int);
                }
                return Err(e);
            },
            None => {},
        }
        proof {
            assert forall|k: int|
                0 <= k < NUM_CLUSTERS && track@[k] is Some implies exists|i: int|
                0 <= i < j + 1 && #[trigger] (chans@[i].0 / CLUSTER_WIDTH) == k by {
                if k == (ch / CLUSTER_WIDTH) as int {
                    assert((chans@[j as int].0 / CLUSTER_WIDTH) == k);
                } else {
                    let i = choose|i: int|
                        0 <= i < j && #[trigger] (chans@[i].0 / CLUSTER_WIDTH) == k;
                    assert(0 <= i < j + 1 && (chans@[i].0 / CLUSTER_WIDTH) == k);
                }
            }
        }
        j = j + 1;
    }
    proof {
        lemma_first_index_unique(chans@.len() as int, p, chans@.len() as int);
    }
    Ok(())
}

} // verus!
