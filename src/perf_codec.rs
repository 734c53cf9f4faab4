//! The flat encoding of the performance samples, built on the dataset's record encoding.
//! Samples are diagnostic: a load that cannot read them starts with none.
use vstd::prelude::*;
use vstd::bytes::{
    lemma_auto_spec_u64_to_from_le_bytes, spec_u64_to_le_bytes, u64_from_le_bytes,
    u64_to_le_bytes,
};
use vstd::slice::slice_subrange;
use vstd::utf8::{encode_utf8, valid_utf8};
use std::collections::VecDeque;
use crate::codec::{
    decode_entries, encode_entries, encodes, entries_fit, entries_view, push_bytes,
    spec_encode_entries,
};
use crate::perf::{PerformanceCount, PerformanceCounts};

verus! {

/// Relies on `std::str::from_utf8`: the text whose UTF-8 encoding the bytes are, if they
/// are valid UTF-8.
#[verifier::external_body]
fn utf8_string(b: &[u8]) -> (r: Option<String>)
    ensures
        r is Some <==> valid_utf8(b@),
        r matches Some(s) ==> encode_utf8(s@) == b@,
{
    std::str::from_utf8(b).ok().map(|s| s.to_owned())
}

/// A sample as plain values: its time, its counter value and its label.
pub open spec fn sample_view(c: PerformanceCount) -> (u64, u64, Seq<char>) {
    (c.timestamp_ns_since_epoch, c.instruction_count, c.name@)
}

/// Samples as plain values.
pub open spec fn samples_view(s: Seq<PerformanceCount>) -> Seq<(u64, u64, Seq<char>)> {
    s.map_values(|c: PerformanceCount| sample_view(c))
}

/// The record of one sample: keyed by its time, its value the counter value followed by
/// the label's UTF-8 bytes.
pub open spec fn sample_entry(c: (u64, u64, Seq<char>)) -> (u64, Seq<u8>) {
    (c.0, spec_u64_to_le_bytes(c.1) + encode_utf8(c.2))
}

/// The records of a sequence of samples.
pub open spec fn sample_entries(s: Seq<(u64, u64, Seq<char>)>) -> Seq<(u64, Seq<u8>)> {
    s.map_values(|c: (u64, u64, Seq<char>)| sample_entry(c))
}

/// Encodes samples.
pub fn encode_samples(samples: &VecDeque<PerformanceCount>) -> (r: Vec<u8>)
    ensures
        r@ == spec_encode_entries(sample_entries(samples_view(samples@))),
{
    let mut entries: Vec<(u64, Vec<u8>)> = Vec::new();
    let n = samples.len();
    let mut i: usize = 0;
    while i < n
        invariant
            n == samples@.len(),
            i <= n,
            entries_view(entries@) == sample_entries(samples_view(samples@.subrange(0, i as int))),
        decreases n - i,
    {
        let c = &samples[i];
        let mut value = u64_to_le_bytes(c.instruction_count);
        push_bytes(&mut value, c.name.as_str().as_bytes());
        proof {
            let old_v = entries_view(entries@);
            assert(entries_view(entries@.push((c.timestamp_ns_since_epoch, value))) =~= old_v.push(
                (c.timestamp_ns_since_epoch, value@),
            ));
            assert(samples_view(samples@.subrange(0, i + 1)) =~= samples_view(
                samples@.subrange(0, i as int),
            ).push(sample_view(*c)));
            assert(sample_entries(samples_view(samples@.subrange(0, i + 1))) =~= sample_entries(
                samples_view(samples@.subrange(0, i as int)),
            ).push(sample_entry(sample_view(*c))));
        }
        entries.push((c.timestamp_ns_since_epoch, value));
        i = i + 1;
    }
    assert(samples@.subrange(0, n as int) =~= samples@);
    encode_entries(&entries)
}

/// Whether some samples have an encoding whose lengths all fit in a `u64`.
pub open spec fn samples_fit(s: Seq<(u64, u64, Seq<char>)>) -> bool {
    entries_fit(sample_entries(s))
}

/// Decodes samples; `None` when the bytes are not the encoding of samples.
pub fn decode_samples(b: &[u8]) -> (r: Option<VecDeque<PerformanceCount>>)
    ensures
        r matches Some(v) ==> spec_encode_entries(sample_entries(samples_view(v@))) == b@,
        forall|s: Seq<(u64, u64, Seq<char>)>|
            samples_fit(s) && #[trigger] spec_encode_entries(sample_entries(s)) == b@ ==> (
            r matches Some(v) && samples_view(v@) == s),
{
    let entries = match decode_entries(b) {
        Some(e) => e,
        None => {
            proof {
                assert forall|s: Seq<(u64, u64, Seq<char>)>|
                    samples_fit(s) && #[trigger] spec_encode_entries(sample_entries(s))
                        == b@ implies false by {
                    assert(encodes(sample_entries(s), b@));
                }
            }
            return None;
        },
    };
    let ghost ev = entries_view(entries@);
    let mut out: VecDeque<PerformanceCount> = VecDeque::new();
    proof {
        assert forall|s: Seq<(u64, u64, Seq<char>)>|
            samples_fit(s) && #[trigger] spec_encode_entries(sample_entries(s))
                == b@ implies ev == sample_entries(s) && samples_view(out@) == s.subrange(0, 0) by {
            assert(encodes(sample_entries(s), b@));
            assert(samples_view(out@) =~= s.subrange(0, 0));
        }
        assert(sample_entries(samples_view(out@)) =~= ev.subrange(0, 0));
    }
    let mut i: usize = 0;
    while i < entries.len()
        invariant
            i <= entries@.len(),
            ev == entries_view(entries@),
            encodes(ev, b@),
            forall|s: Seq<(u64, u64, Seq<char>)>|
                samples_fit(s) && #[trigger] spec_encode_entries(sample_entries(s)) == b@
                    ==> ev == sample_entries(s) && samples_view(out@) == s.subrange(0, i as int),
            sample_entries(samples_view(out@)) == ev.subrange(0, i as int),
        decreases entries@.len() - i,
    {
        let key = entries[i].0;
        let value = &entries[i].1;
        proof {
            lemma_auto_spec_u64_to_from_le_bytes();
            assert forall|s: Seq<(u64, u64, Seq<char>)>|
                samples_fit(s) && #[trigger] spec_encode_entries(sample_entries(s))
                    == b@ implies {
                &&& value@.len() >= 8
                &&& value@.subrange(0, 8) == spec_u64_to_le_bytes(s[i as int].1)
                &&& value@.subrange(8, value@.len() as int) == encode_utf8(s[i as int].2)
                &&& key == s[i as int].0
            } by {
                assert(encodes(sample_entries(s), b@));
                assert(ev[i as int] == sample_entries(s)[i as int]);
                assert(ev[i as int] == (key, value@));
                let e = spec_u64_to_le_bytes(s[i as int].1);
                assert(value@ == e + encode_utf8(s[i as int].2));
                assert(value@.subrange(0, 8) =~= e);
                assert(value@.subrange(8, value@.len() as int) =~= encode_utf8(s[i as int].2));
            }
        }
        if value.len() < 8 {
            return None;
        }
        let count = u64_from_le_bytes(slice_subrange(value.as_slice(), 0, 8));
        let name = match utf8_string(slice_subrange(value.as_slice(), 8, value.len())) {
            Some(n) => n,
            None => {
                proof {
                    assert forall|s: Seq<(u64, u64, Seq<char>)>|
                        samples_fit(s) && #[trigger] spec_encode_entries(sample_entries(s))
                            == b@ implies false by {
                        vstd::utf8::encode_utf8_valid_utf8(s[i as int].2);
                    }
                }
                return None;
            },
        };
        let c = PerformanceCount { timestamp_ns_since_epoch: key, name, instruction_count: count };
        proof {
            lemma_auto_spec_u64_to_from_le_bytes();
            let vb = value@.subrange(0, 8);
            assert(spec_u64_to_le_bytes(count) == vb);
            assert(value@ =~= vb + value@.subrange(8, value@.len() as int));
            assert(sample_entry(sample_view(c)) == ev[i as int]);
            assert(samples_view(out@.push(c)) =~= samples_view(out@).push(sample_view(c)));
            assert(sample_entries(samples_view(out@).push(sample_view(c))) =~= sample_entries(
                samples_view(out@),
            ).push(sample_entry(sample_view(c))));
            assert(ev.subrange(0, i + 1) =~= ev.subrange(0, i as int).push(ev[i as int]));
            assert forall|s: Seq<(u64, u64, Seq<char>)>|
                samples_fit(s) && #[trigger] spec_encode_entries(sample_entries(s))
                    == b@ implies samples_view(out@.push(c)) == s.subrange(0, i + 1) by {
                vstd::utf8::encode_utf8_decode_utf8(s[i as int].2);
                vstd::utf8::encode_utf8_decode_utf8(name@);
                assert(sample_entries(s)[i as int] == ev[i as int]);
                assert(s.subrange(0, i + 1) =~= s.subrange(0, i as int).push(s[i as int]));
            }
        }
        out.push_back(c);
        i = i + 1;
    }
    proof {
        assert(ev.subrange(0, i as int) =~= ev);
        assert forall|s: Seq<(u64, u64, Seq<char>)>|
            samples_fit(s) && #[trigger] spec_encode_entries(sample_entries(s))
                == b@ implies samples_view(out@) == s by {
            assert(s.len() == sample_entries(s).len());
            assert(s.subrange(0, i as int) =~= s);
        }
    }
    Some(out)
}

/// The records of exceptional transaction ids: each id a key with an empty value.
pub open spec fn id_entries(ids: Seq<u64>) -> Seq<(u64, Seq<u8>)> {
    ids.map_values(|id: u64| (id, Seq::<u8>::empty()))
}

/// Encodes ids.
fn encode_ids(ids: &VecDeque<u64>) -> (r: Vec<u8>)
    ensures
        r@ == spec_encode_entries(id_entries(ids@)),
{
    let mut entries: Vec<(u64, Vec<u8>)> = Vec::new();
    let n = ids.len();
    let mut i: usize = 0;
    while i < n
        invariant
            n == ids@.len(),
            i <= n,
            entries_view(entries@) == id_entries(ids@.subrange(0, i as int)),
        decreases n - i,
    {
        let id = ids[i];
        let e: Vec<u8> = Vec::new();
        proof {
            assert(entries_view(entries@.push((id, e))) =~= entries_view(entries@).push((id, e@)));
            assert(id_entries(ids@.subrange(0, i + 1)) =~= id_entries(ids@.subrange(0, i as int)).push(
                (id, Seq::<u8>::empty()),
            ));
        }
        entries.push((id, e));
        i = i + 1;
    }
    assert(ids@.subrange(0, n as int) =~= ids@);
    encode_entries(&entries)
}

/// Decodes ids; `None` when the bytes are not the encoding of ids.
fn decode_ids(b: &[u8]) -> (r: Option<VecDeque<u64>>)
    ensures
        r matches Some(v) ==> spec_encode_entries(id_entries(v@)) == b@,
        forall|ids: Seq<u64>|
            entries_fit(id_entries(ids)) && #[trigger] spec_encode_entries(id_entries(ids)) == b@
                ==> (r matches Some(v) && v@ == ids),
{
    let entries = match decode_entries(b) {
        Some(e) => e,
        None => {
            proof {
                assert forall|ids: Seq<u64>|
                    entries_fit(id_entries(ids)) && #[trigger] spec_encode_entries(id_entries(ids))
                        == b@ implies false by {
                    assert(encodes(id_entries(ids), b@));
                }
            }
            return None;
        },
    };
    let ghost ev = entries_view(entries@);
    let mut out: VecDeque<u64> = VecDeque::new();
    proof {
        assert forall|ids: Seq<u64>|
            entries_fit(id_entries(ids)) && #[trigger] spec_encode_entries(id_entries(ids))
                == b@ implies ev == id_entries(ids) by {
            assert(encodes(id_entries(ids), b@));
        }
        assert(id_entries(out@) =~= ev.subrange(0, 0));
    }
    let mut i: usize = 0;
    while i < entries.len()
        invariant
            i <= entries@.len(),
            ev == entries_view(entries@),
            encodes(ev, b@),
            forall|ids: Seq<u64>|
                entries_fit(id_entries(ids)) && #[trigger] spec_encode_entries(id_entries(ids))
                    == b@ ==> ev == id_entries(ids),
            id_entries(out@) == ev.subrange(0, i as int),
        decreases entries@.len() - i,
    {
        if entries[i].1.len() != 0 {
            proof {
                assert forall|ids: Seq<u64>|
                    entries_fit(id_entries(ids)) && #[trigger] spec_encode_entries(id_entries(ids))
                        == b@ implies false by {
                    assert(ev[i as int] == id_entries(ids)[i as int]);
                }
            }
            return None;
        }
        let id = entries[i].0;
        proof {
            assert(ev[i as int] == (id, Seq::<u8>::empty()));
            assert(id_entries(out@.push(id)) =~= id_entries(out@).push((id, Seq::<u8>::empty())));
            assert(ev.subrange(0, i + 1) =~= ev.subrange(0, i as int).push(ev[i as int]));
        }
        out.push_back(id);
        i = i + 1;
    }
    proof {
        assert(ev.subrange(0, i as int) =~= ev);
        assert forall|ids: Seq<u64>|
            entries_fit(id_entries(ids)) && #[trigger] spec_encode_entries(id_entries(ids))
                == b@ implies out@ == ids by {
            assert(id_entries(out@) == id_entries(ids));
            assert(out@.len() == ids.len());
            assert forall|j: int| 0 <= j < ids.len() implies out@[j] == ids[j] by {
                assert(id_entries(out@)[j] == id_entries(ids)[j]);
            }
            assert(out@ =~= ids);
        }
    }
    Some(out)
}

/// The performance samples and counters as plain values.
pub open spec fn perf_view(p: PerformanceCounts) -> (
    Seq<(u64, u64, Seq<char>)>,
    Option<Seq<u64>>,
    Option<u32>,
) {
    (
        samples_view(p.instruction_counts@),
        match p.exceptional_transactions {
            Some(v) => Some(v@),
            None => None,
        },
        p.periodic_tasks_count,
    )
}

/// The three parts of the encoding: the samples, the exceptional ids (empty when there is no
/// list) and the periodic task count (empty when there is none).
pub open spec fn spec_perf_parts(v: (Seq<(u64, u64, Seq<char>)>, Option<Seq<u64>>, Option<u32>)) -> Seq<
    (u64, Seq<u8>),
> {
    seq![
        (0u64, spec_encode_entries(sample_entries(v.0))),
        (
            1u64,
            match v.1 {
                Some(ids) => spec_encode_entries(id_entries(ids)),
                None => Seq::<u8>::empty(),
            },
        ),
        (
            2u64,
            match v.2 {
                Some(n) => spec_encode_entries(id_entries(seq![n as u64])),
                None => Seq::<u8>::empty(),
            },
        ),
    ]
}

/// The encoding of performance samples and counters.
pub open spec fn spec_encode_perf(v: (Seq<(u64, u64, Seq<char>)>, Option<Seq<u64>>, Option<u32>)) -> Seq<
    u8,
> {
    spec_encode_entries(spec_perf_parts(v))
}

/// Whether every length in the encoding fits in a `u64`.
pub open spec fn perf_fits(v: (Seq<(u64, u64, Seq<char>)>, Option<Seq<u64>>, Option<u32>)) -> bool {
    &&& samples_fit(v.0)
    &&& v.1 matches Some(ids) ==> entries_fit(id_entries(ids))
    &&& entries_fit(spec_perf_parts(v))
}

proof fn lemma_encoding_not_empty(s: Seq<(u64, Seq<u8>)>)
    ensures
        spec_encode_entries(s).len() >= 8,
{
    lemma_auto_spec_u64_to_from_le_bytes();
}

/// Encodes performance samples and counters.
pub fn encode_performance(p: &PerformanceCounts) -> (r: Vec<u8>)
    ensures
        r@ == spec_encode_perf(perf_view(*p)),
{
    let samples = encode_samples(&p.instruction_counts);
    let ids: Vec<u8> = match &p.exceptional_transactions {
        Some(v) => encode_ids(v),
        None => Vec::new(),
    };
    let periodic: Vec<u8> = match p.periodic_tasks_count {
        Some(n) => {
            let mut one: VecDeque<u64> = VecDeque::new();
            one.push_back(n as u64);
            proof {
                assert(one@ =~= seq![n as u64]);
            }
            encode_ids(&one)
        },
        None => Vec::new(),
    };
    let mut parts: Vec<(u64, Vec<u8>)> = Vec::new();
    parts.push((0, samples));
    parts.push((1, ids));
    parts.push((2, periodic));
    proof {
        assert(entries_view(parts@) =~= spec_perf_parts(perf_view(*p)));
    }
    encode_entries(&parts)
}

/// Decodes performance samples and counters; `None` when the bytes are not their encoding.
pub fn decode_performance(b: &[u8]) -> (r: Option<PerformanceCounts>)
    ensures
        r matches Some(p) ==> spec_encode_perf(perf_view(p)) == b@,
        forall|v: (Seq<(u64, u64, Seq<char>)>, Option<Seq<u64>>, Option<u32>)|
            perf_fits(v) && #[trigger] spec_encode_perf(v) == b@ ==> (r matches Some(p)
                && perf_view(p) == v),
{
    let parts = match decode_entries(b) {
        Some(e) => e,
        None => {
            proof {
                assert forall|v: (Seq<(u64, u64, Seq<char>)>, Option<Seq<u64>>, Option<u32>)|
                    perf_fits(v) && #[trigger] spec_encode_perf(v) == b@ implies false by {
                    assert(encodes(spec_perf_parts(v), b@));
                }
            }
            return None;
        },
    };
    let ghost pv = entries_view(parts@);
    proof {
        assert forall|v: (Seq<(u64, u64, Seq<char>)>, Option<Seq<u64>>, Option<u32>)|
            perf_fits(v) && #[trigger] spec_encode_perf(v) == b@ implies pv == spec_perf_parts(v) by {
            assert(encodes(spec_perf_parts(v), b@));
        }
    }
    if parts.len() != 3 || parts[0].0 != 0 || parts[1].0 != 1 || parts[2].0 != 2 {
        proof {
            assert forall|v: (Seq<(u64, u64, Seq<char>)>, Option<Seq<u64>>, Option<u32>)|
                perf_fits(v) && #[trigger] spec_encode_perf(v) == b@ implies false by {
                assert(pv == spec_perf_parts(v));
                assert(pv[0].0 == parts@[0].0);
                assert(pv[1].0 == parts@[1].0);
                assert(pv[2].0 == parts@[2].0);
            }
        }
        return None;
    }
    let samples = match decode_samples(parts[0].1.as_slice()) {
        Some(s) => s,
        None => {
            proof {
                assert forall|v: (Seq<(u64, u64, Seq<char>)>, Option<Seq<u64>>, Option<u32>)|
                    perf_fits(v) && #[trigger] spec_encode_perf(v) == b@ implies false by {
                    assert(pv == spec_perf_parts(v));
                    assert(spec_encode_entries(sample_entries(v.0)) == parts@[0].1@);
                }
            }
            return None;
        },
    };
    let exceptional: Option<VecDeque<u64>> = if parts[1].1.len() == 0 {
        None
    } else {
        match decode_ids(parts[1].1.as_slice()) {
            Some(ids) => Some(ids),
            None => {
                proof {
                    assert forall|v: (Seq<(u64, u64, Seq<char>)>, Option<Seq<u64>>, Option<u32>)|
                        perf_fits(v) && #[trigger] spec_encode_perf(v) == b@ implies false by {
                        assert(pv == spec_perf_parts(v));
                        if v.1 is None {
                            assert(parts@[1].1@.len() == 0);
                        } else {
                            assert(spec_encode_entries(id_entries(v.1.unwrap())) == parts@[1].1@);
                        }
                    }
                }
                return None;
            },
        }
    };
    let periodic: Option<u32> = if parts[2].1.len() == 0 {
        None
    } else {
        match decode_ids(parts[2].1.as_slice()) {
            Some(ids) => {
                if ids.len() != 1 || ids[0] > u32::MAX as u64 {
                    proof {
                        assert forall|
                            v: (Seq<(u64, u64, Seq<char>)>, Option<Seq<u64>>, Option<u32>),
                        | perf_fits(v) && #[trigger] spec_encode_perf(v) == b@ implies false by {
                            assert(pv == spec_perf_parts(v));
                            if v.2 is None {
                                assert(parts@[2].1@.len() == 0);
                            } else {
                                let one = seq![v.2.unwrap() as u64];
                                assert(entries_fit(id_entries(one)));
                                assert(spec_encode_entries(id_entries(one)) == parts@[2].1@);
                            }
                        }
                    }
                    return None;
                }
                let n = ids[0] as u32;
                proof {
                    assert(ids@ =~= seq![n as u64]);
                }
                Some(n)
            },
            None => {
                proof {
                    assert forall|v: (Seq<(u64, u64, Seq<char>)>, Option<Seq<u64>>, Option<u32>)|
                        perf_fits(v) && #[trigger] spec_encode_perf(v) == b@ implies false by {
                        assert(pv == spec_perf_parts(v));
                        if v.2 is None {
                            assert(parts@[2].1@.len() == 0);
                        } else {
                            let one = seq![v.2.unwrap() as u64];
                            assert(entries_fit(id_entries(one)));
                            assert(spec_encode_entries(id_entries(one)) == parts@[2].1@);
                        }
                    }
                }
                return None;
            },
        }
    };
    let p = PerformanceCounts {
        instruction_counts: samples,
        exceptional_transactions: exceptional,
        periodic_tasks_count: periodic,
    };
    proof {
        assert(spec_perf_parts(perf_view(p))[0] == pv[0]);
        assert(spec_perf_parts(perf_view(p))[1] == pv[1]) by {
            if exceptional is Some {
            }
        }
        assert(spec_perf_parts(perf_view(p))[2] == pv[2]);
        assert(spec_perf_parts(perf_view(p)) =~= pv);
        assert forall|v: (Seq<(u64, u64, Seq<char>)>, Option<Seq<u64>>, Option<u32>)|
            perf_fits(v) && #[trigger] spec_encode_perf(v) == b@ implies perf_view(p) == v by {
            assert(pv == spec_perf_parts(v));
            lemma_encoding_not_empty(sample_entries(v.0));
            if let Some(ids) = v.1 {
                lemma_encoding_not_empty(id_entries(ids));
            }
            if let Some(n) = v.2 {
                lemma_encoding_not_empty(id_entries(seq![n as u64]));
                assert(entries_fit(id_entries(seq![n as u64])));
            }
        }
    }
    Some(p)
}

/// The samples and counters that a load restores from `bytes`: those that the bytes
/// encode, or none at all when they encode none.
pub open spec fn samples_restored(p: PerformanceCounts, bytes: Seq<u8>) -> bool {
    &&& spec_encode_perf(perf_view(p)) == bytes || crate::state::no_samples(p)
    &&& forall|v: (Seq<(u64, u64, Seq<char>)>, Option<Seq<u64>>, Option<u32>)|
        perf_fits(v) && #[trigger] spec_encode_perf(v) == bytes ==> perf_view(p) == v
}

/// Decodes performance samples and counters, starting with none when the bytes cannot be
/// read: they are diagnostic, and unreadable ones are no reason to fail a load.
pub fn decode_performance_or_default(b: &[u8]) -> (r: PerformanceCounts)
    ensures
        samples_restored(r, b@),
{
    match decode_performance(b) {
        Some(p) => p,
        None => PerformanceCounts {
            instruction_counts: VecDeque::new(),
            exceptional_transactions: None,
            periodic_tasks_count: None,
        },
    }
}

impl crate::state::StableState for PerformanceCounts {
    /// The flat encoding of the samples and counters.
    fn encode(&self) -> (r: Vec<u8>)
        ensures
            r@ == spec_encode_perf(perf_view(*self)),
    {
        encode_performance(self)
    }

    /// Reads samples and counters; bytes that cannot be read give none, never an error.
    fn decode(bytes: Vec<u8>) -> (r: Result<PerformanceCounts, String>)
        ensures
            r matches Ok(p) && samples_restored(p, bytes@),
    {
        Ok(decode_performance_or_default(bytes.as_slice()))
    }
}

} // verus!
