//! The flat record encoding of the dataset: a little-endian entry count, then for
//! each entry its key, the length of its value and the value's bytes.
use vstd::prelude::*;
use vstd::bytes::{
    spec_u64_from_le_bytes, spec_u64_to_le_bytes, lemma_auto_spec_u64_to_from_le_bytes,
    u64_from_le_bytes, u64_to_le_bytes,
};
use vstd::slice::{slice_subrange, slice_to_vec};

verus! {

/// One dataset entry as plain values: its key and the bytes of its value.
pub open spec fn entry_view(e: (u64, Vec<u8>)) -> (u64, Seq<u8>) {
    (e.0, e.1@)
}

/// A sequence of entries as plain values.
pub open spec fn entries_view(v: Seq<(u64, Vec<u8>)>) -> Seq<(u64, Seq<u8>)> {
    v.map_values(|e: (u64, Vec<u8>)| entry_view(e))
}

/// Whether every length in the entries can be written as a `u64`.
pub open spec fn entries_fit(s: Seq<(u64, Seq<u8>)>) -> bool {
    &&& s.len() <= u64::MAX
    &&& forall|i: int| 0 <= i < s.len() ==> #[trigger] s[i].1.len() <= u64::MAX
}

/// The bytes of one entry.
pub open spec fn spec_entry_bytes(key: u64, value: Seq<u8>) -> Seq<u8> {
    spec_u64_to_le_bytes(key) + spec_u64_to_le_bytes(value.len() as u64) + value
}

/// The bytes of the entries, one after another, without the count.
pub open spec fn spec_entries_body(s: Seq<(u64, Seq<u8>)>) -> Seq<u8>
    decreases s.len(),
{
    if s.len() == 0 {
        Seq::empty()
    } else {
        spec_entries_body(s.drop_last()) + spec_entry_bytes(s.last().0, s.last().1)
    }
}

/// The encoding of a sequence of entries.
pub open spec fn spec_encode_entries(s: Seq<(u64, Seq<u8>)>) -> Seq<u8> {
    spec_u64_to_le_bytes(s.len() as u64) + spec_entries_body(s)
}

proof fn lemma_body_step(s: Seq<(u64, Seq<u8>)>, i: int)
    requires
        0 <= i < s.len(),
    ensures
        spec_entries_body(s.take(i + 1)) == spec_entries_body(s.take(i)) + spec_entry_bytes(
            s[i].0,
            s[i].1,
        ),
{
    assert(s.take(i + 1).drop_last() =~= s.take(i));
}

proof fn lemma_body_prefix(s: Seq<(u64, Seq<u8>)>, k: int)
    requires
        0 <= k <= s.len(),
    ensures
        spec_entries_body(s.take(k)).len() <= spec_entries_body(s).len(),
        spec_entries_body(s).subrange(0, spec_entries_body(s.take(k)).len() as int)
            == spec_entries_body(s.take(k)),
    decreases s.len(),
{
    if k == s.len() {
        assert(s.take(k) =~= s);
    } else {
        let d = s.drop_last();
        assert(d.take(k) =~= s.take(k));
        lemma_body_prefix(d, k);
        let bd = spec_entries_body(d);
        let bk = spec_entries_body(s.take(k));
        assert(spec_entries_body(s) == bd + spec_entry_bytes(s.last().0, s.last().1));
        assert(spec_entries_body(s).subrange(0, bk.len() as int) =~= bd.subrange(
            0,
            bk.len() as int,
        ));
    }
}

/// Appends bytes to a buffer.
pub(crate) fn push_bytes(out: &mut Vec<u8>, bytes: &[u8])
    ensures
        final(out)@ == old(out)@ + bytes@,
{
    let mut i: usize = 0;
    while i < bytes.len()
        invariant
            i <= bytes@.len(),
            out@ == old(out)@ + bytes@.subrange(0, i as int),
        decreases bytes@.len() - i,
    {
        out.push(bytes[i]);
        i = i + 1;
        assert(out@ =~= old(out)@ + bytes@.subrange(0, i as int));
    }
    assert(bytes@.subrange(0, i as int) =~= bytes@);
}

/// Encodes entries in the flat record encoding.
pub fn encode_entries(entries: &Vec<(u64, Vec<u8>)>) -> (r: Vec<u8>)
    ensures
        r@ == spec_encode_entries(entries_view(entries@)),
        entries_fit(entries_view(entries@)),
{
    let ghost s = entries_view(entries@);
    let mut out: Vec<u8> = u64_to_le_bytes(entries.len() as u64);
    let mut i: usize = 0;
    while i < entries.len()
        invariant
            s == entries_view(entries@),
            i <= entries@.len(),
            out@ == spec_u64_to_le_bytes(entries@.len() as u64) + spec_entries_body(
                s.take(i as int),
            ),
            forall|j: int| 0 <= j < i ==> #[trigger] s[j].1.len() <= u64::MAX,
        decreases entries@.len() - i,
    {
        let key = entries[i].0;
        let value = &entries[i].1;
        let key_bytes = u64_to_le_bytes(key);
        let len_bytes = u64_to_le_bytes(value.len() as u64);
        push_bytes(&mut out, key_bytes.as_slice());
        push_bytes(&mut out, len_bytes.as_slice());
        push_bytes(&mut out, value.as_slice());
        proof {
            lemma_body_step(s, i as int);
            assert(s[i as int] == entry_view(entries@[i as int]));
        }
        i = i + 1;
        assert(out@ =~= spec_u64_to_le_bytes(entries@.len() as u64) + spec_entries_body(
            s.take(i as int),
        ));
    }
    assert(s.take(i as int) =~= s);
    out
}

/// Reads the little-endian `u64` at `pos`, if eight bytes are there.
fn read_u64(b: &[u8], pos: usize) -> (r: Option<u64>)
    requires
        pos <= b@.len(),
    ensures
        b@.len() - pos >= 8 ==> r == Some(spec_u64_from_le_bytes(b@.subrange(pos as int, pos + 8))),
        b@.len() - pos < 8 ==> r is None,
{
    if b.len() - pos < 8 {
        None
    } else {
        Some(u64_from_le_bytes(slice_subrange(b, pos, pos + 8)))
    }
}

/// Whether `s` is a sequence of entries whose encoding is `b`.
pub open spec fn encodes(s: Seq<(u64, Seq<u8>)>, b: Seq<u8>) -> bool {
    entries_fit(s) && spec_encode_entries(s) == b
}

/// Decodes the flat record encoding. Exactly the encodings of entry sequences are
/// accepted, and each gives back the sequence it encodes.
pub fn decode_entries(b: &[u8]) -> (r: Option<Vec<(u64, Vec<u8>)>>)
    ensures
        r matches Some(v) ==> encodes(entries_view(v@), b@),
        forall|s: Seq<(u64, Seq<u8>)>|
            #[trigger] encodes(s, b@) ==> (r matches Some(v) && entries_view(v@) == s),
{
    proof {
        lemma_auto_spec_u64_to_from_le_bytes();
    }
    let count = match read_u64(b, 0) {
        Some(c) => c,
        None => return None,
    };
    let ghost head = b@.subrange(0, 8);
    proof {
        assert forall|s: Seq<(u64, Seq<u8>)>| #[trigger] encodes(s, b@) implies count == s.len() by {
            assert(head =~= spec_u64_to_le_bytes(s.len() as u64));
        }
    }
    let mut out: Vec<(u64, Vec<u8>)> = Vec::new();
    let mut pos: usize = 8;
    let mut i: u64 = 0;
    while i < count
        invariant
            8 <= pos <= b@.len(),
            i <= count,
            out@.len() == i,
            entries_fit(entries_view(out@)),
            head == b@.subrange(0, 8),
            count == spec_u64_from_le_bytes(head),
            b@.subrange(0, pos as int) == head + spec_entries_body(entries_view(out@)),
            forall|s: Seq<(u64, Seq<u8>)>|
                #[trigger] encodes(s, b@) ==> count == s.len() && entries_view(out@) == s.take(
                    i as int,
                ),
        decreases count - i,
    {
        proof {
            assert forall|s: Seq<(u64, Seq<u8>)>| #[trigger] encodes(s, b@) implies {
                &&& pos + 16 + s[i as int].1.len() <= b@.len()
                &&& spec_u64_from_le_bytes(b@.subrange(pos as int, pos + 8)) == s[i as int].0
                &&& spec_u64_from_le_bytes(b@.subrange(pos + 8, pos + 16)) == s[i as int].1.len()
                &&& b@.subrange(pos + 16, pos + 16 + s[i as int].1.len()) == s[i as int].1
            } by {
                assert(b@.subrange(0, pos as int).len() == pos);
                assert(head.len() == 8);
                assert(spec_entries_body(entries_view(out@)).len() == pos - 8);
                lemma_entry_at(b@, s, i as int, pos as int);
            }
        }
        if b.len() - pos < 16 {
            return None;
        }
        let key = match read_u64(b, pos) {
            Some(k) => k,
            None => return None,
        };
        let len = match read_u64(b, pos + 8) {
            Some(l) => l,
            None => return None,
        };
        if len > (b.len() - pos - 16) as u64 {
            return None;
        }
        let start = pos + 16;
        let end = start + len as usize;
        let value = slice_to_vec(slice_subrange(b, start, end));
        proof {
            let old_view = entries_view(out@);
            let e = (key, value);
            assert(entries_view(out@.push(e)) =~= old_view.push(entry_view(e)));
            assert(old_view.push(entry_view(e)).drop_last() =~= old_view);
            lemma_auto_spec_u64_to_from_le_bytes();
            let kb = b@.subrange(pos as int, pos + 8);
            let lb = b@.subrange(pos + 8, pos + 16);
            assert(spec_u64_to_le_bytes(spec_u64_from_le_bytes(kb)) == kb);
            assert(spec_u64_to_le_bytes(spec_u64_from_le_bytes(lb)) == lb);
            assert(b@.subrange(0, end as int) =~= b@.subrange(0, pos as int) + spec_entry_bytes(
                key,
                value@,
            ));
            assert(entries_fit(entries_view(out@.push(e)))) by {
                let nv = entries_view(out@.push(e));
                assert forall|j: int| 0 <= j < nv.len() implies #[trigger] nv[j].1.len()
                    <= u64::MAX by {
                    if j < out@.len() {
                        assert(nv[j] == old_view[j]);
                    }
                }
            }
            assert forall|s: Seq<(u64, Seq<u8>)>| #[trigger] encodes(s, b@) implies entries_view(
                out@.push(e),
            ) == s.take(i + 1) by {
                assert(s.take(i + 1) =~= s.take(i as int).push(s[i as int]));
            }
        }
        out.push((key, value));
        pos = end;
        i = i + 1;
    }
    proof {
        assert forall|s: Seq<(u64, Seq<u8>)>| #[trigger] encodes(s, b@) implies pos == b@.len()
            && entries_view(out@) == s by {
            assert(s.take(count as int) =~= s);
        }
    }
    if pos != b.len() {
        return None;
    }
    proof {
        assert(b@.subrange(0, pos as int) =~= b@);
        assert(spec_u64_to_le_bytes(count) == head);
        assert(entries_view(out@).len() == count);
    }
    Some(out)
}

/// Where the bytes are the encoding of `s` and the first `i` entries end at `pos`,
/// entry `i` stands at `pos`.
proof fn lemma_entry_at(b: Seq<u8>, s: Seq<(u64, Seq<u8>)>, i: int, pos: int)
    requires
        entries_fit(s),
        spec_encode_entries(s) == b,
        0 <= i < s.len(),
        pos == 8 + spec_entries_body(s.take(i)).len(),
    ensures
        pos + 16 + s[i].1.len() <= b.len(),
        b.subrange(pos, pos + 8) == spec_u64_to_le_bytes(s[i].0),
        b.subrange(pos + 8, pos + 16) == spec_u64_to_le_bytes(s[i].1.len() as u64),
        b.subrange(pos + 16, pos + 16 + s[i].1.len()) == s[i].1,
        spec_u64_from_le_bytes(b.subrange(pos, pos + 8)) == s[i].0,
        spec_u64_from_le_bytes(b.subrange(pos + 8, pos + 16)) == s[i].1.len(),
{
    lemma_auto_spec_u64_to_from_le_bytes();
    lemma_body_step(s, i);
    lemma_body_prefix(s, i + 1);
    let e = spec_entry_bytes(s[i].0, s[i].1);
    let bi = spec_entries_body(s.take(i));
    let bi1 = spec_entries_body(s.take(i + 1));
    let body = spec_entries_body(s);
    assert(b == spec_u64_to_le_bytes(s.len() as u64) + body);
    assert(bi1 == bi + e);
    assert(body.subrange(0, bi1.len() as int) == bi1);
    assert forall|j: int| 0 <= j < e.len() implies b[pos + j] == e[j] by {
        assert(b[pos + j] == body[bi.len() + j]);
        assert(body[bi.len() + j] == body.subrange(0, bi1.len() as int)[bi.len() + j]);
        assert(bi1[bi.len() + j] == e[j]);
    }
    assert(s[i].1.len() <= u64::MAX);
    assert(b.subrange(pos, pos + 8) =~= e.subrange(0, 8));
    assert(e.subrange(0, 8) =~= spec_u64_to_le_bytes(s[i].0));
    assert(b.subrange(pos + 8, pos + 16) =~= e.subrange(8, 16));
    assert(e.subrange(8, 16) =~= spec_u64_to_le_bytes(s[i].1.len() as u64));
    assert(b.subrange(pos + 16, pos + 16 + s[i].1.len()) =~= e.subrange(16, e.len() as int));
    assert(e.subrange(16, e.len() as int) =~= s[i].1);
}

} // verus!
