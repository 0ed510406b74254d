//! Domain names, as they are written and as they stand in a packet.

use vstd::prelude::*;

use crate::error::ErrorKind;

verus! {

/// The character that separates the labels of a domain name.
pub const DOT: u8 = 46;

/// A byte below this announces a label: it is the length of what follows it.
pub const LABEL_LIMIT: u8 = 128;

/// How many bytes of `name` stand in front of its first dot.
pub open spec fn label_len(name: Seq<u8>) -> nat
    decreases name.len(),
{
    if name.len() == 0 || name[0] == DOT {
        0
    } else {
        1 + label_len(name.skip(1))
    }
}

/// The labels of a domain name: its longest runs without a dot, but for the
/// empty ones.
pub open spec fn labels(name: Seq<u8>) -> Seq<Seq<u8>>
    decreases name.len(),
{
    if name.len() == 0 {
        Seq::empty()
    } else if name[0] == DOT {
        labels(name.skip(1))
    } else {
        proof {
            lemma_label_len(name);
        }
        let length = label_len(name) as int;
        seq![name.take(length)] + labels(name.skip(length))
    }
}

/// Whether every label is short enough for its length to announce it.
pub open spec fn labels_fit(labels: Seq<Seq<u8>>) -> bool {
    forall|i: int| 0 <= i < labels.len() ==> (#[trigger] labels[i]).len() < LABEL_LIMIT
}

/// A domain name in a packet: each label behind its length, then a zero.
pub open spec fn wire_name(labels: Seq<Seq<u8>>) -> Seq<u8>
    decreases labels.len(),
{
    if labels.len() == 0 {
        seq![0u8]
    } else {
        seq![labels[0].len() as u8] + labels[0] + wire_name(labels.skip(1))
    }
}

/// Where the name that starts at `at` in `bytes` ends, if it does.
///
/// A name is a run of labels, each behind a byte that gives its length. It ends
/// with a zero, or with two bytes that point to the rest of the name elsewhere;
/// the first of those two is no length.
pub open spec fn name_end(bytes: Seq<u8>, at: int) -> Option<int>
    decreases (if at < bytes.len() { bytes.len() - at } else { 0 }),
{
    if at < 0 || at >= bytes.len() {
        None
    } else if bytes[at] == 0 {
        Some(at + 1)
    } else if bytes[at] < LABEL_LIMIT {
        name_end(bytes, at + 1 + bytes[at])
    } else if at + 2 <= bytes.len() {
        Some(at + 2)
    } else {
        None
    }
}

/// The first label lies within the name, holds no dot, and has one behind it
/// unless it is all there is.
pub proof fn lemma_label_len(name: Seq<u8>)
    ensures
        label_len(name) <= name.len(),
        forall|i: int| 0 <= i < label_len(name) ==> #[trigger] name[i] != DOT,
        label_len(name) < name.len() ==> name[label_len(name) as int] == DOT,
    decreases name.len(),
{
    if name.len() != 0 && name[0] != DOT {
        let rest = name.skip(1);
        lemma_label_len(rest);
        assert forall|i: int| 0 <= i < label_len(name) implies #[trigger] name[i] != DOT by {
            if i > 0 {
                assert(name[i] == rest[i - 1]);
            }
        }
    }
}

/// A run of bytes without a dot, up to a dot or to the end, is the first label.
pub proof fn lemma_label_len_is(name: Seq<u8>, length: int)
    requires
        0 <= length <= name.len(),
        forall|i: int| 0 <= i < length ==> #[trigger] name[i] != DOT,
        length < name.len() ==> name[length] == DOT,
    ensures
        label_len(name) == length,
{
    lemma_label_len(name);
    let found = label_len(name) as int;
    if found < length {
        assert(name[found] != DOT);
    }
}

/// Cutting a first label off: what it adds to the labels of a name, to their
/// fitting into a packet, and to the packet.
pub proof fn lemma_first_label(name: Seq<u8>)
    requires
        name.len() > 0,
        name[0] != DOT,
    ensures
        ({
            let length = label_len(name) as int;
            let rest = labels(name.skip(length));
            &&& 0 < length <= name.len()
            &&& labels(name) == seq![name.take(length)] + rest
            &&& labels_fit(labels(name)) <==> length < LABEL_LIMIT && labels_fit(rest)
            &&& wire_name(labels(name)) == seq![length as u8] + name.take(length) + wire_name(rest)
        }),
{
    lemma_label_len(name);
    let length = label_len(name) as int;
    let rest = labels(name.skip(length));
    let all = labels(name);
    assert(all[0] == name.take(length));
    assert(all.skip(1) =~= rest);
    assert forall|i: int| 0 <= i < rest.len() implies #[trigger] rest[i] == all[i + 1] by {}
    if labels_fit(all) {
        assert forall|i: int| 0 <= i < rest.len() implies (#[trigger] rest[i]).len()
            < LABEL_LIMIT by {
            assert(all[i + 1].len() < LABEL_LIMIT);
        }
    }
    if length < LABEL_LIMIT && labels_fit(rest) {
        assert forall|i: int| 0 <= i < all.len() implies (#[trigger] all[i]).len()
            < LABEL_LIMIT by {
            if i > 0 {
                assert(all[i] == rest[i - 1]);
            }
        }
    }
}

/// No label of a name is empty, and none holds a dot.
pub proof fn lemma_labels_are_runs(name: Seq<u8>)
    ensures
        forall|i: int| 0 <= i < labels(name).len() ==> (#[trigger] labels(name)[i]).len() > 0,
        forall|i: int, j: int|
            0 <= i < labels(name).len() && 0 <= j < labels(name)[i].len()
                ==> #[trigger] labels(name)[i][j] != DOT,
    decreases name.len(),
{
    let all = labels(name);
    if name.len() > 0 && name[0] == DOT {
        lemma_labels_are_runs(name.skip(1));
        assert(all == labels(name.skip(1)));
    } else if name.len() > 0 {
        lemma_first_label(name);
        lemma_label_len(name);
        let length = label_len(name) as int;
        let rest = labels(name.skip(length));
        lemma_labels_are_runs(name.skip(length));
        assert forall|i: int| 0 <= i < all.len() implies (#[trigger] all[i]).len() > 0 by {
            if i > 0 {
                assert(all[i] == rest[i - 1]);
            }
        }
        assert forall|i: int, j: int|
            0 <= i < all.len() && 0 <= j < all[i].len() implies #[trigger] all[i][j] != DOT by {
            if i > 0 {
                assert(all[i] == rest[i - 1]);
                assert(rest[i - 1][j] != DOT);
            }
        }
    }
}

/// A name in a packet takes up a byte at least.
pub proof fn lemma_wire_name_len(labels: Seq<Seq<u8>>)
    ensures
        wire_name(labels).len() >= 1,
    decreases labels.len(),
{
    if labels.len() > 0 {
        lemma_wire_name_len(labels.skip(1));
    }
}

/// The size of a name in a packet is found again, whatever stands behind it.
pub proof fn lemma_wire_name_ends(labels: Seq<Seq<u8>>, before: Seq<u8>, behind: Seq<u8>)
    requires
        labels_fit(labels),
        forall|i: int| 0 <= i < labels.len() ==> (#[trigger] labels[i]).len() > 0,
    ensures
        name_end(before + wire_name(labels) + behind, before.len() as int) == Some(
            (before.len() + wire_name(labels).len()) as int,
        ),
    decreases labels.len(),
{
    let bytes = before + wire_name(labels) + behind;
    if labels.len() == 0 {
        assert(bytes[before.len() as int] == 0);
    } else {
        let first = seq![labels[0].len() as u8] + labels[0];
        let rest = labels.skip(1);
        assert forall|i: int| 0 <= i < rest.len() implies 0 < (#[trigger] rest[i]).len()
            < LABEL_LIMIT by {
            assert(rest[i] == labels[i + 1]);
        }
        lemma_wire_name_ends(rest, before + first, behind);
        assert(bytes =~= (before + first) + wire_name(rest) + behind);
        assert(bytes[before.len() as int] == labels[0].len());
    }
}

/// A name that ends does so within the packet, and takes up a byte at least.
pub proof fn lemma_name_end_bounds(bytes: Seq<u8>, at: int)
    ensures
        name_end(bytes, at) matches Some(end) ==> at < end <= bytes.len(),
    decreases (if at < bytes.len() { bytes.len() - at } else { 0 }),
{
    if 0 <= at < bytes.len() && 0 < bytes[at] < LABEL_LIMIT {
        lemma_name_end_bounds(bytes, at + 1 + bytes[at]);
    }
}

/// Where a name ends depends on nothing in front of it: a part of the packet
/// can be cut off there.
pub proof fn lemma_name_end_shift(bytes: Seq<u8>, from: int, at: int)
    requires
        0 <= from <= bytes.len(),
        0 <= at,
    ensures
        name_end(bytes.skip(from), at) == (match name_end(bytes, from + at) {
            Some(end) => Some(end - from),
            None => None,
        }),
    decreases (if at < bytes.len() { bytes.len() - at } else { 0 }),
{
    let rest = bytes.skip(from);
    if at < rest.len() {
        assert(rest[at] == bytes[from + at]);
        if 0 < rest[at] < LABEL_LIMIT {
            lemma_name_end_shift(bytes, from, at + 1 + rest[at]);
        }
    }
}

/// Returns where the label ends that starts at `from`.
pub fn label_end(name: &[u8], from: usize) -> (end: usize)
    requires
        from <= name.len(),
    ensures
        from <= end <= name.len(),
        end - from == label_len(name@.skip(from as int)),
{
    let mut end: usize = from;
    let ghost label = name@.skip(from as int);
    while end < name.len() && name[end] != DOT
        invariant
            from <= end <= name.len(),
            label == name@.skip(from as int),
            forall|i: int| 0 <= i < end - from ==> #[trigger] label[i] != DOT,
        decreases name.len() - end,
    {
        end = end + 1;
    }
    proof {
        lemma_label_len_is(label, end - from);
    }
    end
}

/// Returns how many bytes the name takes up that `buffer` starts with.
///
/// Where it ends before the name does, the data is malformed.
pub fn name_size(buffer: &[u8]) -> (result: Result<usize, ErrorKind>)
    ensures
        result == (match name_end(buffer@, 0) {
            Some(end) => Ok::<usize, ErrorKind>(end as usize),
            None => Err(ErrorKind::InvalidData),
        }),
        result matches Ok(size) ==> 0 < size <= buffer@.len() && name_end(buffer@, 0) == Some(
            size as int,
        ),
{
    proof {
        lemma_name_end_bounds(buffer@, 0);
    }
    let mut pos: usize = 0;
    loop
        invariant
            pos <= buffer@.len(),
            name_end(buffer@, 0) == name_end(buffer@, pos as int),
            name_end(buffer@, 0) matches Some(end) ==> 0 < end <= buffer@.len(),
        decreases buffer@.len() - pos,
    {
        if pos >= buffer.len() {
            return Err(ErrorKind::InvalidData);
        }
        let byte: u8 = buffer[pos];
        pos = pos + 1;
        if byte == 0 {
            return Ok(pos);
        } else if byte < LABEL_LIMIT {
            if byte as usize >= buffer.len() - pos {
                assert(name_end(buffer@, pos + byte) is None);
                return Err(ErrorKind::InvalidData);
            }
            pos = pos + byte as usize;
        } else if pos < buffer.len() {
            return Ok(pos + 1);
        } else {
            return Err(ErrorKind::InvalidData);
        }
    }
}

} // verus!
