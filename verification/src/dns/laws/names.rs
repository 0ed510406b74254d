//! What holds of domain names, as they are written and as they stand in a packet.

use vstd::prelude::*;

use crate::dns::name::{label_len, labels, labels_fit, lemma_first_label, lemma_label_len};
use crate::dns::name::{lemma_label_len_is, lemma_labels_are_runs, name_end, wire_name};

verus! {

/// Whether a byte is no dot.
pub open spec fn is_no_dot(byte: u8) -> bool {
    byte != 46
}

/// A name is split at its dots, and nowhere else: what stands in front of a dot is
/// a label, unless it is empty, and so is what stands behind the last dot.
pub proof fn law_names_are_split_at_dots(label: Seq<u8>, rest: Seq<u8>)
    requires
        forall|i: int| 0 <= i < label.len() ==> #[trigger] label[i] != 46,
    ensures
        labels(label + seq![46u8] + rest) == (if label.len() == 0 {
            labels(rest)
        } else {
            seq![label] + labels(rest)
        }),
        labels(label) == (if label.len() == 0 {
            Seq::empty()
        } else {
            seq![label]
        }),
{
    let name = label + seq![46u8] + rest;
    let length = label.len() as int;
    let dotted = name.skip(length);
    assert(dotted.skip(1) =~= rest);
    assert(dotted[0] == 46);
    assert(labels(dotted) == labels(rest));
    if length == 0 {
        assert(dotted =~= name);
    } else {
        assert forall|i: int| 0 <= i < length implies #[trigger] name[i] != 46 by {
            assert(name[i] == label[i]);
        }
        lemma_label_len_is(name, length);
        assert(name[0] == label[0]);
        lemma_first_label(name);
        assert(name.take(length) =~= label);
        lemma_label_len_is(label, length);
        lemma_first_label(label);
        assert(label.take(length) =~= label);
        assert(label.skip(length) =~= Seq::empty());
        assert(labels(label) =~= seq![label]);
    }
}

/// Dots in front of a name make no difference.
pub proof fn law_leading_dots_do_not_matter(name: Seq<u8>)
    ensures
        labels(seq![46u8] + name) == labels(name),
{
    law_names_are_split_at_dots(Seq::empty(), name);
    assert(Seq::<u8>::empty() + seq![46u8] + name =~= seq![46u8] + name);
}

/// No byte of a name is lost: its labels, one behind the other, are the name
/// without its dots. None of them is empty, and none holds a dot.
pub proof fn law_no_byte_of_a_name_is_lost(name: Seq<u8>)
    ensures
        labels(name).flatten() == name.filter(|byte: u8| is_no_dot(byte)),
        forall|i: int| 0 <= i < labels(name).len() ==> (#[trigger] labels(name)[i]).len() > 0,
        forall|i: int, j: int|
            0 <= i < labels(name).len() && 0 <= j < labels(name)[i].len()
                ==> #[trigger] labels(name)[i][j] != 46,
    decreases name.len(),
{
    lemma_labels_are_runs(name);
    let no_dot = |byte: u8| is_no_dot(byte);
    let all = labels(name);
    if name.len() > 0 && name[0] == 46 {
        let dot = seq![46u8];
        let rest = name.skip(1);
        law_no_byte_of_a_name_is_lost(rest);
        law_leading_dots_do_not_matter(rest);
        assert(name =~= dot + rest);
        lemma_filter_of_two_parts(dot, rest);
        assert(dot.drop_last() =~= Seq::empty());
        assert(dot.filter(no_dot) =~= Seq::empty()) by {
            reveal_with_fuel(Seq::filter, 2);
        }
        assert(name.filter(no_dot) =~= rest.filter(no_dot));
    } else if name.len() > 0 {
        lemma_first_label(name);
        lemma_label_len(name);
        let length = label_len(name) as int;
        let label = name.take(length);
        let rest = name.skip(length);
        law_no_byte_of_a_name_is_lost(rest);
        assert(name =~= label + rest);
        lemma_filter_of_two_parts(label, rest);
        assert forall|i: int| 0 <= i < label.len() implies #[trigger] label[i] != 46 by {
            assert(label[i] == name[i]);
        }
        lemma_filter_of_no_dots(label);
        assert(all.drop_first() =~= labels(rest));
        assert(all.first() == label);
    }
}

proof fn lemma_filter_of_two_parts(first: Seq<u8>, second: Seq<u8>)
    ensures
        (first + second).filter(|byte: u8| is_no_dot(byte)) == first.filter(
            |byte: u8| is_no_dot(byte),
        ) + second.filter(|byte: u8| is_no_dot(byte)),
    decreases second.len(),
{
    let no_dot = |byte: u8| is_no_dot(byte);
    let both = first + second;
    if second.len() == 0 {
        assert(both =~= first);
        assert(both.filter(no_dot) =~= first.filter(no_dot) + second.filter(no_dot));
    } else {
        lemma_filter_of_two_parts(first, second.drop_last());
        assert(both.drop_last() =~= first + second.drop_last());
        assert(both.last() == second.last());
        assert(both.filter(no_dot) =~= first.filter(no_dot) + second.filter(no_dot));
    }
}

proof fn lemma_filter_of_no_dots(label: Seq<u8>)
    requires
        forall|i: int| 0 <= i < label.len() ==> #[trigger] label[i] != 46,
    ensures
        label.filter(|byte: u8| is_no_dot(byte)) == label,
    decreases label.len(),
{
    reveal(Seq::filter);
    let no_dot = |byte: u8| is_no_dot(byte);
    if label.len() > 0 {
        let front = label.drop_last();
        assert forall|i: int| 0 <= i < front.len() implies #[trigger] front[i] != 46 by {
            assert(front[i] == label[i]);
        }
        lemma_filter_of_no_dots(front);
        assert(label.last() == label[label.len() - 1]);
        assert(no_dot(label.last()));
        assert(front.push(label.last()) =~= label);
    }
}

/// Whether there is a dot among so many bytes of a name.
pub open spec fn has_dot_within(name: Seq<u8>, from: int, length: int) -> bool {
    exists|i: int| from <= i < from + length && #[trigger] name[i] == 46
}

/// The labels of a name are short enough just when there is a dot among any 128
/// bytes of it that stand one behind the other.
pub proof fn law_labels_fit_with_a_dot_in_time(name: Seq<u8>)
    ensures
        labels_fit(labels(name)) <==> forall|from: int|
            0 <= from <= name.len() - 128 ==> #[trigger] has_dot_within(name, from, 128),
    decreases name.len(),
{
    if name.len() > 0 && name[0] == 46 {
        let rest = name.skip(1);
        law_labels_fit_with_a_dot_in_time(rest);
        lemma_dots_of_the_rest(name, 1);
        assert(has_dot_within(name, 0, 128));
    } else if name.len() > 0 {
        lemma_first_label(name);
        lemma_label_len(name);
        let length = label_len(name) as int;
        let rest = name.skip(length);
        law_labels_fit_with_a_dot_in_time(rest);
        lemma_dots_of_the_rest(name, length);
        if length >= 128 {
            assert(!has_dot_within(name, 0, 128));
        } else {
            assert forall|from: int|
                0 <= from < length && from <= name.len() - 128 implies #[trigger] has_dot_within(
                name,
                from,
                128,
            ) by {
                assert(name[length] == 46);
            }
        }
    }
}

/// From some byte on, dots come in time just when they do in the rest of the name.
proof fn lemma_dots_of_the_rest(name: Seq<u8>, cut: int)
    requires
        0 <= cut <= name.len(),
    ensures
        (forall|from: int|
            0 <= from <= name.skip(cut).len() - 128 ==> #[trigger] has_dot_within(
                name.skip(cut),
                from,
                128,
            )) <==> (forall|from: int|
            cut <= from <= name.len() - 128 ==> #[trigger] has_dot_within(name, from, 128)),
{
    let rest = name.skip(cut);
    assert forall|from: int| 0 <= from <= rest.len() - 128 implies #[trigger] has_dot_within(
        rest,
        from,
        128,
    ) == has_dot_within(name, from + cut, 128) by {
        if has_dot_within(rest, from, 128) {
            let i = choose|i: int| from <= i < from + 128 && #[trigger] rest[i] == 46;
            assert(name[i + cut] == 46);
        }
        if has_dot_within(name, from + cut, 128) {
            let i = choose|i: int| from + cut <= i < from + cut + 128 && #[trigger] name[i] == 46;
            assert(rest[i - cut] == 46);
        }
    }
    assert forall|from: int| cut <= from <= name.len() - 128 implies #[trigger] has_dot_within(
        name,
        from,
        128,
    ) == has_dot_within(rest, from - cut, 128) by {
        assert(has_dot_within(rest, from - cut, 128) == has_dot_within(name, from, 128));
    }
}

/// Where a label stands in a name in a packet: behind the labels in front of it,
/// each of which takes up a byte more than it has.
pub open spec fn label_offset(labels: Seq<Seq<u8>>, index: int) -> int
    decreases index,
{
    if index <= 0 {
        0
    } else {
        label_offset(labels, index - 1) + labels[index - 1].len() + 1
    }
}

proof fn lemma_label_offset_skips(labels: Seq<Seq<u8>>, index: int)
    requires
        1 <= index <= labels.len(),
    ensures
        label_offset(labels, index) == labels[0].len() + 1 + label_offset(
            labels.skip(1),
            index - 1,
        ),
        label_offset(labels.skip(1), index - 1) >= 0,
    decreases index,
{
    reveal_with_fuel(label_offset, 2);
    if index > 1 {
        lemma_label_offset_skips(labels, index - 1);
        assert(labels.skip(1)[index - 2] == labels[index - 1]);
    }
}

/// In a packet every label of a name stands behind its length, one label behind
/// the other, and behind the last of them there is a zero and nothing more.
pub proof fn law_labels_stand_behind_their_lengths(labels: Seq<Seq<u8>>, index: int)
    requires
        0 <= index < labels.len(),
        labels[index].len() < 256,
    ensures
        ({
            let at = label_offset(labels, index);
            let length = labels[index].len() as int;
            &&& 0 <= at
            &&& at + 1 + length < wire_name(labels).len()
            &&& wire_name(labels)[at] == length
            &&& wire_name(labels).subrange(at + 1, at + 1 + length) == labels[index]
        }),
    decreases labels.len(),
{
    let wire = wire_name(labels);
    let rest = wire_name(labels.skip(1));
    let head = seq![labels[0].len() as u8] + labels[0];
    assert(wire == head + rest);
    law_name_in_a_packet_ends_with_a_zero(labels.skip(1));
    if index == 0 {
        assert(wire.subrange(1, 1 + labels[0].len() as int) =~= labels[0]);
    } else {
        lemma_label_offset_skips(labels, index);
        assert(labels.skip(1)[index - 1] == labels[index]);
        law_labels_stand_behind_their_lengths(labels.skip(1), index - 1);
        let at = label_offset(labels.skip(1), index - 1);
        let length = labels[index].len() as int;
        assert(wire.subrange(
            head.len() + at + 1,
            head.len() + at + 1 + length,
        ) =~= rest.subrange(at + 1, at + 1 + length));
    }
}

/// A name in a packet is as long as its labels with a byte for each, and the zero
/// that it ends with.
pub proof fn law_name_in_a_packet_ends_with_a_zero(labels: Seq<Seq<u8>>)
    ensures
        wire_name(labels).len() == label_offset(labels, labels.len() as int) + 1,
        wire_name(labels).len() == labels.flatten().len() + labels.len() + 1,
        wire_name(labels).last() == 0,
    decreases labels.len(),
{
    if labels.len() > 0 {
        law_name_in_a_packet_ends_with_a_zero(labels.skip(1));
        lemma_label_offset_skips(labels, labels.len() as int);
        assert(labels.drop_first() =~= labels.skip(1));
    }
}

/// Whether a name in a packet can be walked from label to label, by those bytes
/// that give lengths, up to its end: a zero, or two bytes that point elsewhere.
pub open spec fn walks(bytes: Seq<u8>, stops: Seq<int>, end: int) -> bool {
    &&& stops.len() > 0
    &&& forall|i: int| 0 <= i < stops.len() ==> 0 <= #[trigger] stops[i] < bytes.len()
    &&& forall|i: int|
        0 <= i < stops.len() - 1 ==> {
            &&& 1 <= bytes[#[trigger] stops[i]] <= 127
            &&& stops[i + 1] == stops[i] + 1 + bytes[stops[i]]
        }
    &&& {
        ||| bytes[stops.last()] == 0 && end == stops.last() + 1
        ||| bytes[stops.last()] >= 128 && end == stops.last() + 2 && end <= bytes.len()
    }
}

/// A name ends where walking it does.
pub proof fn law_name_ends_where_walking_does(bytes: Seq<u8>, stops: Seq<int>, end: int)
    requires
        walks(bytes, stops, end),
    ensures
        name_end(bytes, stops[0]) == Some(end),
    decreases stops.len(),
{
    assert(0 <= stops[0] < bytes.len());
    if stops.len() > 1 {
        let rest = stops.skip(1);
        assert forall|i: int| 0 <= i < rest.len() implies 0 <= #[trigger] rest[i]
            < bytes.len() by {
            assert(rest[i] == stops[i + 1]);
        }
        assert forall|i: int| 0 <= i < rest.len() - 1 implies 1 <= bytes[#[trigger] rest[i]] <= 127
            && rest[i + 1] == rest[i] + 1 + bytes[rest[i]] by {
            assert(rest[i] == stops[i + 1]);
        }
        assert(rest.last() == stops.last());
        law_name_ends_where_walking_does(bytes, rest, end);
        assert(rest[0] == stops[1]);
    }
}

/// A name that ends can be walked up to its end.
pub proof fn law_name_that_ends_can_be_walked(bytes: Seq<u8>, at: int) -> (stops: Seq<int>)
    requires
        name_end(bytes, at) is Some,
    ensures
        walks(bytes, stops, name_end(bytes, at)->0),
        stops[0] == at,
    decreases (if at < bytes.len() { bytes.len() - at } else { 0 }),
{
    if 0 < bytes[at] < 128 {
        let later = law_name_that_ends_can_be_walked(bytes, at + 1 + bytes[at]);
        let stops = seq![at] + later;
        assert forall|i: int| 0 <= i < stops.len() implies 0 <= #[trigger] stops[i]
            < bytes.len() by {
            if i > 0 {
                assert(stops[i] == later[i - 1]);
            }
        }
        assert forall|i: int| 0 <= i < stops.len() - 1 implies 1 <= bytes[#[trigger] stops[i]]
            <= 127 && stops[i + 1] == stops[i] + 1 + bytes[stops[i]] by {
            assert(stops[i + 1] == later[i]);
            if i > 0 {
                assert(stops[i] == later[i - 1]);
            }
        }
        assert(stops.last() == later.last());
        stops
    } else {
        seq![at]
    }
}

} // verus!
