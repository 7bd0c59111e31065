//! What is read from a request over gRPC is what a client wrote into it.

use crate::base64_text::base64_text;
use crate::pubsub::grpc::{
    all_utf8, attributes_of, entry_of, last_bytes, message_of, messages_of, project_of_topic,
    publish_answer, publish_request, GrpcPublishView,
};
use crate::pubsub::state::PublishView;
use crate::pubsub::wire::{
    field_read_back, fields_of, fields_read_back, frame_of, frame_read_back, varint, written_field,
    written_fields, FieldView,
};
use vstd::prelude::*;
use vstd::utf8::{encode_utf8, encode_utf8_decode_utf8, encode_utf8_valid_utf8};

verus! {

/// A field in front of others is read in front of them.
proof fn field_in_front(number: u8, bytes: Seq<u8>, rest: Seq<u8>, fields: Seq<FieldView>)
    requires
        bytes.len() <= u64::MAX,
        fields_of(rest) == Some(fields),
    ensures
        fields_of(written_field(number as nat, bytes) + rest) == Some(
            seq![(number as nat, Some(bytes))] + fields,
        ),
{
    let first = written_field(number as nat, bytes);
    let whole = first + rest;
    field_read_back(number, bytes, rest);
    assert(varint((number as nat) * 8 + 2).len() >= 1);
    assert(whole.skip(first.len() as int) =~= rest);
}

proof fn one_field(number: u8, bytes: Seq<u8>)
    requires
        bytes.len() <= u64::MAX,
    ensures
        fields_of(written_field(number as nat, bytes)) == Some(
            seq![(number as nat, Some(bytes))],
        ),
{
    let none: Seq<u8> = Seq::empty();
    assert(fields_of(none) == Some(Seq::<FieldView>::empty()));
    field_in_front(number, bytes, none, Seq::empty());
    assert(written_field(number as nat, bytes) + none =~= written_field(number as nat, bytes));
    assert(seq![(number as nat, Some(bytes))] + Seq::<FieldView>::empty() =~= seq![
        (number as nat, Some(bytes)),
    ]);
}

proof fn last_of_pushed(fields: Seq<FieldView>, field: FieldView, number: nat)
    ensures
        field.1 is Some && field.0 == number ==> last_bytes(fields.push(field), number)
            == field.1->0,
        field.0 != number ==> last_bytes(fields.push(field), number) == last_bytes(fields, number),
{
    assert(fields.push(field).drop_last() =~= fields);
}

/// An attribute of a message, as it is written.
pub open spec fn written_entry(name: Seq<char>, value: Seq<char>) -> Seq<u8> {
    written_field(1, encode_utf8(name)) + written_field(2, encode_utf8(value))
}

/// An attribute is read as it was written.
pub proof fn entry_reads_back(name: Seq<char>, value: Seq<char>)
    requires
        encode_utf8(name).len() <= u64::MAX,
        encode_utf8(value).len() <= u64::MAX,
    ensures
        entry_of(written_entry(name, value)) == Some((name, value)),
{
    let n = encode_utf8(name);
    let v = encode_utf8(value);
    one_field(2, v);
    field_in_front(1, n, written_field(2, v), seq![(2nat, Some(v))]);
    let fields = seq![(1nat, Some(n))] + seq![(2nat, Some(v))];
    let none: Seq<FieldView> = Seq::empty();
    assert(fields =~= none.push((1nat, Some(n))).push((2nat, Some(v))));
    last_of_pushed(none, (1nat, Some(n)), 1);
    last_of_pushed(none.push((1nat, Some(n))), (2nat, Some(v)), 1);
    last_of_pushed(none.push((1nat, Some(n))), (2nat, Some(v)), 2);
    encode_utf8_valid_utf8(name);
    encode_utf8_decode_utf8(name);
    encode_utf8_valid_utf8(value);
    encode_utf8_decode_utf8(value);
}

/// The attributes that pairs of texts make, the later ones over the earlier.
pub open spec fn as_attributes(pairs: Seq<(Seq<char>, Seq<char>)>) -> Map<Seq<char>, Seq<char>>
    decreases pairs.len(),
{
    if pairs.len() == 0 {
        Map::empty()
    } else {
        as_attributes(pairs.drop_last()).insert(pairs.last().0, pairs.last().1)
    }
}

/// The attributes of a message, as they are written.
pub open spec fn written_entries(pairs: Seq<(Seq<char>, Seq<char>)>) -> Seq<Seq<u8>> {
    pairs.map_values(|pair: (Seq<char>, Seq<char>)| written_entry(pair.0, pair.1))
}

/// A message, as it is written: its data, its attributes and its key.
pub open spec fn written_message(
    data: Seq<u8>,
    pairs: Seq<(Seq<char>, Seq<char>)>,
    key: Seq<char>,
) -> Seq<u8> {
    written_field(1, data) + (written_fields(2, written_entries(pairs)) + written_field(
        5,
        encode_utf8(key),
    ))
}

/// Whether texts are short enough for their lengths to be written.
pub open spec fn can_be_sized(pairs: Seq<(Seq<char>, Seq<char>)>) -> bool {
    forall|i: int|
        0 <= i < pairs.len() ==> encode_utf8((#[trigger] pairs[i]).0).len() <= u64::MAX
            && encode_utf8(pairs[i].1).len() <= u64::MAX && written_entry(
            pairs[i].0,
            pairs[i].1,
        ).len() <= u64::MAX
}

spec fn numbered_two(all: Seq<Seq<u8>>) -> Seq<FieldView> {
    all.map_values(|bytes: Seq<u8>| (2nat, Some(bytes)))
}

proof fn fields_before(number: u8, all: Seq<Seq<u8>>, rest: Seq<u8>, fields: Seq<FieldView>)
    requires
        number == 2,
        forall|i: int| 0 <= i < all.len() ==> (#[trigger] all[i]).len() <= u64::MAX,
        fields_of(rest) == Some(fields),
    ensures
        fields_of(written_fields(2, all) + rest) == Some(numbered_two(all) + fields),
    decreases all.len(),
{
    if all.len() == 0 {
        assert(written_fields(2, all) + rest =~= rest);
        assert(numbered_two(all) + fields =~= fields);
    } else {
        let others = all.drop_first();
        assert forall|i: int| 0 <= i < others.len() implies (#[trigger] others[i]).len()
            <= u64::MAX by {
            assert(others[i] == all[i + 1]);
        }
        fields_before(number, others, rest, fields);
        let tail = written_fields(2, others) + rest;
        field_in_front(2, all[0], tail, numbered_two(others) + fields);
        assert(written_fields(2, all) + rest =~= written_field(2, all[0]) + tail);
        assert(seq![(2nat, Some(all[0]))] + (numbered_two(others) + fields) =~= numbered_two(all)
            + fields);
    }
}

proof fn entries_are_attributes(data: Seq<u8>, pairs: Seq<(Seq<char>, Seq<char>)>)
    requires
        can_be_sized(pairs),
    ensures
        ({
            let fields = seq![(1nat, Some(data))] + numbered_two(written_entries(pairs));
            &&& attributes_of(fields) == Some(as_attributes(pairs))
            &&& last_bytes(fields, 1) == data
            &&& last_bytes(fields, 5) == Seq::<u8>::empty()
        }),
    decreases pairs.len(),
{
    let first: Seq<FieldView> = seq![(1nat, Some(data))];
    let none: Seq<FieldView> = Seq::empty();
    let fields = first + numbered_two(written_entries(pairs));
    if pairs.len() == 0 {
        assert(fields =~= none.push((1nat, Some(data))));
        assert(fields.drop_last() =~= none);
        last_of_pushed(none, (1nat, Some(data)), 1);
        last_of_pushed(none, (1nat, Some(data)), 5);
        reveal_with_fuel(attributes_of, 3);
    } else {
        let head = pairs.drop_last();
        let last = pairs.last();
        assert(pairs[pairs.len() - 1] == last);
        assert(can_be_sized(head)) by {
            assert forall|i: int| 0 <= i < head.len() implies encode_utf8(
                (#[trigger] head[i]).0,
            ).len() <= u64::MAX && encode_utf8(head[i].1).len() <= u64::MAX && written_entry(
                head[i].0,
                head[i].1,
            ).len() <= u64::MAX by {
                assert(head[i] == pairs[i]);
            }
        }
        entries_are_attributes(data, head);
        let before = first + numbered_two(written_entries(head));
        let entry = written_entry(last.0, last.1);
        assert(fields =~= before.push((2nat, Some(entry))));
        assert(fields.drop_last() =~= before);
        entry_reads_back(last.0, last.1);
        last_of_pushed(before, (2nat, Some(entry)), 1);
        last_of_pushed(before, (2nat, Some(entry)), 5);
    }
}

/// A message is read as it was written: its data as the Base64 text of its bytes, all its
/// attributes, and its key where that is not empty.
pub proof fn message_reads_back(
    data: Seq<u8>,
    pairs: Seq<(Seq<char>, Seq<char>)>,
    key: Seq<char>,
)
    requires
        data.len() <= u64::MAX,
        encode_utf8(key).len() <= u64::MAX,
        can_be_sized(pairs),
    ensures
        message_of(written_message(data, pairs, key)) == Some(
            PublishView {
                data: base64_text(data, false),
                attributes: as_attributes(pairs),
                ordering_key: if key.len() > 0 {
                    Some(key)
                } else {
                    None
                },
            },
        ),
{
    let entries = written_entries(pairs);
    assert forall|i: int| 0 <= i < entries.len() implies (#[trigger] entries[i]).len()
        <= u64::MAX by {
        assert(entries[i] == written_entry(pairs[i].0, pairs[i].1));
    }
    let k = encode_utf8(key);
    one_field(5, k);
    let tail = seq![(5nat, Some(k))];
    fields_before(2, entries, written_field(5, k), tail);
    let middle = numbered_two(entries) + tail;
    field_in_front(1, data, written_fields(2, entries) + written_field(5, k), middle);
    let before = seq![(1nat, Some(data))] + numbered_two(entries);
    let fields = seq![(1nat, Some(data))] + middle;
    assert(fields =~= before.push((5nat, Some(k))));
    assert(fields.drop_last() =~= before);
    entries_are_attributes(data, pairs);
    last_of_pushed(before, (5nat, Some(k)), 1);
    last_of_pushed(before, (5nat, Some(k)), 5);
    encode_utf8_valid_utf8(key);
    encode_utf8_decode_utf8(key);
}

proof fn messages_are_gathered(
    topic: Seq<u8>,
    messages: Seq<Seq<u8>>,
    views: Seq<PublishView>,
)
    requires
        messages.len() == views.len(),
        forall|i: int|
            0 <= i < messages.len() ==> message_of(#[trigger] messages[i]) == Some(views[i]),
    ensures
        ({
            let fields = seq![(1nat, Some(topic))] + numbered_two(messages);
            &&& messages_of(fields) == Some(views)
            &&& last_bytes(fields, 1) == topic
        }),
    decreases messages.len(),
{
    let first: Seq<FieldView> = seq![(1nat, Some(topic))];
    let none: Seq<FieldView> = Seq::empty();
    let fields = first + numbered_two(messages);
    if messages.len() == 0 {
        assert(fields =~= none.push((1nat, Some(topic))));
        assert(fields.drop_last() =~= none);
        last_of_pushed(none, (1nat, Some(topic)), 1);
        reveal_with_fuel(messages_of, 3);
        assert(views =~= Seq::empty());
    } else {
        let head = messages.drop_last();
        let seen = views.drop_last();
        assert forall|i: int| 0 <= i < head.len() implies message_of(#[trigger] head[i]) == Some(
            seen[i],
        ) by {
            assert(head[i] == messages[i]);
        }
        messages_are_gathered(topic, head, seen);
        let before = first + numbered_two(head);
        let last = messages.last();
        assert(messages[messages.len() - 1] == last);
        assert(fields =~= before.push((2nat, Some(last))));
        assert(fields.drop_last() =~= before);
        last_of_pushed(before, (2nat, Some(last)), 1);
        assert(seen.push(views.last()) =~= views);
    }
}

/// A request to publish is read as it was written: its topic, with the project that the topic
/// names, and all its messages in their order.
pub proof fn request_reads_back(
    topic: Seq<char>,
    messages: Seq<Seq<u8>>,
    views: Seq<PublishView>,
)
    requires
        project_of_topic(topic) is Some,
        encode_utf8(topic).len() <= u64::MAX,
        messages.len() == views.len(),
        forall|i: int|
            0 <= i < messages.len() ==> message_of(#[trigger] messages[i]) == Some(views[i])
                && messages[i].len() <= u64::MAX,
        (written_field(1, encode_utf8(topic)) + written_fields(2, messages)).len()
            < 0x1_0000_0000,
    ensures
        publish_request(
            frame_of(written_field(1, encode_utf8(topic)) + written_fields(2, messages)),
        ) == Some(
            GrpcPublishView {
                project_id: project_of_topic(topic)->0,
                topic,
                messages: views,
            },
        ),
{
    let t = encode_utf8(topic);
    let body = written_field(1, t) + written_fields(2, messages);
    frame_read_back(body);
    assert forall|i: int| 0 <= i < messages.len() implies (#[trigger] messages[i]).len()
        <= u64::MAX by {
        assert(message_of(messages[i]) == Some(views[i]));
    }
    fields_read_back(2, messages);
    let rest = messages.map_values(|bytes: Seq<u8>| (2u8 as nat, Some(bytes)));
    assert(rest =~= numbered_two(messages));
    field_in_front(1, t, written_fields(2, messages), numbered_two(messages));
    messages_are_gathered(t, messages, views);
    encode_utf8_valid_utf8(topic);
    encode_utf8_decode_utf8(topic);
}

/// The answer to a request gives the ids of the messages in their order.
pub proof fn answer_gives_ids(ids: Seq<Seq<char>>)
    requires
        forall|i: int| 0 <= i < ids.len() ==> encode_utf8(#[trigger] ids[i]).len() <= u64::MAX,
    ensures
        fields_of(publish_answer(ids)) == Some(
            ids.map_values(|id: Seq<char>| (1nat, Some(encode_utf8(id)))),
        ),
{
    let all = all_utf8(ids);
    assert forall|i: int| 0 <= i < all.len() implies (#[trigger] all[i]).len() <= u64::MAX by {
        assert(all[i] == encode_utf8(ids[i]));
    }
    fields_read_back(1, all);
    assert(all.map_values(|bytes: Seq<u8>| (1u8 as nat, Some(bytes))) =~= ids.map_values(
        |id: Seq<char>| (1nat, Some(encode_utf8(id))),
    ));
}

} // verus!
