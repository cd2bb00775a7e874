//! Properties of the decoder, stated over its models and proved.

use crate::decoder::{
    is_skipped_name, metadata_of, name_bytes, owning_proto, run, step, Context, DecodeError,
    DecoderV, StepV,
};
use crate::markup::{attr_bytes, attr_text, AttrError, Tag, XmlEvent};
use crate::model::{is_first_layer, MetadataV};
use crate::vocab::{
    fake_wrapper_name, field_tag, geninfo_name, name_key, proto_tag, show_key, showname_key,
    value_key,
};
use vstd::prelude::*;

verus! {

/// The field that a tag makes, where it makes one.
pub open spec fn made(t: Tag, filters: Seq<Seq<char>>) -> MetadataV {
    metadata_of(t, filters)->Ok_0->Some_0
}

/// A named field that is neither skipped nor filtered out.
pub open spec fn kept_name(t: Tag, filters: Seq<Seq<char>>) -> bool {
    &&& attr_text(t, name_key()) is Ok
    &&& !is_skipped_name(name_bytes(t))
    &&& !filters.contains(attr_text(t, name_key())->Ok_0)
}

/// Where `show` is the only value attribute of a field, the field's value is
/// `show`, and its raw value reads back as that same value.
pub proof fn law_show_only(t: Tag, filters: Seq<Seq<char>>, show: Seq<char>)
    requires
        kept_name(t, filters),
        attr_text(t, show_key()) == Ok::<Seq<char>, AttrError>(show),
        attr_bytes(t.attributes@, value_key()) == Err::<Seq<u8>, AttrError>(AttrError::Missing),
        attr_bytes(t.attributes@, showname_key()) == Err::<Seq<u8>, AttrError>(AttrError::Missing),
    ensures
        metadata_of(t, filters) matches Ok(Some(_)),
        made(t, filters).value == show,
        made(t, filters).raw() == made(t, filters).value,
{
}

/// Where a field has `show`, `value` and `showname`, and `show` differs from
/// `value`, the field's value is `show` and its raw value is `value`, apart
/// from it.
pub proof fn law_show_and_distinct_value(
    t: Tag,
    filters: Seq<Seq<char>>,
    show: Seq<char>,
    value: Seq<char>,
    showname: Seq<char>,
)
    requires
        kept_name(t, filters),
        attr_text(t, show_key()) == Ok::<Seq<char>, AttrError>(show),
        attr_text(t, value_key()) == Ok::<Seq<char>, AttrError>(value),
        attr_text(t, showname_key()) == Ok::<Seq<char>, AttrError>(showname),
        show != value,
    ensures
        metadata_of(t, filters) matches Ok(Some(_)),
        made(t, filters).value == show,
        made(t, filters).raw() == value,
        made(t, filters).raw() != made(t, filters).value,
{
}

/// A field with none of `show`, `value` and `showname` is an error, wherever
/// a field is read as a field.
pub proof fn law_no_value_is_error(d: DecoderV, t: Tag, filters: Seq<Seq<char>>)
    requires
        kept_name(t, filters),
        t.name@ == field_tag(),
        d.context != Context::GenInfo,
        attr_bytes(t.attributes@, show_key()) == Err::<Seq<u8>, AttrError>(AttrError::Missing),
        attr_bytes(t.attributes@, value_key()) == Err::<Seq<u8>, AttrError>(AttrError::Missing),
        attr_bytes(t.attributes@, showname_key()) == Err::<Seq<u8>, AttrError>(AttrError::Missing),
    ensures
        metadata_of(t, filters) == Err::<Option<MetadataV>, DecodeError>(
            DecodeError::MissingAttribute,
        ),
        step(d, XmlEvent::Empty(t), filters) == StepV::Done(
            Err(DecodeError::MissingAttribute),
        ),
        step(d, XmlEvent::Start(t), filters) == StepV::Done(
            Err(DecodeError::MissingAttribute),
        ),
{
}

/// A field without a `name` attribute is an error, in every context.
pub proof fn law_no_name_is_error(d: DecoderV, t: Tag, filters: Seq<Seq<char>>)
    requires
        t.name@ == field_tag(),
        attr_bytes(t.attributes@, name_key()) == Err::<Seq<u8>, AttrError>(AttrError::Missing),
    ensures
        step(d, XmlEvent::Empty(t), filters) == StepV::Done(
            Err(DecodeError::MissingAttribute),
        ),
        step(d, XmlEvent::Start(t), filters) == StepV::Done(
            Err(DecodeError::MissingAttribute),
        ),
{
}

/// Two protocol tags of the same name make two layers, at consecutive
/// positions; where no lower layer has that name, a lookup by name finds the
/// first of the two.
pub proof fn law_repeated_protocol(
    d: DecoderV,
    t1: Tag,
    close: XmlEvent,
    t2: Tag,
    filters: Seq<Seq<char>>,
    name: Seq<char>,
)
    requires
        d.packet.wf(),
        t1.name@ == proto_tag(),
        t2.name@ == proto_tag(),
        close matches XmlEvent::End(n) && n@ == proto_tag(),
        attr_text(t1, name_key()) == Ok::<Seq<char>, AttrError>(name),
        attr_text(t2, name_key()) == Ok::<Seq<char>, AttrError>(name),
        name_bytes(t1) != geninfo_name() && name_bytes(t1) != fake_wrapper_name(),
        name_bytes(t2) != geninfo_name() && name_bytes(t2) != fake_wrapper_name(),
    ensures
        ({
            let n = d.packet.layers.len() as int;
            let evs = seq![XmlEvent::Start(t1), close, XmlEvent::Start(t2)];
            &&& run(d, evs, filters) is More
            &&& ({
                let p = run(d, evs, filters)->More_0.packet;
                &&& p.wf()
                &&& p.layers.len() == n + 2
                &&& p.layers[n].name == name && p.layers[n].index == n
                &&& p.layers[n + 1].name == name && p.layers[n + 1].index == n + 1
                &&& (forall|i: int| 0 <= i < n ==> d.packet.layers[i].name != name)
                    ==> is_first_layer(p.layers, name, n)
            })
        }),
{
    let evs = seq![XmlEvent::Start(t1), close, XmlEvent::Start(t2)];
    let n = d.packet.layers.len() as int;
    let d1 = DecoderV { packet: d.packet.push_layer(name), context: Context::Protocol };
    let d2 = DecoderV { context: Context::Outside, ..d1 };
    let d3 = DecoderV { packet: d2.packet.push_layer(name), context: Context::Protocol };
    assert(step(d, evs[0], filters) == StepV::More(d1));
    assert(evs.drop_first() =~= seq![close, XmlEvent::Start(t2)]);
    assert(step(d1, close, filters) == StepV::More(d2));
    assert(evs.drop_first().drop_first() =~= seq![XmlEvent::Start(t2)]);
    assert(step(d2, XmlEvent::Start(t2), filters) == StepV::More(d3));
    assert(seq![XmlEvent::Start(t2)].drop_first() =~= Seq::<XmlEvent>::empty());
    assert(run(d3, Seq::<XmlEvent>::empty(), filters) == StepV::More(d3));
    assert(run(d2, seq![XmlEvent::Start(t2)], filters) == StepV::More(d3));
    assert(run(d1, seq![close, XmlEvent::Start(t2)], filters) == StepV::More(d3));
    assert(run(d, evs, filters) == StepV::More(d3));
    let p = d3.packet;
    assert(p.layers[n].name == name);
    assert(p.wf()) by {
        assert forall|i: int| 0 <= i < p.layers.len() implies (#[trigger] p.layers[i]).index == i by {
            if i < n {
                assert(p.layers[i] == d.packet.layers[i]);
            }
        }
    }
}

/// A field whose name is filtered out changes nothing: it never enters the
/// packet, and no layer is made for it.
pub proof fn law_filtered_field_leaves_no_trace(d: DecoderV, t: Tag, filters: Seq<Seq<char>>)
    requires
        t.name@ == field_tag(),
        d.context != Context::GenInfo,
        attr_text(t, name_key()) is Ok,
        filters.contains(attr_text(t, name_key())->Ok_0),
    ensures
        step(d, XmlEvent::Empty(t), filters) == StepV::More(d),
        step(d, XmlEvent::Start(t), filters) == StepV::More(d),
{
}

/// In the wrapper around ungrouped fields, a field whose protocol is not the
/// top layer's is dropped: nothing changes.
pub proof fn law_unowned_wrapped_field_dropped(d: DecoderV, t: Tag, filters: Seq<Seq<char>>)
    requires
        t.name@ == field_tag(),
        d.context == Context::FakeWrapper,
        metadata_of(t, filters) matches Ok(Some(_)),
        !(d.packet.layers.len() > 0 && d.packet.layers.last().name == owning_proto(t)),
    ensures
        step(d, XmlEvent::Empty(t), filters) == StepV::More(d),
        step(d, XmlEvent::Start(t), filters) == StepV::More(d),
{
}

} // verus!
