//! The streaming decoder: a state machine from markup events to packets.

use crate::markup::{
    attr_by_name, attr_by_name_u32, attr_bytes, attr_text, attr_u32, find_attr, read_event,
    AttrError, Tag, XmlEvent,
};
use crate::model::{Metadata, MetadataV, Packet, PacketV};
use crate::text::{
    before_dot, find_dot, lemma_ascii_cut_keeps_utf8, starts_with_bytes, utf8_of,
    utf8_text,
};
use crate::timestamp::{parse_timestamp, timestamp_micros_of};
use crate::vocab::{
    fake_wrapper_name, fake_wrapper_name_bytes, field_tag, field_tag_bytes, geninfo_name,
    geninfo_name_bytes, internal_prefix, internal_prefix_bytes, name_key, name_key_bytes,
    packet_tag, packet_tag_bytes, pos_key, pos_key_bytes, proto_tag, proto_tag_bytes, show_key,
    show_key_bytes, showname_key, showname_key_bytes, size_key, size_key_bytes, timestamp_name,
    timestamp_name_bytes, value_key, value_key_bytes,
};
use vstd::prelude::*;

verus! {

/// Why a packet could not be decoded.
#[derive(Clone, Debug, PartialEq)]
pub enum DecodeError {
    /// The markup itself is broken, at this byte offset of the stream.
    Markup { offset: u64, message: String },
    /// A tag lacks its `name`, a field every attribute that could give its
    /// value, or the capture-time field its `value`.
    MissingAttribute,
    /// An attribute list is broken, or an attribute value is not UTF-8.
    MalformedAttribute,
    /// A capture time that is not `<seconds>.<nanoseconds>` of a valid instant.
    BadTimestamp,
    /// A field of a protocol came while the packet had no layer; a decoder
    /// that starts afresh never meets this (see `lemma_step_keeps_wf`).
    NoLayer,
    /// The event budget of one call ran out before the packet ended.
    EventLimit,
}

/// The protocol context that the latest protocol tag opened.
#[derive(Clone, Copy, Debug, PartialEq, Eq, Structural)]
pub enum Context {
    /// No protocol tag is open: fields make their own layer.
    Outside,
    /// The general-information section, which holds the capture time.
    GenInfo,
    /// The wrapper around fields that no protocol tag holds.
    FakeWrapper,
    /// An ordinary protocol, whose layer is on top of the stack.
    Protocol,
}

/// The error that a failed attribute lookup makes.
pub open spec fn attr_error(e: AttrError) -> DecodeError {
    match e {
        AttrError::Missing => DecodeError::MissingAttribute,
        AttrError::Malformed => DecodeError::MalformedAttribute,
    }
}

fn to_decode_error(e: AttrError) -> (r: DecodeError)
    ensures
        r == attr_error(e),
{
    match e {
        AttrError::Missing => DecodeError::MissingAttribute,
        AttrError::Malformed => DecodeError::MalformedAttribute,
    }
}

/// The texts of a list of strings.
pub open spec fn texts(v: Seq<String>) -> Seq<Seq<char>> {
    v.map_values(|s: String| s@)
}

/// The raw bytes of a tag's `name`, where it has one.
pub open spec fn name_bytes(t: Tag) -> Seq<u8> {
    attr_bytes(t.attributes@, name_key())->Ok_0
}

/// A field name that is skipped silently: empty, or one of the analyzer's
/// own diagnostic fields.
pub open spec fn is_skipped_name(nb: Seq<u8>) -> bool {
    nb.len() == 0 || (nb.len() >= 4 && nb.take(4) == internal_prefix())
}

/// The value of a field: its `show`, else its `value`, else its `showname`.
pub open spec fn value_of(t: Tag) -> Result<Seq<char>, DecodeError> {
    match attr_text(t, show_key()) {
        Ok(v) => Ok(v),
        Err(AttrError::Malformed) => Err(DecodeError::MalformedAttribute),
        Err(AttrError::Missing) => match attr_text(t, value_key()) {
            Ok(v) => Ok(v),
            Err(AttrError::Malformed) => Err(DecodeError::MalformedAttribute),
            Err(AttrError::Missing) => match attr_text(t, showname_key()) {
                Ok(v) => Ok(v),
                Err(_) => Err(DecodeError::MissingAttribute),
            },
        },
    }
}

/// The field that a field tag makes: none where its name is skipped or
/// filtered out.
pub open spec fn metadata_of(t: Tag, filters: Seq<Seq<char>>) -> Result<Option<MetadataV>, DecodeError> {
    match attr_text(t, name_key()) {
        Err(e) => Err(attr_error(e)),
        Ok(name) => if is_skipped_name(name_bytes(t)) || filters.contains(name) {
            Ok(None)
        } else {
            match value_of(t) {
                Err(e) => Err(e),
                Ok(value) => Ok(
                    Some(
                        MetadataV {
                            name,
                            value,
                            raw_value: match attr_text(t, value_key()) {
                                Ok(raw) => if raw != value {
                                    Some(raw)
                                } else {
                                    None
                                },
                                Err(_) => None,
                            },
                            display: match attr_text(t, showname_key()) {
                                Ok(d) => Some(d),
                                Err(_) => None,
                            },
                            size: attr_u32(t, size_key()),
                            position: attr_u32(t, pos_key()),
                        },
                    ),
                ),
            }
        },
    }
}

/// The protocol that a field belongs to: its name up to the first `.`.
pub open spec fn owning_proto(t: Tag) -> Seq<char> {
    utf8_of(before_dot(name_bytes(t)))->Some_0
}

/// The capture time that a general-information field sets, if it is the
/// `timestamp` field.
pub open spec fn timestamp_of(t: Tag) -> Result<Option<i64>, DecodeError> {
    match attr_text(t, name_key()) {
        Err(e) => Err(attr_error(e)),
        Ok(_) => if name_bytes(t) != timestamp_name() {
            Ok(None)
        } else {
            match attr_text(t, value_key()) {
                Err(e) => Err(attr_error(e)),
                Ok(_) => match timestamp_micros_of(attr_bytes(t.attributes@, value_key())->Ok_0) {
                    Some(m) => Ok(Some(m)),
                    None => Err(DecodeError::BadTimestamp),
                },
            }
        },
    }
}

fn select_value(tag: &Tag) -> (r: Result<String, DecodeError>)
    ensures
        match r {
            Ok(s) => value_of(*tag) == Ok::<Seq<char>, DecodeError>(s@),
            Err(e) => value_of(*tag) == Err::<Seq<char>, DecodeError>(e),
        },
{
    match attr_by_name(tag, show_key_bytes().as_slice()) {
        Ok(v) => Ok(v),
        Err(AttrError::Malformed) => Err(DecodeError::MalformedAttribute),
        Err(AttrError::Missing) => match attr_by_name(tag, value_key_bytes().as_slice()) {
            Ok(v) => Ok(v),
            Err(AttrError::Malformed) => Err(DecodeError::MalformedAttribute),
            Err(AttrError::Missing) => match attr_by_name(tag, showname_key_bytes().as_slice()) {
                Ok(v) => Ok(v),
                Err(_) => Err(DecodeError::MissingAttribute),
            },
        },
    }
}

fn is_filtered(filters: &[String], name: &String) -> (r: bool)
    ensures
        r == texts(filters@).contains(name@),
{
    let mut i: usize = 0;
    while i < filters.len()
        invariant
            i <= filters@.len(),
            forall|j: int| 0 <= j < i ==> filters@[j]@ != name@,
        decreases filters@.len() - i,
    {
        if filters[i] == *name {
            assert(texts(filters@)[i as int] == name@);
            return true;
        }
        i = i + 1;
    }
    false
}

/// Builds the field that a field tag describes, choosing its value among
/// `show`, `value` and `showname`; `None` for a skipped or filtered name.
pub fn build_metadata(tag: &Tag, filters: &[String]) -> (r: Result<Option<Metadata>, DecodeError>)
    ensures
        match r {
            Ok(Some(m)) => metadata_of(*tag, texts(filters@)) == Ok::<Option<MetadataV>, DecodeError>(Some(m@)),
            Ok(None) => metadata_of(*tag, texts(filters@)) == Ok::<Option<MetadataV>, DecodeError>(None),
            Err(e) => metadata_of(*tag, texts(filters@)) == Err::<Option<MetadataV>, DecodeError>(e),
        },
{
    let name = match attr_by_name(tag, name_key_bytes().as_slice()) {
        Ok(n) => n,
        Err(e) => return Err(to_decode_error(e)),
    };
    let skipped = match find_attr(tag, name_key_bytes().as_slice()) {
        Ok(nb) => nb.len() == 0 || starts_with_bytes(nb.as_slice(), internal_prefix_bytes().as_slice()),
        Err(_) => true,
    };
    if skipped || is_filtered(filters, &name) {
        return Ok(None);
    }
    let value = match select_value(tag) {
        Ok(v) => v,
        Err(e) => return Err(e),
    };
    let display = match attr_by_name(tag, showname_key_bytes().as_slice()) {
        Ok(d) => Some(d),
        Err(_) => None,
    };
    let size = attr_by_name_u32(tag, size_key_bytes().as_slice());
    let position = attr_by_name_u32(tag, pos_key_bytes().as_slice());
    match attr_by_name(tag, value_key_bytes().as_slice()) {
        Ok(raw) => {
            if raw != value {
                Ok(Some(Metadata::with_raw_value(name, value, raw, display, size, position)))
            } else {
                Ok(Some(Metadata::new(name, value, display, size, position)))
            }
        },
        Err(_) => Ok(Some(Metadata::new(name, value, display, size, position))),
    }
}

/// The protocol name that a field's name begins with.
fn proto_of_field(tag: &Tag) -> (r: String)
    requires
        attr_text(*tag, name_key()) is Ok,
    ensures
        r@ == owning_proto(*tag),
{
    let nb = match find_attr(tag, name_key_bytes().as_slice()) {
        Ok(nb) => nb,
        Err(_) => {
            assert(false);
            return String::new();
        },
    };
    let end: usize = match find_dot(nb.as_slice()) {
        Some(i) => i,
        None => nb.len(),
    };
    let mut prefix: Vec<u8> = Vec::new();
    let mut j: usize = 0;
    while j < end
        invariant
            end <= nb@.len(),
            j <= end,
            prefix@ == nb@.take(j as int),
        decreases end - j,
    {
        prefix.push(nb[j]);
        j = j + 1;
        assert(prefix@ =~= nb@.take(j as int));
    }
    proof {
        if end == nb@.len() {
            assert(nb@.take(end as int) =~= nb@);
        }
        lemma_ascii_cut_keeps_utf8(nb@, end as int);
    }
    match utf8_text(prefix.as_slice()) {
        Some(s) => s,
        None => {
            assert(false);
            String::new()
        },
    }
}

/// Reads the capture time from a general-information field.
pub fn geninfo_timestamp(tag: &Tag) -> (r: Result<Option<i64>, DecodeError>)
    ensures
        r == timestamp_of(*tag),
{
    match attr_by_name(tag, name_key_bytes().as_slice()) {
        Ok(_) => {},
        Err(e) => return Err(to_decode_error(e)),
    }
    let is_timestamp = match find_attr(tag, name_key_bytes().as_slice()) {
        Ok(nb) => crate::text::bytes_eq(nb.as_slice(), timestamp_name_bytes().as_slice()),
        Err(_) => false,
    };
    if !is_timestamp {
        return Ok(None);
    }
    match attr_by_name(tag, value_key_bytes().as_slice()) {
        Ok(_) => {},
        Err(e) => return Err(to_decode_error(e)),
    }
    match find_attr(tag, value_key_bytes().as_slice()) {
        Ok(vb) => match parse_timestamp(vb.as_slice()) {
            Some(m) => Ok(Some(m)),
            None => Err(DecodeError::BadTimestamp),
        },
        Err(_) => Err(DecodeError::BadTimestamp),
    }
}

/// What a [`Decoder`] holds: the packet built so far and the protocol context.
pub ghost struct DecoderV {
    pub packet: PacketV,
    pub context: Context,
}

/// What one event does: the decoder goes on, or the call is over.
pub ghost enum StepV {
    More(DecoderV),
    Done(Result<Option<PacketV>, DecodeError>),
}

/// The state at the start of a packet.
pub open spec fn initial() -> DecoderV {
    DecoderV { packet: PacketV { layers: Seq::empty(), timestamp_micros: None }, context: Context::Outside }
}

/// The protocol context and packet after a protocol tag opens.
pub open spec fn open_proto(d: DecoderV, t: Tag) -> StepV {
    match attr_text(t, name_key()) {
        Err(e) => StepV::Done(Err(attr_error(e))),
        Ok(name) => if name_bytes(t) == geninfo_name() {
            StepV::More(DecoderV { context: Context::GenInfo, ..d })
        } else if name_bytes(t) == fake_wrapper_name() {
            StepV::More(DecoderV { context: Context::FakeWrapper, ..d })
        } else {
            StepV::More(DecoderV { packet: d.packet.push_layer(name), context: Context::Protocol })
        },
    }
}

/// Where a field goes, by the protocol context.
pub open spec fn place_field(d: DecoderV, t: Tag, m: MetadataV) -> StepV {
    match d.context {
        Context::FakeWrapper => if d.packet.layers.len() > 0 && d.packet.layers.last().name
            == owning_proto(t) {
            StepV::More(DecoderV { packet: d.packet.add_to_last(m), ..d })
        } else {
            StepV::More(d)
        },
        Context::Outside => StepV::More(
            DecoderV { packet: d.packet.push_layer_if_absent(owning_proto(t)).add_to_last(m), ..d },
        ),
        _ => if d.packet.layers.len() > 0 {
            StepV::More(DecoderV { packet: d.packet.add_to_last(m), ..d })
        } else {
            StepV::Done(Err(DecodeError::NoLayer))
        },
    }
}

/// What a field tag does.
pub open spec fn on_field(d: DecoderV, t: Tag, filters: Seq<Seq<char>>) -> StepV {
    if d.context == Context::GenInfo {
        match timestamp_of(t) {
            Err(e) => StepV::Done(Err(e)),
            Ok(None) => StepV::More(d),
            Ok(Some(m)) => StepV::More(
                DecoderV { packet: PacketV { timestamp_micros: Some(m), ..d.packet }, ..d },
            ),
        }
    } else {
        match metadata_of(t, filters) {
            Err(e) => StepV::Done(Err(e)),
            Ok(None) => StepV::More(d),
            Ok(Some(m)) => place_field(d, t, m),
        }
    }
}

/// What one event does to the decoder.
pub open spec fn step(d: DecoderV, ev: XmlEvent, filters: Seq<Seq<char>>) -> StepV {
    match ev {
        XmlEvent::Start(t) => if t.name@ == proto_tag() {
            open_proto(d, t)
        } else if t.name@ == field_tag() {
            on_field(d, t, filters)
        } else {
            StepV::More(d)
        },
        XmlEvent::Empty(t) => if t.name@ == field_tag() {
            on_field(d, t, filters)
        } else {
            StepV::More(d)
        },
        XmlEvent::End(n) => if n@ == packet_tag() {
            StepV::Done(Ok(Some(d.packet)))
        } else if n@ == proto_tag() {
            StepV::More(DecoderV { context: Context::Outside, ..d })
        } else {
            StepV::More(d)
        },
        XmlEvent::Eof => StepV::Done(Ok(None)),
        XmlEvent::Other => StepV::More(d),
        XmlEvent::Malformed { offset, message } => StepV::Done(
            Err(DecodeError::Markup { offset, message }),
        ),
    }
}

/// What a run of events does, from a given state.
pub open spec fn run(d: DecoderV, evs: Seq<XmlEvent>, filters: Seq<Seq<char>>) -> StepV
    decreases evs.len(),
{
    if evs.len() == 0 {
        StepV::More(d)
    } else {
        match step(d, evs[0], filters) {
            StepV::More(d2) => run(d2, evs.drop_first(), filters),
            StepV::Done(r) => StepV::Done(r),
        }
    }
}

/// The model of a decoding result.
pub open spec fn outcome_view(r: Result<Option<Packet>, DecodeError>) -> Result<Option<PacketV>, DecodeError> {
    match r {
        Ok(Some(p)) => Ok(Some(p@)),
        Ok(None) => Ok(None),
        Err(e) => Err(e),
    }
}

/// The per-packet working state of the decoder.
pub struct Decoder {
    packet: Packet,
    context: Context,
}

impl View for Decoder {
    type V = DecoderV;

    closed spec fn view(&self) -> DecoderV {
        DecoderV { packet: self.packet@, context: self.context }
    }
}

/// What feeding one event gives: the decoder to go on with, or the result.
pub enum Fed {
    More(Decoder),
    Done(Result<Option<Packet>, DecodeError>),
}

/// The model of what feeding gives.
pub open spec fn fed_view(f: Fed) -> StepV {
    match f {
        Fed::More(d) => StepV::More(d@),
        Fed::Done(r) => StepV::Done(outcome_view(r)),
    }
}

impl Decoder {
    /// A decoder at the start of a packet.
    pub fn new() -> (r: Decoder)
        ensures
            r@ == initial(),
            r@.packet.wf(),
    {
        Decoder { packet: Packet::new(), context: Context::Outside }
    }

    fn open_proto(self, tag: &Tag) -> (r: Fed)
        ensures
            fed_view(r) == open_proto(self@, *tag),
    {
        let mut d = self;
        let name = match attr_by_name(tag, name_key_bytes().as_slice()) {
            Ok(n) => n,
            Err(e) => return Fed::Done(Err(to_decode_error(e))),
        };
        let (is_geninfo, is_wrapper) = match find_attr(tag, name_key_bytes().as_slice()) {
            Ok(nb) => (
                crate::text::bytes_eq(nb.as_slice(), geninfo_name_bytes().as_slice()),
                crate::text::bytes_eq(nb.as_slice(), fake_wrapper_name_bytes().as_slice()),
            ),
            Err(_) => (false, false),
        };
        if is_geninfo {
            d.context = Context::GenInfo;
        } else if is_wrapper {
            d.context = Context::FakeWrapper;
        } else {
            d.packet.push(name);
            d.context = Context::Protocol;
        }
        Fed::More(d)
    }

    fn on_field(self, tag: &Tag, filters: &[String]) -> (r: Fed)
        ensures
            fed_view(r) == on_field(self@, *tag, texts(filters@)),
    {
        let mut d = self;
        if d.context == Context::GenInfo {
            return match geninfo_timestamp(tag) {
                Err(e) => Fed::Done(Err(e)),
                Ok(None) => Fed::More(d),
                Ok(Some(m)) => {
                    d.packet.set_timestamp_micros(m);
                    Fed::More(d)
                },
            };
        }
        let m = match build_metadata(tag, filters) {
            Err(e) => return Fed::Done(Err(e)),
            Ok(None) => return Fed::More(d),
            Ok(Some(m)) => m,
        };
        match d.context {
            Context::FakeWrapper => {
                let proto = proto_of_field(tag);
                let matches = match d.packet.last_layer_name() {
                    Some(n) => *n == proto,
                    None => false,
                };
                if matches {
                    d.packet.add_to_last_layer(m);
                }
                Fed::More(d)
            },
            Context::Outside => {
                let proto = proto_of_field(tag);
                d.packet.push_if_not_exist(proto);
                d.packet.add_to_last_layer(m);
                Fed::More(d)
            },
            _ => {
                if d.packet.layer_count() > 0 {
                    d.packet.add_to_last_layer(m);
                    Fed::More(d)
                } else {
                    Fed::Done(Err(DecodeError::NoLayer))
                }
            },
        }
    }

    /// Feeds one markup event: the packet goes on, or the call is over with a
    /// packet, with the end of the input, or with an error.
    pub fn feed(self, ev: &XmlEvent, filters: &[String]) -> (r: Fed)
        ensures
            fed_view(r) == step(self@, *ev, texts(filters@)),
    {
        let mut d = self;
        match ev {
            XmlEvent::Start(t) => {
                if crate::text::bytes_eq(t.name.as_slice(), proto_tag_bytes().as_slice()) {
                    d.open_proto(t)
                } else if crate::text::bytes_eq(t.name.as_slice(), field_tag_bytes().as_slice()) {
                    d.on_field(t, filters)
                } else {
                    Fed::More(d)
                }
            },
            XmlEvent::Empty(t) => {
                if crate::text::bytes_eq(t.name.as_slice(), field_tag_bytes().as_slice()) {
                    d.on_field(t, filters)
                } else {
                    Fed::More(d)
                }
            },
            XmlEvent::End(n) => {
                if crate::text::bytes_eq(n.as_slice(), packet_tag_bytes().as_slice()) {
                    Fed::Done(Ok(Some(d.packet)))
                } else if crate::text::bytes_eq(n.as_slice(), proto_tag_bytes().as_slice()) {
                    d.context = Context::Outside;
                    Fed::More(d)
                } else {
                    Fed::More(d)
                }
            },
            XmlEvent::Eof => Fed::Done(Ok(None)),
            XmlEvent::Other => Fed::More(d),
            XmlEvent::Malformed { offset, message } => Fed::Done(
                Err(DecodeError::Markup { offset: *offset, message: message.clone() }),
            ),
        }
    }
}

proof fn lemma_push_layer_wf(p: PacketV, name: Seq<char>)
    requires
        p.wf(),
    ensures
        p.push_layer(name).wf(),
        p.push_layer_if_absent(name).wf(),
{
    let q = p.push_layer(name);
    assert forall|i: int| 0 <= i < q.layers.len() implies (#[trigger] q.layers[i]).index == i by {
        if i < p.layers.len() {
            assert(q.layers[i] == p.layers[i]);
        }
    }
}

proof fn lemma_add_to_last_wf(p: PacketV, m: MetadataV)
    requires
        p.wf(),
        p.layers.len() > 0,
    ensures
        p.add_to_last(m).wf(),
{
    let q = p.add_to_last(m);
    assert forall|i: int| 0 <= i < q.layers.len() implies (#[trigger] q.layers[i]).index == i by {
        if i < p.layers.len() - 1 {
            assert(q.layers[i] == p.layers[i]);
        }
    }
}

/// A protocol context always has its layer.
pub open spec fn context_has_layer(d: DecoderV) -> bool {
    d.context == Context::Protocol ==> d.packet.layers.len() > 0
}

/// Every event keeps each layer at the position that its index names, and a
/// protocol context with its layer; so no event finds a protocol without one.
pub proof fn lemma_step_keeps_wf(d: DecoderV, ev: XmlEvent, filters: Seq<Seq<char>>)
    requires
        d.packet.wf(),
        context_has_layer(d),
    ensures
        step(d, ev, filters) matches StepV::More(d2) ==> d2.packet.wf() && context_has_layer(d2),
        step(d, ev, filters) matches StepV::Done(Ok(Some(p))) ==> p.wf(),
        step(d, ev, filters) != StepV::Done(Err(DecodeError::NoLayer)),
{
    match ev {
        XmlEvent::Start(t) => {
            if attr_text(t, name_key()) is Ok {
                lemma_push_layer_wf(d.packet, attr_text(t, name_key())->Ok_0);
            }
            field_keeps_wf(d, t, filters);
        },
        XmlEvent::Empty(t) => field_keeps_wf(d, t, filters),
        _ => {},
    }
}

proof fn field_keeps_wf(d: DecoderV, t: Tag, filters: Seq<Seq<char>>)
    requires
        d.packet.wf(),
        context_has_layer(d),
    ensures
        on_field(d, t, filters) matches StepV::More(d2) ==> d2.packet.wf() && context_has_layer(d2),
        on_field(d, t, filters) != StepV::Done(Err(DecodeError::NoLayer)),
{
    if let Ok(Some(m)) = metadata_of(t, filters) {
        let proto = owning_proto(t);
        lemma_push_layer_wf(d.packet, proto);
        let q = d.packet.push_layer_if_absent(proto);
        assert(q.layers.len() > 0);
        lemma_add_to_last_wf(q, m);
        if d.packet.layers.len() > 0 {
            lemma_add_to_last_wf(d.packet, m);
        }
    }
    if let Ok(Some(m)) = timestamp_of(t) {
        assert(d.packet.layers == (PacketV { timestamp_micros: Some(m), ..d.packet }).layers);
    }
}

/// How many events one call reads at most before it gives up.
pub const EVENT_LIMIT: u64 = 0xffff_ffff_ffff_ffff;

/// Running one more event continues from where the run stood.
pub proof fn lemma_run_push(d: DecoderV, evs: Seq<XmlEvent>, e: XmlEvent, filters: Seq<Seq<char>>)
    ensures
        run(d, evs.push(e), filters) == match run(d, evs, filters) {
            StepV::More(d2) => step(d2, e, filters),
            StepV::Done(r) => StepV::Done(r),
        },
    decreases evs.len(),
{
    if evs.len() == 0 {
        assert(evs.push(e).drop_first() =~= evs);
        assert(evs.push(e)[0] == e);
        match step(d, e, filters) {
            StepV::More(d2) => {
                assert(run(d2, evs, filters) == StepV::More(d2));
            },
            StepV::Done(_) => {},
        }
    } else {
        assert(evs.push(e).drop_first() =~= evs.drop_first().push(e));
        assert(evs.push(e)[0] == evs[0]);
        match step(d, evs[0], filters) {
            StepV::More(d2) => lemma_run_push(d2, evs.drop_first(), e, filters),
            StepV::Done(_) => {},
        }
    }
}

/// Decodes the next packet of the stream: `Some` packet at its closing tag,
/// `None` at the end of the input, or the error that stopped it. The result
/// is what the events read from the stream make of a fresh packet, whatever
/// they were.
pub fn parse_xml<B: std::io::BufRead>(xml_reader: &mut quick_xml::Reader<B>, filters: &[String]) -> (r: Result<Option<Packet>, DecodeError>)
    ensures
        r matches Ok(Some(p)) ==> p@.wf(),
        r != Err::<Option<Packet>, DecodeError>(DecodeError::NoLayer),
        exists|evs: Seq<XmlEvent>|
            run(initial(), evs, texts(filters@)) == StepV::Done(outcome_view(r)) || (r
                == Err::<Option<Packet>, DecodeError>(DecodeError::EventLimit) && evs.len()
                == EVENT_LIMIT && run(initial(), evs, texts(filters@)) is More),
{
    let mut buf: Vec<u8> = Vec::new();
    let mut decoder = Decoder::new();
    let ghost mut evs: Seq<XmlEvent> = Seq::empty();
    let mut budget: u64 = EVENT_LIMIT;
    while budget > 0
        invariant
            run(initial(), evs, texts(filters@)) == StepV::More(decoder@),
            decoder@.packet.wf(),
            context_has_layer(decoder@),
            evs.len() + budget == EVENT_LIMIT,
        decreases budget,
    {
        buf.clear();
        let ev = read_event(xml_reader, &mut buf);
        proof {
            lemma_run_push(initial(), evs, ev, texts(filters@));
            lemma_step_keeps_wf(decoder@, ev, texts(filters@));
            evs = evs.push(ev);
        }
        match decoder.feed(&ev, filters) {
            Fed::More(d) => decoder = d,
            Fed::Done(r) => return r,
        }
        budget = budget - 1;
    }
    Err(DecodeError::EventLimit)
}

} // verus!
