//! The decoded tree: a packet is a stack of layers, a layer an ordered list of
//! fields.

use vstd::prelude::*;
use vstd::utf8::encode_utf8;

verus! {

/// The text of an optional string.
pub open spec fn opt_text(o: Option<String>) -> Option<Seq<char>> {
    match o {
        Some(s) => Some(s@),
        None => None,
    }
}

/// What a [`Metadata`] holds.
pub ghost struct MetadataV {
    pub name: Seq<char>,
    pub value: Seq<char>,
    pub raw_value: Option<Seq<char>>,
    pub display: Option<Seq<char>>,
    pub size: Option<u32>,
    pub position: Option<u32>,
}

impl MetadataV {
    /// The raw value as read back: the stored one, or else the value itself.
    pub open spec fn raw(self) -> Seq<char> {
        match self.raw_value {
            Some(r) => r,
            None => self.value,
        }
    }
}

/// One field of a layer (example: the IP source address).
#[derive(Default, Clone, Debug, PartialEq)]
pub struct Metadata {
    name: String,
    value: String,
    raw_value: Option<String>,
    display: Option<String>,
    size: Option<u32>,
    position: Option<u32>,
}

impl View for Metadata {
    type V = MetadataV;

    closed spec fn view(&self) -> MetadataV {
        MetadataV {
            name: self.name@,
            value: self.value@,
            raw_value: opt_text(self.raw_value),
            display: opt_text(self.display),
            size: self.size,
            position: self.position,
        }
    }
}

impl Metadata {
    /// Creates a field with no raw value of its own.
    pub fn new(
        name: String,
        value: String,
        display: Option<String>,
        size: Option<u32>,
        position: Option<u32>,
    ) -> (r: Metadata)
        ensures
            r@ == (MetadataV {
                name: name@,
                value: value@,
                raw_value: None,
                display: opt_text(display),
                size,
                position,
            }),
    {
        Metadata { name, value, raw_value: None, display, size, position }
    }

    /// Creates a field whose raw value is kept apart from its value.
    pub fn with_raw_value(
        name: String,
        value: String,
        raw_value: String,
        display: Option<String>,
        size: Option<u32>,
        position: Option<u32>,
    ) -> (r: Metadata)
        ensures
            r@ == (MetadataV {
                name: name@,
                value: value@,
                raw_value: Some(raw_value@),
                display: opt_text(display),
                size,
                position,
            }),
    {
        Metadata { name, value, raw_value: Some(raw_value), display, size, position }
    }

    /// The field's dotted name (example: `ip.src`).
    pub fn name(&self) -> (r: &str)
        ensures
            r@ == self@.name,
    {
        self.name.as_str()
    }

    /// The field's value in its most readable form.
    pub fn value(&self) -> (r: &str)
        ensures
            r@ == self@.value,
    {
        self.value.as_str()
    }

    /// The underlying machine value, which reads as the value when none was kept.
    pub fn raw_value(&self) -> (r: &str)
        ensures
            r@ == self@.raw(),
    {
        match &self.raw_value {
            Some(raw) => raw.as_str(),
            None => self.value.as_str(),
        }
    }

    /// Name and value together, as the analyzer labels them.
    pub fn display(&self) -> (r: Option<&str>)
        ensures
            match r {
                Some(d) => self@.display == Some(d@),
                None => self@.display is None,
            },
    {
        match &self.display {
            Some(d) => Some(d.as_str()),
            None => None,
        }
    }

    /// Size of the field in the packet, in bytes.
    pub fn size(&self) -> (r: Option<u32>)
        ensures
            r == self@.size,
    {
        self.size
    }

    /// Offset of the field in the packet, in bytes.
    pub fn position(&self) -> (r: Option<u32>)
        ensures
            r == self@.position,
    {
        self.position
    }
}


/// What a [`Layer`] holds.
pub ghost struct LayerV {
    pub name: Seq<char>,
    pub index: nat,
    pub metadata: Seq<MetadataV>,
}

/// `i` is the position of the first field named `name`.
pub open spec fn is_first_field(fields: Seq<MetadataV>, name: Seq<char>, i: int) -> bool {
    &&& 0 <= i < fields.len()
    &&& fields[i].name == name
    &&& forall|j: int| 0 <= j < i ==> fields[j].name != name
}

/// One protocol occurrence in a packet (example: the IP layer).
#[derive(Default, Clone, Debug, PartialEq)]
pub struct Layer {
    name: String,
    index: usize,
    metadata: Vec<Metadata>,
}

impl View for Layer {
    type V = LayerV;

    closed spec fn view(&self) -> LayerV {
        LayerV {
            name: self.name@,
            index: self.index as nat,
            metadata: self.metadata@.map_values(|m: Metadata| m@),
        }
    }
}

impl Layer {
    /// Creates a layer with no fields.
    pub fn new(name: String, index: usize) -> (r: Self)
        ensures
            r@ == (LayerV { name: name@, index: index as nat, metadata: Seq::empty() }),
    {
        let r = Layer { name, index, metadata: Vec::new() };
        assert(r@.metadata =~= Seq::empty());
        r
    }

    /// The protocol's name.
    pub fn name(&self) -> (r: &str)
        ensures
            r@ == self@.name,
    {
        self.name.as_str()
    }

    /// The position of this layer in its packet's stack.
    pub fn index(&self) -> (r: usize)
        ensures
            r as nat == self@.index,
    {
        self.index
    }

    /// Appends a field.
    pub fn add(&mut self, metadata: Metadata)
        ensures
            final(self)@ == (LayerV { metadata: old(self)@.metadata.push(metadata@), ..old(self)@ }),
    {
        self.metadata.push(metadata);
        assert(self@.metadata =~= old(self)@.metadata.push(metadata@));
    }

    /// The first field with the given name.
    pub fn metadata(&self, name: &str) -> (r: Option<&Metadata>)
        ensures
            match r {
                Some(m) => exists|i: int|
                    is_first_field(self@.metadata, name@, i) && m@ == #[trigger] self@.metadata[i],
                None => forall|i: int| 0 <= i < self@.metadata.len() ==> self@.metadata[i].name != name@,
            },
    {
        let mut i: usize = 0;
        while i < self.metadata.len()
            invariant
                i <= self.metadata.len(),
                forall|j: int| 0 <= j < i ==> self@.metadata[j].name != name@,
            decreases self.metadata.len() - i,
        {
            if same_text(self.metadata[i].name.as_str(), name) {
                assert(is_first_field(self@.metadata, name@, i as int));
                return Some(&self.metadata[i]);
            }
            i = i + 1;
        }
        None
    }

    /// The layer's fields, in order.
    pub fn iter(&self) -> (r: std::slice::Iter<'_, Metadata>)
        ensures
            vstd::std_specs::slice::into_iter_elts(r).map_values(|m: Metadata| m@) == self@.metadata,
    {
        self.metadata.iter()
    }
}

impl IntoIterator for Layer {
    type Item = Metadata;
    type IntoIter = std::vec::IntoIter<Metadata>;

    /// The layer's fields, in order, handed over.
    fn into_iter(self) -> (r: Self::IntoIter)
        ensures
            vstd::std_specs::vec::into_iter_elts(r).map_values(|m: Metadata| m@) == self@.metadata,
    {
        self.metadata.into_iter()
    }
}

/// What a [`Packet`] holds.
pub ghost struct PacketV {
    pub layers: Seq<LayerV>,
    pub timestamp_micros: Option<i64>,
}

impl PacketV {
    /// Each layer knows its own position in the stack.
    pub open spec fn wf(self) -> bool {
        forall|i: int| 0 <= i < self.layers.len() ==> (#[trigger] self.layers[i]).index == i
    }

    /// The packet with one more, empty, layer on top.
    pub open spec fn push_layer(self, name: Seq<char>) -> PacketV {
        PacketV {
            layers: self.layers.push(
                LayerV { name, index: self.layers.len(), metadata: Seq::empty() },
            ),
            ..self
        }
    }

    /// The packet with a layer of that name on top, pushed only where the top
    /// layer has another name or there is none.
    pub open spec fn push_layer_if_absent(self, name: Seq<char>) -> PacketV {
        if self.layers.len() > 0 && self.layers.last().name == name {
            self
        } else {
            self.push_layer(name)
        }
    }

    /// The packet with a field appended to its top layer.
    pub open spec fn add_to_last(self, m: MetadataV) -> PacketV
        recommends
            self.layers.len() > 0,
    {
        let last = self.layers.last();
        PacketV {
            layers: self.layers.update(
                self.layers.len() - 1,
                LayerV { metadata: last.metadata.push(m), ..last },
            ),
            ..self
        }
    }
}

/// `i` is the position of the first layer named `name`.
pub open spec fn is_first_layer(layers: Seq<LayerV>, name: Seq<char>, i: int) -> bool {
    &&& 0 <= i < layers.len()
    &&& layers[i].name == name
    &&& forall|j: int| 0 <= j < i ==> layers[j].name != name
}

/// A network packet: its stack of layers, outermost first, and its capture time.
#[derive(Default, Clone, Debug, PartialEq)]
pub struct Packet {
    layers: Vec<Layer>,
    timestamp_micros: Option<i64>,
}

impl View for Packet {
    type V = PacketV;

    closed spec fn view(&self) -> PacketV {
        PacketV {
            layers: self.layers@.map_values(|l: Layer| l@),
            timestamp_micros: self.timestamp_micros,
        }
    }
}

impl Packet {
    /// Creates a packet with no layers and no capture time.
    pub fn new() -> (r: Self)
        ensures
            r@ == (PacketV { layers: Seq::empty(), timestamp_micros: None }),
            r@.wf(),
    {
        let r = Packet { layers: Vec::new(), timestamp_micros: None };
        assert(r@.layers =~= Seq::empty());
        r
    }

    /// The capture time, in microseconds since the Unix epoch (UTC).
    pub fn timestamp_micros(&self) -> (r: Option<i64>)
        ensures
            r == self@.timestamp_micros,
    {
        self.timestamp_micros
    }

    /// Sets the capture time.
    pub(crate) fn set_timestamp_micros(&mut self, micros: i64)
        ensures
            final(self)@ == (PacketV { timestamp_micros: Some(micros), ..old(self)@ }),
    {
        self.timestamp_micros = Some(micros);
    }

    /// Pushes a new, empty, layer on top of the stack.
    pub fn push(&mut self, name: String)
        ensures
            final(self)@ == old(self)@.push_layer(name@),
            old(self)@.wf() ==> final(self)@.wf(),
    {
        let layer = Layer::new(name, self.layers.len());
        self.layers.push(layer);
        assert(self@.layers =~= old(self)@.push_layer(name@).layers);
    }

    /// Pushes a new layer unless the top layer already has that name.
    pub fn push_if_not_exist(&mut self, name: String)
        ensures
            final(self)@ == old(self)@.push_layer_if_absent(name@),
            old(self)@.wf() ==> final(self)@.wf(),
    {
        let n = self.layers.len();
        if n > 0 && self.layers[n - 1].name == name {
            return;
        }
        self.push(name);
    }

    /// The name of the top layer, if any.
    pub(crate) fn last_layer_name(&self) -> (r: Option<&String>)
        ensures
            match r {
                Some(n) => self@.layers.len() > 0 && n@ == self@.layers.last().name,
                None => self@.layers.len() == 0,
            },
    {
        let n = self.layers.len();
        if n == 0 {
            None
        } else {
            Some(&self.layers[n - 1].name)
        }
    }

    /// Appends a field to the top layer.
    pub(crate) fn add_to_last_layer(&mut self, metadata: Metadata)
        requires
            old(self)@.layers.len() > 0,
        ensures
            final(self)@ == old(self)@.add_to_last(metadata@),
            old(self)@.wf() ==> final(self)@.wf(),
    {
        let mut last = self.layers.pop().unwrap();
        last.add(metadata);
        self.layers.push(last);
        assert(self@.layers =~= old(self)@.add_to_last(metadata@).layers);
    }

    /// The layer at the given position of the stack.
    pub fn layer_index(&self, index: usize) -> (r: Option<&Layer>)
        ensures
            match r {
                Some(l) => index < self@.layers.len() && l@ == self@.layers[index as int],
                None => index >= self@.layers.len(),
            },
    {
        if index < self.layers.len() {
            Some(&self.layers[index])
        } else {
            None
        }
    }

    /// The lowest layer with the given name.
    pub fn layer_name(&self, name: &str) -> (r: Option<&Layer>)
        ensures
            match r {
                Some(l) => exists|i: int|
                    is_first_layer(self@.layers, name@, i) && l@ == #[trigger] self@.layers[i],
                None => forall|i: int| 0 <= i < self@.layers.len() ==> self@.layers[i].name != name@,
            },
    {
        let mut i: usize = 0;
        while i < self.layers.len()
            invariant
                i <= self.layers.len(),
                forall|j: int| 0 <= j < i ==> self@.layers[j].name != name@,
            decreases self.layers.len() - i,
        {
            if same_text(self.layers[i].name.as_str(), name) {
                assert(is_first_layer(self@.layers, name@, i as int));
                return Some(&self.layers[i]);
            }
            i = i + 1;
        }
        None
    }

    /// The number of layers.
    pub fn layer_count(&self) -> (r: usize)
        ensures
            r == self@.layers.len(),
    {
        self.layers.len()
    }

    /// The layers, outermost first.
    pub fn iter(&self) -> (r: std::slice::Iter<'_, Layer>)
        ensures
            vstd::std_specs::slice::into_iter_elts(r).map_values(|l: Layer| l@) == self@.layers,
    {
        self.layers.iter()
    }
}

impl IntoIterator for Packet {
    type Item = Layer;
    type IntoIter = std::vec::IntoIter<Layer>;

    /// The layers, outermost first, handed over.
    fn into_iter(self) -> (r: Self::IntoIter)
        ensures
            vstd::std_specs::vec::into_iter_elts(r).map_values(|l: Layer| l@) == self@.layers,
    {
        self.layers.into_iter()
    }
}

/// Whether two texts are equal, by their UTF-8 encodings.
pub fn same_text(a: &str, b: &str) -> (r: bool)
    ensures
        r == (a@ == b@),
{
    let x = a.as_bytes();
    let y = b.as_bytes();
    proof {
        vstd::utf8::encode_utf8_decode_utf8(a@);
        vstd::utf8::encode_utf8_decode_utf8(b@);
    }
    if x.len() != y.len() {
        return false;
    }
    let mut i: usize = 0;
    while i < x.len()
        invariant
            x@ == encode_utf8(a@),
            y@ == encode_utf8(b@),
            x@.len() == y@.len(),
            i <= x@.len(),
            forall|j: int| 0 <= j < i ==> x@[j] == y@[j],
        decreases x@.len() - i,
    {
        if x[i] != y[i] {
            assert(x@[i as int] != y@[i as int]);
            return false;
        }
        i = i + 1;
    }
    assert(x@ =~= y@);
    true
}

} // verus!
