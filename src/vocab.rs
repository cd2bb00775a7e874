//! The tag names, attribute keys and reserved names of the report format, as bytes.

use vstd::prelude::*;

verus! {

/// `proto`: the tag of a protocol.
pub open spec fn proto_tag() -> Seq<u8> {
    seq![112u8, 114, 111, 116, 111]
}

/// The bytes of [`proto_tag`].
pub(crate) fn proto_tag_bytes() -> (r: Vec<u8>)
    ensures
        r@ == proto_tag(),
{
    vec![112u8, 114, 111, 116, 111]
}

/// `field`: the tag of a field.
pub open spec fn field_tag() -> Seq<u8> {
    seq![102u8, 105, 101, 108, 100]
}

/// The bytes of [`field_tag`].
pub(crate) fn field_tag_bytes() -> (r: Vec<u8>)
    ensures
        r@ == field_tag(),
{
    vec![102u8, 105, 101, 108, 100]
}

/// `packet`: the tag of a packet.
pub open spec fn packet_tag() -> Seq<u8> {
    seq![112u8, 97, 99, 107, 101, 116]
}

/// The bytes of [`packet_tag`].
pub(crate) fn packet_tag_bytes() -> (r: Vec<u8>)
    ensures
        r@ == packet_tag(),
{
    vec![112u8, 97, 99, 107, 101, 116]
}

/// `name`: the attribute that names a protocol or a field.
pub open spec fn name_key() -> Seq<u8> {
    seq![110u8, 97, 109, 101]
}

/// The bytes of [`name_key`].
pub(crate) fn name_key_bytes() -> (r: Vec<u8>)
    ensures
        r@ == name_key(),
{
    vec![110u8, 97, 109, 101]
}

/// `show`: the attribute with the readable value.
pub open spec fn show_key() -> Seq<u8> {
    seq![115u8, 104, 111, 119]
}

/// The bytes of [`show_key`].
pub(crate) fn show_key_bytes() -> (r: Vec<u8>)
    ensures
        r@ == show_key(),
{
    vec![115u8, 104, 111, 119]
}

/// `value`: the attribute with the machine value.
pub open spec fn value_key() -> Seq<u8> {
    seq![118u8, 97, 108, 117, 101]
}

/// The bytes of [`value_key`].
pub(crate) fn value_key_bytes() -> (r: Vec<u8>)
    ensures
        r@ == value_key(),
{
    vec![118u8, 97, 108, 117, 101]
}

/// `showname`: the attribute with name and value together.
pub open spec fn showname_key() -> Seq<u8> {
    seq![115u8, 104, 111, 119, 110, 97, 109, 101]
}

/// The bytes of [`showname_key`].
pub(crate) fn showname_key_bytes() -> (r: Vec<u8>)
    ensures
        r@ == showname_key(),
{
    vec![115u8, 104, 111, 119, 110, 97, 109, 101]
}

/// `pos`: the attribute with the offset in the packet.
pub open spec fn pos_key() -> Seq<u8> {
    seq![112u8, 111, 115]
}

/// The bytes of [`pos_key`].
pub(crate) fn pos_key_bytes() -> (r: Vec<u8>)
    ensures
        r@ == pos_key(),
{
    vec![112u8, 111, 115]
}

/// `size`: the attribute with the size in bytes.
pub open spec fn size_key() -> Seq<u8> {
    seq![115u8, 105, 122, 101]
}

/// The bytes of [`size_key`].
pub(crate) fn size_key_bytes() -> (r: Vec<u8>)
    ensures
        r@ == size_key(),
{
    vec![115u8, 105, 122, 101]
}

/// `geninfo`: the bookkeeping protocol with general information.
pub open spec fn geninfo_name() -> Seq<u8> {
    seq![103u8, 101, 110, 105, 110, 102, 111]
}

/// The bytes of [`geninfo_name`].
pub(crate) fn geninfo_name_bytes() -> (r: Vec<u8>)
    ensures
        r@ == geninfo_name(),
{
    vec![103u8, 101, 110, 105, 110, 102, 111]
}

/// `fake-field-wrapper`: the bookkeeping protocol around fields that have none.
pub open spec fn fake_wrapper_name() -> Seq<u8> {
    seq![102u8, 97, 107, 101, 45, 102, 105, 101, 108, 100, 45, 119, 114, 97, 112, 112, 101, 114]
}

/// The bytes of [`fake_wrapper_name`].
pub(crate) fn fake_wrapper_name_bytes() -> (r: Vec<u8>)
    ensures
        r@ == fake_wrapper_name(),
{
    vec![102u8, 97, 107, 101, 45, 102, 105, 101, 108, 100, 45, 119, 114, 97, 112, 112, 101, 114]
}

/// `timestamp`: the general-information field with the capture time.
pub open spec fn timestamp_name() -> Seq<u8> {
    seq![116u8, 105, 109, 101, 115, 116, 97, 109, 112]
}

/// The bytes of [`timestamp_name`].
pub(crate) fn timestamp_name_bytes() -> (r: Vec<u8>)
    ensures
        r@ == timestamp_name(),
{
    vec![116u8, 105, 109, 101, 115, 116, 97, 109, 112]
}

/// `_ws.`: the prefix of the analyzer's own diagnostic fields.
pub open spec fn internal_prefix() -> Seq<u8> {
    seq![95u8, 119, 115, 46]
}

/// The bytes of [`internal_prefix`].
pub(crate) fn internal_prefix_bytes() -> (r: Vec<u8>)
    ensures
        r@ == internal_prefix(),
{
    vec![95u8, 119, 115, 46]
}

} // verus!
