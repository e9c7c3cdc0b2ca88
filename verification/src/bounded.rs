//! Fixed-capacity lists that hold the records of one request.

use vstd::prelude::*;

use crate::bdb::tables::Entries;
use crate::bdb::types::BindingEntry;
use crate::bdb::types::MAX_BINDING_TABLE_ENTRIES;
use crate::bdb::types::ZDO_RESPONSE_PAYLOAD_CAPACITY;
use crate::context::ConfigureReportingRecord;

verus! {

/// Declares `heapless::Vec`.
#[verifier::external_type_specification]
#[verifier::external_body]
#[verifier::reject_recursive_types(T)]
pub struct ExHeaplessVec<T, const N: usize>(heapless::Vec<T, N>);

/// The items of a list of failed writes, in order.
pub uninterp spec fn write_failure_items(list: heapless::Vec<(u16, u8), 16>) -> Seq<(u16, u8)>;

/// `heapless::Vec::new`: the new list is empty.
#[verifier::external_body]
pub(crate) fn write_failures() -> (list: heapless::Vec<(u16, u8), 16>)
    ensures
        write_failure_items(list) == Seq::<(u16, u8)>::empty(),
{
    heapless::Vec::new()
}

/// `heapless::Vec::push`: appends the item, or leaves the list as it was and
/// fails where it already holds sixteen.
#[verifier::external_body]
pub(crate) fn push_write_failure(
    list: &mut heapless::Vec<(u16, u8), 16>,
    item: (u16, u8),
) -> (r: Result<(), (u16, u8)>)
    ensures
        (r is Ok) == (write_failure_items(*old(list)).len() < 16),
        r is Ok ==> write_failure_items(*final(list)) == write_failure_items(*old(list)).push(item),
        r is Err ==> write_failure_items(*final(list)) == write_failure_items(*old(list)),
{
    list.push(item)
}

/// `heapless::Vec::as_slice`: the items, in order.
#[verifier::external_body]
pub(crate) fn write_failure_slice(list: &heapless::Vec<(u16, u8), 16>) -> (items: &[(u16, u8)])
    ensures
        items@ == write_failure_items(*list),
{
    list.as_slice()
}

/// The items of a list of refused reporting records, in order.
pub uninterp spec fn reporting_failure_items(list: heapless::Vec<(u8, u16, u8), 16>) -> Seq<(u8, u16, u8)>;

/// `heapless::Vec::new`: the new list is empty.
#[verifier::external_body]
pub(crate) fn reporting_failures() -> (list: heapless::Vec<(u8, u16, u8), 16>)
    ensures
        reporting_failure_items(list) == Seq::<(u8, u16, u8)>::empty(),
{
    heapless::Vec::new()
}

/// `heapless::Vec::push`: appends the item, or leaves the list as it was and
/// fails where it already holds sixteen.
#[verifier::external_body]
pub(crate) fn push_reporting_failure(
    list: &mut heapless::Vec<(u8, u16, u8), 16>,
    item: (u8, u16, u8),
) -> (r: Result<(), (u8, u16, u8)>)
    ensures
        (r is Ok) == (reporting_failure_items(*old(list)).len() < 16),
        r is Ok ==> reporting_failure_items(*final(list)) == reporting_failure_items(*old(list)).push(item),
        r is Err ==> reporting_failure_items(*final(list)) == reporting_failure_items(*old(list)),
{
    list.push(item)
}

/// `heapless::Vec::as_slice`: the items, in order.
#[verifier::external_body]
pub(crate) fn reporting_failure_slice(list: &heapless::Vec<(u8, u16, u8), 16>) -> (items: &[(
    u8,
    u16,
    u8,
)])
    ensures
        items@ == reporting_failure_items(*list),
{
    list.as_slice()
}

/// The items of a list of parsed reporting records, in order.
pub uninterp spec fn reporting_record_items(list: heapless::Vec<ConfigureReportingRecord<'_>, 16>) -> Seq<ConfigureReportingRecord<'_>>;

/// `heapless::Vec::new`: the new list is empty.
#[verifier::external_body]
pub(crate) fn reporting_records<'a>() -> (list: heapless::Vec<ConfigureReportingRecord<'a>, 16>)
    ensures
        reporting_record_items(list) == Seq::<ConfigureReportingRecord<'a>>::empty(),
{
    heapless::Vec::new()
}

/// `heapless::Vec::push`: appends the item, or leaves the list as it was and
/// fails where it already holds sixteen.
#[verifier::external_body]
pub(crate) fn push_reporting_record<'a>(
    list: &mut heapless::Vec<ConfigureReportingRecord<'a>, 16>,
    item: ConfigureReportingRecord<'a>,
) -> (r: Result<(), ConfigureReportingRecord<'a>>)
    ensures
        (r is Ok) == (reporting_record_items(*old(list)).len() < 16),
        r is Ok ==> reporting_record_items(*final(list)) == reporting_record_items(*old(list)).push(item),
        r is Err ==> reporting_record_items(*final(list)) == reporting_record_items(*old(list)),
{
    list.push(item)
}

/// `heapless::Vec::as_slice`: the items, in order.
#[verifier::external_body]
pub(crate) fn reporting_record_slice<'l, 'a>(
    list: &'l heapless::Vec<ConfigureReportingRecord<'a>, 16>,
) -> (items: &'l [ConfigureReportingRecord<'a>])
    ensures
        items@ == reporting_record_items(*list),
{
    list.as_slice()
}

/// The items of a list of bindings, in order.
pub uninterp spec fn binding_items(list: heapless::Vec<BindingEntry, MAX_BINDING_TABLE_ENTRIES>) -> Seq<BindingEntry>;

/// `heapless::Vec::new`: the new list is empty.
#[verifier::external_body]
pub(crate) fn no_bindings() -> (list: heapless::Vec<BindingEntry, MAX_BINDING_TABLE_ENTRIES>)
    ensures
        binding_items(list) == Seq::<BindingEntry>::empty(),
{
    heapless::Vec::new()
}

/// `heapless::Vec::push`: appends the item, or leaves the list as it was and
/// fails where it is full.
#[verifier::external_body]
pub(crate) fn push_binding(
    list: &mut heapless::Vec<BindingEntry, MAX_BINDING_TABLE_ENTRIES>,
    item: BindingEntry,
) -> (r: Result<(), BindingEntry>)
    ensures
        (r is Ok) == (binding_items(*old(list)).len() < MAX_BINDING_TABLE_ENTRIES),
        r is Ok ==> binding_items(*final(list)) == binding_items(*old(list)).push(item),
        r is Err ==> binding_items(*final(list)) == binding_items(*old(list)),
{
    list.push(item)
}

/// Whether two bindings differ.
fn bindings_differ(a: &BindingEntry, b: &BindingEntry) -> (differ: bool)
    ensures
        differ == (*a != *b),
{
    *a != *b
}

/// `heapless::Vec::retain`: keeps the items that the predicate accepts, here those
/// other than `item`, in their order.
#[verifier::external_body]
pub(crate) fn drop_binding(
    list: &mut heapless::Vec<BindingEntry, MAX_BINDING_TABLE_ENTRIES>,
    item: &BindingEntry,
)
    ensures
        binding_items(*final(list)) == binding_items(*old(list)).filter(
            Entries::other_than(*item),
        ),
{
    list.retain(|e| bindings_differ(e, item))
}

/// `heapless::Vec::as_slice`: the items, in order.
#[verifier::external_body]
pub(crate) fn binding_slice(list: &heapless::Vec<BindingEntry, MAX_BINDING_TABLE_ENTRIES>) -> (items:
    &[BindingEntry])
    ensures
        items@ == binding_items(*list),
{
    list.as_slice()
}

/// The bytes of a response payload, in order.
pub uninterp spec fn payload_bytes(list: heapless::Vec<u8, ZDO_RESPONSE_PAYLOAD_CAPACITY>) -> Seq<u8>;

/// `heapless::Vec::new`: the new list is empty.
#[verifier::external_body]
pub(crate) fn no_payload() -> (list: heapless::Vec<u8, ZDO_RESPONSE_PAYLOAD_CAPACITY>)
    ensures
        payload_bytes(list) == Seq::<u8>::empty(),
{
    heapless::Vec::new()
}

/// `heapless::Vec::extend_from_slice`: appends all the bytes, or leaves the list as
/// it was and fails where they do not fit.
#[verifier::external_body]
pub(crate) fn extend_payload(
    list: &mut heapless::Vec<u8, ZDO_RESPONSE_PAYLOAD_CAPACITY>,
    bytes: &[u8],
) -> (r: Result<(), ()>)
    ensures
        (r is Ok) == (payload_bytes(*old(list)).len() + bytes@.len()
            <= ZDO_RESPONSE_PAYLOAD_CAPACITY),
        r is Ok ==> payload_bytes(*final(list)) == payload_bytes(*old(list)) + bytes@,
        r is Err ==> payload_bytes(*final(list)) == payload_bytes(*old(list)),
{
    list.extend_from_slice(bytes)
}

} // verus!
