//! Which graphics device and which of its memory is used.

use crate::bytes::same;
use vstd::prelude::*;

verus! {

/// The flag of a queue that draws.
pub const QUEUE_GRAPHICS: u32 = 1;

/// The most kinds of memory of a device.
pub const MAX_MEMORY_TYPES: usize = 32;

/// One of the queue families of a device.
#[derive(Clone, Copy, Debug, PartialEq, Eq)]
pub struct QueueFamily {
    pub queue_flags: u32,
    /// Whether it can show images on the surface; nothing where the question
    /// failed.
    pub presentation: Option<bool>,
}

/// A question to the device failed.
#[derive(Clone, Copy, Debug, PartialEq, Eq, Structural)]
pub struct QueryFailed;

/// One of `names` is `name`.
pub open spec fn has_name(names: Seq<Vec<u8>>, name: Seq<u8>) -> bool {
    exists|i: int| 0 <= i < names.len() && (#[trigger] names[i])@ == name
}

/// All `required` names are among `names`.
pub open spec fn has_all(names: Seq<Vec<u8>>, required: Seq<Vec<u8>>) -> bool {
    forall|i: int| 0 <= i < required.len() ==> has_name(names, (#[trigger] required[i])@)
}

fn find_name(names: &Vec<Vec<u8>>, name: &Vec<u8>) -> (found: bool)
    ensures
        found == has_name(names@, name@),
{
    let mut index: usize = 0;
    while index < names.len()
        invariant
            index <= names@.len(),
            forall|i: int| 0 <= i < index ==> (#[trigger] names@[i])@ != name@,
        decreases names@.len() - index,
    {
        if same(names[index].as_slice(), name.as_slice()) {
            assert(names@[index as int]@ == name@);
            return true;
        }
        index = index + 1;
    }
    false
}

/// Whether a device knows all extensions that are needed.
pub fn supports_extensions(extensions: &Vec<Vec<u8>>, required: &Vec<Vec<u8>>) -> (supports: bool)
    ensures
        supports == has_all(extensions@, required@),
{
    let mut index: usize = 0;
    while index < required.len()
        invariant
            index <= required@.len(),
            forall|i: int| 0 <= i < index ==> has_name(extensions@, (#[trigger] required@[i])@),
        decreases required@.len() - index,
    {
        if !find_name(extensions, &required[index]) {
            assert(!has_name(extensions@, required@[index as int]@));
            return false;
        }
        index = index + 1;
    }
    true
}

pub open spec fn draws_and_presents(family: QueueFamily) -> bool {
    family.queue_flags % 2 == QUEUE_GRAPHICS && family.presentation == Some(true)
}

/// The first family from `start` on that draws and presents, unless a question
/// about one before it failed.
pub open spec fn first_family(families: Seq<QueueFamily>, start: int) -> Result<
    Option<u32>,
    QueryFailed,
>
    decreases families.len() - start,
{
    if start >= families.len() {
        Ok(None)
    } else if families[start].presentation is None {
        Err(QueryFailed)
    } else if draws_and_presents(families[start]) {
        Ok(Some(start as u32))
    } else {
        first_family(families, start + 1)
    }
}

/// The queue family that a device with these extensions is used with, or none where
/// it cannot be used.
pub fn select_family(
    extensions: &Vec<Vec<u8>>,
    required: &Vec<Vec<u8>>,
    families: &[QueueFamily],
) -> (family: Result<Option<u32>, QueryFailed>)
    requires
        families@.len() <= u32::MAX,
    ensures
        family == if has_all(extensions@, required@) {
            first_family(families@, 0)
        } else {
            Ok(None)
        },
{
    if !supports_extensions(extensions, required) {
        return Ok(None);
    }
    let mut index: usize = 0;
    while index < families.len()
        invariant
            index <= families@.len() <= u32::MAX,
            has_all(extensions@, required@),
            first_family(families@, 0) == first_family(families@, index as int),
        decreases families@.len() - index,
    {
        let family: QueueFamily = families[index];
        match family.presentation {
            None => return Err(QueryFailed),
            Some(presentation) => {
                if family.queue_flags % 2 == QUEUE_GRAPHICS && presentation {
                    return Ok(Some(index as u32));
                }
            },
        }
        index = index + 1;
    }
    Ok(None)
}

/// The first family that draws.
pub open spec fn first_drawing(flags: Seq<u32>, start: int) -> Option<u32>
    decreases flags.len() - start,
{
    if start >= flags.len() {
        None
    } else if flags[start] % 2 == QUEUE_GRAPHICS {
        Some(start as u32)
    } else {
        first_drawing(flags, start + 1)
    }
}

pub fn select_drawing_family(flags: &[u32]) -> (family: Option<u32>)
    requires
        flags@.len() <= u32::MAX,
    ensures
        family == first_drawing(flags@, 0),
{
    let mut index: usize = 0;
    while index < flags.len()
        invariant
            index <= flags@.len() <= u32::MAX,
            first_drawing(flags@, 0) == first_drawing(flags@, index as int),
        decreases flags@.len() - index,
    {
        if flags[index] % 2 == QUEUE_GRAPHICS {
            return Some(index as u32);
        }
        index = index + 1;
    }
    None
}

/// The bit of a kind of memory is set.
pub open spec fn is_allowed(allowed: u32, index: int) -> bool {
    allowed & (1u32 << index as u32) != 0
}

/// A kind of memory has all properties that are needed.
pub open spec fn has_properties(flags: u32, required: u32) -> bool {
    flags & required == required
}

/// A kind of memory can be used.
pub open spec fn is_suitable(flags: Seq<u32>, allowed: u32, required: u32, index: int) -> bool {
    is_allowed(allowed, index) && has_properties(flags[index], required)
}

/// The first kind of memory that may be used and has the properties that are
/// needed.
pub fn memory_type(flags: &[u32], allowed: u32, required: u32) -> (found: Option<u32>)
    requires
        flags@.len() <= MAX_MEMORY_TYPES,
    ensures
        match found {
            Some(found) => {
                &&& found < flags@.len()
                &&& is_suitable(flags@, allowed, required, found as int)
                &&& forall|i: int|
                    0 <= i < found ==> !#[trigger] is_suitable(flags@, allowed, required, i)
            },
            None => forall|i: int|
                0 <= i < flags@.len() ==> !#[trigger] is_suitable(flags@, allowed, required, i),
        },
{
    let mut index: usize = 0;
    while index < flags.len()
        invariant
            index <= flags@.len() <= MAX_MEMORY_TYPES,
            forall|i: int|
                0 <= i < index ==> !#[trigger] is_suitable(flags@, allowed, required, i),
        decreases flags@.len() - index,
    {
        let place: u32 = index as u32;
        if allowed & (1u32 << place) != 0 && flags[index] & required == required {
            return Some(place);
        }
        assert(!is_suitable(flags@, allowed, required, index as int));
        index = index + 1;
    }
    None
}

/// The first kind of memory that both a file and an image may use.
pub fn import_memory_type(count: u32, file_bits: u32, image_bits: u32) -> (found: Option<u32>)
    requires
        count <= MAX_MEMORY_TYPES,
    ensures
        match found {
            Some(found) => {
                &&& found < count
                &&& is_allowed(file_bits & image_bits, found as int)
                &&& forall|i: int|
                    0 <= i < found ==> !#[trigger] is_allowed(file_bits & image_bits, i)
            },
            None => forall|i: int|
                0 <= i < count ==> !#[trigger] is_allowed(file_bits & image_bits, i),
        },
{
    let bits: u32 = file_bits & image_bits;
    let mut index: u32 = 0;
    while index < count
        invariant
            index <= count <= MAX_MEMORY_TYPES,
            bits == file_bits & image_bits,
            forall|i: int| 0 <= i < index ==> !#[trigger] is_allowed(bits, i),
        decreases count - index,
    {
        if bits & (1u32 << index) != 0 {
            assert(is_allowed(bits, index as int));
            return Some(index);
        }
        assert(!is_allowed(bits, index as int));
        index = index + 1;
    }
    None
}

/// The family that is taken is the first that draws and presents, and the
/// search fails at one that could not be asked before it.
pub proof fn law_first_family_that_draws_and_presents(families: Seq<QueueFamily>, start: int)
    requires
        0 <= start,
        families.len() <= u32::MAX,
    ensures
        match first_family(families, start) {
            Ok(Some(found)) => {
                &&& start <= found < families.len()
                &&& families[found as int].queue_flags % 2 == 1
                &&& families[found as int].presentation == Some(true)
                &&& forall|i: int|
                    start <= i < found ==> (#[trigger] families[i]).presentation is Some && !(
                    families[i].queue_flags % 2 == 1 && families[i].presentation == Some(true))
            },
            Ok(None) => forall|i: int|
                start <= i < families.len() ==> (#[trigger] families[i]).presentation is Some && !(
                families[i].queue_flags % 2 == 1 && families[i].presentation == Some(true)),
            Err(_) => exists|i: int|
                start <= i < families.len() && (#[trigger] families[i]).presentation is None,
        },
    decreases families.len() - start,
{
    if start < families.len() && families[start].presentation is Some && !draws_and_presents(
        families[start],
    ) {
        law_first_family_that_draws_and_presents(families, start + 1);
    } else if start < families.len() {
        assert(families[start] == families[start]);
    }
}

/// The family that draws is the first of them.
pub proof fn law_first_family_that_draws(flags: Seq<u32>, start: int)
    requires
        0 <= start,
        flags.len() <= u32::MAX,
    ensures
        match first_drawing(flags, start) {
            Some(found) => {
                &&& start <= found < flags.len()
                &&& flags[found as int] % 2 == 1
                &&& forall|i: int| start <= i < found ==> #[trigger] flags[i] % 2 != 1
            },
            None => forall|i: int| start <= i < flags.len() ==> #[trigger] flags[i] % 2 != 1,
        },
    decreases flags.len() - start,
{
    if start < flags.len() && flags[start] % 2 != 1 {
        law_first_family_that_draws(flags, start + 1);
    }
}

/// Which kinds of memory are allowed, bit by bit, and when one has all
/// properties that are needed: where none of those is one that it lacks.
pub proof fn law_kinds_of_memory(allowed: u32, flags: u32, required: u32, index: u32)
    requires
        index < 32,
    ensures
        is_allowed(allowed, index as int) <==> (allowed >> index) & 1 == 1,
        has_properties(flags, required) <==> required & !flags == 0,
        has_properties(flags, required) && (required >> index) & 1 == 1 ==> (flags >> index) & 1
            == 1,
        has_properties(flags, 0),
{
    assert(allowed & (1u32 << index) != 0 <==> (allowed >> index) & 1 == 1) by (bit_vector)
        requires
            index < 32,
    ;
    assert(flags & required == required <==> required & !flags == 0) by (bit_vector);
    assert(flags & required == required && (required >> index) & 1 == 1 ==> (flags >> index) & 1
        == 1) by (bit_vector)
        requires
            index < 32,
    ;
    assert(flags & 0 == 0) by (bit_vector);
}

} // verus!
